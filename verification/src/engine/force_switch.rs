//! The manual switch-last hotkey: which layout it moves a word to, what it
//! types, and what it leaves behind for the next press.

use vstd::prelude::*;
use vstd::string::*;

use crate::engine::heuristics::{
    boundary_char_in_layout, boundary_key, boundary_key_for, is_submission_scancode, opt_names,
    submits,
};
use crate::engine::switcher::SwitcherEngine;
use crate::engine::types::{opt_name, Correction, LastWord, WordBoundaryKey};
use crate::keys::{plain_key, replay_keys_of, replay_of, ReplayKey, SC_SPACE};
use crate::layouts::{contains_id, names, row_names, LayoutDb, LayoutId};
use crate::order::{by_name, sort_ids};
use crate::text::push_char;
use crate::time::Instant;

verus! {

broadcast use vstd::string::group_string_axioms;

// ─── The ring of layouts ─────────────────────────────────────────────

/// What the OS has enabled, as far as the engine knows it.
pub open spec fn os_ring(layouts: LayoutDb, os_active: Option<Seq<Seq<char>>>) -> Seq<Seq<char>> {
    match os_active {
        Some(list) => list.filter(|id: Seq<char>| layouts.known(id)),
        None => Seq::empty(),
    }
}

/// The ring a force-switch moves along: the OS's own order where it has at
/// least two layouts and the current one among them, else every known
/// layout by name.
pub open spec fn ring_of(
    layouts: LayoutDb,
    os_active: Option<Seq<Seq<char>>>,
    current: Seq<char>,
) -> Seq<Seq<char>> {
    let ring = os_ring(layouts, os_active);
    if ring.len() < 2 || !ring.contains(current) {
        row_names(layouts.layouts@).sort_by(by_name())
    } else {
        ring
    }
}

/// The element after the first occurrence of `current`, wrapping; none
/// where that is `current` itself.
pub open spec fn next_in_ring(ring: Seq<Seq<char>>, current: Seq<char>) -> Option<Seq<char>> {
    match ring.index_of_first(current) {
        Some(i) => {
            let next = ring[(i + 1) % (ring.len() as int)];
            if next == current {
                None
            } else {
                Some(next)
            }
        },
        None => None,
    }
}

fn known_of(layouts: &LayoutDb, ids: &[LayoutId]) -> (ring: Vec<LayoutId>)
    ensures
        names(ring@) == names(ids@).filter(|id: Seq<char>| layouts.known(id)),
{
    let mut ring: Vec<LayoutId> = Vec::new();
    let mut i: usize = 0;
    let ghost p = |id: Seq<char>| layouts.known(id);
    proof {
        reveal(Seq::filter);
        assert(names(ring@) =~= names(ids@).take(0).filter(p));
    }
    while i < ids.len()
        invariant
            i <= ids.len(),
            p == (|id: Seq<char>| layouts.known(id)),
            names(ring@) == names(ids@).take(i as int).filter(p),
        decreases ids.len() - i,
    {
        let ghost before = names(ring@);
        proof {
            reveal(Seq::filter);
            assert(names(ids@).take(i + 1).drop_last() =~= names(ids@).take(i as int));
            assert(names(ids@).take(i + 1).last() == ids@[i as int]@);
        }
        if layouts.get(&ids[i]).is_some() {
            ring.push(ids[i].copy());
            assert(names(ring@) =~= before.push(ids@[i as int]@));
        }
        i += 1;
    }
    assert(names(ids@).take(names(ids@).len() as int) =~= names(ids@));
    ring
}

fn all_ids(layouts: &LayoutDb) -> (ids: Vec<LayoutId>)
    ensures
        names(ids@) == row_names(layouts.layouts@),
{
    let mut ids: Vec<LayoutId> = Vec::new();
    let mut i: usize = 0;
    while i < layouts.layouts.len()
        invariant
            i <= layouts.layouts.len(),
            ids@.len() == i,
            forall|j: int| 0 <= j < i ==> (#[trigger] ids@[j])@ == layouts.layouts@[j].0@,
        decreases layouts.layouts.len() - i,
    {
        ids.push(layouts.layouts[i].0.copy());
        i += 1;
    }
    assert(names(ids@) =~= row_names(layouts.layouts@));
    ids
}

/// The layout a force-switch moves a word to, given the one it reads in
/// now.
pub fn next_layout_after(
    layouts: &LayoutDb,
    os_active: Option<&[LayoutId]>,
    current: &LayoutId,
) -> (next: Option<LayoutId>)
    ensures
        opt_name(next) == next_in_ring(
            ring_of(*layouts, opt_names(os_active), current@),
            current@,
        ),
{
    let mut ring = match os_active {
        Some(ids) => known_of(layouts, ids),
        None => Vec::new(),
    };
    assert(names(ring@) =~= os_ring(*layouts, opt_names(os_active)));
    if ring.len() < 2 || !contains_id(ring.as_slice(), current) {
        ring = sort_ids(&all_ids(layouts));
    }
    let ghost r = names(ring@);
    let mut i: usize = 0;
    while i < ring.len()
        invariant
            i <= ring.len(),
            r == names(ring@),
            r == ring_of(*layouts, opt_names(os_active), current@),
            forall|j: int| 0 <= j < i ==> (#[trigger] r[j]) != current@,
        decreases ring.len() - i,
    {
        assert(r[i as int] == ring@[i as int]@);
        if ring[i].same(current) {
            proof {
                r.index_of_first_ensures(current@);
                assert(r.index_of_first(current@) == Some(i as int));
            }
            let at: usize = if i + 1 == ring.len() {
                0
            } else {
                i + 1
            };
            proof {
                if i + 1 == ring.len() {
                    assert((i + 1) % (r.len() as int) == 0) by (nonlinear_arith)
                        requires
                            i + 1 == r.len(),
                    ;
                } else {
                    vstd::arithmetic::div_mod::lemma_small_mod((i + 1) as nat, r.len());
                }
                assert(r[at as int] == ring@[at as int]@);
            }
            if ring[at].same(current) {
                return None;
            }
            return Some(ring[at].copy());
        }
        i += 1;
    }
    proof {
        r.index_of_first_ensures(current@);
    }
    None
}

/// The layout after `k` presses, starting from `current`.
pub open spec fn after_presses(ring: Seq<Seq<char>>, current: Seq<char>, k: nat) -> Option<Seq<char>>
    decreases k,
{
    if k == 0 {
        Some(current)
    } else {
        match after_presses(ring, current, (k - 1) as nat) {
            Some(x) => next_in_ring(ring, x),
            None => None,
        }
    }
}

/// Repeated presses go round the ring: every layout comes up in turn, and
/// after as many presses as there are layouts the word is back where it
/// started.
pub proof fn law_presses_go_round_the_ring(ring: Seq<Seq<char>>, start: int, k: nat)
    requires
        ring.no_duplicates(),
        ring.len() >= 2,
        0 <= start < ring.len(),
    ensures
        after_presses(ring, ring[start], k) == Some(ring[(start + k) % (ring.len() as int)]),
        after_presses(ring, ring[start], ring.len()) == Some(ring[start]),
{
    lemma_presses(ring, start, k);
    lemma_presses(ring, start, ring.len());
    let n = ring.len() as int;
    assert((start + n) % n == start) by {
        vstd::arithmetic::div_mod::lemma_mod_add_multiples_vanish(start, n);
        vstd::arithmetic::div_mod::lemma_small_mod(start as nat, n as nat);
    }
}

proof fn lemma_presses(ring: Seq<Seq<char>>, start: int, k: nat)
    requires
        ring.no_duplicates(),
        ring.len() >= 2,
        0 <= start < ring.len(),
    ensures
        after_presses(ring, ring[start], k) == Some(ring[(start + k) % (ring.len() as int)]),
    decreases k,
{
    let n = ring.len() as int;
    if k == 0 {
        vstd::arithmetic::div_mod::lemma_small_mod(start as nat, n as nat);
    } else {
        lemma_presses(ring, start, (k - 1) as nat);
        let i = (start + k - 1) % n;
        vstd::arithmetic::div_mod::lemma_mod_bound(start + k - 1, n);
        ring.index_of_first_ensures(ring[i]);
        let j = ring.index_of_first(ring[i])->0;
        assert(ring.contains(ring[i]));
        assert(i == j);
        assert((i + 1) % n == (start + k) % n) by {
            vstd::arithmetic::div_mod::lemma_add_mod_noop(start + k - 1, 1, n);
            vstd::arithmetic::div_mod::lemma_small_mod(1, n as nat);
        }
        vstd::arithmetic::div_mod::lemma_mod_bound(i + 1, n);
        assert((i + 1) % n != i) by {
            if i + 1 < n {
                vstd::arithmetic::div_mod::lemma_small_mod((i + 1) as nat, n as nat);
            } else {
                vstd::arithmetic::div_mod::lemma_mod_self_0(n);
            }
        }
    }
}

// ─── Switching a word ────────────────────────────────────────────────

/// The layout a word reads in now.
pub open spec fn reads_in(w: LastWord) -> Seq<char> {
    match w.corrected_to {
        Some(id) => id@,
        None => w.layout@,
    }
}

/// The engine moved the word and nobody has touched it since: a press is an
/// undo.
pub open spec fn is_undo(w: LastWord) -> bool {
    w.corrected_to is Some && !w.user_placed
}

/// Where a press moves the word: back where it was typed if the engine
/// moved it, else on along the ring. None where there is nowhere to go, or
/// the layout is not known.
pub open spec fn press_target(
    layouts: LayoutDb,
    os_active: Option<Seq<Seq<char>>>,
    w: LastWord,
) -> Option<Seq<char>> {
    let target = if is_undo(w) {
        Some(w.layout@)
    } else {
        next_in_ring(ring_of(layouts, os_active, reads_in(w)), reads_in(w))
    };
    match target {
        Some(t) => if layouts.known(t) {
            Some(t)
        } else {
            None
        },
        None => None,
    }
}

/// What is on screen: the word as typed, unless something moved it to a
/// layout the engine knows.
pub open spec fn on_screen(layouts: LayoutDb, w: LastWord) -> Seq<char> {
    if reads_in(w) == w.layout@ || !layouts.known(reads_in(w)) {
        w.rendered@
    } else {
        layouts.reads(reads_in(w), w.keys@)
    }
}

/// The key that puts the separator back. Enter and Tab become a space: a
/// second press would submit the line.
pub open spec fn separator_replay(layouts: LayoutDb, target: Seq<char>, b: WordBoundaryKey) -> (
    u32,
    bool,
) {
    if submits(b.scancode) {
        (0x39, false)
    } else {
        boundary_key(layouts, target, b.scancode, b.shift, b.ch)
    }
}

/// The correction that moves `w` to `target`.
pub open spec fn is_switch_of(
    c: Correction,
    layouts: LayoutDb,
    w: LastWord,
    target: Seq<char>,
    play_sound: bool,
) -> bool {
    &&& c.from@ == reads_in(w)
    &&& c.to@ == target
    &&& c.original@ == on_screen(layouts, w)
    &&& c.reason@ == if is_undo(w) {
        "manual switch-last hotkey (undoing a correction)"@
    } else {
        "manual switch-last hotkey"@
    }
    &&& c.play_sound == play_sound
    &&& c.pointer_click_allowance == 0
    &&& match w.boundary {
        Some(b) => {
            let key = separator_replay(layouts, target, b);
            &&& c.corrected@ == layouts.reads(target, w.keys@).push(b.ch)
            &&& c.backspaces == w.keys@.len() + 1
            &&& c.replay_keys matches Some(rk) && rk@ == replay_of(w.keys@).push(
                ReplayKey { scancode: key.0, shift: key.1 },
            )
        },
        None => {
            &&& c.corrected@ == layouts.reads(target, w.keys@)
            &&& c.backspaces == w.keys@.len()
            &&& c.replay_keys matches Some(rk) && rk@ == replay_of(w.keys@)
        },
    }
}

/// What is remembered of a word that a press moved to `target`.
pub open spec fn is_placed(w: LastWord, before: LastWord, target: Seq<char>) -> bool {
    &&& w.keys@ == before.keys@
    &&& w.rendered@ == before.rendered@
    &&& w.layout@ == before.layout@
    &&& w.boundary == before.boundary
    &&& opt_name(w.corrected_to) == if target != before.layout@ {
        Some(target)
    } else {
        None
    }
    &&& w.user_placed
}

impl SwitcherEngine {
    /// The correction a press of the manual hotkey asks for, if there is
    /// anywhere to move the word.
    pub fn force_switch_last(
        last: &LastWord,
        layouts: &LayoutDb,
        os_active: Option<&[LayoutId]>,
        play_sound: bool,
    ) -> (c: Option<Correction>)
        requires
            last.keys.len() < usize::MAX,
        ensures
            match press_target(*layouts, opt_names(os_active), *last) {
                Some(t) => c matches Some(x) && is_switch_of(x, *layouts, *last, t, play_sound),
                None => c is None,
            },
    {
        let from = match &last.corrected_to {
            Some(id) => id.copy(),
            None => last.layout.copy(),
        };
        let undoing = last.corrected_to.is_some() && !last.user_placed;
        let target = if undoing {
            last.layout.copy()
        } else {
            match next_layout_after(layouts, os_active, &from) {
                Some(next) => next,
                None => {
                    return None;
                },
            }
        };
        let mut corrected = match layouts.get(&target) {
            Some(m) => m.translate_buffer(last.keys.as_slice()),
            None => {
                return None;
            },
        };
        let original = if from.same(&last.layout) {
            last.rendered.clone()
        } else {
            match layouts.get(&from) {
                Some(m) => m.translate_buffer(last.keys.as_slice()),
                None => last.rendered.clone(),
            }
        };
        let mut replay = replay_keys_of(&last.keys);
        let mut backspaces: usize = last.keys.len();
        if let Some(b) = last.boundary {
            corrected.push(b.ch);
            let (sc, shift) = if is_submission_scancode(b.scancode) {
                (SC_SPACE, false)
            } else {
                boundary_key_for(layouts, &target, b.scancode, b.shift, b.ch)
            };
            replay.push(ReplayKey { scancode: sc, shift });
            backspaces = backspaces + 1;
        }
        let reason = if undoing {
            "manual switch-last hotkey (undoing a correction)".to_owned()
        } else {
            "manual switch-last hotkey".to_owned()
        };
        Some(
            Correction {
                from,
                to: target,
                original,
                corrected,
                backspaces,
                reason,
                play_sound,
                replay_keys: Some(replay),
                pointer_click_allowance: 0,
            },
        )
    }

    /// The press was carried out: remember where the word is now, so that
    /// the next press starts from there.
    pub fn force_switched(&mut self, last: LastWord, target: &LayoutId, now: Instant)
        ensures
            final(self).last_force_switch == Some(now),
            opt_name(final(self).word_layout) == Some(target@),
            final(self).last_word matches Some(w) && is_placed(w, last, target@),
            *final(self) == (SwitcherEngine {
                last_force_switch: final(self).last_force_switch,
                word_layout: final(self).word_layout,
                last_word: final(self).last_word,
                ..*old(self)
            }),
    {
        self.last_force_switch = Some(now);
        self.word_layout = Some(target.copy());
        let corrected_to = if target.same(&last.layout) {
            None
        } else {
            Some(target.copy())
        };
        self.last_word = Some(
            LastWord {
                keys: last.keys,
                rendered: last.rendered,
                layout: last.layout,
                boundary: last.boundary,
                corrected_to,
                user_placed: true,
            },
        );
    }

    /// The correction that converts the separator left of the caret. None
    /// where there is no separator, where replaying it would submit or
    /// merely repeat a space, and where it reads the same in both layouts.
    pub fn force_switch_separator(
        boundary_run: &Vec<(u32, bool)>,
        current: &Option<LayoutId>,
        layouts: &LayoutDb,
        os_active: Option<&[LayoutId]>,
        play_sound: bool,
    ) -> (c: Option<Correction>)
        ensures
            match separator_switch(boundary_run@, *current, *layouts, opt_names(os_active)) {
                Some(x) => {
                    &&& c matches Some(k)
                    &&& k.from@ == current->0@
                    &&& k.to@ == x.0
                    &&& k.original@ == seq![x.1]
                    &&& k.corrected@ == seq![x.2]
                    &&& k.backspaces == 1
                    &&& k.reason@ == "manual switch-last hotkey (separator)"@
                    &&& k.play_sound == play_sound
                    &&& k.replay_keys matches Some(rk) && rk@ == seq![
                        ReplayKey {
                            scancode: boundary_run@.last().0,
                            shift: boundary_run@.last().1,
                        },
                    ]
                    &&& k.pointer_click_allowance == 0
                },
                None => c is None,
            },
    {
        if boundary_run.len() == 0 {
            return None;
        }
        let (scancode, shift) = boundary_run[boundary_run.len() - 1];
        if is_submission_scancode(scancode) || scancode == SC_SPACE {
            return None;
        }
        let from = match current {
            Some(id) => id.copy(),
            None => {
                return None;
            },
        };
        let to = match next_layout_after(layouts, os_active, &from) {
            Some(id) => id,
            None => {
                return None;
            },
        };
        let before = match boundary_char_in_layout(layouts, &from, scancode, shift) {
            Some(ch) => ch,
            None => {
                return None;
            },
        };
        let after = match boundary_char_in_layout(layouts, &to, scancode, shift) {
            Some(ch) => ch,
            None => {
                return None;
            },
        };
        if before == after {
            return None;
        }
        let mut original = String::new();
        push_char(&mut original, before);
        assert(original@ =~= seq![before]);
        let mut corrected = String::new();
        push_char(&mut corrected, after);
        assert(corrected@ =~= seq![after]);
        let mut replay: Vec<ReplayKey> = Vec::new();
        replay.push(ReplayKey { scancode, shift });
        assert(replay@ =~= seq![ReplayKey { scancode, shift }]);
        Some(
            Correction {
                from,
                to,
                original,
                corrected,
                backspaces: 1,
                reason: "manual switch-last hotkey (separator)".to_owned(),
                play_sound,
                replay_keys: Some(replay),
                pointer_click_allowance: 0,
            },
        )
    }
}

/// Where a press moves the separator left of the caret, and what it reads
/// as before and after.
pub open spec fn separator_switch(
    run: Seq<(u32, bool)>,
    current: Option<LayoutId>,
    layouts: LayoutDb,
    os_active: Option<Seq<Seq<char>>>,
) -> Option<(Seq<char>, char, char)> {
    if run.len() == 0 || submits(run.last().0) || run.last().0 == SC_SPACE || current is None {
        None
    } else {
        let from = current->0@;
        let key = plain_key(run.last().0, run.last().1);
        match next_in_ring(ring_of(layouts, os_active, from), from) {
            Some(to) => match (layouts.renders(from, key), layouts.renders(to, key)) {
                (Some(a), Some(b)) => if a != b {
                    Some((to, a, b))
                } else {
                    None
                },
                _ => None,
            },
            None => None,
        }
    }
}

// ─── Laws of the gesture ─────────────────────────────────────────────

/// One press undoes an automatic correction: the word goes back to the
/// layout it was typed in, whatever layouts the OS has.
pub proof fn law_a_press_undoes_a_correction(
    layouts: LayoutDb,
    os_active: Option<Seq<Seq<char>>>,
    w: LastWord,
    placed: LastWord,
)
    requires
        w.corrected_to is Some,
        !w.user_placed,
        layouts.known(w.layout@),
        is_placed(placed, w, w.layout@),
    ensures
        press_target(layouts, os_active, w) == Some(w.layout@),
        reads_in(placed) == w.layout@,
{
}

/// A press can be taken back: with two layouts, a word moved by a press is
/// moved back by the next one.
pub proof fn law_a_second_press_takes_the_first_back(
    layouts: LayoutDb,
    os_active: Option<Seq<Seq<char>>>,
    w: LastWord,
    placed: LastWord,
)
    requires
        !is_undo(w),
        os_ring(layouts, os_active).len() == 2,
        os_ring(layouts, os_active).no_duplicates(),
        os_ring(layouts, os_active).contains(reads_in(w)),
        press_target(layouts, os_active, w) is Some,
        is_placed(placed, w, press_target(layouts, os_active, w)->0),
    ensures
        press_target(layouts, os_active, w)->0 != reads_in(w),
        press_target(layouts, os_active, placed) == Some(reads_in(w)),
{
    let ring = os_ring(layouts, os_active);
    let i = ring.index_of_first(reads_in(w))->0;
    ring.index_of_first_ensures(reads_in(w));
    let t = press_target(layouts, os_active, w)->0;
    assert(ring[0] != ring[1]);
    assert((0int + 1) % 2 == 1 && (1int + 1) % 2 == 0);
    assert(t == ring[(i + 1) % 2]);
    assert(ring.contains(t));
    assert(reads_in(placed) == t);
    ring.index_of_first_ensures(t);
    let p = |id: Seq<char>| layouts.known(id);
    match os_active {
        Some(list) => {
            list.lemma_filter_pred(p, i);
        },
        None => {},
    }
}

} // verus!
