//! What holds of every press of the manual hotkey, in terms of the layouts
//! the system lists, the word and what is on screen.

use vstd::prelude::*;
use vstd::relations::sorted_by;

use crate::engine::decide::tables_agree;
use crate::engine::force_switch::{
    is_placed, is_switch_of, next_in_ring, os_ring, press_target, ring_of,
};
use crate::engine::heuristics::opt_names;
use crate::engine::switcher::SwitcherEngine;
use crate::engine::types::{Correction, LastWord};
use crate::keys::{plain_key, replay_of};
use crate::layouts::{key_of_char, row_names, LayoutDb, LayoutId};
use crate::order::{by_name, lemma_names_are_ordered, lex_le};

verus! {

/// The layout whose reading of the word is on screen.
pub open spec fn shown_in(w: LastWord) -> Seq<char> {
    if w.corrected_to is Some {
        w.corrected_to->0@
    } else {
        w.layout@
    }
}

/// The engine moved the word, and the user has not placed it since.
pub open spec fn moved_by_the_engine(w: LastWord) -> bool {
    w.corrected_to is Some && !w.user_placed
}

/// Going round a list from place `a`, place `k` comes before place `b`.
pub open spec fn between(a: int, k: int, b: int) -> bool {
    if a < b {
        a < k < b
    } else {
        k > a || k < b
    }
}

/// Going round the list from place `a`, place `b` is the first with a layout
/// that the engine knows.
pub open spec fn comes_next(layouts: LayoutDb, list: Seq<Seq<char>>, a: int, b: int) -> bool {
    &&& 0 <= a < list.len()
    &&& 0 <= b < list.len()
    &&& a != b
    &&& layouts.known(list[a])
    &&& layouts.known(list[b])
    &&& forall|k: int|
        0 <= k < list.len() && between(a, k, b) ==> !layouts.known(#[trigger] list[k])
}

proof fn lemma_none_kept(layouts: LayoutDb, s: Seq<Seq<char>>)
    requires
        forall|k: int| 0 <= k < s.len() ==> !layouts.known(#[trigger] s[k]),
    ensures
        s.filter(|id: Seq<char>| layouts.known(id)) =~= Seq::empty(),
{
    let p = |id: Seq<char>| layouts.known(id);
    assert(s.all(|x: Seq<char>| !p(x)));
    s.lemma_all_neg_filter_empty(p);
}

proof fn lemma_one_kept(layouts: LayoutDb, x: Seq<char>)
    requires
        layouts.known(x),
    ensures
        seq![x].filter(|id: Seq<char>| layouts.known(id)) =~= seq![x],
{
    let p = |id: Seq<char>| layouts.known(id);
    reveal(Seq::filter);
    assert(seq![x].drop_last() =~= Seq::empty());
    assert(seq![x].last() == x);
    assert(Seq::<Seq<char>>::empty().filter(p) =~= Seq::empty());
    assert(p(x));
}

/// The known layouts of a list, taken apart at two known places.
proof fn lemma_apart(layouts: LayoutDb, list: Seq<Seq<char>>, lo: int, hi: int)
    requires
        0 <= lo < hi < list.len(),
        layouts.known(list[lo]),
        layouts.known(list[hi]),
    ensures
        ({
            let p = |id: Seq<char>| layouts.known(id);
            list.filter(p) == list.subrange(0, lo).filter(p) + seq![list[lo]] + list.subrange(
                lo + 1,
                hi,
            ).filter(p) + seq![list[hi]] + list.subrange(hi + 1, list.len() as int).filter(p)
        }),
{
    let p = |id: Seq<char>| layouts.known(id);
    let pre = list.subrange(0, lo);
    let mid = list.subrange(lo + 1, hi);
    let post = list.subrange(hi + 1, list.len() as int);
    assert(list =~= pre + seq![list[lo]] + mid + seq![list[hi]] + post);
    Seq::filter_distributes_over_add(pre + seq![list[lo]] + mid + seq![list[hi]], post, p);
    Seq::filter_distributes_over_add(pre + seq![list[lo]] + mid, seq![list[hi]], p);
    Seq::filter_distributes_over_add(pre + seq![list[lo]], mid, p);
    Seq::filter_distributes_over_add(pre, seq![list[lo]], p);
    lemma_one_kept(layouts, list[lo]);
    lemma_one_kept(layouts, list[hi]);
}

/// A layout that is not on a list is not among the known ones of it.
proof fn lemma_not_kept(layouts: LayoutDb, s: Seq<Seq<char>>, x: Seq<char>)
    requires
        !s.contains(x),
    ensures
        !s.filter(|id: Seq<char>| layouts.known(id)).contains(x),
{
    let p = |id: Seq<char>| layouts.known(id);
    if s.filter(p).contains(x) {
        s.lemma_filter_contains_rev(p, x);
    }
}

/// In a ring the element behind the first place of `x`.
proof fn lemma_behind(ring: Seq<Seq<char>>, i: int, j: int)
    requires
        0 <= i < ring.len(),
        forall|k: int| 0 <= k < i ==> ring[k] != ring[i],
        j == if i + 1 == ring.len() {
            0
        } else {
            i + 1
        },
        ring[j] != ring[i],
    ensures
        next_in_ring(ring, ring[i]) == Some(ring[j]),
        ring.contains(ring[i]),
{
    ring.index_of_first_ensures(ring[i]);
    assert(ring.contains(ring[i]));
    assert(ring.index_of_first(ring[i]) == Some(i));
    if i + 1 == ring.len() {
        vstd::arithmetic::div_mod::lemma_mod_self_0(ring.len() as int);
    } else {
        vstd::arithmetic::div_mod::lemma_small_mod((i + 1) as nat, ring.len());
    }
}

/// On the list that the system gave, what is next in the ring is the next
/// layout that the engine knows.
pub proof fn lemma_next(layouts: LayoutDb, list: Seq<Seq<char>>, a: int, b: int)
    requires
        list.no_duplicates(),
        comes_next(layouts, list, a, b),
    ensures
        next_in_ring(ring_of(layouts, Some(list), list[a]), list[a]) == Some(list[b]),
{
    let p = |id: Seq<char>| layouts.known(id);
    let n = list.len() as int;
    let ring = os_ring(layouts, Some(list));
    assert(list[a] != list[b]);
    if a < b {
        lemma_apart(layouts, list, a, b);
        let pre = list.subrange(0, a);
        let mid = list.subrange(a + 1, b);
        let fp = pre.filter(p);
        assert forall|k: int| 0 <= k < mid.len() implies !layouts.known(#[trigger] mid[k]) by {
            assert(mid[k] == list[a + 1 + k]);
        }
        lemma_none_kept(layouts, mid);
        if pre.contains(list[a]) {
            let m = choose|m: int| 0 <= m < pre.len() && pre[m] == list[a];
            assert(list[m] == pre[m]);
        }
        lemma_not_kept(layouts, pre, list[a]);
        let i = fp.len() as int;
        assert(ring[i] == list[a]);
        assert(ring[i + 1] == list[b]);
        assert forall|k: int| 0 <= k < i implies ring[k] != ring[i] by {
            assert(ring[k] == fp[k]);
            assert(fp.contains(fp[k]));
        }
        lemma_behind(ring, i, i + 1);
    } else {
        lemma_apart(layouts, list, b, a);
        let pre = list.subrange(0, b);
        let mid = list.subrange(b + 1, a);
        let post = list.subrange(a + 1, n);
        let fm = mid.filter(p);
        assert forall|k: int| 0 <= k < pre.len() implies !layouts.known(#[trigger] pre[k]) by {
            assert(pre[k] == list[k]);
            assert(between(a, k, b));
        }
        assert forall|k: int| 0 <= k < post.len() implies !layouts.known(#[trigger] post[k]) by {
            assert(post[k] == list[a + 1 + k]);
            assert(between(a, a + 1 + k, b));
        }
        lemma_none_kept(layouts, pre);
        lemma_none_kept(layouts, post);
        if mid.contains(list[a]) {
            let m = choose|m: int| 0 <= m < mid.len() && mid[m] == list[a];
            assert(list[b + 1 + m] == mid[m]);
        }
        lemma_not_kept(layouts, mid, list[a]);
        let i = ring.len() - 1;
        assert(ring =~= seq![list[b]] + fm + seq![list[a]]);
        assert(ring[i] == list[a]);
        assert(ring[0] == list[b]);
        assert forall|k: int| 0 <= k < i implies ring[k] != ring[i] by {
            if k > 0 {
                assert(ring[k] == fm[k - 1]);
                assert(fm.contains(fm[k - 1]));
            }
        }
        lemma_behind(ring, i, 0);
    }
}

/// A press moves the word to the next layout on the system's list that the
/// engine knows, from wherever the word reads now: in the layout it was
/// typed in as well as in one that an earlier press moved it to.
pub proof fn law_a_press_moves_to_the_next_layout(
    layouts: LayoutDb,
    list: Seq<Seq<char>>,
    w: LastWord,
    a: int,
    b: int,
)
    requires
        list.no_duplicates(),
        comes_next(layouts, list, a, b),
        shown_in(w) == list[a],
        !moved_by_the_engine(w),
    ensures
        press_target(layouts, Some(list), w) == Some(list[b]),
{
    lemma_next(layouts, list, a, b);
}

/// After a press the word reads in the layout it was moved to, and the next
/// press goes on from there: it does not bounce back to the layout the word
/// was typed in.
pub proof fn law_the_next_press_goes_on(
    layouts: LayoutDb,
    list: Seq<Seq<char>>,
    w: LastWord,
    placed: LastWord,
    a: int,
    b: int,
    c: int,
)
    requires
        list.no_duplicates(),
        comes_next(layouts, list, a, b),
        comes_next(layouts, list, b, c),
        shown_in(w) == list[a],
        !moved_by_the_engine(w),
        press_target(layouts, Some(list), w) is Some,
        is_placed(placed, w, press_target(layouts, Some(list), w)->0),
    ensures
        shown_in(placed) == list[b],
        press_target(layouts, Some(list), placed) == Some(list[c]),
{
    law_a_press_moves_to_the_next_layout(layouts, list, w, a, b);
    law_a_press_moves_to_the_next_layout(layouts, list, placed, b, c);
}

/// Each word is what the press before it left.
pub open spec fn pressed_in_turn(
    layouts: LayoutDb,
    list: Seq<Seq<char>>,
    ws: Seq<LastWord>,
) -> bool {
    forall|m: int|
        #![trigger ws[m]]
        1 <= m < ws.len() ==> {
            let t = press_target(layouts, Some(list), ws[m - 1]);
            t is Some && is_placed(ws[m], ws[m - 1], t->0)
        }
}

/// Pressed again and again, the hotkey goes round the layouts that the
/// system lists: after `m` presses the word reads in the layout `m` places
/// further, so that each one comes up in turn and the word is back where it
/// was after as many presses as there are layouts.
pub proof fn law_pressing_goes_round_the_list(
    layouts: LayoutDb,
    list: Seq<Seq<char>>,
    ws: Seq<LastWord>,
    start: int,
    m: int,
)
    requires
        list.no_duplicates(),
        list.len() >= 2,
        forall|k: int| 0 <= k < list.len() ==> layouts.known(#[trigger] list[k]),
        0 <= start < list.len(),
        0 <= m < ws.len(),
        shown_in(ws[0]) == list[start],
        !moved_by_the_engine(ws[0]),
        pressed_in_turn(layouts, list, ws),
    ensures
        shown_in(ws[m]) == list[(start + m) % (list.len() as int)],
        press_target(layouts, Some(list), ws[m]) == Some(
            list[(start + m + 1) % (list.len() as int)],
        ),
        !moved_by_the_engine(ws[m]),
        m == list.len() ==> shown_in(ws[m]) == shown_in(ws[0]),
    decreases m,
{
    let n = list.len() as int;
    let a = (start + m) % n;
    let b = (start + m + 1) % n;
    vstd::arithmetic::div_mod::lemma_mod_bound(start + m, n);
    vstd::arithmetic::div_mod::lemma_mod_bound(start + m + 1, n);
    assert(b == if a + 1 == n {
        0
    } else {
        a + 1
    }) by {
        vstd::arithmetic::div_mod::lemma_add_mod_noop(start + m, 1, n);
        vstd::arithmetic::div_mod::lemma_small_mod(1, n as nat);
        if a + 1 == n {
            vstd::arithmetic::div_mod::lemma_mod_self_0(n);
        } else {
            vstd::arithmetic::div_mod::lemma_small_mod((a + 1) as nat, n as nat);
        }
    }
    if m == 0 {
        vstd::arithmetic::div_mod::lemma_small_mod(start as nat, n as nat);
    } else {
        law_pressing_goes_round_the_list(layouts, list, ws, start, m - 1);
        assert(is_placed(
            ws[m],
            ws[m - 1],
            press_target(layouts, Some(list), ws[m - 1])->0,
        ));
    }
    assert(comes_next(layouts, list, a, b));
    law_a_press_moves_to_the_next_layout(layouts, list, ws[m], a, b);
    if m == n {
        vstd::arithmetic::div_mod::lemma_mod_add_multiples_vanish(start, n);
        vstd::arithmetic::div_mod::lemma_small_mod(start as nat, n as nat);
    }
}

/// Going round the names in their order from `a`, `x` comes before `b`.
pub open spec fn named_between(a: Seq<char>, x: Seq<char>, b: Seq<char>) -> bool {
    &&& x != a
    &&& x != b
    &&& if lex_le(a, b) {
        lex_le(a, x) && lex_le(x, b)
    } else {
        lex_le(a, x) || lex_le(x, b)
    }
}

/// Where the system gave no list, a press moves the word to the known layout
/// that is next by name, going round.
pub proof fn law_without_a_list_names_decide(layouts: LayoutDb, w: LastWord, b: Seq<char>)
    requires
        row_names(layouts.layouts@).no_duplicates(),
        layouts.known(shown_in(w)),
        layouts.known(b),
        b != shown_in(w),
        !moved_by_the_engine(w),
        forall|x: Seq<char>| #[trigger] layouts.known(x) ==> !named_between(shown_in(w), x, b),
    ensures
        press_target(layouts, None, w) == Some(b),
{
    let all = row_names(layouts.layouts@);
    let a = shown_in(w);
    let leq = by_name();
    lemma_names_are_ordered();
    let s = all.sort_by(leq);
    all.lemma_sort_by_ensures(leq);
    assert(s == ring_of(layouts, None, a));
    all.lemma_multiset_has_no_duplicates();
    s.lemma_multiset_has_no_duplicates_conv();
    all.to_multiset_ensures();
    s.to_multiset_ensures();
    assert(all.to_multiset().count(a) > 0 && all.to_multiset().count(b) > 0);
    assert(s.contains(a) && s.contains(b));
    let i = choose|i: int| 0 <= i < s.len() && s[i] == a;
    let j = choose|j: int| 0 <= j < s.len() && s[j] == b;
    assert forall|k: int| 0 <= k < s.len() implies layouts.known(#[trigger] s[k]) by {
        assert(s.contains(s[k]));
    }
    assert(sorted_by(s, leq));
    s.index_of_first_ensures(a);
    assert(s.index_of_first(a) == Some(i));
    let n = s.len() as int;
    if i < j {
        assert(leq(s[i], s[j]));
        if j != i + 1 {
            assert(leq(s[i], s[i + 1]) && leq(s[i + 1], s[j]));
            assert(layouts.known(s[i + 1]));
            assert(named_between(a, s[i + 1], b));
        }
        vstd::arithmetic::div_mod::lemma_small_mod((i + 1) as nat, n as nat);
    } else {
        assert(leq(s[j], s[i]));
        assert(!leq(s[i], s[j]));
        if i != n - 1 {
            assert(leq(s[i], s[n - 1]));
            assert(layouts.known(s[n - 1]));
            assert(named_between(a, s[n - 1], b));
        }
        if j != 0 {
            assert(leq(s[0], s[j]));
            assert(layouts.known(s[0]));
            assert(named_between(a, s[0], b));
        }
        vstd::arithmetic::div_mod::lemma_mod_self_0(n);
    }
}

/// The system's list decides nothing where it does not hold the layout the
/// word reads in, or holds no other one that the engine knows.
pub proof fn law_a_list_without_the_layout_decides_nothing(
    layouts: LayoutDb,
    list: Seq<Seq<char>>,
    w: LastWord,
)
    requires
        list.no_duplicates(),
        !list.contains(shown_in(w)) || forall|k: int|
            0 <= k < list.len() && layouts.known(#[trigger] list[k]) ==> list[k] == shown_in(w),
    ensures
        press_target(layouts, Some(list), w) == press_target(layouts, None, w),
{
    let p = |id: Seq<char>| layouts.known(id);
    let ring = list.filter(p);
    let a = shown_in(w);
    if ring.contains(a) {
        list.lemma_filter_contains_rev(p, a);
        let i = choose|i: int| 0 <= i < list.len() && list[i] == a;
        let pre = list.subrange(0, i);
        let post = list.subrange(i + 1, list.len() as int);
        assert(list =~= pre + seq![a] + post);
        Seq::filter_distributes_over_add(pre + seq![a], post, p);
        Seq::filter_distributes_over_add(pre, seq![a], p);
        assert forall|k: int| 0 <= k < pre.len() implies !layouts.known(#[trigger] pre[k]) by {
            assert(pre[k] == list[k]);
        }
        assert forall|k: int| 0 <= k < post.len() implies !layouts.known(#[trigger] post[k]) by {
            assert(post[k] == list[i + 1 + k]);
        }
        lemma_none_kept(layouts, pre);
        lemma_none_kept(layouts, post);
        list.lemma_filter_contains_rev(p, a);
        let m = choose|m: int| 0 <= m < ring.len() && ring[m] == a;
        list.lemma_filter_pred(p, m);
        lemma_one_kept(layouts, a);
        assert(ring.len() == 1);
    }
    assert(os_ring(layouts, Some(list)) == ring);
}

// ─── What is on screen ───────────────────────────────────────────────

/// The keys that a press types are the word's own, each on the level it was
/// typed on; with the separator there is one more; and what it takes off is
/// as many characters as keys. The separator is typed with the key that
/// gives it in the target, where there is one. Where the separator sent a line or moved the
/// focus, a space stands in for it.
pub proof fn law_a_press_types_the_words_keys(
    layouts: LayoutDb,
    w: LastWord,
    target: Seq<char>,
    play_sound: bool,
    c: Correction,
)
    requires
        is_switch_of(c, layouts, w, target, play_sound),
    ensures
        c.replay_keys is Some,
        c.to@ == target,
        c.from@ == shown_in(w),
        c.play_sound == play_sound,
        c.pointer_click_allowance == 0,
        w.corrected_to is None ==> c.original@ == w.rendered@,
        ({
            let rk = c.replay_keys->0@;
            let n = w.keys@.len() as int;
            &&& c.backspaces == rk.len()
            &&& rk.len() == if w.boundary is Some {
                n + 1
            } else {
                n
            }
            &&& forall|i: int|
                0 <= i < n ==> (#[trigger] rk[i]).scancode == w.keys@[i].scancode && rk[i].shift
                    == w.keys@[i].shift
            &&& w.boundary is Some && (w.boundary->0.scancode == 0x1C || w.boundary->0.scancode
                == 0x0F || w.boundary->0.scancode == 0x60) ==> rk[n].scancode == 0x39
                && !rk[n].shift
            &&& w.boundary is Some && w.boundary->0.scancode != 0x1C && w.boundary->0.scancode
                != 0x0F && w.boundary->0.scancode != 0x60 && tables_agree(layouts, target)
                && key_of_char(layouts.chars(target), w.boundary->0.ch) is Some ==> layouts.renders(
                target,
                plain_key(rk[n].scancode, rk[n].shift),
            ) == Some(w.boundary->0.ch)
            &&& w.boundary is Some ==> c.corrected@.last() == w.boundary->0.ch
        }),
{
    let rk = c.replay_keys->0@;
    let n = w.keys@.len() as int;
    assert forall|i: int| 0 <= i < n implies (#[trigger] rk[i]).scancode == w.keys@[i].scancode
        && rk[i].shift == w.keys@[i].shift by {
        assert(rk[i] == replay_of(w.keys@)[i]);
    }
}

/// What one press types is what the next one takes off: it erases the text
/// that the press before it put on screen, character for character, and
/// starts in the layout that press moved to. The separator stays what it is.
pub proof fn law_the_next_press_takes_off_what_this_one_typed(
    layouts: LayoutDb,
    w: LastWord,
    first: Correction,
    placed: LastWord,
    second: Correction,
    target: Seq<char>,
    play_sound: bool,
    again: bool,
)
    requires
        w.rendered@ == layouts.reads(w.layout@, w.keys@),
        layouts.known(first.to@),
        is_switch_of(first, layouts, w, first.to@, play_sound),
        is_placed(placed, w, first.to@),
        is_switch_of(second, layouts, placed, target, again),
    ensures
        second.from@ == first.to@,
        second.backspaces == first.backspaces,
        w.boundary is None ==> second.original@ == first.corrected@,
        w.boundary is Some ==> second.original@ == first.corrected@.drop_last()
            && first.corrected@.last() == w.boundary->0.ch && second.corrected@.last()
            == first.corrected@.last(),
{
    if w.boundary is Some {
        let text = layouts.reads(first.to@, w.keys@);
        assert(text.push(w.boundary->0.ch).drop_last() =~= text);
    }
}

/// A press undoes what the engine did: it takes off what the correction put
/// on screen and puts back the text that the word had where it was typed.
pub proof fn law_an_undo_puts_the_typed_text_back(
    layouts: LayoutDb,
    os_active: Option<Seq<Seq<char>>>,
    w: LastWord,
    c: Correction,
    play_sound: bool,
)
    requires
        moved_by_the_engine(w),
        layouts.known(w.layout@),
        layouts.known(shown_in(w)),
        w.rendered@ == layouts.reads(w.layout@, w.keys@),
        press_target(layouts, os_active, w) is Some,
        is_switch_of(c, layouts, w, press_target(layouts, os_active, w)->0, play_sound),
    ensures
        c.to@ == w.layout@,
        c.original@ == layouts.reads(shown_in(w), w.keys@),
        w.boundary is None ==> c.corrected@ == w.rendered@,
        w.boundary is Some ==> c.corrected@ == w.rendered@.push(w.boundary->0.ch),
{
}

// ─── The separator ───────────────────────────────────────────────────

/// Where there is no word, a press turns the one separator left of the
/// caret: the same key, read in the next layout, and only where that reads
/// otherwise. It never types Enter, Tab or a space.
pub proof fn law_a_press_turns_the_separator(
    run: &Vec<(u32, bool)>,
    current: &Option<LayoutId>,
    layouts: &LayoutDb,
    os_active: Option<&[LayoutId]>,
    list: Seq<Seq<char>>,
    a: int,
    b: int,
    play_sound: bool,
    c: Option<Correction>,
)
    requires
        run@.len() > 0,
        opt_names(os_active) == Some(list),
        list.no_duplicates(),
        comes_next(*layouts, list, a, b),
        *current is Some,
        current->0@ == list[a],
        call_ensures(
            SwitcherEngine::force_switch_separator,
            (run, current, layouts, os_active, play_sound),
            c,
        ),
    ensures
        ({
            let (scancode, shift) = run@.last();
            let before = layouts.renders(list[a], plain_key(scancode, shift));
            let after = layouts.renders(list[b], plain_key(scancode, shift));
            let turns = before is Some && after is Some && before != after && scancode != 0x1C
                && scancode != 0x0F && scancode != 0x60 && scancode != 0x39;
            &&& c is Some == turns
            &&& turns ==> {
                let k = c->0;
                &&& k.from@ == list[a]
                &&& k.to@ == list[b]
                &&& k.backspaces == 1
                &&& k.original@ == seq![before->0]
                &&& k.corrected@ == seq![after->0]
                &&& k.replay_keys is Some
                &&& k.replay_keys->0@.len() == 1
                &&& k.replay_keys->0@[0].scancode == scancode
                &&& k.replay_keys->0@[0].shift == shift
            }
        }),
{
    lemma_next(*layouts, list, a, b);
}

} // verus!
