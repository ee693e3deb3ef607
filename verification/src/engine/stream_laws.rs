//! What holds of the keystrokes that are held back, of our own that come
//! back, and of the modifiers that are followed.

use vstd::prelude::*;

use crate::engine::echo::{live_echoes, Echo};
use crate::engine::events::is_moved;
use crate::engine::force_laws::{moved_by_the_engine, shown_in};
use crate::engine::force_switch::press_target;
use crate::engine::held::{effect_of, effects_of, ops_effects, typing, without_effect, HeldOpV};
use crate::engine::types::{LastWord, ModRole, ModSet};
use crate::keys::{ReplayKey, WordKey};
use crate::layouts::LayoutDb;
use crate::time::Instant;

verus! {

// ─── Held keystrokes ─────────────────────────────────────────────────

/// What a text becomes when the effects are applied to it, one after the
/// other.
pub open spec fn edited(text: Seq<char>, effects: Seq<Option<char>>) -> Seq<char>
    decreases effects.len(),
{
    if effects.len() == 0 {
        text
    } else {
        let before = edited(text, effects.drop_last());
        match effects.last() {
            Some(c) => before.push(c),
            None => if before.len() > 0 {
                before.drop_last()
            } else {
                before
            },
        }
    }
}

proof fn lemma_edited(text: Seq<char>, a: Seq<Option<char>>, b: Seq<Option<char>>)
    ensures
        edited(text, a + b) == edited(edited(text, a), b),
    decreases b.len(),
{
    if b.len() == 0 {
        assert(a + b =~= a);
    } else {
        lemma_edited(text, a, b.drop_last());
        assert((a + b).drop_last() =~= a + b.drop_last());
        assert((a + b).last() == b.last());
    }
}

proof fn lemma_effects(
    a: Seq<ReplayKey>,
    b: Seq<ReplayKey>,
    layouts: LayoutDb,
    to: Seq<char>,
    caps: bool,
)
    ensures
        effects_of(a + b, layouts, to, caps) == effects_of(a, layouts, to, caps) + effects_of(
            b,
            layouts,
            to,
            caps,
        ),
    decreases b.len(),
{
    if b.len() == 0 {
        assert(a + b =~= a);
        assert(effects_of(a, layouts, to, caps) + effects_of(b, layouts, to, caps) =~= effects_of(
            a,
            layouts,
            to,
            caps,
        ));
    } else {
        lemma_effects(a, b.drop_last(), layouts, to, caps);
        assert((a + b).drop_last() =~= a + b.drop_last());
        assert((a + b).last() == b.last());
        if let Some(e) = effect_of(b.last(), layouts, to, caps) {
            assert(effects_of(a, layouts, to, caps) + effects_of(
                b.drop_last(),
                layouts,
                to,
                caps,
            ).push(e) =~= (effects_of(a, layouts, to, caps) + effects_of(
                b.drop_last(),
                layouts,
                to,
                caps,
            )).push(e));
        }
    }
}

/// Held keystrokes do to the text what they would have done: they act one
/// after the other; Backspace takes the last character off, the space bar
/// types a space, and any other key types what it gives in the layout, on
/// its own level and under the lock; a key that gives nothing does nothing.
pub proof fn law_held_keys_act_as_they_were_pressed(
    text: Seq<char>,
    keys: Seq<ReplayKey>,
    k: ReplayKey,
    layouts: LayoutDb,
    to: Seq<char>,
    caps: bool,
)
    ensures
        ({
            let before = edited(text, effects_of(keys, layouts, to, caps));
            let after = edited(text, effects_of(keys.push(k), layouts, to, caps));
            let own = layouts.reads(
                to,
                seq![
                    WordKey { scancode: k.scancode, shift: k.shift, caps, timestamp_ms: 0 },
                ],
            );
            &&& k.scancode == 0x0E && before.len() > 0 ==> after == before.drop_last()
            &&& k.scancode == 0x39 ==> after == before.push(' ')
            &&& k.scancode != 0x0E && k.scancode != 0x39 ==> after == before + own
        }),
{
    let w = WordKey { scancode: k.scancode, shift: k.shift, caps, timestamp_ms: 0 };
    assert(keys.push(k).drop_last() =~= keys);
    let es = effects_of(keys, layouts, to, caps);
    if let Some(e) = effect_of(k, layouts, to, caps) {
        assert(es.push(e).drop_last() =~= es);
    }
    crate::layout_laws::law_keys_are_read_one_by_one(
        layouts.levels(to),
        Seq::empty(),
        Seq::empty(),
        w,
    );
    let before = edited(text, es);
    if let Some(c) = layouts.renders(to, w) {
        assert(before.push(c) =~= before + seq![c]);
    } else {
        assert(before + Seq::<char>::empty() =~= before);
    }
}

/// Every held key is accounted for: it has its effect, or is counted as
/// having none.
pub proof fn law_every_held_key_is_accounted_for(
    keys: Seq<ReplayKey>,
    layouts: LayoutDb,
    to: Seq<char>,
    caps: bool,
)
    ensures
        effects_of(keys, layouts, to, caps).len() + without_effect(keys, layouts, to, caps)
            == keys.len(),
    decreases keys.len(),
{
    if keys.len() > 0 {
        law_every_held_key_is_accounted_for(keys.drop_last(), layouts, to, caps);
    }
}

/// What is sent acts in its order: a text types its characters, in theirs,
/// and a Backspace takes one off.
pub proof fn law_what_is_sent_acts_in_order(
    text: Seq<char>,
    ops: Seq<HeldOpV>,
    t: Seq<char>,
)
    ensures
        edited(text, ops_effects(ops.push(HeldOpV::Text(t)))) == edited(text, ops_effects(ops)) + t,
        edited(text, ops_effects(ops)).len() > 0 ==> edited(
            text,
            ops_effects(ops.push(HeldOpV::Backspace)),
        ) == edited(text, ops_effects(ops)).drop_last(),
{
    let before = ops_effects(ops);
    assert(ops.push(HeldOpV::Text(t)).drop_last() =~= ops);
    assert(ops.push(HeldOpV::Backspace).drop_last() =~= ops);
    lemma_edited(text, before, typing(t));
    lemma_typed(edited(text, before), t);
    lemma_edited(text, before, seq![None::<char>]);
    let one = seq![None::<char>];
    assert(one.drop_last() =~= Seq::empty());
    assert(one.last() is None);
    assert(edited(edited(text, before), Seq::empty()) == edited(text, before));
}

proof fn lemma_typed(text: Seq<char>, t: Seq<char>)
    ensures
        edited(text, typing(t)) == text + t,
    decreases t.len(),
{
    if t.len() == 0 {
        assert(text + t =~= text);
    } else {
        let init = t.drop_last();
        lemma_typed(text, init);
        assert(typing(t).drop_last() =~= typing(init));
        assert(typing(t).last() == Some(t.last()));
        assert((text + init).push(t.last()) =~= text + t);
    }
}

// ─── Echoes ──────────────────────────────────────────────────────────

/// An echo is waited for exactly until its time: it is given up when that
/// has come, not before, and the others keep their order.
pub proof fn law_an_echo_is_waited_for_until_its_time(q: Seq<Echo>, e: Echo, now: Instant)
    ensures
        now.nanos < e.until.nanos ==> live_echoes(q.push(e), now) == live_echoes(q, now).push(e),
        now.nanos >= e.until.nanos ==> live_echoes(q.push(e), now) == live_echoes(q, now),
        live_echoes(Seq::empty(), now).len() == 0,
{
    reveal(Seq::filter);
    let keep = |x: Echo| now.nanos < x.until.nanos;
    assert(q.push(e).drop_last() =~= q);
    assert(Seq::<Echo>::empty().filter(keep) =~= Seq::empty());
}

// ─── A correction and its undoing ────────────────────────────────────

/// What the engine moved, a press moves back: once a correction is noted,
/// the word reads in the target, and the next press leads to the layout it
/// was typed in.
pub proof fn law_a_noted_correction_can_be_undone(
    layouts: LayoutDb,
    os_active: Option<Seq<Seq<char>>>,
    w: LastWord,
    moved: LastWord,
    to: Seq<char>,
)
    requires
        is_moved(moved, w, to),
        !w.user_placed,
        layouts.known(w.layout@),
    ensures
        shown_in(moved) == to,
        moved_by_the_engine(moved),
        moved.rendered@ == w.rendered@,
        moved.keys@ == w.keys@,
        press_target(layouts, os_active, moved) == Some(w.layout@),
{
}

// ─── Modifiers ───────────────────────────────────────────────────────

/// A set holds what was put in and not taken out, each modifier for itself;
/// two sets that hold the same are the same.
pub proof fn law_modifiers_are_held_one_by_one(s: ModSet, t: ModSet, r: ModRole, q: ModRole)
    ensures
        s.spec_with(r).has(q) <==> s.has(q) || q == r,
        s.spec_without(r).has(q) <==> s.has(q) && q != r,
        !ModSet::spec_none().has(q),
        (forall|x: ModRole| s.has(x) == #[trigger] t.has(x)) ==> s == t,
{
    if forall|x: ModRole| s.has(x) == #[trigger] t.has(x) {
        assert(s.has(ModRole::Ctrl) == t.has(ModRole::Ctrl));
        assert(s.has(ModRole::Shift) == t.has(ModRole::Shift));
        assert(s.has(ModRole::Alt) == t.has(ModRole::Alt));
        assert(s.has(ModRole::Meta) == t.has(ModRole::Meta));
    }
}

} // verus!
