//! Typing out the keystrokes that were held back, where the backend types
//! characters rather than keys.

use vstd::prelude::*;
use vstd::string::*;

use crate::keys::{ReplayKey, WordKey, SC_BACKSPACE, SC_SPACE};
use crate::layouts::{LayoutDb, LayoutId};

verus! {

broadcast use vstd::string::group_string_axioms;

/// One thing to send, in order.
pub enum HeldOp {
    Text(String),
    Backspace,
}

pub enum HeldOpV {
    Text(Seq<char>),
    Backspace,
}

impl View for HeldOp {
    type V = HeldOpV;

    open spec fn view(&self) -> HeldOpV {
        match *self {
            HeldOp::Text(t) => HeldOpV::Text(t@),
            HeldOp::Backspace => HeldOpV::Backspace,
        }
    }
}

pub open spec fn op_views(ops: Seq<HeldOp>) -> Seq<HeldOpV> {
    ops.map_values(|o: HeldOp| o@)
}

/// What a held key does to the text, if anything. An effect is the typing
/// of a character, or `None` for the erasing of one. Backspace erases, the
/// space bar types a space in every layout, any other key types what the
/// layout gives.
pub open spec fn effect_of(k: ReplayKey, layouts: LayoutDb, to: Seq<char>, caps: bool) -> Option<
    Option<char>,
> {
    if k.scancode == SC_BACKSPACE {
        Some(None)
    } else if k.scancode == SC_SPACE {
        Some(Some(' '))
    } else {
        match layouts.renders(
            to,
            WordKey { scancode: k.scancode, shift: k.shift, caps, timestamp_ms: 0 },
        ) {
            Some(c) => Some(Some(c)),
            None => None,
        }
    }
}

/// The effects of a run of held keys, in order.
pub open spec fn effects_of(
    keys: Seq<ReplayKey>,
    layouts: LayoutDb,
    to: Seq<char>,
    caps: bool,
) -> Seq<Option<char>>
    decreases keys.len(),
{
    if keys.len() == 0 {
        Seq::empty()
    } else {
        let init = effects_of(keys.drop_last(), layouts, to, caps);
        match effect_of(keys.last(), layouts, to, caps) {
            Some(e) => init.push(e),
            None => init,
        }
    }
}

/// How many of the keys do nothing to the text.
pub open spec fn without_effect(
    keys: Seq<ReplayKey>,
    layouts: LayoutDb,
    to: Seq<char>,
    caps: bool,
) -> nat
    decreases keys.len(),
{
    if keys.len() == 0 {
        0
    } else {
        without_effect(keys.drop_last(), layouts, to, caps) + if effect_of(
            keys.last(),
            layouts,
            to,
            caps,
        ) is None {
            1nat
        } else {
            0
        }
    }
}

/// A text as the typing of its characters.
pub open spec fn typing(t: Seq<char>) -> Seq<Option<char>> {
    t.map_values(|c: char| Some(c))
}

/// The effects of a list of operations, in order.
pub open spec fn ops_effects(ops: Seq<HeldOpV>) -> Seq<Option<char>>
    decreases ops.len(),
{
    if ops.len() == 0 {
        Seq::empty()
    } else {
        ops_effects(ops.drop_last()) + match ops.last() {
            HeldOpV::Text(t) => typing(t),
            HeldOpV::Backspace => seq![None::<char>],
        }
    }
}

/// No operation sends an empty text.
pub open spec fn no_empty_text(ops: Seq<HeldOpV>) -> bool {
    forall|i: int| 0 <= i < ops.len() ==> (#[trigger] ops[i] matches HeldOpV::Text(t) ==> t.len() > 0)
}

/// Every run of characters is one text: no two texts stand side by side.
pub open spec fn no_split_text(ops: Seq<HeldOpV>) -> bool {
    forall|i: int|
        0 < i < ops.len() && (#[trigger] ops[i]) is Text ==> ops[i - 1] is Backspace
}

/// What is to be sent, and how many keys had nothing to send.
pub struct HeldPlan {
    pub ops: Vec<HeldOp>,
    pub dropped: usize,
}

fn flush_text(ops: &mut Vec<HeldOp>, text: &mut String)
    requires
        no_empty_text(op_views(old(ops)@)),
        no_split_text(op_views(old(ops)@)),
        old(ops)@.len() > 0 ==> op_views(old(ops)@).last() is Backspace,
    ensures
        final(text)@.len() == 0,
        ops_effects(op_views(final(ops)@)) == ops_effects(op_views(old(ops)@)) + typing(
            old(text)@,
        ),
        no_empty_text(op_views(final(ops)@)),
        no_split_text(op_views(final(ops)@)),
{
    let ghost before = op_views(ops@);
    let ghost t = text@;
    if text.as_str().is_empty() {
        assert(ops_effects(before) + typing(t) =~= ops_effects(before));
        return;
    }
    ops.push(HeldOp::Text(text.clone()));
    *text = String::new();
    proof {
        let after = op_views(ops@);
        assert(after =~= before.push(HeldOpV::Text(t)));
        assert(after.drop_last() =~= before);
    }
}

/// What to send for the held `keys` under the layout `to`. Everything that
/// has an effect on the text is sent, in press order; a Backspace goes out
/// in its own place, and the characters between two of them as one text.
pub fn emit_held_keys(keys: &Vec<ReplayKey>, to: &LayoutId, layouts: &LayoutDb, caps_on: bool) -> (
    plan: HeldPlan)
    ensures
        ops_effects(op_views(plan.ops@)) == effects_of(keys@, *layouts, to@, caps_on),
        no_empty_text(op_views(plan.ops@)),
        no_split_text(op_views(plan.ops@)),
        plan.dropped == without_effect(keys@, *layouts, to@, caps_on),
{
    let mut ops: Vec<HeldOp> = Vec::new();
    let mut text = String::new();
    let mut dropped: usize = 0;
    let mut i: usize = 0;
    proof {
        assert(op_views(ops@) =~= Seq::empty());
        assert(typing(text@) =~= Seq::empty());
    }
    while i < keys.len()
        invariant
            i <= keys.len(),
            dropped <= i,
            ops_effects(op_views(ops@)) + typing(text@) == effects_of(
                keys@.take(i as int),
                *layouts,
                to@,
                caps_on,
            ),
            no_empty_text(op_views(ops@)),
            no_split_text(op_views(ops@)),
            ops@.len() > 0 ==> op_views(ops@).last() is Backspace,
            dropped == without_effect(keys@.take(i as int), *layouts, to@, caps_on),
        decreases keys.len() - i,
    {
        let k = keys[i];
        let ghost all = ops_effects(op_views(ops@)) + typing(text@);
        assert(keys@.take(i + 1).drop_last() =~= keys@.take(i as int));
        if k.scancode == SC_BACKSPACE {
            flush_text(&mut ops, &mut text);
            let ghost flushed = op_views(ops@);
            ops.push(HeldOp::Backspace);
            proof {
                let after = op_views(ops@);
                assert(after =~= flushed.push(HeldOpV::Backspace));
                assert(after.drop_last() =~= flushed);
                assert(ops_effects(after) =~= all.push(None::<char>));
                assert(typing(text@) =~= Seq::empty());
                assert(ops_effects(after) + typing(text@) =~= all.push(None::<char>));
            }
        } else {
            let c = if k.scancode == SC_SPACE {
                Some(' ')
            } else {
                match layouts.get(to) {
                    Some(m) => m.translate_key(
                        WordKey {
                            scancode: k.scancode,
                            shift: k.shift,
                            caps: caps_on,
                            timestamp_ms: 0,
                        },
                    ),
                    None => None,
                }
            };
            match c {
                Some(c) => {
                    let ghost before = text@;
                    text.push(c);
                    proof {
                        assert(typing(text@) =~= typing(before).push(Some(c)));
                        assert(ops_effects(op_views(ops@)) + typing(text@) =~= all.push(
                            Some(c),
                        ));
                    }
                },
                None => {
                    dropped += 1;
                },
            }
        }
        i += 1;
    }
    assert(keys@.take(keys@.len() as int) =~= keys@);
    flush_text(&mut ops, &mut text);
    HeldPlan { ops, dropped }
}

} // verus!
