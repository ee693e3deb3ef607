//! What holds of every run that converts a selection, in terms of what the
//! host answered and what it was asked.

use vstd::prelude::*;

use crate::engine::selection::{
    converted, lemma_last_selection_step, selection_action, selection_after, selection_expects,
    selection_follows, selection_step, SelectionActionV, SelectionInput, SelectionPhase,
    SelectionReplyV, SelectionV,
};
use crate::engine::force_laws::{comes_next, lemma_next};
use crate::engine::heuristics::opt_names;
use crate::layouts::{LayoutDb, LayoutId};

verus! {

/// What the clipboard held when the run began: the answer to the first look
/// at it.
pub open spec fn held_before(inputs: Seq<SelectionInput>) -> Option<Seq<char>> {
    if inputs.len() >= 2 && inputs[1].reply is Text {
        inputs[1].reply->Text_0
    } else {
        None
    }
}

/// The text that the host was last asked to convert.
pub open spec fn copied(inputs: Seq<SelectionInput>) -> Option<Seq<char>>
    decreases inputs.len(),
{
    if inputs.len() == 0 {
        None
    } else if selection_action(inputs) is Convert {
        Some(selection_action(inputs)->Convert_0)
    } else {
        copied(inputs.drop_last())
    }
}

/// What the host last said it converts to.
pub open spec fn conversion(inputs: Seq<SelectionInput>) -> Option<Seq<char>>
    decreases inputs.len(),
{
    if inputs.len() == 0 {
        None
    } else if inputs.last().reply is Converted && inputs.last().reply->Converted_0 is Some {
        inputs.last().reply->Converted_0
    } else {
        conversion(inputs.drop_last())
    }
}

/// A paste was asked for, and done.
pub open spec fn was_pasted(inputs: Seq<SelectionInput>) -> bool
    decreases inputs.len(),
{
    if inputs.len() < 2 {
        false
    } else {
        was_pasted(inputs.drop_last()) || selection_action(inputs.drop_last()) is PressPaste
            && inputs.last().reply == SelectionReplyV::Done(true)
    }
}

/// How the machine's memory goes with what was said.
spec fn remembers(inputs: Seq<SelectionInput>) -> bool {
    let s = selection_after(inputs);
    let a = selection_action(inputs);
    let first = inputs.len() == 1;
    &&& s.phase != SelectionPhase::Begin
    &&& (s.phase == SelectionPhase::Converting) == (a is Convert)
    &&& (s.phase == SelectionPhase::Staging) == (a is SetClipboard)
    &&& (s.phase == SelectionPhase::Pasting) == (a is PressPaste)
    &&& (s.phase == SelectionPhase::Copying) == (a is PressCopy)
    &&& (s.phase == SelectionPhase::Releasing) == (a is ReleaseModifiers)
    &&& (s.phase == SelectionPhase::ReadingPrevious) == (a is ReadClipboard && first)
    &&& (s.phase == SelectionPhase::CopyRead) == (a is ReadClipboard && !first)
    &&& (s.phase == SelectionPhase::Restoring) == (a is Restore)
    &&& (s.phase == SelectionPhase::Announcing) == (a is Announce)
    &&& (s.phase == SelectionPhase::Finished) == (a is Finish)
    &&& a is Convert ==> Some(s.original) == copied(inputs)
    &&& a is Announce ==> a->original == s.original && a->text == s.text
    &&& first ==> s.previous is None
    &&& s.previous == held_before(inputs)
    &&& s.phase == SelectionPhase::Staging || s.phase == SelectionPhase::Pasting || s.phase
        == SelectionPhase::PasteSleep || s.converted ==> Some(s.original) == copied(inputs) && Some(
        s.text,
    ) == conversion(inputs)
    &&& s.converted ==> s.phase == SelectionPhase::Restoring || s.phase
        == SelectionPhase::Announcing || s.phase == SelectionPhase::Finished
    &&& was_pasted(inputs) == (s.phase == SelectionPhase::PasteSleep || s.converted)
    &&& a is Finish ==> a->converted == s.converted
}

#[verifier::rlimit(60)]
proof fn lemma_remembers(inputs: Seq<SelectionInput>)
    requires
        inputs.len() > 0,
        selection_follows(inputs),
    ensures
        remembers(inputs),
    decreases inputs.len(),
{
    reveal(selection_step);
    let init = inputs.drop_last();
    lemma_last_selection_step(inputs);
    if init.len() > 0 {
        lemma_remembers(init);
        if init.len() >= 2 {
            assert(held_before(inputs) == held_before(init));
        } else {
            assert(inputs.last() == inputs[1]);
        }
    }
}

/// What the last action hands on is what the host answered before.
pub open spec fn is_honest(inputs: Seq<SelectionInput>) -> bool {
    let init = inputs.drop_last();
    let reply = inputs.last().reply;
    match selection_action(inputs) {
        SelectionActionV::Convert(t) => {
            &&& reply == SelectionReplyV::Text(Some(t))
            &&& t.len() > 0
            &&& Some(t) != held_before(inputs)
            &&& inputs.len() > 2 && selection_action(init) is ReadClipboard
        },
        SelectionActionV::SetClipboard(t) => {
            &&& reply == SelectionReplyV::Converted(Some(t))
            &&& inputs.len() > 1 && selection_action(init) is Convert
        },
        SelectionActionV::PressPaste => {
            &&& reply == SelectionReplyV::Done(true)
            &&& inputs.len() > 1 && selection_action(init) is SetClipboard
        },
        SelectionActionV::Restore(t) => held_before(inputs) == Some(t),
        SelectionActionV::Announce { original, text } => {
            &&& copied(inputs) == Some(original)
            &&& conversion(inputs) == Some(text)
            &&& was_pasted(inputs)
        },
        SelectionActionV::Finish { converted } => converted == was_pasted(inputs),
        _ => true,
    }
}

/// What goes in is what comes out: the text the host is asked to convert is
/// one it read off the clipboard after the copy, and not what was there
/// before; what is put on the clipboard is the host's conversion of it; and
/// the paste is asked for only when that is done.
pub proof fn law_what_is_pasted_is_the_conversion(inputs: Seq<SelectionInput>)
    requires
        inputs.len() > 0,
        selection_follows(inputs),
    ensures
        is_honest(inputs),
{
    let init = inputs.drop_last();
    lemma_last_selection_step(inputs);
    lemma_remembers(inputs);
    if init.len() > 0 {
        lemma_remembers(init);
    }
    lemma_honest(inputs);
}

proof fn lemma_honest(inputs: Seq<SelectionInput>)
    requires
        inputs.len() > 0,
        remembers(inputs),
        inputs.len() > 1 ==> remembers(inputs.drop_last()),
        selection_expects(selection_after(inputs.drop_last()).phase, inputs.last().reply),
    ensures
        is_honest(inputs),
{
    reveal(selection_step);
    if inputs.len() == 2 {
        assert(inputs.last() == inputs[1]);
    }
}

/// Nothing is given up without a reason: a host that does what it is asked,
/// and reads a text that is new and not empty, is asked to convert it, to
/// stage the conversion and to paste it, one after the other.
pub proof fn law_a_wrong_text_is_replaced(inputs: Seq<SelectionInput>)
    requires
        inputs.len() > 1,
        selection_follows(inputs),
    ensures
        ({
            let init = inputs.drop_last();
            let reply = inputs.last().reply;
            let before = selection_action(init);
            let after = selection_action(inputs);
            &&& before is ReadClipboard && inputs.len() > 2 && reply is Text && reply->Text_0 is Some
                && reply->Text_0->0.len() > 0 && reply->Text_0 != held_before(init) ==> after
                == SelectionActionV::Convert(reply->Text_0->0)
            &&& before is Convert && reply->Converted_0 is Some ==> after
                == SelectionActionV::SetClipboard(reply->Converted_0->0)
            &&& before is SetClipboard && reply == SelectionReplyV::Done(true) ==> after
                is PressPaste
            &&& before is PressPaste && reply == SelectionReplyV::Done(true) ==> after is Sleep
            &&& before is ReadClipboard && inputs.len() == 2 ==> {
                let m = inputs.last().held;
                if m.control || m.shift || m.alt || m.meta {
                    after == SelectionActionV::ReleaseModifiers(m)
                } else {
                    after is PressCopy
                }
            }
            &&& before is PressCopy && reply == SelectionReplyV::Done(true)
                && inputs.last().now.nanos + 400_000_000 <= u128::MAX ==> after is Sleep
        }),
{
    lemma_last_selection_step(inputs);
    lemma_remembers(inputs.drop_last());
    lemma_goes_on(inputs);
}

proof fn lemma_goes_on(inputs: Seq<SelectionInput>)
    requires
        inputs.len() > 1,
        remembers(inputs.drop_last()),
        selection_expects(selection_after(inputs.drop_last()).phase, inputs.last().reply),
    ensures
        ({
            let init = inputs.drop_last();
            let reply = inputs.last().reply;
            let before = selection_action(init);
            let after = selection_action(inputs);
            &&& before is ReadClipboard && inputs.len() > 2 && reply is Text && reply->Text_0 is Some
                && reply->Text_0->0.len() > 0 && reply->Text_0 != held_before(init) ==> after
                == SelectionActionV::Convert(reply->Text_0->0)
            &&& before is Convert && reply->Converted_0 is Some ==> after
                == SelectionActionV::SetClipboard(reply->Converted_0->0)
            &&& before is SetClipboard && reply == SelectionReplyV::Done(true) ==> after
                is PressPaste
            &&& before is PressPaste && reply == SelectionReplyV::Done(true) ==> after is Sleep
            &&& before is ReadClipboard && inputs.len() == 2 ==> {
                let m = inputs.last().held;
                if m.control || m.shift || m.alt || m.meta {
                    after == SelectionActionV::ReleaseModifiers(m)
                } else {
                    after is PressCopy
                }
            }
            &&& before is PressCopy && reply == SelectionReplyV::Done(true)
                && inputs.last().now.nanos + 400_000_000 <= u128::MAX ==> after is Sleep
        }),
{
    reveal(selection_step);
}

/// A run without a clipboard, and one in which something fails, types
/// nothing and ends: what is left is to put the clipboard back.
pub proof fn law_a_failure_ends_the_run(inputs: Seq<SelectionInput>)
    requires
        inputs.len() > 1,
        selection_follows(inputs),
        inputs.last().reply == SelectionReplyV::Done(false) || inputs.last().reply
            == SelectionReplyV::Converted(None),
        !(selection_action(inputs.drop_last()) is Announce),
        !(selection_action(inputs.drop_last()) is Restore),
    ensures
        ({
            let a = selection_action(inputs);
            match held_before(inputs) {
                Some(t) => a == SelectionActionV::Restore(t),
                None => a == (SelectionActionV::Finish { converted: false }),
            }
        }),
{
    reveal(selection_step);
    lemma_last_selection_step(inputs);
    lemma_remembers(inputs);
    lemma_remembers(inputs.drop_last());
}

/// Since the answer at `copy` nothing happened but looks and sleeps.
pub open spec fn only_looks(inputs: Seq<SelectionInput>, copy: int) -> bool
    decreases inputs.len(),
{
    inputs.len() <= copy || inputs.len() == 0 || {
        &&& selection_action(inputs) is Sleep || selection_action(inputs) is ReadClipboard
        &&& only_looks(inputs.drop_last(), copy)
    }
}

/// The copy was asked for, and the answer at `copy` says it was done.
pub open spec fn was_copied(inputs: Seq<SelectionInput>, copy: int) -> bool {
    &&& 0 < copy < inputs.len()
    &&& selection_action(inputs.take(copy)) is PressCopy
    &&& inputs[copy].reply == SelectionReplyV::Done(true)
    &&& inputs[copy].now.nanos + 400_000_000 <= u128::MAX
}

/// The copy is looked for until the deadline: the wait never outlasts it,
/// and does not end before it while nothing came.
pub proof fn law_the_copy_is_waited_for(inputs: Seq<SelectionInput>, copy: int)
    requires
        copy + 1 < inputs.len(),
        selection_follows(inputs),
        was_copied(inputs, copy),
        selection_action(inputs.drop_last()) is ReadClipboard,
        inputs.last().reply == SelectionReplyV::Text(None),
        only_looks(inputs.drop_last(), copy),
    ensures
        selection_action(inputs) is Sleep <==> inputs.last().now.nanos < inputs[copy].now.nanos
            + 400_000_000,
{
    let init = inputs.drop_last();
    lemma_last_selection_step(inputs);
    assert(init.take(copy) =~= inputs.take(copy));
    assert(init[copy] == inputs[copy]);
    lemma_waits(init, copy);
    lemma_remembers(init);
    lemma_look(selection_after(init), inputs.last());
}

proof fn lemma_look(s: SelectionV, i: SelectionInput)
    requires
        s.phase == SelectionPhase::CopyRead,
        i.reply == SelectionReplyV::Text(None),
    ensures
        selection_step(s, i.reply, i.now, i.held).1 is Sleep <==> i.now.nanos < s.deadline,
{
    reveal(selection_step);
}

proof fn lemma_wait_step(s: SelectionV, i: SelectionInput)
    requires
        selection_expects(s.phase, i.reply),
    ensures
        ({
            let n = selection_step(s, i.reply, i.now, i.held);
            &&& s.phase == SelectionPhase::Copying && i.reply == SelectionReplyV::Done(true)
                && i.now.nanos + 400_000_000 <= u128::MAX ==> n.0.deadline == i.now.nanos
                + 400_000_000 && n.0.phase == SelectionPhase::CopySleep
            &&& (s.phase == SelectionPhase::CopySleep || s.phase == SelectionPhase::CopyRead) && (
            n.1 is Sleep || n.1 is ReadClipboard) ==> n.0.deadline == s.deadline && (n.0.phase
                == SelectionPhase::CopySleep || n.0.phase == SelectionPhase::CopyRead)
        }),
{
    reveal(selection_step);
}

proof fn lemma_waits(inputs: Seq<SelectionInput>, copy: int)
    requires
        selection_follows(inputs),
        was_copied(inputs, copy),
        only_looks(inputs, copy),
    ensures
        selection_after(inputs).deadline == inputs[copy].now.nanos + 400_000_000,
        selection_after(inputs).phase == SelectionPhase::CopySleep || selection_after(inputs).phase
            == SelectionPhase::CopyRead,
    decreases inputs.len(),
{
    let init = inputs.drop_last();
    lemma_last_selection_step(inputs);
    lemma_remembers(init);
    lemma_wait_step(selection_after(init), inputs.last());
    if inputs.len() == copy + 1 {
        assert(init =~= inputs.take(copy));
        assert(inputs.last() == inputs[copy]);
    } else {
        assert(init.take(copy) =~= inputs.take(copy));
        assert(init[copy] == inputs[copy]);
        lemma_waits(init, copy);
    }
}

/// A selection is converted from the current layout into the next one on
/// the system's list.
pub proof fn law_a_selection_goes_to_the_next_layout(
    layouts: &LayoutDb,
    os_active: Option<&[LayoutId]>,
    current: &Option<LayoutId>,
    list: Seq<Seq<char>>,
    a: int,
    b: int,
    pair: Option<(LayoutId, LayoutId)>,
)
    requires
        opt_names(os_active) == Some(list),
        list.no_duplicates(),
        comes_next(*layouts, list, a, b),
        *current is Some,
        current->0@ == list[a],
        call_ensures(converted, (layouts, os_active, current), pair),
    ensures
        pair is Some,
        (pair->0).0@ == list[a],
        (pair->0).1@ == list[b],
{
    lemma_next(*layouts, list, a, b);
}

} // verus!
