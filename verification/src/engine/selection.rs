//! Converting a selection, as a machine the host drives. The clipboard is
//! only borrowed: whatever text it held before is put back at the end.

use vstd::prelude::*;
use vstd::string::*;

use crate::engine::consts::{
    CHORD_RELEASE_SETTLE, PASTE_SETTLE, SELECTION_COPY_STEP, SELECTION_COPY_WAIT,
};
use crate::engine::force_switch::{next_in_ring, next_layout_after, ring_of};
use crate::engine::heuristics::opt_names;
use crate::keys::Modifiers;
use crate::layouts::{LayoutDb, LayoutId};
use crate::text::str_eq;
use crate::time::Instant;

verus! {

broadcast use vstd::string::group_string_axioms;

// ─── What passes between the machine and the host ────────────────────

pub enum SelectionReply {
    /// Whether this session has a clipboard to work with.
    Started { has_clipboard: bool },
    /// The clipboard's text; none for an empty clipboard, or one that holds
    /// no text.
    Text(Option<String>),
    Unreadable,
    Done(bool),
    Slept,
    /// The copied text under the other layout; none where it is not
    /// wrong-layout text.
    Converted(Option<String>),
}

pub enum SelectionAction {
    ReadClipboard,
    ReleaseModifiers(Modifiers),
    /// In nanoseconds.
    Sleep(u128),
    PressCopy,
    /// Convert the copied text.
    Convert(String),
    SetClipboard(String),
    PressPaste,
    /// Put back what the clipboard held.
    Restore(String),
    /// Say that the selection was converted, from what to what.
    Announce { original: String, text: String },
    Finish { converted: bool },
}

pub enum SelectionReplyV {
    Started { has_clipboard: bool },
    Text(Option<Seq<char>>),
    Unreadable,
    Done(bool),
    Slept,
    Converted(Option<Seq<char>>),
}

pub enum SelectionActionV {
    ReadClipboard,
    ReleaseModifiers(Modifiers),
    Sleep(u128),
    PressCopy,
    Convert(Seq<char>),
    SetClipboard(Seq<char>),
    PressPaste,
    Restore(Seq<char>),
    Announce { original: Seq<char>, text: Seq<char> },
    Finish { converted: bool },
}

pub open spec fn opt_text(t: Option<String>) -> Option<Seq<char>> {
    match t {
        Some(s) => Some(s@),
        None => None,
    }
}

impl View for SelectionReply {
    type V = SelectionReplyV;

    open spec fn view(&self) -> SelectionReplyV {
        match *self {
            SelectionReply::Started { has_clipboard } => SelectionReplyV::Started { has_clipboard },
            SelectionReply::Text(t) => SelectionReplyV::Text(opt_text(t)),
            SelectionReply::Unreadable => SelectionReplyV::Unreadable,
            SelectionReply::Done(ok) => SelectionReplyV::Done(ok),
            SelectionReply::Slept => SelectionReplyV::Slept,
            SelectionReply::Converted(t) => SelectionReplyV::Converted(opt_text(t)),
        }
    }
}

impl View for SelectionAction {
    type V = SelectionActionV;

    open spec fn view(&self) -> SelectionActionV {
        match *self {
            SelectionAction::ReadClipboard => SelectionActionV::ReadClipboard,
            SelectionAction::ReleaseModifiers(m) => SelectionActionV::ReleaseModifiers(m),
            SelectionAction::Sleep(n) => SelectionActionV::Sleep(n),
            SelectionAction::PressCopy => SelectionActionV::PressCopy,
            SelectionAction::Convert(t) => SelectionActionV::Convert(t@),
            SelectionAction::SetClipboard(t) => SelectionActionV::SetClipboard(t@),
            SelectionAction::PressPaste => SelectionActionV::PressPaste,
            SelectionAction::Restore(t) => SelectionActionV::Restore(t@),
            SelectionAction::Announce { original, text } => SelectionActionV::Announce {
                original: original@,
                text: text@,
            },
            SelectionAction::Finish { converted } => SelectionActionV::Finish { converted },
        }
    }
}

// ─── The machine ─────────────────────────────────────────────────────

#[derive(Clone, Copy, PartialEq, Eq, Structural, Debug)]
pub enum SelectionPhase {
    Begin,
    ReadingPrevious,
    Releasing,
    ReleaseSleep,
    Copying,
    CopySleep,
    CopyRead,
    Converting,
    Staging,
    Pasting,
    PasteSleep,
    Restoring,
    Announcing,
    Finished,
}

pub struct SelectionV {
    pub phase: SelectionPhase,
    /// What the clipboard held before.
    pub previous: Option<Seq<char>>,
    /// What was copied, and what it was converted to.
    pub original: Seq<char>,
    pub text: Seq<char>,
    pub deadline: u128,
    /// The answer, once it is only the clipboard that is left to restore.
    pub converted: bool,
}

pub struct SelectionRun {
    pub phase: SelectionPhase,
    pub previous: Option<String>,
    pub original: String,
    pub text: String,
    pub deadline: u128,
    pub converted: bool,
}

impl View for SelectionRun {
    type V = SelectionV;

    open spec fn view(&self) -> SelectionV {
        SelectionV {
            phase: self.phase,
            previous: opt_text(self.previous),
            original: self.original@,
            text: self.text@,
            deadline: self.deadline,
            converted: self.converted,
        }
    }
}

pub open spec fn selection_expects(p: SelectionPhase, reply: SelectionReplyV) -> bool {
    match p {
        SelectionPhase::Begin => reply is Started,
        SelectionPhase::ReadingPrevious | SelectionPhase::CopyRead => reply is Text
            || reply is Unreadable,
        SelectionPhase::ReleaseSleep | SelectionPhase::CopySleep | SelectionPhase::PasteSleep =>
            reply is Slept,
        SelectionPhase::Converting => reply is Converted,
        SelectionPhase::Releasing | SelectionPhase::Copying | SelectionPhase::Staging
        | SelectionPhase::Pasting | SelectionPhase::Restoring | SelectionPhase::Announcing =>
            reply is Done,
        SelectionPhase::Finished => false,
    }
}

pub open spec fn selection_start() -> SelectionV {
    SelectionV {
        phase: SelectionPhase::Begin,
        previous: None,
        original: Seq::empty(),
        text: Seq::empty(),
        deadline: 0,
        converted: false,
    }
}

pub open spec fn sel_at(s: SelectionV, phase: SelectionPhase) -> SelectionV {
    SelectionV { phase, ..s }
}

/// The answer, announced where something was converted.
pub open spec fn conclude(s: SelectionV) -> (SelectionV, SelectionActionV) {
    if s.converted {
        (
            sel_at(s, SelectionPhase::Announcing),
            SelectionActionV::Announce { original: s.original, text: s.text },
        )
    } else {
        (sel_at(s, SelectionPhase::Finished), SelectionActionV::Finish { converted: false })
    }
}

/// The end of the run: the clipboard gets its text back first.
pub open spec fn restore(s: SelectionV, converted: bool) -> (SelectionV, SelectionActionV) {
    let d = SelectionV { converted, ..s };
    match s.previous {
        Some(p) => (sel_at(d, SelectionPhase::Restoring), SelectionActionV::Restore(p)),
        None => conclude(d),
    }
}

/// The copy has until the deadline to arrive.
pub open spec fn await_copy(s: SelectionV, now: Instant) -> (SelectionV, SelectionActionV) {
    if now.nanos < s.deadline {
        (sel_at(s, SelectionPhase::CopySleep), SelectionActionV::Sleep(SELECTION_COPY_STEP))
    } else {
        restore(s, false)
    }
}

/// One step of the machine.
#[verifier::opaque]
pub open spec fn selection_step(
    s: SelectionV,
    reply: SelectionReplyV,
    now: Instant,
    held: Modifiers,
) -> (SelectionV, SelectionActionV) {
    match (s.phase, reply) {
        (SelectionPhase::Begin, SelectionReplyV::Started { has_clipboard }) => if has_clipboard {
            (sel_at(s, SelectionPhase::ReadingPrevious), SelectionActionV::ReadClipboard)
        } else {
            restore(s, false)
        },
        (SelectionPhase::ReadingPrevious, r) => {
            let p = SelectionV {
                previous: match r {
                    SelectionReplyV::Text(t) => t,
                    _ => None,
                },
                ..s
            };
            if held.any_held() {
                (
                    sel_at(p, SelectionPhase::Releasing),
                    SelectionActionV::ReleaseModifiers(held),
                )
            } else {
                (sel_at(p, SelectionPhase::Copying), SelectionActionV::PressCopy)
            }
        },
        (SelectionPhase::Releasing, SelectionReplyV::Done(ok)) => if ok {
            (
                sel_at(s, SelectionPhase::ReleaseSleep),
                SelectionActionV::Sleep(CHORD_RELEASE_SETTLE),
            )
        } else {
            restore(s, false)
        },
        (SelectionPhase::ReleaseSleep, _) => (
            sel_at(s, SelectionPhase::Copying),
            SelectionActionV::PressCopy,
        ),
        (SelectionPhase::Copying, SelectionReplyV::Done(ok)) => if ok {
            await_copy(
                SelectionV { deadline: (now.nanos + SELECTION_COPY_WAIT) as u128, ..s },
                now,
            )
        } else {
            restore(s, false)
        },
        (SelectionPhase::CopySleep, _) => (
            sel_at(s, SelectionPhase::CopyRead),
            SelectionActionV::ReadClipboard,
        ),
        (SelectionPhase::CopyRead, SelectionReplyV::Text(t)) => if t matches Some(x) && x.len() > 0
            && t != s.previous {
            (
                SelectionV { phase: SelectionPhase::Converting, original: t->0, ..s },
                SelectionActionV::Convert(t->0),
            )
        } else {
            await_copy(s, now)
        },
        (SelectionPhase::Converting, SelectionReplyV::Converted(Some(text))) => (
            SelectionV { phase: SelectionPhase::Staging, text, ..s },
            SelectionActionV::SetClipboard(text),
        ),
        (SelectionPhase::Staging, SelectionReplyV::Done(true)) => (
            sel_at(s, SelectionPhase::Pasting),
            SelectionActionV::PressPaste,
        ),
        (SelectionPhase::Pasting, SelectionReplyV::Done(true)) => (
            sel_at(s, SelectionPhase::PasteSleep),
            SelectionActionV::Sleep(PASTE_SETTLE),
        ),
        (SelectionPhase::PasteSleep, _) => restore(s, true),
        (SelectionPhase::Restoring, _) => conclude(s),
        (SelectionPhase::Announcing, _) => (
            sel_at(s, SelectionPhase::Finished),
            SelectionActionV::Finish { converted: true },
        ),
        _ => restore(s, false),
    }
}

impl SelectionRun {
    pub fn new() -> (run: SelectionRun)
        ensures
            run@ == selection_start(),
    {
        SelectionRun {
            phase: SelectionPhase::Begin,
            previous: None,
            original: String::new(),
            text: String::new(),
            deadline: 0,
            converted: false,
        }
    }

    /// Take the host's reply to the last action and say what comes next.
    pub fn step(&mut self, reply: SelectionReply, now: Instant, held: Modifiers) -> (action:
        SelectionAction)
        requires
            selection_expects(old(self).phase, reply@),
            now.nanos + SELECTION_COPY_WAIT <= u128::MAX,
        ensures
            (final(self)@, action@) == selection_step(old(self)@, reply@, now, held),
    {
        reveal(selection_step);
        match self.phase {
            SelectionPhase::Begin => match reply {
                SelectionReply::Started { has_clipboard } => if has_clipboard {
                    self.phase = SelectionPhase::ReadingPrevious;
                    SelectionAction::ReadClipboard
                } else {
                    self.restore_clipboard(false)
                },
                _ => self.restore_clipboard(false),
            },
            SelectionPhase::ReadingPrevious => {
                self.previous = match reply {
                    SelectionReply::Text(t) => t,
                    _ => None,
                };
                if held.any_held() {
                    self.phase = SelectionPhase::Releasing;
                    SelectionAction::ReleaseModifiers(held)
                } else {
                    self.phase = SelectionPhase::Copying;
                    SelectionAction::PressCopy
                }
            },
            SelectionPhase::Releasing => match reply {
                SelectionReply::Done(true) => {
                    self.phase = SelectionPhase::ReleaseSleep;
                    SelectionAction::Sleep(CHORD_RELEASE_SETTLE)
                },
                _ => self.restore_clipboard(false),
            },
            SelectionPhase::ReleaseSleep => {
                self.phase = SelectionPhase::Copying;
                SelectionAction::PressCopy
            },
            SelectionPhase::Copying => match reply {
                SelectionReply::Done(true) => {
                    self.deadline = now.nanos + SELECTION_COPY_WAIT;
                    self.copy_selection(now)
                },
                _ => self.restore_clipboard(false),
            },
            SelectionPhase::CopySleep => {
                self.phase = SelectionPhase::CopyRead;
                SelectionAction::ReadClipboard
            },
            SelectionPhase::CopyRead => match reply {
                SelectionReply::Text(t) => self.on_copied(t, now),
                _ => self.restore_clipboard(false),
            },
            SelectionPhase::Converting => match reply {
                SelectionReply::Converted(Some(text)) => {
                    self.text = text.clone();
                    self.phase = SelectionPhase::Staging;
                    SelectionAction::SetClipboard(text)
                },
                _ => self.restore_clipboard(false),
            },
            SelectionPhase::Staging => match reply {
                SelectionReply::Done(true) => {
                    self.phase = SelectionPhase::Pasting;
                    SelectionAction::PressPaste
                },
                _ => self.restore_clipboard(false),
            },
            SelectionPhase::Pasting => match reply {
                SelectionReply::Done(true) => {
                    self.phase = SelectionPhase::PasteSleep;
                    SelectionAction::Sleep(PASTE_SETTLE)
                },
                _ => self.restore_clipboard(false),
            },
            SelectionPhase::PasteSleep => self.restore_clipboard(true),
            SelectionPhase::Restoring => self.conclude(),
            SelectionPhase::Announcing => {
                self.phase = SelectionPhase::Finished;
                SelectionAction::Finish { converted: true }
            },
            SelectionPhase::Finished => self.restore_clipboard(false),
        }
    }

    fn restore_clipboard(&mut self, converted: bool) -> (action: SelectionAction)
        ensures
            (final(self)@, action@) == restore(old(self)@, converted),
    {
        self.converted = converted;
        match &self.previous {
            Some(p) => {
                let text = p.clone();
                self.phase = SelectionPhase::Restoring;
                SelectionAction::Restore(text)
            },
            None => self.conclude(),
        }
    }

    fn conclude(&mut self) -> (action: SelectionAction)
        ensures
            (final(self)@, action@) == conclude(old(self)@),
    {
        if self.converted {
            self.phase = SelectionPhase::Announcing;
            SelectionAction::Announce { original: self.original.clone(), text: self.text.clone() }
        } else {
            self.phase = SelectionPhase::Finished;
            SelectionAction::Finish { converted: false }
        }
    }

    fn copy_selection(&mut self, now: Instant) -> (action: SelectionAction)
        ensures
            (final(self)@, action@) == await_copy(old(self)@, now),
    {
        if now.nanos < self.deadline {
            self.phase = SelectionPhase::CopySleep;
            SelectionAction::Sleep(SELECTION_COPY_STEP)
        } else {
            self.restore_clipboard(false)
        }
    }

    fn on_copied(&mut self, t: Option<String>, now: Instant) -> (action: SelectionAction)
        requires
            old(self).phase == SelectionPhase::CopyRead,
        ensures
            forall|held: Modifiers|
                (final(self)@, action@) == #[trigger] selection_step(
                    old(self)@,
                    SelectionReplyV::Text(opt_text(t)),
                    now,
                    held,
                ),
    {
        reveal(selection_step);
        match t {
            Some(text) => {
                let unchanged = match &self.previous {
                    Some(p) => str_eq(p.as_str(), text.as_str()),
                    None => false,
                };
                if !text.as_str().is_empty() && !unchanged {
                    self.original = text.clone();
                    self.phase = SelectionPhase::Converting;
                    SelectionAction::Convert(text)
                } else {
                    self.copy_selection(now)
                }
            },
            None => self.copy_selection(now),
        }
    }
}

/// The two layouts a selection is converted between: the current one and
/// the next along the ring, where the engine knows both.
pub fn converted(
    layouts: &LayoutDb,
    os_active: Option<&[LayoutId]>,
    current: &Option<LayoutId>,
) -> (pair: Option<(LayoutId, LayoutId)>)
    ensures
        match pair {
            Some(p) => {
                &&& current matches Some(c) && p.0@ == c@
                &&& layouts.known(p.0@) && layouts.known(p.1@)
                &&& next_in_ring(ring_of(*layouts, opt_names(os_active), p.0@), p.0@) == Some(
                    p.1@,
                )
            },
            None => match *current {
                Some(c) => match next_in_ring(
                    ring_of(*layouts, opt_names(os_active), c@),
                    c@,
                ) {
                    Some(to) => !layouts.known(c@) || !layouts.known(to),
                    None => true,
                },
                None => true,
            },
        },
{
    let from = match current {
        Some(id) => id.copy(),
        None => {
            return None;
        },
    };
    let to = match next_layout_after(layouts, os_active, &from) {
        Some(id) => id,
        None => {
            return None;
        },
    };
    if layouts.get(&from).is_none() || layouts.get(&to).is_none() {
        return None;
    }
    Some((from, to))
}

// ─── Laws ────────────────────────────────────────────────────────────

/// One reply of the host, with its readings.
pub struct SelectionInput {
    pub reply: SelectionReplyV,
    pub now: Instant,
    pub held: Modifiers,
}

pub open spec fn selection_after(inputs: Seq<SelectionInput>) -> SelectionV
    decreases inputs.len(),
{
    if inputs.len() == 0 {
        selection_start()
    } else {
        let i = inputs.last();
        selection_step(selection_after(inputs.drop_last()), i.reply, i.now, i.held).0
    }
}

pub open spec fn selection_action(inputs: Seq<SelectionInput>) -> SelectionActionV {
    let i = inputs.last();
    selection_step(selection_after(inputs.drop_last()), i.reply, i.now, i.held).1
}

pub open spec fn selection_follows(inputs: Seq<SelectionInput>) -> bool {
    forall|k: int|
        0 <= k < inputs.len() ==> selection_expects(
            selection_after(inputs.take(k)).phase,
            (#[trigger] inputs[k]).reply,
        )
}

/// An action that changes what the clipboard holds.
pub open spec fn writes_clipboard(a: SelectionActionV) -> bool {
    a is SetClipboard || a is Restore
}

/// What the laws below need to know of one step.
proof fn lemma_selection_step(s: SelectionV, i: SelectionInput)
    requires
        selection_expects(s.phase, i.reply),
    ensures
        ({
            let n = selection_step(s, i.reply, i.now, i.held);
            let p = n.0.phase;
            &&& p == SelectionPhase::Restoring ==> n.0.previous is Some && n.1
                == SelectionActionV::Restore(n.0.previous->0)
            &&& p == SelectionPhase::Announcing ==> n.0.previous == s.previous && n.1 is Announce
                && (s.previous is Some ==> s.phase == SelectionPhase::Restoring)
            &&& n.1 is Announce ==> p == SelectionPhase::Announcing
            &&& n.1 is Finish ==> {
                &&& n.0.previous == s.previous
                &&& n.1->Finish_converted == (s.phase == SelectionPhase::Announcing)
                &&& s.previous is Some ==> s.phase == SelectionPhase::Restoring || s.phase
                    == SelectionPhase::Announcing
            }
        }),
{
    reveal(selection_step);
}

/// A run without its last reply is a run, and the last reply was asked for.
pub proof fn lemma_last_selection_step(inputs: Seq<SelectionInput>)
    requires
        inputs.len() > 0,
        selection_follows(inputs),
    ensures
        selection_follows(inputs.drop_last()),
        selection_expects(selection_after(inputs.drop_last()).phase, inputs.last().reply),
{
    let n = inputs.len() - 1;
    let init = inputs.drop_last();
    assert(inputs.take(n) =~= init);
    assert(inputs[n] == inputs.last());
    assert forall|k: int| 0 <= k < init.len() implies selection_expects(
        selection_after(init.take(k)).phase,
        (#[trigger] init[k]).reply,
    ) by {
        assert(init[k] == inputs[k]);
        assert(init.take(k) =~= inputs.take(k));
    }
}

/// The text was put back as the answer to the reply before `j`, and nothing
/// was written to the clipboard after that.
pub open spec fn put_back_at(inputs: Seq<SelectionInput>, j: int, text: Seq<char>) -> bool {
    &&& 0 < j < inputs.len()
    &&& selection_action(inputs.take(j)) == SelectionActionV::Restore(text)
    &&& forall|i: int|
        j < i <= inputs.len() ==> !writes_clipboard(#[trigger] selection_action(inputs.take(i)))
}

/// Whatever text the clipboard held is the last thing written to it: a run
/// that comes to its end has put it back, and wrote nothing after that.
pub proof fn law_clipboard_is_put_back(inputs: Seq<SelectionInput>)
    requires
        inputs.len() > 0,
        selection_follows(inputs),
        selection_action(inputs) is Finish,
        selection_after(inputs).previous is Some,
    ensures
        exists|j: int| put_back_at(inputs, j, selection_after(inputs).previous->0),
{
    let n = inputs.len() as int;
    let text = selection_after(inputs).previous->0;
    let one = inputs.drop_last();
    let s = selection_after(one);
    lemma_last_selection_step(inputs);
    lemma_selection_step(s, inputs.last());
    assert(one.len() > 0);
    let two = one.drop_last();
    lemma_last_selection_step(one);
    lemma_selection_step(selection_after(two), one.last());
    assert(inputs.take(n) =~= inputs);
    assert(inputs.take(n - 1) =~= one);
    if s.phase == SelectionPhase::Announcing {
        assert(two.len() > 0);
        let three = two.drop_last();
        lemma_last_selection_step(two);
        lemma_selection_step(selection_after(three), two.last());
        assert(inputs.take(n - 2) =~= two);
        assert(selection_action(two) == SelectionActionV::Restore(text));
        assert(selection_action(one) is Announce);
        assert forall|i: int| n - 2 < i <= n implies !writes_clipboard(
            #[trigger] selection_action(inputs.take(i)),
        ) by {
            assert(i == n - 1 || i == n);
        }
        assert(put_back_at(inputs, n - 2, text));
    } else {
        assert(selection_action(one) == SelectionActionV::Restore(text));
        assert forall|i: int| n - 1 < i <= n implies !writes_clipboard(
            #[trigger] selection_action(inputs.take(i)),
        ) by {
            assert(i == n);
        }
        assert(put_back_at(inputs, n - 1, text));
    }
}

/// A selection is announced exactly where the answer is that it was
/// converted: just before that answer, and never before another one.
pub proof fn law_only_a_converted_selection_is_announced(inputs: Seq<SelectionInput>)
    requires
        inputs.len() > 0,
        selection_follows(inputs),
        selection_action(inputs) is Finish,
    ensures
        selection_action(inputs)->Finish_converted == (inputs.len() > 1 && selection_action(
            inputs.drop_last(),
        ) is Announce),
{
    let one = inputs.drop_last();
    lemma_last_selection_step(inputs);
    lemma_selection_step(selection_after(one), inputs.last());
    if one.len() > 0 {
        lemma_last_selection_step(one);
        lemma_selection_step(selection_after(one.drop_last()), one.last());
    }
}

} // verus!
