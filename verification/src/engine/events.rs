//! What the engine tells the rest of the application.

use vstd::prelude::*;
use vstd::string::*;

use crate::engine::correction::Aftermath;
use crate::engine::switcher::SwitcherEngine;
use crate::engine::types::{opt_name, Correction, LastWord};
use crate::layouts::LayoutId;

verus! {

pub enum SwitcherEvent {
    PausedChanged(bool),
    KeptCurrent { reason: String },
    Corrected {
        from_layout: LayoutId,
        to_layout: LayoutId,
        original_text: String,
        corrected_text: String,
        reason: String,
    },
    LayoutChanged(LayoutId),
}

/// What is announced once a correction is on screen: the correction and
/// the new layout, and nothing for a replacement within one layout.
pub fn announcements(c: &Correction, switched: bool) -> (events: Vec<SwitcherEvent>)
    ensures
        !switched ==> events@.len() == 0,
        switched ==> {
            &&& events@.len() == 2
            &&& events@[0] matches SwitcherEvent::Corrected {
                from_layout,
                to_layout,
                original_text,
                corrected_text,
                reason,
            }
            &&& from_layout@ == c.from@
            &&& to_layout@ == c.to@
            &&& original_text@ == c.original@
            &&& corrected_text@ == c.corrected@
            &&& reason@ == c.reason@
            &&& events@[1] matches SwitcherEvent::LayoutChanged(id)
            &&& id@ == c.to@
        },
{
    let mut events: Vec<SwitcherEvent> = Vec::new();
    if switched {
        events.push(
            SwitcherEvent::Corrected {
                from_layout: c.from.copy(),
                to_layout: c.to.copy(),
                original_text: c.original.clone(),
                corrected_text: c.corrected.clone(),
                reason: c.reason.clone(),
            },
        );
        events.push(SwitcherEvent::LayoutChanged(c.to.copy()));
    }
    events
}

/// What is announced once a selection was converted.
pub fn selection_announcement(
    from: &LayoutId,
    to: &LayoutId,
    original: String,
    text: String,
) -> (event: SwitcherEvent)
    ensures
        event matches SwitcherEvent::Corrected {
            from_layout,
            to_layout,
            original_text,
            corrected_text,
            reason,
        } && from_layout@ == from@ && to_layout@ == to@ && original_text == original
            && corrected_text == text && reason@ == "selection conversion"@,
{
    SwitcherEvent::Corrected {
        from_layout: from.copy(),
        to_layout: to.copy(),
        original_text: original,
        corrected_text: text,
        reason: "selection conversion".to_owned(),
    }
}

/// The same word, moved to another layout.
pub open spec fn is_moved(w: LastWord, before: LastWord, to: Seq<char>) -> bool {
    &&& w.keys == before.keys
    &&& w.rendered == before.rendered
    &&& w.layout == before.layout
    &&& w.boundary == before.boundary
    &&& w.user_placed == before.user_placed
    &&& opt_name(w.corrected_to) == Some(to)
}

impl SwitcherEngine {
    /// Record where a correction took the stashed word, so that the manual
    /// hotkey undoes it rather than re-applying it.
    pub fn note_corrected(&mut self, to: &LayoutId)
        ensures
            match old(self).last_word {
                Some(w) => final(self).last_word matches Some(x) && is_moved(x, w, to@),
                None => final(self).last_word is None,
            },
            *final(self) == (SwitcherEngine { last_word: final(self).last_word, ..*old(self) }),
    {
        self.last_word = match self.last_word.take() {
            Some(w) => Some(
                LastWord {
                    keys: w.keys,
                    rendered: w.rendered,
                    layout: w.layout,
                    boundary: w.boundary,
                    corrected_to: Some(to.copy()),
                    user_placed: w.user_placed,
                },
            ),
            None => None,
        };
    }

    /// What the end of a correction means for the stash: it is dropped
    /// where the text left of the caret is no longer known.
    pub fn after_correction(&mut self, aftermath: Aftermath)
        ensures
            *final(self) == match aftermath {
                Aftermath::Uncertain { .. } | Aftermath::Unplaced => SwitcherEngine {
                    last_word: None,
                    ..*old(self)
                },
                _ => *old(self),
            },
    {
        match aftermath {
            Aftermath::Uncertain { .. } | Aftermath::Unplaced => {
                self.last_word = None;
            },
            _ => {},
        }
    }
}

} // verus!
