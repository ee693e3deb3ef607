//! Per-completed-word decision: candidates, the filters that come before
//! any detector, and what a detector's verdict leads to.

use vstd::prelude::*;
use vstd::string::*;

use crate::engine::decide_laws::{are_the_allowed, lemma_judged_candidates};
use crate::engine::heuristics::{
    app_is_disabled, boundary_char_in_layout, boundary_key, boundary_key_for, eligible,
    ends_sentence, is_all_caps, is_layout_eligible, is_line_end, is_sentence_punctuation,
    is_structural, is_structural_boundary, is_submission_boundary, looks_like_all_caps,
    on_app_list, render_for_code_check, code_reading,
};
use crate::engine::switcher::SwitcherEngine;
use crate::engine::types::{copy_keys, opt_name, Correction, LastWord, WordBoundaryKey};
use crate::keys::{plain_key, replay_keys_of, replay_of, ReplayKey, WordKey};
use crate::layouts::{key_of_char, names, reading, LayoutDb, LayoutId, LayoutMapping};
use crate::logsafe::{redact_word, redacted};
use crate::settings::Settings;
use crate::text::{chars_of, letters_lower, letters_only_lower, push_char};

verus! {

broadcast use vstd::string::group_string_axioms;

// ─── What the decision reads ─────────────────────────────────────────

/// A word the buffer has just closed.
pub struct CompletedWord {
    pub keys: Vec<WordKey>,
    /// The separator the word opened after.
    pub lead: Option<(u32, bool)>,
    pub boundary_scancode: u32,
    pub boundary_shift: bool,
    /// The word started right after an observed separator.
    pub started_clean: bool,
}

/// What the host saw of the desktop at that moment.
pub struct Surroundings {
    /// None where the OS could not be asked.
    pub current_layout: Option<LayoutId>,
    /// None where the OS could not be asked.
    pub os_active: Option<Vec<LayoutId>>,
    pub focused_exe: Option<String>,
    /// The word, rendered by [`SwitcherEngine::code_check_text`], looks
    /// like an identifier.
    pub code_token: bool,
}

/// The layout the word was typed in: the one stamped on its first key, or
/// the current one where there is no stamp.
pub open spec fn typed_in(stamp: Option<LayoutId>, current: Seq<char>) -> Seq<char> {
    match stamp {
        Some(id) => id@,
        None => current,
    }
}

/// The character the closing key stands for: what the layout says, or what
/// the key means in every layout, or a space.
pub open spec fn boundary_char(
    layouts: LayoutDb,
    current: Seq<char>,
    scancode: u32,
    shift: bool,
) -> char {
    match layouts.renders(current, plain_key(scancode, shift)) {
        Some(c) => c,
        None => if scancode == 0x1C || scancode == 0x60 {
            '\n'
        } else if scancode == 0x0F {
            '\t'
        } else {
            ' '
        },
    }
}

/// The names of an optional list.
pub open spec fn opt_list(ids: Option<Vec<LayoutId>>) -> Option<Seq<Seq<char>>> {
    match ids {
        Some(v) => Some(names(v@)),
        None => None,
    }
}

/// The eligible layouts of a table, each with what the word reads as in it.
pub open spec fn candidates_of(
    rows: Seq<(LayoutId, LayoutMapping)>,
    keys: Seq<WordKey>,
    current: Seq<char>,
    active: Seq<Seq<char>>,
    ignored: Seq<Seq<char>>,
    os_active: Option<Seq<Seq<char>>>,
) -> Seq<(Seq<char>, Seq<char>)>
    decreases rows.len(),
{
    if rows.len() == 0 {
        Seq::empty()
    } else {
        let init = candidates_of(rows.drop_last(), keys, current, active, ignored, os_active);
        let row = rows.last();
        if eligible(row.0@, current, active, ignored, os_active) {
            init.push((row.0@, reading(row.1.levels@, keys)))
        } else {
            init
        }
    }
}

/// A list of candidates by name and text.
pub open spec fn candidate_views(c: Seq<(LayoutId, String)>) -> Seq<(Seq<char>, Seq<char>)> {
    c.map_values(|x: (LayoutId, String)| (x.0@, x.1@))
}

/// In some candidate layout the closing key types sentence punctuation.
pub open spec fn punctuation_somewhere(
    layouts: LayoutDb,
    candidates: Seq<(Seq<char>, Seq<char>)>,
    scancode: u32,
    shift: bool,
) -> bool {
    exists|i: int|
        0 <= i < candidates.len() && (layouts.renders(
            (#[trigger] candidates[i]).0,
            plain_key(scancode, shift),
        ) matches Some(c) && ends_sentence(c))
}

// ─── Filters ─────────────────────────────────────────────────────────

/// Why a word is kept without asking a detector, in the order of the
/// questions.
#[derive(Clone, Copy, PartialEq, Eq, Structural, Debug)]
pub enum Filter {
    LayoutChanged,
    Whitelisted,
    SubmissionBoundary,
    StructuralSuffix,
    StructuralPrefix,
    LeadingHyphen,
    AllCaps,
    DisabledApp,
    CodeToken,
}

/// What the filters ask of a word.
#[derive(Clone, Copy, PartialEq, Eq, Structural, Debug)]
pub struct WordFacts {
    pub layout_changed: bool,
    pub whitelisted: bool,
    pub boundary: char,
    /// The closing key is sentence punctuation in some candidate layout.
    pub punctuation_elsewhere: bool,
    pub lead: Option<char>,
    pub opens_with_hyphen: bool,
    pub all_caps: bool,
    pub app_disabled: bool,
    pub code_token: bool,
}

/// One filter's own question.
pub open spec fn filter_applies(filter: Filter, f: WordFacts) -> bool {
    match filter {
        Filter::LayoutChanged => f.layout_changed,
        Filter::Whitelisted => f.whitelisted,
        Filter::SubmissionBoundary => is_line_end(f.boundary),
        Filter::StructuralSuffix => is_structural(f.boundary) && !f.punctuation_elsewhere,
        Filter::StructuralPrefix => f.lead matches Some(c) && is_structural(c),
        Filter::LeadingHyphen => f.opens_with_hyphen,
        Filter::AllCaps => f.all_caps,
        Filter::DisabledApp => f.app_disabled,
        Filter::CodeToken => f.code_token,
    }
}

/// The filters in the order they are asked.
pub open spec fn filter_order() -> Seq<Filter> {
    seq![
        Filter::LayoutChanged,
        Filter::Whitelisted,
        Filter::SubmissionBoundary,
        Filter::StructuralSuffix,
        Filter::StructuralPrefix,
        Filter::LeadingHyphen,
        Filter::AllCaps,
        Filter::DisabledApp,
        Filter::CodeToken,
    ]
}

/// `filter` applies and no earlier one does.
pub open spec fn is_first_filter(filter: Filter, f: WordFacts) -> bool {
    exists|i: int|
        0 <= i < 9 && #[trigger] filter_order()[i] == filter && filter_applies(filter, f) && forall|
            j: int,
        |
            0 <= j < i ==> !filter_applies(#[trigger] filter_order()[j], f)
}

/// The first filter that applies to a word, if any does.
pub fn first_filter(f: &WordFacts) -> (filter: Option<Filter>)
    ensures
        match filter {
            Some(x) => is_first_filter(x, *f),
            None => forall|x: Filter| !filter_applies(x, *f),
        },
{
    let order = filter_order_list();
    let mut i: usize = 0;
    while i < order.len()
        invariant
            i <= order.len(),
            order@ == filter_order(),
            forall|j: int| 0 <= j < i ==> !filter_applies(#[trigger] filter_order()[j], *f),
        decreases order.len() - i,
    {
        if asks(order[i], f) {
            assert(filter_order()[i as int] == order[i as int]);
            return Some(order[i]);
        }
        i += 1;
    }
    proof {
        assert forall|x: Filter| !filter_applies(x, *f) by {
            let s = filter_order();
            assert(s[0] == Filter::LayoutChanged && s[1] == Filter::Whitelisted && s[2]
                == Filter::SubmissionBoundary && s[3] == Filter::StructuralSuffix && s[4]
                == Filter::StructuralPrefix && s[5] == Filter::LeadingHyphen && s[6]
                == Filter::AllCaps && s[7] == Filter::DisabledApp && s[8] == Filter::CodeToken);
        }
    }
    None
}

fn filter_order_list() -> (v: Vec<Filter>)
    ensures
        v@ == filter_order(),
{
    let v = vec![
        Filter::LayoutChanged,
        Filter::Whitelisted,
        Filter::SubmissionBoundary,
        Filter::StructuralSuffix,
        Filter::StructuralPrefix,
        Filter::LeadingHyphen,
        Filter::AllCaps,
        Filter::DisabledApp,
        Filter::CodeToken,
    ];
    assert(v@ =~= filter_order());
    v
}

fn asks(filter: Filter, f: &WordFacts) -> (b: bool)
    ensures
        b == filter_applies(filter, *f),
{
    match filter {
        Filter::LayoutChanged => f.layout_changed,
        Filter::Whitelisted => f.whitelisted,
        Filter::SubmissionBoundary => is_submission_boundary(f.boundary),
        Filter::StructuralSuffix => is_structural_boundary(f.boundary) && !f.punctuation_elsewhere,
        Filter::StructuralPrefix => match f.lead {
            Some(c) => is_structural_boundary(c),
            None => false,
        },
        Filter::LeadingHyphen => f.opens_with_hyphen,
        Filter::AllCaps => f.all_caps,
        Filter::DisabledApp => f.app_disabled,
        Filter::CodeToken => f.code_token,
    }
}

/// What is said of a word that a filter kept. Of the word itself only its
/// length appears.
pub open spec fn keep_message(
    filter: Filter,
    word_len: nat,
    typed: Seq<char>,
    current: Seq<char>,
    boundary: char,
    lead: char,
    exe: Seq<char>,
) -> Seq<char> {
    let red = redacted(word_len);
    match filter {
        Filter::LayoutChanged => "layout changed from "@ + typed + " to "@ + current + " while "@
            + red + " was being typed"@,
        Filter::Whitelisted => red + " is on the word whitelist"@,
        Filter::SubmissionBoundary => "submission boundary after "@ + red
            + " — not re-emitting Enter/Tab"@,
        Filter::StructuralSuffix => "structural boundary `"@ + seq![boundary] + "` after "@ + red
            + " — likely URL / path / email / code"@,
        Filter::StructuralPrefix => "structural prefix `"@ + seq![lead] + "` before "@ + red
            + " — likely URL / path / email / code"@,
        Filter::LeadingHyphen => red + " opens with a hyphen — likely a command-line flag"@,
        Filter::AllCaps => red
            + " is ALL CAPS — likely an abbreviation, not a wrong-layout word"@,
        Filter::DisabledApp => "app `"@ + exe + "` on disabled_apps list"@,
        Filter::CodeToken => "token "@ + red + " looks like an identifier"@,
    }
}

/// Why a filter kept a word, in words.
pub fn keep_reason(
    filter: Filter,
    word: &str,
    typed: &str,
    current: &str,
    boundary: char,
    lead: char,
    exe: &str,
) -> (s: String)
    ensures
        s@ == keep_message(filter, word@.len(), typed@, current@, boundary, lead, exe@),
{
    let red = redact_word(word);
    match filter {
        Filter::LayoutChanged => {
            let mut s = "layout changed from ".to_owned();
            s.append(typed);
            s.append(" to ");
            s.append(current);
            s.append(" while ");
            s.append(red.as_str());
            s.append(" was being typed");
            s
        },
        Filter::Whitelisted => red.concat(" is on the word whitelist"),
        Filter::SubmissionBoundary => {
            let mut s = "submission boundary after ".to_owned();
            s.append(red.as_str());
            s.append(" — not re-emitting Enter/Tab");
            s
        },
        Filter::StructuralSuffix => {
            let mut s = "structural boundary `".to_owned();
            push_char(&mut s, boundary);
            s.append("` after ");
            s.append(red.as_str());
            s.append(" — likely URL / path / email / code");
            s
        },
        Filter::StructuralPrefix => {
            let mut s = "structural prefix `".to_owned();
            push_char(&mut s, lead);
            s.append("` before ");
            s.append(red.as_str());
            s.append(" — likely URL / path / email / code");
            s
        },
        Filter::LeadingHyphen => red.concat(
            " opens with a hyphen — likely a command-line flag",
        ),
        Filter::AllCaps => red.concat(
            " is ALL CAPS — likely an abbreviation, not a wrong-layout word",
        ),
        Filter::DisabledApp => {
            let mut s = "app `".to_owned();
            s.append(exe);
            s.append("` on disabled_apps list");
            s
        },
        Filter::CodeToken => {
            let mut s = "token ".to_owned();
            s.append(red.as_str());
            s.append(" looks like an identifier");
            s
        },
    }
}

/// Two words of one length leave the same trail: a reason never tells what
/// was typed.
pub proof fn law_reasons_do_not_tell_the_word(
    filter: Filter,
    a: &str,
    b: &str,
    typed: &str,
    current: &str,
    boundary: char,
    lead: char,
    exe: &str,
    x: String,
    y: String,
)
    requires
        a@.len() == b@.len(),
        call_ensures(keep_reason, (filter, a, typed, current, boundary, lead, exe), x),
        call_ensures(keep_reason, (filter, b, typed, current, boundary, lead, exe), y),
    ensures
        x@ == y@,
{
}

// ─── The decision ────────────────────────────────────────────────────

/// What a word that passed every filter is judged by.
pub struct Judgement {
    pub current_layout: LayoutId,
    pub current_text: String,
    pub candidates: Vec<(LayoutId, String)>,
    pub boundary_char: char,
}

pub enum Decision {
    /// Nothing to decide about, or no layout to decide from.
    Ignored,
    /// The word is stashed for the manual hotkey and left alone.
    Paused,
    Kept { filter: Filter, reason: String },
    /// The detectors are to be asked.
    Judge(Judgement),
}

/// The candidates for a word.
pub open spec fn word_candidates(
    layouts: LayoutDb,
    settings: Settings,
    word: CompletedWord,
    around: Surroundings,
) -> Seq<(Seq<char>, Seq<char>)>
    recommends
        around.current_layout is Some,
{
    candidates_of(
        layouts.layouts@,
        word.keys@,
        around.current_layout->0@,
        names(settings.languages.active@),
        names(settings.languages.ignored@),
        opt_list(around.os_active),
    )
}

/// What the word reads as where it was typed.
pub open spec fn word_text(
    stamp: Option<LayoutId>,
    layouts: LayoutDb,
    word: CompletedWord,
    around: Surroundings,
) -> Seq<char> {
    layouts.reads(typed_in(stamp, around.current_layout->0@), word.keys@)
}

/// What the filters are asked about a word.
pub open spec fn word_facts(
    stamp: Option<LayoutId>,
    layouts: LayoutDb,
    settings: Settings,
    word: CompletedWord,
    around: Surroundings,
) -> WordFacts
    recommends
        around.current_layout is Some,
{
    let current = around.current_layout->0@;
    let text = word_text(stamp, layouts, word, around);
    WordFacts {
        layout_changed: typed_in(stamp, current) != current,
        whitelisted: settings.exceptions.whitelists(letters_lower(text)),
        boundary: boundary_char(layouts, current, word.boundary_scancode, word.boundary_shift),
        punctuation_elsewhere: punctuation_somewhere(
            layouts,
            word_candidates(layouts, settings, word, around),
            word.boundary_scancode,
            word.boundary_shift,
        ),
        lead: match word.lead {
            Some(k) => layouts.renders(current, plain_key(k.0, k.1)),
            None => None,
        },
        opens_with_hyphen: text.len() > 0 && text[0] == '-',
        all_caps: settings.engine.suppress_for_all_caps && is_all_caps(text),
        app_disabled: around.focused_exe matches Some(exe) && on_app_list(
            exe@,
            settings.exceptions.disabled_apps@,
        ),
        code_token: settings.engine.suppress_in_identifiers && around.code_token,
    }
}

/// The stash for a word that has just been closed.
pub open spec fn stashes(
    w: LastWord,
    stamp: Option<LayoutId>,
    layouts: LayoutDb,
    word: CompletedWord,
    around: Surroundings,
) -> bool {
    let current = around.current_layout->0@;
    &&& w.keys@ == word.keys@
    &&& w.rendered@ == word_text(stamp, layouts, word, around)
    &&& w.layout@ == typed_in(stamp, current)
    &&& w.boundary == Some(
        WordBoundaryKey {
            ch: boundary_char(layouts, current, word.boundary_scancode, word.boundary_shift),
            scancode: word.boundary_scancode,
            shift: word.boundary_shift,
        },
    )
    &&& w.corrected_to is None
    &&& !w.user_placed
}

impl SwitcherEngine {
    /// Best-effort translation under the current layout. `None` when the OS
    /// could not be asked or the key gives nothing.
    pub fn translate_via_current_layout(
        layouts: &LayoutDb,
        current: &Option<LayoutId>,
        scancode: u32,
        shift: bool,
        caps: bool,
    ) -> (c: Option<char>)
        ensures
            c == match *current {
                Some(id) => layouts.renders(
                    id@,
                    WordKey { scancode, shift, caps, timestamp_ms: 0 },
                ),
                None => None,
            },
    {
        match current {
            Some(id) => match layouts.get(id) {
                Some(m) => m.translate_key(WordKey { scancode, shift, caps, timestamp_ms: 0 }),
                None => None,
            },
            None => None,
        }
    }

    /// The layout the word was typed in.
    pub fn typed_layout(&self, current: &LayoutId) -> (id: LayoutId)
        ensures
            id@ == typed_in(self.word_layout, current@),
    {
        match &self.word_layout {
            Some(id) => id.copy(),
            None => current.copy(),
        }
    }

    /// The rendering of a word that the identifier check is asked about.
    pub fn code_check_text(
        &self,
        layouts: &LayoutDb,
        keys: &Vec<WordKey>,
        current: &LayoutId,
    ) -> (s: String)
        ensures
            s@ == if layouts.known(current@) {
                code_reading(*layouts, current@, keys@)
            } else {
                layouts.reads(typed_in(self.word_layout, current@), keys@)
            },
    {
        let text = layouts.translate_under(&self.typed_layout(current), keys.as_slice());
        render_for_code_check(keys.as_slice(), current, layouts, text.as_str())
    }

    /// The word the user is still typing, shaped as something the manual
    /// hotkey can act on. `None` on a buffer that lost the caret, on an
    /// empty one, and where the layout cannot be told or is unknown.
    pub fn word_in_progress(
        &self,
        keys: &Vec<WordKey>,
        poisoned: bool,
        current: &Option<LayoutId>,
        layouts: &LayoutDb,
    ) -> (w: Option<LastWord>)
        ensures
            ({
                let stamp = match self.word_layout {
                    Some(id) => Some(id@),
                    None => opt_name(*current),
                };
                match w {
                    Some(x) => {
                        &&& !poisoned && keys@.len() > 0
                        &&& stamp == Some(x.layout@) && layouts.known(x.layout@)
                        &&& x.keys@ == keys@
                        &&& x.rendered@ == layouts.reads(x.layout@, keys@)
                        &&& x.boundary is None && x.corrected_to is None && !x.user_placed
                    },
                    None => poisoned || keys@.len() == 0 || stamp is None || !layouts.known(
                        stamp->0,
                    ),
                }
            }),
    {
        if poisoned || keys.len() == 0 {
            return None;
        }
        let layout = match &self.word_layout {
            Some(id) => id.copy(),
            None => match current {
                Some(id) => id.copy(),
                None => {
                    return None;
                },
            },
        };
        let rendered = match layouts.get(&layout) {
            Some(m) => m.translate_buffer(keys.as_slice()),
            None => {
                return None;
            },
        };
        Some(
            LastWord {
                keys: copy_keys(keys),
                rendered,
                layout,
                boundary: None,
                corrected_to: None,
                user_placed: false,
            },
        )
    }

    /// Decide about a completed word, up to the point where the detectors
    /// are asked. The word is stashed before any filter can keep it, so the
    /// manual hotkey works on words the automatic path skips.
    pub fn decide(
        &mut self,
        layouts: &LayoutDb,
        settings: &Settings,
        word: &CompletedWord,
        around: &Surroundings,
    ) -> (d: Decision)
        ensures
            word.keys@.len() == 0 || around.current_layout is None ==> d is Ignored && *final(self)
                == *old(self),
            word.keys@.len() > 0 && around.current_layout is Some ==> {
                let stamp = old(self).word_layout;
                let current = around.current_layout->0@;
                let facts = word_facts(stamp, *layouts, *settings, *word, *around);
                let text = word_text(stamp, *layouts, *word, *around);
                &&& final(self).last_word matches Some(w) && stashes(
                    w,
                    stamp,
                    *layouts,
                    *word,
                    *around,
                )
                &&& *final(self) == (SwitcherEngine {
                    last_word: final(self).last_word,
                    ..*old(self)
                })
                &&& match d {
                    Decision::Ignored => false,
                    Decision::Paused => old(self).paused,
                    Decision::Kept { filter, reason } => {
                        &&& !old(self).paused
                        &&& is_first_filter(filter, facts)
                        &&& reason@ == keep_message(
                            filter,
                            text.len(),
                            typed_in(stamp, current),
                            current,
                            facts.boundary,
                            match facts.lead {
                                Some(c) => c,
                                None => ' ',
                            },
                            match around.focused_exe {
                                Some(exe) => exe@,
                                None => ""@,
                            },
                        )
                    },
                    Decision::Judge(j) => {
                        &&& !old(self).paused
                        &&& forall|x: Filter| !filter_applies(x, facts)
                        &&& j.current_layout@ == current
                        &&& j.current_text@ == text
                        &&& candidate_views(j.candidates@) == word_candidates(
                            *layouts,
                            *settings,
                            *word,
                            *around,
                        )
                        &&& j.boundary_char == facts.boundary
                        &&& are_the_allowed(*layouts, *settings, *around, j.candidates@)
                    },
                }
            },
    {
        if word.keys.len() == 0 {
            return Decision::Ignored;
        }
        let current = match &around.current_layout {
            Some(id) => id.copy(),
            None => {
                return Decision::Ignored;
            },
        };
        let candidates = collect_candidates(layouts, settings, &word.keys, &current, around);
        let typed = self.typed_layout(&current);
        let text = layouts.translate_under(&typed, word.keys.as_slice());
        let lead = match word.lead {
            Some(k) => boundary_char_in_layout(layouts, &current, k.0, k.1),
            None => None,
        };
        let boundary = closing_char(layouts, &current, word.boundary_scancode, word.boundary_shift);
        self.last_word = Some(
            LastWord {
                keys: copy_keys(&word.keys),
                rendered: text.clone(),
                layout: typed.copy(),
                boundary: Some(
                    WordBoundaryKey {
                        ch: boundary,
                        scancode: word.boundary_scancode,
                        shift: word.boundary_shift,
                    },
                ),
                corrected_to: None,
                user_placed: false,
            },
        );
        if self.paused {
            return Decision::Paused;
        }
        let facts = WordFacts {
            layout_changed: !typed.same(&current),
            whitelisted: settings.exceptions.is_whitelisted(
                letters_only_lower(text.as_str()).as_str(),
            ),
            boundary,
            punctuation_elsewhere: any_punctuation(
                layouts,
                &candidates,
                word.boundary_scancode,
                word.boundary_shift,
            ),
            lead,
            opens_with_hyphen: opens_with_hyphen(text.as_str()),
            all_caps: settings.engine.suppress_for_all_caps && looks_like_all_caps(text.as_str()),
            app_disabled: match &around.focused_exe {
                Some(exe) => app_is_disabled(
                    exe.as_str(),
                    settings.exceptions.disabled_apps.as_slice(),
                ),
                None => false,
            },
            code_token: settings.engine.suppress_in_identifiers && around.code_token,
        };
        match first_filter(&facts) {
            Some(filter) => {
                let exe = match &around.focused_exe {
                    Some(exe) => exe.as_str(),
                    None => "",
                };
                let lead_char = match lead {
                    Some(c) => c,
                    None => ' ',
                };
                let reason = keep_reason(
                    filter,
                    text.as_str(),
                    typed.as_str(),
                    current.as_str(),
                    boundary,
                    lead_char,
                    exe,
                );
                Decision::Kept { filter, reason }
            },
            None => {
                proof {
                    lemma_judged_candidates(
                        *layouts,
                        *settings,
                        *word,
                        *around,
                        candidates@,
                    );
                }
                Decision::Judge(
                    Judgement {
                        current_layout: current,
                        current_text: text,
                        candidates,
                        boundary_char: boundary,
                    },
                )
            },
        }
    }
}

fn opens_with_hyphen(s: &str) -> (b: bool)
    ensures
        b == (s@.len() > 0 && s@[0] == '-'),
{
    let v = chars_of(s);
    v.len() > 0 && v[0] == '-'
}

fn closing_char(layouts: &LayoutDb, current: &LayoutId, scancode: u32, shift: bool) -> (c: char)
    ensures
        c == boundary_char(*layouts, current@, scancode, shift),
{
    match boundary_char_in_layout(layouts, current, scancode, shift) {
        Some(c) => c,
        None => match scancode {
            0x1C | 0x60 => '\n',
            0x0F => '\t',
            _ => ' ',
        },
    }
}

fn collect_candidates(
    layouts: &LayoutDb,
    settings: &Settings,
    keys: &Vec<WordKey>,
    current: &LayoutId,
    around: &Surroundings,
) -> (out: Vec<(LayoutId, String)>)
    ensures
        candidate_views(out@) == candidates_of(
            layouts.layouts@,
            keys@,
            current@,
            names(settings.languages.active@),
            names(settings.languages.ignored@),
            opt_list(around.os_active),
        ),
{
    let mut out: Vec<(LayoutId, String)> = Vec::new();
    let mut i: usize = 0;
    assert(candidate_views(out@) =~= Seq::empty());
    while i < layouts.layouts.len()
        invariant
            i <= layouts.layouts.len(),
            candidate_views(out@) == candidates_of(
                layouts.layouts@.take(i as int),
                keys@,
                current@,
                names(settings.languages.active@),
                names(settings.languages.ignored@),
                opt_list(around.os_active),
            ),
        decreases layouts.layouts.len() - i,
    {
        assert(layouts.layouts@.take(i + 1).drop_last() =~= layouts.layouts@.take(i as int));
        let os_active = match &around.os_active {
            Some(v) => Some(v.as_slice()),
            None => None,
        };
        let row = &layouts.layouts[i];
        if is_layout_eligible(
            &row.0,
            current,
            settings.languages.active.as_slice(),
            settings.languages.ignored.as_slice(),
            os_active,
        ) {
            let ghost before = out@;
            let id = row.0.copy();
            let text = row.1.translate_buffer(keys.as_slice());
            out.push((id, text));
            assert(candidate_views(out@) =~= candidate_views(before).push((id@, text@)));
        }
        i += 1;
    }
    assert(layouts.layouts@.take(layouts.layouts@.len() as int) =~= layouts.layouts@);
    out
}

fn any_punctuation(
    layouts: &LayoutDb,
    candidates: &Vec<(LayoutId, String)>,
    scancode: u32,
    shift: bool,
) -> (b: bool)
    ensures
        b == punctuation_somewhere(*layouts, candidate_views(candidates@), scancode, shift),
{
    let ghost views = candidate_views(candidates@);
    let mut i: usize = 0;
    while i < candidates.len()
        invariant
            i <= candidates.len(),
            views == candidate_views(candidates@),
            forall|j: int|
                0 <= j < i ==> !(layouts.renders(
                    (#[trigger] views[j]).0,
                    plain_key(scancode, shift),
                ) matches Some(c) && ends_sentence(c)),
        decreases candidates.len() - i,
    {
        if let Some(c) = boundary_char_in_layout(layouts, &candidates[i].0, scancode, shift) {
            if is_sentence_punctuation(c) {
                assert(views[i as int].0 == candidates@[i as int].0@);
                return true;
            }
        }
        i += 1;
    }
    false
}

// ─── The verdict ─────────────────────────────────────────────────────

/// What the first detector with an opinion said.
pub enum Verdict {
    NoOpinion,
    Keep { reason: String },
    Switch {
        best_layout: LayoutId,
        /// The confidence reaches the threshold.
        confident: bool,
        reason: String,
        /// The two numbers, as they are shown.
        confidence: String,
        threshold: String,
    },
}

impl Verdict {
    /// It settles the matter: no further detector is asked.
    pub fn has_opinion(&self) -> (b: bool)
        ensures
            b == !(self is NoOpinion),
    {
        !matches!(self, Verdict::NoOpinion)
    }
}

/// The first of the detectors' verdicts, in the order of their priority,
/// that is one; a veto is one.
pub open spec fn first_said(verdicts: Seq<Verdict>) -> Verdict
    decreases verdicts.len(),
{
    if verdicts.len() == 0 {
        Verdict::NoOpinion
    } else if verdicts[0] is NoOpinion {
        first_said(verdicts.drop_first())
    } else {
        verdicts[0]
    }
}

pub fn first_opinion(verdicts: Vec<Verdict>) -> (v: Verdict)
    ensures
        v == first_said(verdicts@),
{
    let ghost all = verdicts@;
    let mut rest = verdicts;
    let mut first = Verdict::NoOpinion;
    assert(all.skip(all.len() as int) =~= Seq::empty());
    while rest.len() > 0
        invariant
            rest@.len() <= all.len(),
            rest@ == all.take(rest@.len() as int),
            first == first_said(all.skip(rest@.len() as int)),
        decreases rest.len(),
    {
        let ghost n = rest@.len() - 1;
        let last = rest.pop();
        assert(rest@ =~= all.take(n));
        assert(all.skip(n).drop_first() =~= all.skip(n + 1));
        match last {
            None => {},
            Some(Verdict::NoOpinion) => {},
            Some(v) => {
                first = v;
            },
        }
    }
    assert(all.skip(0) =~= all);
    first
}

pub enum SwitchAction {
    KeepCurrent {
        reason: String,
        /// Worth offering, not worth doing.
        low_conf_alt: Option<(LayoutId, String)>,
        /// The word may get spelling suggestions.
        offer_suggestions: bool,
    },
    SwitchAndReplay(Correction),
}

/// The text of the first candidate of that name.
pub open spec fn candidate_text(
    candidates: Seq<(Seq<char>, Seq<char>)>,
    id: Seq<char>,
) -> Option<Seq<char>>
    decreases candidates.len(),
{
    if candidates.len() == 0 {
        None
    } else if candidates[0].0 == id {
        Some(candidates[0].1)
    } else {
        candidate_text(candidates.drop_first(), id)
    }
}

fn find_candidate(candidates: &Vec<(LayoutId, String)>, id: &LayoutId) -> (text: Option<String>)
    ensures
        match text {
            Some(t) => candidate_text(candidate_views(candidates@), id@) == Some(t@),
            None => candidate_text(candidate_views(candidates@), id@) is None,
        },
{
    let ghost views = candidate_views(candidates@);
    let mut i: usize = 0;
    assert(views.skip(0) =~= views);
    while i < candidates.len()
        invariant
            i <= candidates.len(),
            views == candidate_views(candidates@),
            candidate_text(views, id@) == candidate_text(views.skip(i as int), id@),
        decreases candidates.len() - i,
    {
        assert(views.skip(i as int)[0] == views[i as int]);
        assert(views[i as int] == (candidates@[i as int].0@, candidates@[i as int].1@));
        if candidates[i].0.same(id) {
            return Some(candidates[i].1.clone());
        }
        assert(views.skip(i as int).drop_first() =~= views.skip(i + 1));
        i += 1;
    }
    None
}

/// A structural separator that the target layout reads as sentence
/// punctuation.
pub open spec fn reinterprets(
    layouts: LayoutDb,
    target: Seq<char>,
    scancode: u32,
    shift: bool,
    boundary: char,
) -> bool {
    is_structural(boundary) && (layouts.renders(target, plain_key(scancode, shift)) matches Some(c)
        && ends_sentence(c))
}

/// What a confident switch to `target` types in place of the word.
pub open spec fn is_correction_to(
    c: Correction,
    layouts: LayoutDb,
    word: CompletedWord,
    j: Judgement,
    target: Seq<char>,
    reason: Seq<char>,
    play_sound: bool,
) -> bool {
    let turn = reinterprets(
        layouts,
        target,
        word.boundary_scancode,
        word.boundary_shift,
        j.boundary_char,
    );
    let text = match candidate_text(candidate_views(j.candidates@), target) {
        Some(t) => t,
        None => Seq::empty(),
    };
    let closing = if turn {
        layouts.renders(target, plain_key(word.boundary_scancode, word.boundary_shift))->0
    } else {
        j.boundary_char
    };
    let key = if turn {
        (word.boundary_scancode, word.boundary_shift)
    } else {
        boundary_key(
            layouts,
            target,
            word.boundary_scancode,
            word.boundary_shift,
            j.boundary_char,
        )
    };
    &&& c.from@ == j.current_layout@
    &&& c.to@ == target
    &&& c.original@ == j.current_text@
    &&& c.corrected@ == text.push(closing)
    &&& c.backspaces == word.keys@.len() + 1
    &&& c.reason@ == reason
    &&& c.play_sound == play_sound
    &&& c.replay_keys matches Some(rk) && rk@ == replay_of(word.keys@).push(
        ReplayKey { scancode: key.0, shift: key.1 },
    )
    &&& c.pointer_click_allowance == 0
}

/// What is done about a judged word, given the verdict. A confident switch
/// erases the word with its separator and replays both under the target,
/// unless the separator would stay structural there; everything else keeps
/// the word.
pub fn act_on_verdict(
    layouts: &LayoutDb,
    word: &CompletedWord,
    j: &Judgement,
    verdict: Verdict,
    play_sound: bool,
) -> (action: SwitchAction)
    requires
        word.keys.len() < usize::MAX,
    ensures
        match verdict {
            Verdict::Switch { best_layout, confident, reason, confidence, threshold } => {
                let turn = reinterprets(
                    *layouts,
                    best_layout@,
                    word.boundary_scancode,
                    word.boundary_shift,
                    j.boundary_char,
                );
                let alt = candidate_text(candidate_views(j.candidates@), best_layout@);
                if !confident {
                    &&& action matches SwitchAction::KeepCurrent {
                        reason: r,
                        low_conf_alt,
                        offer_suggestions,
                    }
                    &&& r@ == "detector confidence "@ + confidence@ + " below threshold "@
                        + threshold@
                    &&& offer_suggestions == word.started_clean
                    &&& match low_conf_alt {
                        Some(a) => a.0@ == best_layout@ && alt == Some(a.1@),
                        None => alt is None,
                    }
                } else if is_structural(j.boundary_char) && !turn {
                    &&& action matches SwitchAction::KeepCurrent {
                        reason: r,
                        low_conf_alt,
                        offer_suggestions,
                    }
                    &&& r@ == "structural boundary `"@ + seq![j.boundary_char] + "` after "@
                        + redacted(j.current_text@.len()) + " remains structural in target layout"@
                    &&& low_conf_alt is None
                    &&& offer_suggestions == word.started_clean
                } else {
                    &&& action matches SwitchAction::SwitchAndReplay(c)
                    &&& is_correction_to(c, *layouts, *word, *j, best_layout@, reason@, play_sound)
                }
            },
            Verdict::Keep { reason } => {
                &&& action matches SwitchAction::KeepCurrent {
                    reason: r,
                    low_conf_alt,
                    offer_suggestions,
                }
                &&& r@ == "veto by detector: "@ + reason@
                &&& low_conf_alt is None
                &&& offer_suggestions == word.started_clean
            },
            Verdict::NoOpinion => {
                &&& action matches SwitchAction::KeepCurrent {
                    reason: r,
                    low_conf_alt,
                    offer_suggestions,
                }
                &&& r@ == "no detector had an opinion"@
                &&& low_conf_alt is None
                &&& offer_suggestions == word.started_clean
            },
        },
{
    let offer_suggestions = word.started_clean;
    match verdict {
        Verdict::NoOpinion => SwitchAction::KeepCurrent {
            reason: "no detector had an opinion".to_owned(),
            low_conf_alt: None,
            offer_suggestions,
        },
        Verdict::Keep { reason } => {
            let mut r = "veto by detector: ".to_owned();
            r.append(reason.as_str());
            SwitchAction::KeepCurrent { reason: r, low_conf_alt: None, offer_suggestions }
        },
        Verdict::Switch { best_layout, confident, reason, confidence, threshold } => {
            let found = find_candidate(&j.candidates, &best_layout);
            if !confident {
                let low_conf_alt = match found {
                    Some(t) => Some((best_layout.copy(), t)),
                    None => None,
                };
                let mut r = "detector confidence ".to_owned();
                r.append(confidence.as_str());
                r.append(" below threshold ");
                r.append(threshold.as_str());
                return SwitchAction::KeepCurrent {
                    reason: r,
                    low_conf_alt,
                    offer_suggestions,
                };
            }
            let structural = is_structural_boundary(j.boundary_char);
            let in_target = boundary_char_in_layout(
                layouts,
                &best_layout,
                word.boundary_scancode,
                word.boundary_shift,
            );
            let turn = structural && match in_target {
                Some(c) => is_sentence_punctuation(c),
                None => false,
            };
            if structural && !turn {
                let mut r = "structural boundary `".to_owned();
                push_char(&mut r, j.boundary_char);
                r.append("` after ");
                r.append(redact_word(j.current_text.as_str()).as_str());
                r.append(" remains structural in target layout");
                return SwitchAction::KeepCurrent {
                    reason: r,
                    low_conf_alt: None,
                    offer_suggestions,
                };
            }
            let mut corrected = match found {
                Some(t) => t,
                None => String::new(),
            };
            let closing = match in_target {
                Some(c) => if turn {
                    c
                } else {
                    j.boundary_char
                },
                None => j.boundary_char,
            };
            corrected.push(closing);
            let (key_sc, key_shift) = if turn {
                (word.boundary_scancode, word.boundary_shift)
            } else {
                boundary_key_for(
                    layouts,
                    &best_layout,
                    word.boundary_scancode,
                    word.boundary_shift,
                    j.boundary_char,
                )
            };
            let mut replay = replay_keys_of(&word.keys);
            replay.push(ReplayKey { scancode: key_sc, shift: key_shift });
            SwitchAction::SwitchAndReplay(
                Correction {
                    from: j.current_layout.copy(),
                    to: best_layout,
                    original: j.current_text.clone(),
                    corrected,
                    backspaces: word.keys.len() + 1,
                    reason,
                    play_sound,
                    replay_keys: Some(replay),
                    pointer_click_allowance: 0,
                },
            )
        },
    }
}

/// A layout whose two tables agree: the key it names for a character types
/// that character.
pub open spec fn tables_agree(layouts: LayoutDb, id: Seq<char>) -> bool {
    forall|ch: char| #[trigger]
        key_of_char(layouts.chars(id), ch) matches Some(k) ==> layouts.renders(
            id,
            plain_key(k.0, k.1),
        ) == Some(ch)
}

/// The user's separator survives the switch: the replayed key types the
/// same character in the target, wherever the target can type it at all.
pub proof fn law_separator_survives_the_switch(
    layouts: LayoutDb,
    target: Seq<char>,
    scancode: u32,
    shift: bool,
    ch: char,
)
    requires
        tables_agree(layouts, target),
        key_of_char(layouts.chars(target), ch) is Some,
    ensures
        ({
            let k = boundary_key(layouts, target, scancode, shift, ch);
            layouts.renders(target, plain_key(k.0, k.1)) == Some(ch)
        }),
{
}

/// Enter and Tab are never pressed again by an automatic correction: no
/// word closed by one is judged.
pub proof fn law_submission_is_never_judged(f: WordFacts)
    requires
        forall|x: Filter| !filter_applies(x, f),
    ensures
        f.boundary != '\n',
        f.boundary != '\r',
        f.boundary != '\t',
{
    assert(!filter_applies(Filter::SubmissionBoundary, f));
}

} // verus!
