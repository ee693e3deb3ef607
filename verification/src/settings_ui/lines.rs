//! What a pane is made of: a list of lines, each a text or a control with
//! what it does. Texts carry the key they are translated by.

use vstd::prelude::*;
use vstd::string::*;

use crate::settings_ui::enums::{
    CommandActionKind, HotkeyKind, Pane, ThemeChoice, TrayIconStyle, WordlistKind,
};
use crate::text::{chars_of, push_char, texts};

verus! {

/// Where a link leads.
#[derive(Clone, Copy, PartialEq, Eq, Structural, Debug)]
pub enum Link {
    Site,
    Repository,
    Issues,
}

/// What a control does when it is used. Rows are addressed by their place.
#[derive(Clone, Copy, PartialEq, Eq, Structural, Debug)]
pub enum UiAction {
    SelectPane(Pane),
    LanguageActive(usize),
    LanguageIgnored(usize),
    RebindStart(HotkeyKind),
    RebindCancel,
    SelectionEnabled,
    CommandRemove(usize),
    CommandName,
    CommandTrigger,
    CommandKind(CommandActionKind),
    CommandParam,
    CommandApps,
    CommandAdd,
    /// None for the global list.
    WordlistProfile(Option<usize>),
    WordlistLayout(usize),
    WordlistKind(WordlistKind),
    ExceptionRemove(usize),
    ExceptionDraft,
    ExceptionAdd,
    /// True for manual conversion only.
    ManualOnly(bool),
    Autostart,
    SoundOnCorrect,
    ShowNotifications,
    SuppressInIdentifiers,
    IdleTimeout(i32),
    Theme(ThemeChoice),
    TrayIcon(TrayIconStyle),
    OpenConfigFile,
    OpenLogsDir,
    OpenWordlistsDir,
    OpenLayoutsDir,
    SuggestionsEnabled,
    SuggestionMax(i64),
    SuggestionTimeout(i64),
    SuggestionModifiers,
    OpenLink(Link),
    ResetDefaults,
    Reload,
    Save,
}

// ─── Labels ──────────────────────────────────────────────────────────

/// A text of the window: the key it is translated by, empty for a text that
/// is shown as it is; the English text; and what its `{}` stand for, in
/// order.
#[derive(Clone, Debug)]
pub struct Label {
    pub key: String,
    pub text: String,
    pub args: Vec<String>,
}

#[verifier::ext_equal]
pub struct LabelV {
    pub key: Seq<char>,
    pub text: Seq<char>,
    pub args: Seq<Seq<char>>,
}

impl View for Label {
    type V = LabelV;

    open spec fn view(&self) -> LabelV {
        LabelV { key: self.key@, text: self.text@, args: texts(self.args@) }
    }
}

/// A text that is translated.
pub open spec fn said(key: Seq<char>, text: Seq<char>) -> LabelV {
    LabelV { key, text, args: Seq::empty() }
}

/// A text that is shown as it is.
pub open spec fn bare(text: Seq<char>) -> LabelV {
    said(Seq::empty(), text)
}

/// `template` with each `{}` replaced by the next of `args`, as far as they
/// go.
pub open spec fn filled(template: Seq<char>, args: Seq<Seq<char>>) -> Seq<char>
    decreases template.len(),
{
    if args.len() == 0 || template.len() < 2 {
        template
    } else if template[0] == '{' && template[1] == '}' {
        args[0] + filled(template.skip(2), args.skip(1))
    } else {
        seq![template[0]] + filled(template.skip(1), args)
    }
}

fn fill_in(template: &str, args: &Vec<String>) -> (s: String)
    ensures
        s@ == filled(template@, texts(args@)),
{
    let t = chars_of(template);
    let ghost all = texts(args@);
    let mut s = String::new();
    let mut i: usize = 0;
    let mut k: usize = 0;
    assert(t@.skip(0) =~= t@);
    assert(all.skip(0) =~= all);
    assert(s@ + filled(t@, all) =~= filled(t@, all));
    while i < t.len()
        invariant
            i <= t.len(),
            k <= args.len(),
            all == texts(args@),
            s@ + filled(t@.skip(i as int), all.skip(k as int)) == filled(t@, all),
        decreases t.len() - i,
    {
        let ghost before = s@;
        let ghost rest = t@.skip(i as int);
        let ghost left = all.skip(k as int);
        if k < args.len() && i + 1 < t.len() && t[i] == '{' && t[i + 1] == '}' {
            s.append(args[k].as_str());
            proof {
                assert(left[0] == args@[k as int]@);
                assert(rest.skip(2) =~= t@.skip(i + 2));
                assert(left.skip(1) =~= all.skip(k + 1));
                let more = filled(t@.skip(i + 2), all.skip(k + 1));
                assert(before + (left[0] + more) =~= before + left[0] + more);
            }
            k += 1;
            i += 2;
        } else {
            push_char(&mut s, t[i]);
            proof {
                assert(rest.skip(1) =~= t@.skip(i + 1));
                let more = filled(t@.skip(i + 1), left);
                assert(filled(rest, left) =~= seq![rest[0]] + more) by {
                    if left.len() == 0 || rest.len() < 2 {
                        assert(rest =~= seq![rest[0]] + rest.skip(1));
                        assert(more == rest.skip(1));
                    }
                }
                assert(before.push(rest[0]) + more =~= before + (seq![rest[0]] + more));
            }
            i += 1;
        }
    }
    assert(t@.skip(i as int).len() == 0);
    assert(s@ + filled(t@.skip(i as int), all.skip(k as int)) =~= s@);
    s
}

impl Label {
    /// The label as it is shown, in the translation where there is one, in
    /// English otherwise.
    pub fn shown(&self, translation: Option<&str>) -> (s: String)
        ensures
            s@ == filled(
                match translation {
                    Some(t) => t@,
                    None => self@.text,
                },
                self@.args,
            ),
    {
        match translation {
            Some(t) => fill_in(t, &self.args),
            None => fill_in(self.text.as_str(), &self.args),
        }
    }
}

/// A text without arguments is shown letter by letter, braces and all.
pub proof fn law_a_bare_text_is_shown_as_it_is(text: Seq<char>)
    ensures
        filled(bare(text).text, bare(text).args) == text,
{
}

/// A text that is translated by `key`.
pub fn say(key: &str, text: &str) -> (l: Label)
    ensures
        l@ == said(key@, text@),
{
    let args: Vec<String> = Vec::new();
    assert(texts(args@) =~= Seq::empty());
    Label { key: key.to_owned(), text: text.to_owned(), args }
}

/// The same with what its `{}` stand for.
pub fn say_with(key: &str, text: &str, args: Vec<String>) -> (l: Label)
    ensures
        l@ == (LabelV { key: key@, text: text@, args: texts(args@) }),
{
    Label { key: key.to_owned(), text: text.to_owned(), args }
}

/// A text that is shown as it is.
pub fn verbatim(text: &str) -> (l: Label)
    ensures
        l@ == bare(text@),
{
    let key = String::new();
    assert(key@ =~= Seq::empty());
    let args: Vec<String> = Vec::new();
    assert(texts(args@) =~= Seq::empty());
    Label { key, text: text.to_owned(), args }
}

// ─── Lines ───────────────────────────────────────────────────────────

/// A button, or one choice among several.
pub struct Chip {
    pub label: Label,
    pub selected: bool,
    pub action: UiAction,
}

#[verifier::ext_equal]
pub struct ChipV {
    pub label: LabelV,
    pub selected: bool,
    pub action: UiAction,
}

impl View for Chip {
    type V = ChipV;

    open spec fn view(&self) -> ChipV {
        ChipV { label: self.label@, selected: self.selected, action: self.action }
    }
}

pub open spec fn chip_views(chips: Seq<Chip>) -> Seq<ChipV> {
    chips.map_values(|c: Chip| c@)
}

pub enum Line {
    CardStart,
    CardEnd,
    Header { title: Label, subtitle: Label },
    Section(Label),
    Text(Label),
    /// Muted.
    Hint(Label),
    Warning(Label),
    Mono(Label),
    /// A footnote.
    Tip(Label),
    Status { text: String, is_error: bool },
    /// Without an action the control is disabled.
    Check { label: Label, on: bool, action: Option<UiAction> },
    Chips { caption: Label, chips: Vec<Chip> },
    Buttons(Vec<Chip>),
    Input {
        caption: Label,
        placeholder: Label,
        value: String,
        action: Option<UiAction>,
        submit: Option<UiAction>,
    },
    Stepper {
        caption: Label,
        down: Label,
        down_action: Option<UiAction>,
        value: String,
        up: Label,
        up_action: Option<UiAction>,
        hint: Label,
    },
    Layout {
        id: String,
        active_label: Label,
        active: bool,
        ignored_label: Label,
        ignored: bool,
        row: usize,
    },
    /// The keys are drawn one by one, with `joiner` between them.
    Hotkey {
        label: Label,
        prompt: Option<Label>,
        keys: Vec<String>,
        joiner: Label,
        button: Chip,
    },
    Removable { key: String, text: String, remove: UiAction },
    Editor { placeholder: Label },
}

#[verifier::ext_equal]
pub enum LineV {
    CardStart,
    CardEnd,
    Header { title: LabelV, subtitle: LabelV },
    Section(LabelV),
    Text(LabelV),
    Hint(LabelV),
    Warning(LabelV),
    Mono(LabelV),
    Tip(LabelV),
    Status { text: Seq<char>, is_error: bool },
    Check { label: LabelV, on: bool, action: Option<UiAction> },
    Chips { caption: LabelV, chips: Seq<ChipV> },
    Buttons(Seq<ChipV>),
    Input {
        caption: LabelV,
        placeholder: LabelV,
        value: Seq<char>,
        action: Option<UiAction>,
        submit: Option<UiAction>,
    },
    Stepper {
        caption: LabelV,
        down: LabelV,
        down_action: Option<UiAction>,
        value: Seq<char>,
        up: LabelV,
        up_action: Option<UiAction>,
        hint: LabelV,
    },
    Layout {
        id: Seq<char>,
        active_label: LabelV,
        active: bool,
        ignored_label: LabelV,
        ignored: bool,
        row: usize,
    },
    Hotkey {
        label: LabelV,
        prompt: Option<LabelV>,
        keys: Seq<Seq<char>>,
        joiner: LabelV,
        button: ChipV,
    },
    Removable { key: Seq<char>, text: Seq<char>, remove: UiAction },
    Editor { placeholder: LabelV },
}

impl View for Line {
    type V = LineV;

    open spec fn view(&self) -> LineV {
        match *self {
            Line::CardStart => LineV::CardStart,
            Line::CardEnd => LineV::CardEnd,
            Line::Header { title, subtitle } => LineV::Header { title: title@, subtitle: subtitle@ },
            Line::Section(t) => LineV::Section(t@),
            Line::Text(t) => LineV::Text(t@),
            Line::Hint(t) => LineV::Hint(t@),
            Line::Warning(t) => LineV::Warning(t@),
            Line::Mono(t) => LineV::Mono(t@),
            Line::Tip(t) => LineV::Tip(t@),
            Line::Status { text, is_error } => LineV::Status { text: text@, is_error },
            Line::Check { label, on, action } => LineV::Check { label: label@, on, action },
            Line::Chips { caption, chips } => LineV::Chips {
                caption: caption@,
                chips: chip_views(chips@),
            },
            Line::Buttons(chips) => LineV::Buttons(chip_views(chips@)),
            Line::Input { caption, placeholder, value, action, submit } => LineV::Input {
                caption: caption@,
                placeholder: placeholder@,
                value: value@,
                action,
                submit,
            },
            Line::Stepper { caption, down, down_action, value, up, up_action, hint } =>
            LineV::Stepper {
                caption: caption@,
                down: down@,
                down_action,
                value: value@,
                up: up@,
                up_action,
                hint: hint@,
            },
            Line::Layout { id, active_label, active, ignored_label, ignored, row } =>
            LineV::Layout {
                id: id@,
                active_label: active_label@,
                active,
                ignored_label: ignored_label@,
                ignored,
                row,
            },
            Line::Hotkey { label, prompt, keys, joiner, button } => LineV::Hotkey {
                label: label@,
                prompt: match prompt {
                    Some(p) => Some(p@),
                    None => None,
                },
                keys: texts(keys@),
                joiner: joiner@,
                button: button@,
            },
            Line::Removable { key, text, remove } => LineV::Removable {
                key: key@,
                text: text@,
                remove,
            },
            Line::Editor { placeholder } => LineV::Editor { placeholder: placeholder@ },
        }
    }
}

pub open spec fn line_views(lines: Seq<Line>) -> Seq<LineV> {
    lines.map_values(|l: Line| l@)
}

pub fn header(title: Label, subtitle: Label) -> (l: Line)
    ensures
        l@ == (LineV::Header { title: title@, subtitle: subtitle@ }),
{
    Line::Header { title, subtitle }
}

pub fn section(t: Label) -> (l: Line)
    ensures
        l@ == LineV::Section(t@),
{
    Line::Section(t)
}

pub fn plain(t: Label) -> (l: Line)
    ensures
        l@ == LineV::Text(t@),
{
    Line::Text(t)
}

pub fn hint(t: Label) -> (l: Line)
    ensures
        l@ == LineV::Hint(t@),
{
    Line::Hint(t)
}

pub fn warning(t: Label) -> (l: Line)
    ensures
        l@ == LineV::Warning(t@),
{
    Line::Warning(t)
}

pub fn mono(t: Label) -> (l: Line)
    ensures
        l@ == LineV::Mono(t@),
{
    Line::Mono(t)
}

pub fn tip(t: Label) -> (l: Line)
    ensures
        l@ == LineV::Tip(t@),
{
    Line::Tip(t)
}

pub fn check(label: Label, on: bool, action: Option<UiAction>) -> (l: Line)
    ensures
        l@ == (LineV::Check { label: label@, on, action }),
{
    Line::Check { label, on, action }
}

pub fn chip(label: Label, selected: bool, action: UiAction) -> (c: Chip)
    ensures
        c@ == (ChipV { label: label@, selected, action }),
{
    Chip { label, selected, action }
}

pub fn choices(caption: Label, chips: Vec<Chip>) -> (l: Line)
    ensures
        l@ == (LineV::Chips { caption: caption@, chips: chip_views(chips@) }),
{
    Line::Chips { caption, chips }
}

pub fn buttons(chips: Vec<Chip>) -> (l: Line)
    ensures
        l@ == LineV::Buttons(chip_views(chips@)),
{
    Line::Buttons(chips)
}

pub fn input(
    caption: Label,
    placeholder: Label,
    value: &str,
    action: Option<UiAction>,
    submit: Option<UiAction>,
) -> (l: Line)
    ensures
        l@ == (LineV::Input {
            caption: caption@,
            placeholder: placeholder@,
            value: value@,
            action,
            submit,
        }),
{
    Line::Input {
        caption,
        placeholder,
        value: value.to_owned(),
        action,
        submit,
    }
}

pub fn stepper(
    caption: Label,
    down: Label,
    down_action: Option<UiAction>,
    value: &str,
    up: Label,
    up_action: Option<UiAction>,
    hint: Label,
) -> (l: Line)
    ensures
        l@ == (LineV::Stepper {
            caption: caption@,
            down: down@,
            down_action,
            value: value@,
            up: up@,
            up_action,
            hint: hint@,
        }),
{
    Line::Stepper {
        caption,
        down,
        down_action,
        value: value.to_owned(),
        up,
        up_action,
        hint,
    }
}

pub fn removable(key: &str, text: &str, remove: UiAction) -> (l: Line)
    ensures
        l@ == (LineV::Removable { key: key@, text: text@, remove }),
{
    Line::Removable { key: key.to_owned(), text: text.to_owned(), remove }
}

pub fn editor(placeholder: Label) -> (l: Line)
    ensures
        l@ == (LineV::Editor { placeholder: placeholder@ }),
{
    Line::Editor { placeholder }
}

/// Put `more` behind `lines`.
pub fn append(lines: &mut Vec<Line>, more: Vec<Line>)
    ensures
        line_views(final(lines)@) == line_views(old(lines)@) + line_views(more@),
{
    let ghost a = line_views(lines@);
    let ghost b = line_views(more@);
    let mut more = more;
    lines.append(&mut more);
    assert(line_views(lines@) =~= a + b);
}

} // verus!
