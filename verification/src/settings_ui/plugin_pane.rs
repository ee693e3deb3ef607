//! State behind the Plug-ins pane: one entry per installed extension,
//! holding the values its manifest declared and knowing what to write back.
//!
//! The pane edits *the plug-in's* config file, so only the keys the
//! manifest declared are ever touched. The file itself is read and written
//! by the host: an edit is handed out here, and its outcome handed back.

use std::collections::HashMap;

use vstd::prelude::*;
use vstd::string::*;

use crate::assoc::{AssocMap, MapKey};
use crate::plugins::types::{
    ControlKind, Decimal, DiscoveredExtension, PaneControl, PaneOption, SettingValue,
};
use crate::text::{
    contains_text, is_blank, is_blank_text, lemma_blank_trims_to_nothing,
    lemma_split_is_never_empty, list_contains, lowercase, signed_decimal, signed_decimal_text,
    split, split_on, str_eq, text_contains, texts, to_lowercase, trim, trim_ref, trimmed,
};

verus! {

broadcast use {vstd::std_specs::hash::group_hash_axioms, vstd::string::group_string_axioms};

// ─── Boxes ───────────────────────────────────────────────────────────

/// What a control that has to *ask the plug-in* is showing right now.
#[derive(Clone, Debug)]
pub enum CommandOutput {
    Loading,
    /// It answered. May legitimately be empty text.
    Ready(String),
    /// It could not be asked, or it failed.
    Failed(String),
}

/// Which box on the pane is being talked about.
#[derive(Clone, Copy, PartialEq, Eq, Structural, Debug)]
pub struct Slot {
    pub control: usize,
    /// Position in the control's `fields`. `None` — the control itself.
    pub field: Option<usize>,
    /// Which card of a repeating group. `None` — not in one.
    pub row: Option<usize>,
}

pub open spec fn control_slot(control: usize) -> Slot {
    Slot { control, field: None, row: None }
}

pub open spec fn asked_slot(slot: Slot) -> Slot {
    Slot { row: None, ..slot }
}

impl Slot {
    /// One of the plug-in's own controls.
    pub fn control(control: usize) -> (s: Slot)
        ensures
            s == control_slot(control),
    {
        Slot { control, field: None, row: None }
    }

    /// One field of one card.
    pub fn field(control: usize, row: usize, field: usize) -> (s: Slot)
        ensures
            s == (Slot { control, field: Some(field), row: Some(row) }),
    {
        Slot { control, field: Some(field), row: Some(row) }
    }

    /// The same box with the card forgotten — what a command's answer is
    /// filed under, since one answer serves every card.
    pub fn asked(self) -> (s: Slot)
        ensures
            s == asked_slot(self),
    {
        Slot { control: self.control, field: self.field, row: None }
    }
}

impl MapKey for Slot {
    type Id = Slot;

    open spec fn id(&self) -> Slot {
        *self
    }

    fn same_key(&self, other: &Self) -> (b: bool) {
        self.control == other.control && self.field == other.field && self.row == other.row
    }
}

/// The box of one field of one card, by the field's name.
#[derive(Clone, Debug)]
pub struct RecordBox {
    pub control: usize,
    pub row: usize,
    pub field: String,
}

impl MapKey for RecordBox {
    type Id = (usize, usize, Seq<char>);

    open spec fn id(&self) -> (usize, usize, Seq<char>) {
        (self.control, self.row, self.field@)
    }

    fn same_key(&self, other: &Self) -> (b: bool) {
        self.control == other.control && self.row == other.row && str_eq(
            self.field.as_str(),
            other.field.as_str(),
        )
    }
}

/// The box the cursor is in.
#[derive(Clone, Debug)]
pub enum Typing {
    Control(usize),
    Record { control: usize, row: usize, field: String },
}

/// One row of a list control.
#[derive(Clone, Debug, PartialEq, Eq)]
pub struct ListRow {
    /// What goes into the config array when the box is ticked.
    pub id: String,
    /// What the user reads.
    pub label: String,
    /// A line under it.
    pub detail: String,
}

pub struct ListRowV {
    pub id: Seq<char>,
    pub label: Seq<char>,
    pub detail: Seq<char>,
}

impl View for ListRow {
    type V = ListRowV;

    open spec fn view(&self) -> ListRowV {
        ListRowV { id: self.id@, label: self.label@, detail: self.detail@ }
    }
}

pub open spec fn list_views(rows: Seq<ListRow>) -> Seq<ListRowV> {
    rows.map_values(|r: ListRow| r@)
}

/// What one printed line says: tab-separated, the id, the label, one
/// detail; an id is its own label where none is given.
pub open spec fn list_row_of(line: Seq<char>) -> ListRowV {
    let fields = split(line, '\t');
    let id = trimmed(fields[0]);
    let label = if fields.len() > 1 {
        trimmed(fields[1])
    } else {
        Seq::empty()
    };
    ListRowV {
        id,
        label: if label.len() == 0 {
            id
        } else {
            label
        },
        detail: if fields.len() > 2 {
            trimmed(fields[2])
        } else {
            Seq::empty()
        },
    }
}

/// The rows of the lines: blank lines and rows without an id are left out.
pub open spec fn list_rows_of(lines: Seq<Seq<char>>) -> Seq<ListRowV>
    decreases lines.len(),
{
    if lines.len() == 0 {
        Seq::empty()
    } else {
        let init = list_rows_of(lines.drop_last());
        let row = list_row_of(lines.last());
        if is_blank(lines.last()) || row.id.len() == 0 {
            init
        } else {
            init.push(row)
        }
    }
}

fn parse_list_row(line: &str) -> (row: ListRow)
    ensures
        row@ == list_row_of(line@),
{
    proof {
        lemma_split_is_never_empty(line@, '\t');
    }
    let fields = split_on(line, '\t');
    let ghost f = texts(fields@);
    assert(f[0] == fields@[0]@);
    let id = trim(fields[0].as_str());
    let label = if fields.len() > 1 {
        assert(f[1] == fields@[1]@);
        trim(fields[1].as_str())
    } else {
        String::new()
    };
    let detail = if fields.len() > 2 {
        assert(f[2] == fields@[2]@);
        trim(fields[2].as_str())
    } else {
        String::new()
    };
    let label = if label.as_str().is_empty() {
        id.clone()
    } else {
        label
    };
    ListRow { id, label, detail }
}

/// Parse a list command's output into rows, one per line.
pub fn parse_list_rows(text: &str) -> (rows: Vec<ListRow>)
    ensures
        list_views(rows@) == list_rows_of(split(text@, '\n')),
{
    let lines = split_on(text, '\n');
    let ghost all = texts(lines@);
    let mut rows: Vec<ListRow> = Vec::new();
    let mut i: usize = 0;
    assert(list_views(rows@) =~= list_rows_of(all.take(0)));
    while i < lines.len()
        invariant
            i <= lines.len(),
            all == texts(lines@),
            list_views(rows@) == list_rows_of(all.take(i as int)),
        decreases lines.len() - i,
    {
        let ghost before = list_views(rows@);
        proof {
            assert(all.take(i + 1).drop_last() =~= all.take(i as int));
            assert(all.take(i + 1).last() == lines@[i as int]@);
        }
        if !is_blank_text(lines[i].as_str()) {
            let row = parse_list_row(lines[i].as_str());
            let ghost v = row@;
            if !row.id.as_str().is_empty() {
                rows.push(row);
                assert(list_views(rows@) =~= before.push(v));
            }
        }
        i += 1;
    }
    assert(all.take(all.len() as int) =~= all);
    rows
}

// ─── Values ──────────────────────────────────────────────────────────

/// What a value reads as in a text box.
pub open spec fn display_text(v: SettingValue) -> Seq<char> {
    match v {
        SettingValue::Bool(b) => if b {
            "true"@
        } else {
            "false"@
        },
        SettingValue::Int(n) => signed_decimal(n as int),
        SettingValue::Float(d) => d.shown@,
        SettingValue::Text(t) => t@,
    }
}

impl SettingValue {
    pub fn as_display(&self) -> (s: String)
        ensures
            s@ == display_text(*self),
    {
        match self {
            SettingValue::Bool(b) => if *b {
                "true".to_owned()
            } else {
                "false".to_owned()
            },
            SettingValue::Int(n) => signed_decimal_text(*n),
            SettingValue::Float(d) => d.shown.clone(),
            SettingValue::Text(t) => t.clone(),
        }
    }

    /// A second copy of the same value.
    pub fn copy(&self) -> (v: SettingValue)
        ensures
            v == *self,
    {
        match self {
            SettingValue::Bool(b) => SettingValue::Bool(*b),
            SettingValue::Int(n) => SettingValue::Int(*n),
            SettingValue::Float(d) => SettingValue::Float(
                Decimal { bits: d.bits, shown: d.shown.clone() },
            ),
            SettingValue::Text(t) => SettingValue::Text(t.clone()),
        }
    }
}

/// A second copy of an optional value.
pub fn copy_value(v: &Option<SettingValue>) -> (out: Option<SettingValue>)
    ensures
        out == *v,
{
    match v {
        Some(x) => Some(x.copy()),
        None => None,
    }
}

/// One row of a repeating group: its declared fields, and what the file
/// holds for each.
pub struct RecordRow {
    pub fields: AssocMap<String, Option<SettingValue>>,
}

// ─── The pane ────────────────────────────────────────────────────────

/// One plug-in as the pane sees it.
pub struct PluginPane {
    pub ext: DiscoveredExtension,
    /// The plug-in's own config file.
    pub config_path: String,
    /// Current value per control. `None` means the file does not set it.
    pub values: Vec<Option<SettingValue>>,
    /// Result of the last edit.
    pub status: Option<String>,
    /// What each command-backed box is showing; absent means never asked.
    pub outputs: AssocMap<Slot, CommandOutput>,
    /// Which section is on screen; `None` means the first one.
    pub section: Option<usize>,
    /// What is in a text box right now, before it is a value.
    pub edits: AssocMap<usize, String>,
    /// Which members each list control's array currently holds.
    pub arrays: HashMap<usize, Vec<String>>,
    /// The rows a command-backed box is drawing.
    pub rows: AssocMap<Slot, Vec<ListRow>>,
    /// Which suggestion box has its list open, if any.
    pub open_suggest: Option<Slot>,
    /// Which card's button is running.
    pub running_action: Option<(usize, usize)>,
    /// What each repeating group holds, one entry per row.
    pub records: HashMap<usize, Vec<RecordRow>>,
    /// What is being typed into a record's field, before it is a value.
    pub record_edits: AssocMap<RecordBox, String>,
}

/// The controls a manifest declares.
pub open spec fn controls_of(p: PluginPane) -> Seq<PaneControl> {
    p.ext.manifest.pane@
}

pub open spec fn kind_at(p: PluginPane, i: int) -> Option<ControlKind> {
    if 0 <= i < controls_of(p).len() {
        Some(controls_of(p)[i].kind)
    } else {
        None
    }
}

/// The section headings among the first `n` controls, in order.
pub open spec fn sections_in(p: PluginPane, n: nat) -> Seq<usize>
    decreases n,
{
    if n == 0 {
        Seq::empty()
    } else {
        let init = sections_in(p, (n - 1) as nat);
        if kind_at(p, n - 1) == Some(ControlKind::Section) {
            init.push((n - 1) as usize)
        } else {
            init
        }
    }
}

/// The section on screen: what was chosen, or the first one.
pub open spec fn section_shown(p: PluginPane) -> Option<usize> {
    let all = sections_in(p, controls_of(p).len());
    if p.section matches Some(i) && kind_at(p, i as int) == Some(ControlKind::Section) {
        p.section
    } else if all.len() > 0 {
        Some(all[0])
    } else {
        None
    }
}

/// The nearest section heading before `n`.
pub open spec fn heading_before(p: PluginPane, n: nat) -> Option<usize>
    decreases n,
{
    if n == 0 {
        None
    } else if kind_at(p, n - 1) == Some(ControlKind::Section) {
        Some((n - 1) as usize)
    } else {
        heading_before(p, (n - 1) as nat)
    }
}

/// A control is on screen when there are no sections, when it is the
/// heading shown, or when it is no heading and belongs to the one shown or
/// to none.
pub open spec fn visible(p: PluginPane, i: int) -> bool {
    match section_shown(p) {
        None => true,
        Some(s) => if i == s {
            true
        } else if kind_at(p, i) == Some(ControlKind::Section) {
            false
        } else {
            let n = if i < controls_of(p).len() {
                i
            } else {
                controls_of(p).len() as int
            };
            match heading_before(p, n as nat) {
                Some(h) => h == s,
                None => true,
            }
        },
    }
}

/// The suggestion fields among the first `n` fields that have a command.
pub open spec fn field_slots(c: PaneControl, control: usize, n: nat) -> Seq<Slot>
    decreases n,
{
    if n == 0 {
        Seq::empty()
    } else {
        let f = (n - 1) as nat;
        let init = field_slots(c, control, f);
        if c.fields@[f as int].kind == ControlKind::Suggest && !is_blank(
            c.fields@[f as int].command@,
        ) {
            init.push(Slot { control, field: Some(f as usize), row: None })
        } else {
            init
        }
    }
}

/// The boxes of one control whose contents come from the plug-in.
pub open spec fn slots_of(c: PaneControl, control: usize) -> Seq<Slot> {
    match c.kind {
        ControlKind::Report | ControlKind::List => seq![control_slot(control)],
        ControlKind::Suggest => if is_blank(c.command@) {
            Seq::empty()
        } else {
            seq![control_slot(control)]
        },
        ControlKind::Records => field_slots(c, control, c.fields@.len()),
        _ => Seq::empty(),
    }
}

/// The boxes on screen among the first `n` controls whose contents come
/// from the plug-in.
pub open spec fn command_slots_in(p: PluginPane, n: nat) -> Seq<Slot>
    decreases n,
{
    if n == 0 {
        Seq::empty()
    } else {
        let i = (n - 1) as nat;
        let init = command_slots_in(p, i);
        if visible(p, i as int) {
            init + slots_of(controls_of(p)[i as int], i as usize)
        } else {
            init
        }
    }
}

pub open spec fn all_command_slots(p: PluginPane) -> Seq<Slot> {
    command_slots_in(p, controls_of(p).len())
}

/// The command declared for a box; none where it declares none.
pub open spec fn command_of(p: PluginPane, slot: Slot) -> Option<Seq<char>> {
    if slot.control >= controls_of(p).len() {
        None
    } else {
        let c = controls_of(p)[slot.control as int];
        let declared = match slot.field {
            Some(f) => if f < c.fields@.len() {
                Some(c.fields@[f as int].command@)
            } else {
                None
            },
            None => Some(c.command@),
        };
        match declared {
            Some(cmd) => if is_blank(cmd) {
                None
            } else {
                Some(trimmed(cmd))
            },
            None => None,
        }
    }
}

/// The slots grouped by their command, groups in the order their command
/// first comes up, slots without a command left out.
pub open spec fn grouped(p: PluginPane, slots: Seq<Slot>) -> Seq<(Seq<char>, Seq<Slot>)>
    decreases slots.len(),
{
    if slots.len() == 0 {
        Seq::empty()
    } else {
        let init = grouped(p, slots.drop_last());
        match command_of(p, slots.last()) {
            Some(cmd) => added_to_group(init, cmd, slots.last()),
            None => init,
        }
    }
}

/// The groups with `slot` put at the end of the first group of `cmd`, or in
/// a new group where there is none.
pub open spec fn added_to_group(
    groups: Seq<(Seq<char>, Seq<Slot>)>,
    cmd: Seq<char>,
    slot: Slot,
) -> Seq<(Seq<char>, Seq<Slot>)>
    decreases groups.len(),
{
    if groups.len() == 0 {
        seq![(cmd, seq![slot])]
    } else if groups[0].0 == cmd {
        groups.update(0, (cmd, groups[0].1.push(slot)))
    } else {
        seq![groups[0]] + added_to_group(groups.drop_first(), cmd, slot)
    }
}

impl PluginPane {
    /// There is one value per control.
    pub open spec fn wf(&self) -> bool {
        self.values@.len() == self.ext.manifest.pane@.len()
    }

    pub fn control(&self, index: usize) -> (c: Option<&PaneControl>)
        ensures
            match c {
                Some(x) => index < controls_of(*self).len() && *x == controls_of(*self)[index as int],
                None => index >= controls_of(*self).len(),
            },
    {
        if index < self.ext.manifest.pane.len() {
            Some(&self.ext.manifest.pane[index])
        } else {
            None
        }
    }

    fn is_section(&self, index: usize) -> (b: bool)
        ensures
            b == (kind_at(*self, index as int) == Some(ControlKind::Section)),
    {
        match self.control(index) {
            Some(c) => c.kind == ControlKind::Section,
            None => false,
        }
    }

    /// Every section heading, in declaration order.
    pub fn sections(&self) -> (v: Vec<usize>)
        ensures
            v@ == sections_in(*self, controls_of(*self).len()),
    {
        let mut v: Vec<usize> = Vec::new();
        let mut i: usize = 0;
        assert(v@ =~= sections_in(*self, 0));
        while i < self.ext.manifest.pane.len()
            invariant
                i <= controls_of(*self).len(),
                v@ == sections_in(*self, i as nat),
            decreases controls_of(*self).len() - i,
        {
            if self.is_section(i) {
                v.push(i);
            }
            i += 1;
        }
        v
    }

    /// The section on screen: what was chosen, or the first one.
    pub fn selected_section(&self) -> (s: Option<usize>)
        ensures
            s == section_shown(*self),
    {
        if let Some(i) = self.section {
            if self.is_section(i) {
                return Some(i);
            }
        }
        let all = self.sections();
        if all.len() > 0 {
            Some(all[0])
        } else {
            None
        }
    }

    /// Is this control on screen?
    pub fn is_visible(&self, index: usize) -> (b: bool)
        ensures
            b == visible(*self, index as int),
    {
        let selected = match self.selected_section() {
            Some(s) => s,
            None => {
                return true;
            },
        };
        if index == selected {
            return true;
        }
        if self.is_section(index) {
            return false;
        }
        let mut n: usize = if index < self.ext.manifest.pane.len() {
            index
        } else {
            self.ext.manifest.pane.len()
        };
        let ghost n0 = n;
        while n > 0
            invariant
                n <= n0,
                section_shown(*self) == Some(selected),
                index != selected,
                kind_at(*self, index as int) != Some(ControlKind::Section),
                n0 == if index < controls_of(*self).len() {
                    index as int
                } else {
                    controls_of(*self).len() as int
                },
                heading_before(*self, n as nat) == heading_before(*self, n0 as nat),
            decreases n,
        {
            if self.is_section(n - 1) {
                return n - 1 == selected;
            }
            n -= 1;
        }
        true
    }

    /// Every box on screen whose contents come from the plug-in: reports,
    /// tick-box lists and suggestion boxes, including the ones inside a
    /// repeating group's cards.
    pub fn command_slots(&self) -> (slots: Vec<Slot>)
        ensures
            slots@ == all_command_slots(*self),
    {
        let mut slots: Vec<Slot> = Vec::new();
        let mut i: usize = 0;
        assert(slots@ =~= command_slots_in(*self, 0));
        while i < self.ext.manifest.pane.len()
            invariant
                i <= controls_of(*self).len(),
                slots@ == command_slots_in(*self, i as nat),
            decreases controls_of(*self).len() - i,
        {
            if self.is_visible(i) {
                let ghost before = slots@;
                let mut own = slots_of_control(&self.ext.manifest.pane[i], i);
                slots.append(&mut own);
                assert(slots@ =~= before + slots_of(controls_of(*self)[i as int], i));
            }
            i += 1;
        }
        slots
    }

    /// Which controls need a command run and have not had one yet.
    pub fn unasked_commands(&self) -> (slots: Vec<Slot>)
        ensures
            slots@ == all_command_slots(*self).filter(|s: Slot| !self.outputs@.contains_key(s)),
    {
        let all = self.command_slots();
        let ghost p = |s: Slot| !self.outputs@.contains_key(s);
        let mut slots: Vec<Slot> = Vec::new();
        let mut i: usize = 0;
        proof {
            reveal(Seq::filter);
            assert(slots@ =~= all@.take(0).filter(p));
        }
        while i < all.len()
            invariant
                i <= all.len(),
                p == (|s: Slot| !self.outputs@.contains_key(s)),
                slots@ == all@.take(i as int).filter(p),
            decreases all.len() - i,
        {
            proof {
                reveal(Seq::filter);
                assert(all@.take(i + 1).drop_last() =~= all@.take(i as int));
            }
            if !self.outputs.contains_key(&all[i]) {
                slots.push(all[i]);
            }
            i += 1;
        }
        assert(all@.take(all@.len() as int) =~= all@);
        slots
    }

    /// The command behind one box, if it has one.
    pub fn command_id(&self, slot: Slot) -> (c: Option<&str>)
        ensures
            match c {
                Some(x) => command_of(*self, slot) == Some(x@),
                None => command_of(*self, slot) is None,
            },
    {
        let control = match self.control(slot.control) {
            Some(c) => c,
            None => {
                return None;
            },
        };
        let declared = match slot.field {
            Some(f) => {
                if f >= control.fields.len() {
                    return None;
                }
                control.fields[f].command.as_str()
            },
            None => control.command.as_str(),
        };
        proof {
            lemma_blank_trims_to_nothing(declared@);
        }
        let command = trim_ref(declared);
        if command.is_empty() {
            None
        } else {
            Some(command)
        }
    }

    /// [`Self::unasked_commands`], grouped so each command runs once.
    pub fn unasked_by_command(&self) -> (groups: Vec<Vec<Slot>>)
        ensures
            groups@.map_values(|g: Vec<Slot>| g@) == grouped(
                *self,
                all_command_slots(*self).filter(|s: Slot| !self.outputs@.contains_key(s)),
            ).map_values(|g: (Seq<char>, Seq<Slot>)| g.1),
    {
        let slots = self.unasked_commands();
        let mut groups: Vec<(String, Vec<Slot>)> = Vec::new();
        let mut i: usize = 0;
        assert(group_views(groups@) =~= grouped(*self, slots@.take(0)));
        while i < slots.len()
            invariant
                i <= slots.len(),
                group_views(groups@) == grouped(*self, slots@.take(i as int)),
            decreases slots.len() - i,
        {
            assert(slots@.take(i + 1).drop_last() =~= slots@.take(i as int));
            if let Some(command) = self.command_id(slots[i]) {
                add_to_group(&mut groups, command, slots[i]);
            }
            i += 1;
        }
        assert(slots@.take(slots@.len() as int) =~= slots@);
        let ghost g = group_views(groups@);
        let mut out: Vec<Vec<Slot>> = Vec::new();
        let mut k: usize = 0;
        while k < groups.len()
            invariant
                k <= groups.len(),
                out@.len() == k,
                g == group_views(groups@),
                forall|j: int| 0 <= j < k ==> (#[trigger] out@[j])@ == g[j].1,
            decreases groups.len() - k,
        {
            out.push(copy_slots(&groups[k].1));
            k += 1;
        }
        assert(out@.map_values(|x: Vec<Slot>| x@) =~= g.map_values(
            |x: (Seq<char>, Seq<Slot>)| x.1,
        ));
        out
    }

    /// Every box fed by the same command as this one, itself included.
    pub fn sharing_command(&self, slot: Slot) -> (slots: Vec<Slot>)
        ensures
            slots@ == if command_of(*self, slot) is Some {
                all_command_slots(*self).filter(
                    |s: Slot| command_of(*self, s) == command_of(*self, slot),
                )
            } else {
                Seq::empty()
            },
    {
        let mut slots: Vec<Slot> = Vec::new();
        let command = match self.command_id(slot) {
            Some(c) => c,
            None => {
                assert(slots@ =~= Seq::empty());
                return slots;
            },
        };
        let all = self.command_slots();
        let ghost p = |s: Slot| command_of(*self, s) == command_of(*self, slot);
        let mut i: usize = 0;
        proof {
            reveal(Seq::filter);
            assert(slots@ =~= all@.take(0).filter(p));
        }
        while i < all.len()
            invariant
                i <= all.len(),
                p == (|s: Slot| command_of(*self, s) == command_of(*self, slot)),
                command_of(*self, slot) == Some(command@),
                slots@ == all@.take(i as int).filter(p),
            decreases all.len() - i,
        {
            proof {
                reveal(Seq::filter);
                assert(all@.take(i + 1).drop_last() =~= all@.take(i as int));
            }
            if let Some(other) = self.command_id(all[i]) {
                if str_eq(other, command) {
                    slots.push(all[i]);
                }
            }
            i += 1;
        }
        assert(all@.take(all@.len() as int) =~= all@);
        slots
    }

    /// The report controls on screen, one slot each.
    pub fn reports_on_screen(&self) -> (slots: Vec<Slot>)
        ensures
            slots@ == reports_in(*self, controls_of(*self).len()),
    {
        let mut slots: Vec<Slot> = Vec::new();
        let mut i: usize = 0;
        assert(slots@ =~= reports_in(*self, 0));
        while i < self.ext.manifest.pane.len()
            invariant
                i <= controls_of(*self).len(),
                slots@ == reports_in(*self, i as nat),
            decreases controls_of(*self).len() - i,
        {
            if self.ext.manifest.pane[i].kind == ControlKind::Report && self.is_visible(i) {
                slots.push(Slot::control(i));
            }
            i += 1;
        }
        slots
    }
}

/// The reports on screen among the first `n` controls.
pub open spec fn reports_in(p: PluginPane, n: nat) -> Seq<Slot>
    decreases n,
{
    if n == 0 {
        Seq::empty()
    } else {
        let init = reports_in(p, (n - 1) as nat);
        if kind_at(p, n - 1) == Some(ControlKind::Report) && visible(p, n - 1) {
            init.push(control_slot((n - 1) as usize))
        } else {
            init
        }
    }
}

fn slots_of_control(c: &PaneControl, control: usize) -> (slots: Vec<Slot>)
    ensures
        slots@ == slots_of(*c, control),
{
    let mut slots: Vec<Slot> = Vec::new();
    match c.kind {
        ControlKind::Report | ControlKind::List => {
            slots.push(Slot::control(control));
            assert(slots@ =~= slots_of(*c, control));
        },
        ControlKind::Suggest => {
            if !is_blank_text(c.command.as_str()) {
                slots.push(Slot::control(control));
            }
            assert(slots@ =~= slots_of(*c, control));
        },
        ControlKind::Records => {
            let mut f: usize = 0;
            assert(slots@ =~= field_slots(*c, control, 0));
            while f < c.fields.len()
                invariant
                    f <= c.fields.len(),
                    slots@ == field_slots(*c, control, f as nat),
                decreases c.fields.len() - f,
            {
                if c.fields[f].kind == ControlKind::Suggest && !is_blank_text(
                    c.fields[f].command.as_str(),
                ) {
                    slots.push(Slot { control, field: Some(f), row: None });
                }
                f += 1;
            }
        },
        _ => {
            assert(slots@ =~= slots_of(*c, control));
        },
    }
    slots
}

pub open spec fn group_views(groups: Seq<(String, Vec<Slot>)>) -> Seq<(Seq<char>, Seq<Slot>)> {
    groups.map_values(|g: (String, Vec<Slot>)| (g.0@, g.1@))
}

fn copy_slots(v: &Vec<Slot>) -> (out: Vec<Slot>)
    ensures
        out@ == v@,
{
    let mut out: Vec<Slot> = Vec::new();
    let mut i: usize = 0;
    while i < v.len()
        invariant
            i <= v.len(),
            out@ == v@.take(i as int),
        decreases v.len() - i,
    {
        out.push(v[i]);
        i += 1;
        assert(out@ =~= v@.take(i as int));
    }
    assert(v@.take(v@.len() as int) =~= v@);
    out
}

proof fn lemma_group_found(groups: Seq<(Seq<char>, Seq<Slot>)>, cmd: Seq<char>, slot: Slot, i: int)
    requires
        0 <= i < groups.len(),
        groups[i].0 == cmd,
        forall|j: int| 0 <= j < i ==> (#[trigger] groups[j]).0 != cmd,
    ensures
        added_to_group(groups, cmd, slot) == groups.update(i, (cmd, groups[i].1.push(slot))),
    decreases groups.len(),
{
    if i > 0 {
        let rest = groups.drop_first();
        assert(groups[0].0 != cmd);
        assert forall|j: int| 0 <= j < i - 1 implies (#[trigger] rest[j]).0 != cmd by {
            assert(rest[j] == groups[j + 1]);
        }
        lemma_group_found(rest, cmd, slot, i - 1);
        assert(added_to_group(groups, cmd, slot) =~= groups.update(
            i,
            (cmd, groups[i].1.push(slot)),
        ));
    }
}

proof fn lemma_group_new(groups: Seq<(Seq<char>, Seq<Slot>)>, cmd: Seq<char>, slot: Slot)
    requires
        forall|j: int| 0 <= j < groups.len() ==> (#[trigger] groups[j]).0 != cmd,
    ensures
        added_to_group(groups, cmd, slot) == groups.push((cmd, seq![slot])),
    decreases groups.len(),
{
    if groups.len() > 0 {
        let rest = groups.drop_first();
        assert(groups[0].0 != cmd);
        assert forall|j: int| 0 <= j < rest.len() implies (#[trigger] rest[j]).0 != cmd by {
            assert(rest[j] == groups[j + 1]);
        }
        lemma_group_new(rest, cmd, slot);
    }
    assert(added_to_group(groups, cmd, slot) =~= groups.push((cmd, seq![slot])));
}

fn add_to_group(groups: &mut Vec<(String, Vec<Slot>)>, command: &str, slot: Slot)
    ensures
        group_views(final(groups)@) == added_to_group(
            group_views(old(groups)@),
            command@,
            slot,
        ),
{
    let ghost views = group_views(groups@);
    let mut i: usize = 0;
    while i < groups.len()
        invariant
            i <= groups.len(),
            views == group_views(groups@),
            *groups == *old(groups),
            forall|j: int| 0 <= j < i ==> (#[trigger] views[j]).0 != command@,
        decreases groups.len() - i,
    {
        assert(views[i as int].0 == groups@[i as int].0@);
        if str_eq(groups[i].0.as_str(), command) {
            let mut members = copy_slots(&groups[i].1);
            members.push(slot);
            let name = groups[i].0.clone();
            groups.set(i, (name, members));
            proof {
                lemma_group_found(views, command@, slot, i as int);
                assert(group_views(groups@) =~= views.update(
                    i as int,
                    (command@, views[i as int].1.push(slot)),
                ));
            }
            return;
        }
        i += 1;
    }
    let mut members: Vec<Slot> = Vec::new();
    members.push(slot);
    assert(members@ =~= seq![slot]);
    groups.push((command.to_owned(), members));
    proof {
        lemma_group_new(views, command@, slot);
        assert(group_views(groups@) =~= views.push((command@, seq![slot])));
    }
}

// ─── Answers and suggestions ─────────────────────────────────────────

/// The rows behind one box.
pub open spec fn rows_shown(p: PluginPane, slot: Slot) -> Seq<ListRowV> {
    if p.rows@.contains_key(asked_slot(slot)) {
        list_views(p.rows@[asked_slot(slot)]@)
    } else {
        Seq::empty()
    }
}

/// The rows on show are those of the answers on show.
pub open spec fn rows_in_step(p: PluginPane) -> bool {
    forall|s: Slot| #[trigger]
        p.rows@.contains_key(s) == (p.outputs@.contains_key(s) && p.outputs@[s] is Ready) && (
        p.rows@.contains_key(s) ==> list_views(p.rows@[s]@) == list_rows_of(
            split(p.outputs@[s]->Ready_0@, '\n'),
        ))
}

pub open spec fn pair_views(v: Seq<(String, String)>) -> Seq<(Seq<char>, Seq<char>)> {
    v.map_values(|x: (String, String)| (x.0@, x.1@))
}

pub open spec fn option_pairs(options: Seq<PaneOption>) -> Seq<(Seq<char>, Seq<char>)> {
    options.map_values(|o: PaneOption| (o.value@, o.detail@))
}

/// The value is among the pairs.
pub open spec fn offers(pairs: Seq<(Seq<char>, Seq<char>)>, value: Seq<char>) -> bool {
    exists|i: int| 0 <= i < pairs.len() && (#[trigger] pairs[i]).0 == value
}

/// The rows by what they store and their line of detail.
pub open spec fn row_pairs(rows: Seq<ListRowV>) -> Seq<(Seq<char>, Seq<char>)> {
    rows.map_values(|r: ListRowV| (r.id, r.detail))
}

/// The pairs in their order, of each value the first.
pub open spec fn first_of_each(pairs: Seq<(Seq<char>, Seq<char>)>) -> Seq<(Seq<char>, Seq<char>)>
    decreases pairs.len(),
{
    if pairs.len() == 0 {
        Seq::empty()
    } else {
        let init = first_of_each(pairs.drop_last());
        if offers(init, pairs.last().0) {
            init
        } else {
            init.push(pairs.last())
        }
    }
}

/// No value is offered twice.
pub open spec fn no_repeats(pairs: Seq<(Seq<char>, Seq<char>)>) -> bool {
    forall|i: int, j: int|
        0 <= i < j < pairs.len() ==> (#[trigger] pairs[i]).0 != (#[trigger] pairs[j]).0
}

proof fn lemma_first_of_each_has_no_repeats(pairs: Seq<(Seq<char>, Seq<char>)>)
    ensures
        no_repeats(first_of_each(pairs)),
    decreases pairs.len(),
{
    if pairs.len() > 0 {
        lemma_first_of_each_has_no_repeats(pairs.drop_last());
    }
}

/// Leaving pairs out makes no repeats.
proof fn lemma_filter_has_no_repeats(
    pairs: Seq<(Seq<char>, Seq<char>)>,
    keep: spec_fn((Seq<char>, Seq<char>)) -> bool,
)
    requires
        no_repeats(pairs),
    ensures
        no_repeats(pairs.filter(keep)),
        forall|v: Seq<char>| #[trigger] offers(pairs.filter(keep), v) ==> offers(pairs, v),
    decreases pairs.len(),
{
    reveal(Seq::filter);
    if pairs.len() > 0 {
        let init = pairs.drop_last();
        let last = pairs.last();
        assert(no_repeats(init)) by {
            assert forall|i: int, j: int| 0 <= i < j < init.len() implies (#[trigger] init[i]).0 != (
            #[trigger] init[j]).0 by {
                assert(pairs[i].0 != pairs[j].0);
            }
        }
        lemma_filter_has_no_repeats(init, keep);
        assert forall|v: Seq<char>| offers(init, v) implies offers(pairs, v) by {
            let i = choose|i: int| 0 <= i < init.len() && (#[trigger] init[i]).0 == v;
            assert(pairs[i].0 == v);
        }
        if keep(last) {
            let kept = init.filter(keep);
            assert(pairs.filter(keep) == kept.push(last));
            assert(!offers(init, last.0)) by {
                if offers(init, last.0) {
                    let i = choose|i: int| 0 <= i < init.len() && (#[trigger] init[i]).0 == last.0;
                    assert(pairs[i].0 != pairs[pairs.len() - 1].0);
                }
            }
            assert(!offers(kept, last.0));
            assert forall|i: int, j: int| 0 <= i < j < kept.push(last).len() implies (
            #[trigger] kept.push(last)[i]).0 != (#[trigger] kept.push(last)[j]).0 by {
                if j == kept.len() {
                    assert(kept[i].0 != last.0);
                } else {
                    assert(kept[i].0 != kept[j].0);
                }
            }
            assert forall|v: Seq<char>| #[trigger] offers(kept.push(last), v) implies offers(
                pairs,
                v,
            ) by {
                let i = choose|i: int|
                    0 <= i < kept.push(last).len() && (#[trigger] kept.push(last)[i]).0 == v;
                if i < kept.len() {
                    assert(kept[i].0 == v);
                    assert(offers(kept, v));
                } else {
                    assert(pairs[pairs.len() - 1].0 == v);
                }
            }
        }
    }
}

/// Keeping every pair keeps them all.
proof fn lemma_filter_of_all(
    pairs: Seq<(Seq<char>, Seq<char>)>,
    keep: spec_fn((Seq<char>, Seq<char>)) -> bool,
)
    requires
        forall|x: (Seq<char>, Seq<char>)| #[trigger] keep(x),
    ensures
        pairs.filter(keep) == pairs,
    decreases pairs.len(),
{
    reveal(Seq::filter);
    if pairs.len() > 0 {
        lemma_filter_of_all(pairs.drop_last(), keep);
        assert(pairs.drop_last().push(pairs.last()) =~= pairs);
    }
}

/// The choices the manifest names for a box; none where there is no such
/// box.
pub open spec fn options_of(p: PluginPane, slot: Slot) -> Option<Seq<PaneOption>> {
    if slot.control >= controls_of(p).len() {
        None
    } else {
        let c = controls_of(p)[slot.control as int];
        match slot.field {
            Some(f) => if f < c.fields@.len() {
                Some(c.fields@[f as int].options@)
            } else {
                None
            },
            None => Some(c.options@),
        }
    }
}

/// What a suggestion box offers: what the manifest named, then what the
/// plug-in answered, in that order and without repeats.
pub open spec fn suggestions_of(p: PluginPane, slot: Slot) -> Seq<(Seq<char>, Seq<char>)> {
    match options_of(p, slot) {
        Some(options) => first_of_each(option_pairs(options) + row_pairs(rows_shown(p, slot))),
        None => Seq::empty(),
    }
}

/// What is being typed into a box, if anything.
pub open spec fn pending_text(p: PluginPane, slot: Slot) -> Option<Seq<char>> {
    match (slot.row, slot.field) {
        (Some(row), Some(field)) => if slot.control < controls_of(p).len() && field < controls_of(
            p,
        )[slot.control as int].fields@.len() {
            let key = (
                slot.control,
                row,
                controls_of(p)[slot.control as int].fields@[field as int].key@,
            );
            if p.record_edits@.contains_key(key) {
                Some(p.record_edits@[key]@)
            } else {
                None
            }
        } else {
            None
        },
        _ => if p.edits@.contains_key(slot.control) {
            Some(p.edits@[slot.control]@)
        } else {
            None
        },
    }
}

/// What the offer is narrowed by: the text in the box, without the white
/// space around it.
pub open spec fn narrowing(p: PluginPane, slot: Slot) -> Seq<char> {
    trimmed(
        match pending_text(p, slot) {
            Some(t) => t,
            None => ""@,
        },
    )
}

/// Whether a candidate matches what is being typed, case aside.
pub open spec fn narrows_to(p: PluginPane, slot: Slot, value: Seq<char>) -> bool {
    let typed = narrowing(p, slot);
    typed.len() == 0 || contains_text(lowercase(value), lowercase(typed))
}

/// The stored value of one field of one row; none where the row or the
/// field is not there, or the file does not set it.
pub open spec fn stored_field(p: PluginPane, index: usize, row: usize, field: Seq<char>) -> Option<
    SettingValue,
> {
    if p.records@.contains_key(index) && row < p.records@[index]@.len()
        && p.records@[index]@[row as int].fields@.contains_key(field) {
        p.records@[index]@[row as int].fields@[field]
    } else {
        None
    }
}

/// What one field of one row shows: what is being typed, else what the file
/// holds, else nothing.
pub open spec fn field_text(p: PluginPane, index: usize, row: usize, field: Seq<char>) -> Option<
    Seq<char>,
> {
    if p.record_edits@.contains_key((index, row, field)) {
        Some(p.record_edits@[(index, row, field)]@)
    } else {
        match stored_field(p, index, row, field) {
            Some(v) => Some(display_text(v)),
            None => None,
        }
    }
}

/// The pane with the list of one box opened, or closed where it was open.
pub open spec fn suggest_toggled(p: PluginPane, slot: Slot) -> PluginPane {
    PluginPane {
        open_suggest: if p.open_suggest == Some(slot) {
            None
        } else {
            Some(slot)
        },
        ..p
    }
}

/// The text of an optional string.
pub open spec fn opt_str(s: Option<String>) -> Option<Seq<char>> {
    match s {
        Some(x) => Some(x@),
        None => None,
    }
}

fn copy_opt(s: Option<&String>) -> (out: Option<String>)
    ensures
        match s {
            Some(x) => opt_str(out) == Some(x@),
            None => out is None,
        },
{
    match s {
        Some(x) => Some(x.clone()),
        None => None,
    }
}

impl PluginPane {
    /// What a command-backed box is showing now. The one way to set an
    /// output, so the parsed rows cannot fall out of step with the text they
    /// came from.
    pub fn set_output(&mut self, slot: Slot, state: CommandOutput)
        ensures
            final(self).outputs@ == old(self).outputs@.insert(asked_slot(slot), state),
            match state {
                CommandOutput::Ready(text) => {
                    &&& final(self).rows@.contains_key(asked_slot(slot))
                    &&& list_views(final(self).rows@[asked_slot(slot)]@) == list_rows_of(
                        split(text@, '\n'),
                    )
                    &&& final(self).rows@.remove(asked_slot(slot)) == old(self).rows@.remove(
                        asked_slot(slot),
                    )
                },
                _ => final(self).rows@ == old(self).rows@.remove(asked_slot(slot)),
            },
            rows_in_step(*old(self)) ==> rows_in_step(*final(self)),
            *final(self) == (PluginPane {
                outputs: final(self).outputs,
                rows: final(self).rows,
                ..*old(self)
            }),
    {
        let slot = slot.asked();
        let ghost before = *self;
        self.rows.remove(&slot);
        if let CommandOutput::Ready(text) = &state {
            self.rows.insert(slot, parse_list_rows(text.as_str()));
            assert(self.rows@.remove(slot) =~= before.rows@.remove(slot));
        }
        self.outputs.insert(slot, state);
        proof {
            if rows_in_step(before) {
                assert forall|s: Slot| #[trigger]
                    self.rows@.contains_key(s) == (self.outputs@.contains_key(s)
                        && self.outputs@[s] is Ready) && (self.rows@.contains_key(s) ==> list_views(
                        self.rows@[s]@,
                    ) == list_rows_of(split(self.outputs@[s]->Ready_0@, '\n'))) by {
                    assert(before.rows@.contains_key(s) == before.rows@.contains_key(s));
                    if s != slot {
                        assert(self.rows@.remove(slot).contains_key(s)
                            == before.rows@.remove(slot).contains_key(s));
                        assert(self.rows@.contains_key(s) == before.rows@.contains_key(s));
                        if self.rows@.contains_key(s) {
                            assert(self.rows@.remove(slot)[s] == before.rows@.remove(slot)[s]);
                        }
                    }
                }
            }
        }
    }

    /// What a command-backed box is showing, for the pane to draw.
    pub fn output(&self, slot: Slot) -> (o: Option<&CommandOutput>)
        ensures
            match o {
                Some(x) => self.outputs@.contains_key(asked_slot(slot))
                    && self.outputs@[asked_slot(slot)] == *x,
                None => !self.outputs@.contains_key(asked_slot(slot)),
            },
    {
        self.outputs.get(&slot.asked())
    }

    /// The rows behind one box: `id`, its label, and a line of detail.
    pub fn list_rows(&self, slot: Slot) -> (rows: &[ListRow])
        ensures
            list_views(rows@) == rows_shown(*self, slot),
    {
        match self.rows.get(&slot.asked()) {
            Some(rows) => rows.as_slice(),
            None => {
                let none: &[ListRow] = &[];
                assert(list_views(none@) =~= rows_shown(*self, slot));
                none
            },
        }
    }

    /// What a suggestion box offers: what the manifest named, then what
    /// the plug-in answered, in that order and without repeats.
    pub fn suggestions(&self, slot: Slot) -> (out: Vec<(String, String)>)
        ensures
            pair_views(out@) == suggestions_of(*self, slot),
            no_repeats(pair_views(out@)),
    {
        let mut out: Vec<(String, String)> = Vec::new();
        assert(pair_views(out@) =~= Seq::empty());
        let control = match self.control(slot.control) {
            Some(c) => c,
            None => {
                return out;
            },
        };
        let options = match slot.field {
            Some(f) => {
                if f >= control.fields.len() {
                    return out;
                }
                &control.fields[f].options
            },
            None => &control.options,
        };
        let ghost named = option_pairs(options@);
        let ghost shown = rows_shown(*self, slot);
        let ghost all = named + row_pairs(shown);
        let mut i: usize = 0;
        assert(all.take(0) =~= Seq::empty());
        while i < options.len()
            invariant
                i <= options.len(),
                named == option_pairs(options@),
                all == named + row_pairs(shown),
                pair_views(out@) == first_of_each(all.take(i as int)),
            decreases options.len() - i,
        {
            proof {
                assert(all.take(i + 1).drop_last() =~= all.take(i as int));
                assert(all.take(i + 1).last() == named[i as int]);
            }
            offer(&mut out, options[i].value.as_str(), options[i].detail.as_str());
            i += 1;
        }
        let rows = self.list_rows(slot);
        let mut k: usize = 0;
        assert(i as int == named.len() + k);
        while k < rows.len()
            invariant
                k <= rows.len(),
                list_views(rows@) == shown,
                all == named + row_pairs(shown),
                pair_views(out@) == first_of_each(all.take((named.len() + k) as int)),
            decreases rows.len() - k,
        {
            proof {
                let n = (named.len() + k) as int;
                assert(all.take(n + 1).drop_last() =~= all.take(n));
                assert(all.take(n + 1).last() == row_pairs(shown)[k as int]);
                assert(shown[k as int] == rows@[k as int]@);
            }
            offer(&mut out, rows[k].id.as_str(), rows[k].detail.as_str());
            k += 1;
        }
        proof {
            assert(all.take((named.len() + k) as int) =~= all);
            lemma_first_of_each_has_no_repeats(all);
        }
        out
    }

    /// The ones worth drawing under the box right now: everything when
    /// nothing has been typed, what matches when something has.
    pub fn suggestions_matching(&self, slot: Slot) -> (out: Vec<(String, String)>)
        ensures
            pair_views(out@) == suggestions_of(*self, slot).filter(
                |x: (Seq<char>, Seq<char>)| narrows_to(*self, slot, x.0),
            ),
            narrowing(*self, slot).len() == 0 ==> pair_views(out@) == suggestions_of(*self, slot),
            no_repeats(pair_views(out@)),
    {
        let pending = match self.pending(slot) {
            Some(t) => t,
            None => "".to_owned(),
        };
        let typed = trim_ref(pending.as_str());
        let all = self.suggestions(slot);
        let ghost views = pair_views(all@);
        let ghost p = |x: (Seq<char>, Seq<char>)| narrows_to(*self, slot, x.0);
        if typed.is_empty() {
            proof {
                lemma_filter_of_all(views, p);
            }
            return all;
        }
        let needle = to_lowercase(typed);
        let mut out: Vec<(String, String)> = Vec::new();
        let mut i: usize = 0;
        proof {
            reveal(Seq::filter);
            assert(pair_views(out@) =~= views.take(0).filter(p));
        }
        while i < all.len()
            invariant
                i <= all.len(),
                views == pair_views(all@),
                p == (|x: (Seq<char>, Seq<char>)| narrows_to(*self, slot, x.0)),
                narrowing(*self, slot).len() > 0,
                needle@ == lowercase(narrowing(*self, slot)),
                pair_views(out@) == views.take(i as int).filter(p),
            decreases all.len() - i,
        {
            let ghost before = pair_views(out@);
            proof {
                reveal(Seq::filter);
                assert(views.take(i + 1).drop_last() =~= views.take(i as int));
                assert(views.take(i + 1).last() == (all@[i as int].0@, all@[i as int].1@));
            }
            let lower = to_lowercase(all[i].0.as_str());
            if text_contains(lower.as_str(), needle.as_str()) {
                let value = all[i].0.clone();
                let detail = all[i].1.clone();
                out.push((value, detail));
                assert(pair_views(out@) =~= before.push((value@, detail@)));
            }
            i += 1;
        }
        proof {
            assert(views.take(views.len() as int) =~= views);
            lemma_filter_has_no_repeats(views, p);
        }
        out
    }

    /// What is being typed into a box, if anything.
    pub fn pending(&self, slot: Slot) -> (t: Option<String>)
        ensures
            opt_str(t) == pending_text(*self, slot),
    {
        match (slot.row, slot.field) {
            (Some(row), Some(field)) => {
                let control = match self.control(slot.control) {
                    Some(c) => c,
                    None => {
                        return None;
                    },
                };
                if field >= control.fields.len() {
                    return None;
                }
                let key = RecordBox {
                    control: slot.control,
                    row,
                    field: control.fields[field].key.clone(),
                };
                copy_opt(self.record_edits.get(&key))
            },
            _ => copy_opt(self.edits.get(&slot.control)),
        }
    }

    /// Is this box's list open? Typing opens it.
    pub fn suggest_open(&self, slot: Slot) -> (b: bool)
        ensures
            b == (self.open_suggest == Some(slot) || pending_text(*self, slot) is Some),
    {
        let open = match self.open_suggest {
            Some(s) => s == slot,
            None => false,
        };
        open || self.pending(slot).is_some()
    }

    /// The button beside the box, which opens the list without typing,
    /// and closes it again.
    pub fn toggle_suggest(&mut self, slot: Slot)
        ensures
            *final(self) == suggest_toggled(*old(self), slot),
    {
        let open = match self.open_suggest {
            Some(s) => s == slot,
            None => false,
        };
        self.open_suggest = if open {
            None
        } else {
            Some(slot)
        };
    }

    pub fn close_suggest(&mut self)
        ensures
            *final(self) == (PluginPane { open_suggest: None, ..*old(self) }),
    {
        self.open_suggest = None;
    }

    /// The rows a repeating group is drawing.
    pub fn record_rows(&self, index: usize) -> (rows: &[RecordRow])
        ensures
            rows@ == if self.records@.contains_key(index) {
                self.records@[index]@
            } else {
                Seq::empty()
            },
    {
        match self.records.get(&index) {
            Some(rows) => rows.as_slice(),
            None => {
                let none: &[RecordRow] = &[];
                assert(none@ =~= Seq::empty());
                none
            },
        }
    }

    /// The stored value of one field, for a control that renders a value
    /// rather than text.
    pub fn record_value(&self, index: usize, row: usize, field: &str) -> (v: Option<SettingValue>)
        ensures
            v == stored_field(*self, index, row, field@),
    {
        match self.records.get(&index) {
            Some(rows) => if row < rows.len() {
                match rows[row].fields.get(&field.to_owned()) {
                    Some(v) => copy_value(v),
                    None => None,
                }
            } else {
                None
            },
            None => None,
        }
    }

    /// What one field of one row should show: what is being typed, else
    /// what the file holds, else nothing.
    pub fn record_display(&self, index: usize, row: usize, field: &str) -> (t: Option<String>)
        ensures
            opt_str(t) == field_text(*self, index, row, field@),
    {
        let key = RecordBox { control: index, row, field: field.to_owned() };
        if let Some(raw) = self.record_edits.get(&key) {
            return Some(raw.clone());
        }
        match self.record_value(index, row, field) {
            Some(v) => Some(v.as_display()),
            None => None,
        }
    }

    /// What one card calls itself: the value of the field the manifest
    /// named as the group's `id_field`. None while that is blank.
    pub fn record_id(&self, index: usize, row: usize) -> (id: Option<String>)
        ensures
            opt_str(id) == card_name(*self, index, row),
    {
        let control = match self.control(index) {
            Some(c) => c,
            None => {
                return None;
            },
        };
        proof {
            lemma_blank_trims_to_nothing(control.id_field@);
        }
        let field = trim_ref(control.id_field.as_str());
        if field.is_empty() {
            return None;
        }
        match self.record_display(index, row, field) {
            Some(id) => {
                proof {
                    lemma_blank_trims_to_nothing(id@);
                }
                let name = trim(id.as_str());
                if name.as_str().is_empty() {
                    None
                } else {
                    Some(name)
                }
            },
            None => None,
        }
    }

    /// Is this card's button running right now?
    pub fn action_running(&self, index: usize, row: usize) -> (b: bool)
        ensures
            b == (self.running_action == Some((index, row))),
    {
        match self.running_action {
            Some((i, r)) => i == index && r == row,
            None => false,
        }
    }

    /// Anything running at all — one at a time.
    pub fn any_action_running(&self) -> (b: bool)
        ensures
            b == self.running_action is Some,
    {
        self.running_action.is_some()
    }

    pub fn set_action_running(&mut self, running: Option<(usize, usize)>)
        ensures
            *final(self) == (PluginPane { running_action: running, ..*old(self) }),
    {
        self.running_action = running;
    }

    /// What a text-shaped control's box should show: what is being typed,
    /// else what the file holds, else nothing.
    pub fn display_of(&self, index: usize) -> (t: Option<String>)
        ensures
            opt_str(t) == if self.edits@.contains_key(index) {
                Some(self.edits@[index]@)
            } else if index < self.values@.len() && self.values@[index as int] is Some {
                Some(display_text(self.values@[index as int]->0))
            } else {
                None
            },
    {
        if let Some(raw) = self.edits.get(&index) {
            return Some(raw.clone());
        }
        if index < self.values.len() {
            match &self.values[index] {
                Some(v) => Some(v.as_display()),
                None => None,
            }
        } else {
            None
        }
    }

    /// The value to render for a control: what the file says, or the
    /// neutral default for its kind.
    pub fn value_of(&self, index: usize) -> (v: SettingValue)
        ensures
            if index < self.values@.len() && self.values@[index as int] is Some {
                v == self.values@[index as int]->0
            } else {
                match kind_at(*self, index as int) {
                    Some(ControlKind::Toggle) => v == SettingValue::Bool(false),
                    Some(ControlKind::Number) => v == SettingValue::Int(0),
                    Some(ControlKind::Decimal) => v matches SettingValue::Float(d) && d.bits == 0
                        && d.shown@ == "0"@,
                    _ => v matches SettingValue::Text(t) && t@.len() == 0,
                }
            },
    {
        if index < self.values.len() {
            if let Some(v) = &self.values[index] {
                return v.copy();
            }
        }
        match self.control(index) {
            Some(c) => match c.kind {
                ControlKind::Toggle => SettingValue::Bool(false),
                ControlKind::Number => SettingValue::Int(0),
                ControlKind::Decimal => SettingValue::Float(
                    Decimal { bits: 0, shown: "0".to_owned() },
                ),
                _ => SettingValue::Text(String::new()),
            },
            None => SettingValue::Text(String::new()),
        }
    }

    /// Is `member` currently in the array this list control edits?
    pub fn in_array(&self, index: usize, member: &str) -> (b: bool)
        ensures
            b == (self.arrays@.contains_key(index) && texts(
                self.arrays@[index]@,
            ).contains(member@)),
    {
        match self.arrays.get(&index) {
            Some(members) => list_contains(members, member),
            None => false,
        }
    }
}

/// The name of a card: what the group's id field shows, trimmed; none while
/// that is blank or no field is named.
pub open spec fn card_name(p: PluginPane, index: usize, row: usize) -> Option<Seq<char>> {
    if index >= controls_of(p).len() || is_blank(controls_of(p)[index as int].id_field@) {
        None
    } else {
        match field_text(p, index, row, trimmed(controls_of(p)[index as int].id_field@)) {
            Some(t) => if is_blank(t) {
                None
            } else {
                Some(trimmed(t))
            },
            None => None,
        }
    }
}

fn offered(pairs: &Vec<(String, String)>, value: &str) -> (b: bool)
    ensures
        b == offers(pair_views(pairs@), value@),
{
    let ghost views = pair_views(pairs@);
    let mut i: usize = 0;
    while i < pairs.len()
        invariant
            i <= pairs.len(),
            views == pair_views(pairs@),
            forall|j: int| 0 <= j < i ==> (#[trigger] views[j]).0 != value@,
        decreases pairs.len() - i,
    {
        assert(views[i as int].0 == pairs@[i as int].0@);
        if str_eq(pairs[i].0.as_str(), value) {
            return true;
        }
        i += 1;
    }
    false
}

/// Put a value at the end of an offer that does not have it yet.
fn offer(out: &mut Vec<(String, String)>, value: &str, detail: &str)
    ensures
        pair_views(final(out)@) == if offers(pair_views(old(out)@), value@) {
            pair_views(old(out)@)
        } else {
            pair_views(old(out)@).push((value@, detail@))
        },
{
    if !offered(out, value) {
        let ghost before = pair_views(out@);
        out.push((value.to_owned(), detail.to_owned()));
        assert(pair_views(out@) =~= before.push((value@, detail@)));
    }
}

// ─── Laws ────────────────────────────────────────────────────────────

/// Opening a list and closing it again leaves the pane as it was.
pub proof fn law_toggling_twice_changes_nothing(p: PluginPane, slot: Slot)
    requires
        p.open_suggest is None || p.open_suggest == Some(slot),
    ensures
        suggest_toggled(suggest_toggled(p, slot), slot) == p,
{
}

/// A plug-in without sections shows everything, and one with sections
/// shows exactly one heading.
pub proof fn law_one_section_at_a_time(p: PluginPane, i: int)
    requires
        0 <= i < controls_of(p).len(),
    ensures
        section_shown(p) is None ==> visible(p, i),
        section_shown(p) matches Some(s) ==> (kind_at(p, i) == Some(ControlKind::Section)
            ==> visible(p, i) == (i == s)),
{
}

/// Nothing is offered twice, whatever the manifest names and the plug-in
/// answers.
pub proof fn law_suggestions_do_not_repeat(p: PluginPane, slot: Slot)
    ensures
        no_repeats(suggestions_of(p, slot)),
{
    if let Some(options) = options_of(p, slot) {
        lemma_first_of_each_has_no_repeats(
            option_pairs(options) + row_pairs(rows_shown(p, slot)),
        );
    }
}

/// Everything the manifest names or the plug-in answers is offered.
pub proof fn law_every_candidate_is_offered(p: PluginPane, slot: Slot, i: int)
    requires
        options_of(p, slot) is Some,
        0 <= i < options_of(p, slot)->0.len() + rows_shown(p, slot).len(),
    ensures
        offers(
            suggestions_of(p, slot),
            (option_pairs(options_of(p, slot)->0) + row_pairs(rows_shown(p, slot)))[i].0,
        ),
{
    lemma_first_of_each_offers_all(
        option_pairs(options_of(p, slot)->0) + row_pairs(rows_shown(p, slot)),
        i,
    );
}

proof fn lemma_first_of_each_offers_all(pairs: Seq<(Seq<char>, Seq<char>)>, i: int)
    requires
        0 <= i < pairs.len(),
    ensures
        offers(first_of_each(pairs), pairs[i].0),
    decreases pairs.len(),
{
    let init = first_of_each(pairs.drop_last());
    let all = first_of_each(pairs);
    if i < pairs.len() - 1 {
        lemma_first_of_each_offers_all(pairs.drop_last(), i);
        let k = choose|k: int| 0 <= k < init.len() && (#[trigger] init[k]).0 == pairs[i].0;
        assert(all[k].0 == pairs[i].0);
    } else if !offers(init, pairs[i].0) {
        assert(all[init.len() as int].0 == pairs[i].0);
    }
}

/// While nothing, or only white space, is typed, everything is offered.
pub proof fn law_nothing_typed_offers_everything(p: PluginPane, slot: Slot)
    requires
        match pending_text(p, slot) {
            Some(t) => is_blank(t),
            None => true,
        },
    ensures
        suggestions_of(p, slot).filter(
            |x: (Seq<char>, Seq<char>)| narrows_to(p, slot, x.0),
        ) == suggestions_of(p, slot),
{
    let typed = match pending_text(p, slot) {
        Some(t) => t,
        None => ""@,
    };
    reveal_strlit("");
    lemma_blank_trims_to_nothing(typed);
    lemma_filter_of_all(
        suggestions_of(p, slot),
        |x: (Seq<char>, Seq<char>)| narrows_to(p, slot, x.0),
    );
}

} // verus!
