//! Writing a plug-in's settings back: what is handed to the host to write,
//! and what its outcome means for the pane.

use std::collections::HashMap;

use vstd::prelude::*;
use vstd::string::*;

use crate::assoc::{
    as_map, distinct_keys, lemma_distinct_init, lemma_push_keeps_distinct, other_entries, AssocMap,
    MapKey,
};
use crate::plugins::types::{
    ControlKind, Decimal, DiscoveredExtension, PaneControl, PaneField, SettingValue,
};
use crate::settings_ui::plugin_pane::{
    control_slot, controls_of, copy_value, kind_at, list_views, rows_in_step, rows_shown,
    CommandOutput, ListRow, ListRowV, PluginPane, RecordBox, RecordRow, Slot, Typing,
};
use crate::text::{
    copy_strings, integer, join, joined, parse_i64, split, split_on, str_eq, texts, trim,
    trim_pieces, trimmed, trimmed_pieces,
};

verus! {

broadcast use {vstd::std_specs::hash::group_hash_axioms, vstd::string::group_string_axioms};

// ─── Edits ───────────────────────────────────────────────────────────

/// One change to the plug-in's config file.
pub enum Edit {
    Setting { index: usize, key: String, value: SettingValue },
    Strings { index: usize, key: String, members: Vec<String> },
    ArrayMember { key: String, member: String, present: bool },
    ArrayMembers { key: String, members: Vec<String>, present: bool },
    RecordField { index: usize, key: String, row: usize, field: String, value: SettingValue },
    AddRecord { index: usize, key: String },
    RemoveRecord { index: usize, key: String, row: usize },
}

pub enum ValueV {
    Bool(bool),
    Int(i64),
    Float(u64, Seq<char>),
    Text(Seq<char>),
}

impl View for SettingValue {
    type V = ValueV;

    open spec fn view(&self) -> ValueV {
        match *self {
            SettingValue::Bool(b) => ValueV::Bool(b),
            SettingValue::Int(n) => ValueV::Int(n),
            SettingValue::Float(d) => ValueV::Float(d.bits, d.shown@),
            SettingValue::Text(t) => ValueV::Text(t@),
        }
    }
}

pub enum EditV {
    Setting { index: usize, key: Seq<char>, value: ValueV },
    Strings { index: usize, key: Seq<char>, members: Seq<Seq<char>> },
    ArrayMember { key: Seq<char>, member: Seq<char>, present: bool },
    ArrayMembers { key: Seq<char>, members: Seq<Seq<char>>, present: bool },
    RecordField { index: usize, key: Seq<char>, row: usize, field: Seq<char>, value: ValueV },
    AddRecord { index: usize, key: Seq<char> },
    RemoveRecord { index: usize, key: Seq<char>, row: usize },
}

impl View for Edit {
    type V = EditV;

    open spec fn view(&self) -> EditV {
        match *self {
            Edit::Setting { index, key, value } => EditV::Setting {
                index,
                key: key@,
                value: value@,
            },
            Edit::Strings { index, key, members } => EditV::Strings {
                index,
                key: key@,
                members: texts(members@),
            },
            Edit::ArrayMember { key, member, present } => EditV::ArrayMember {
                key: key@,
                member: member@,
                present,
            },
            Edit::ArrayMembers { key, members, present } => EditV::ArrayMembers {
                key: key@,
                members: texts(members@),
                present,
            },
            Edit::RecordField { index, key, row, field, value } => EditV::RecordField {
                index,
                key: key@,
                row,
                field: field@,
                value: value@,
            },
            Edit::AddRecord { index, key } => EditV::AddRecord { index, key: key@ },
            Edit::RemoveRecord { index, key, row } => EditV::RemoveRecord { index, key: key@, row },
        }
    }
}

pub open spec fn edit_views(edits: Seq<Edit>) -> Seq<EditV> {
    edits.map_values(|e: Edit| e@)
}

/// The edit an answer holds, if it holds one.
pub open spec fn opt_edit(e: Option<Edit>) -> Option<EditV> {
    match e {
        Some(x) => Some(x@),
        None => None,
    }
}

/// How an edit went.
pub enum EditOutcome {
    /// The file cannot be changed that way.
    Refused { error: String },
    /// The directory could not be made.
    NoDirectory { dir: String, error: String },
    NotWritten { error: String },
    Saved,
}

/// Where a control's value lives; none where there is no such control, or
/// it has no key.
pub open spec fn key_of(p: PluginPane, index: usize) -> Option<Seq<char>> {
    if index < controls_of(p).len() && controls_of(p)[index as int].key@.len() > 0 {
        Some(controls_of(p)[index as int].key@)
    } else {
        None
    }
}

// ─── What the file says ──────────────────────────────────────────────

/// What the config file holds for each control's key: its value, its
/// members, and its rows with one value per declared field.
pub struct ConfigSnapshot {
    pub settings: Vec<Option<SettingValue>>,
    pub arrays: Vec<Vec<String>>,
    pub records: Vec<Vec<Vec<Option<SettingValue>>>>,
}

impl ConfigSnapshot {
    /// There is an entry for every control, and in every row one value per
    /// field.
    pub open spec fn covers(&self, controls: Seq<PaneControl>) -> bool {
        &&& self.settings@.len() == controls.len()
        &&& self.arrays@.len() == controls.len()
        &&& self.records@.len() == controls.len()
        &&& forall|i: int, r: int|
            #![trigger self.records@[i]@[r]]
            0 <= i < controls.len() && 0 <= r < self.records@[i]@.len()
                ==> self.records@[i]@[r]@.len() == controls[i].fields@.len()
    }
}

/// A list control with an array to edit.
pub open spec fn edits_array(c: PaneControl) -> bool {
    c.kind == ControlKind::List && c.key@.len() > 0
}

/// A repeating group with rows to edit.
pub open spec fn edits_records(c: PaneControl) -> bool {
    c.kind == ControlKind::Records && !crate::text::is_blank(c.key@)
}

/// The arrays are those of the file.
pub open spec fn arrays_match(
    arrays: Map<usize, Vec<String>>,
    controls: Seq<PaneControl>,
    snap: ConfigSnapshot,
) -> bool {
    forall|i: usize|
        #![trigger arrays.contains_key(i)]
        arrays.contains_key(i) == (i < controls.len() && edits_array(controls[i as int])) && (
        arrays.contains_key(i) ==> arrays[i]@ == snap.arrays@[i as int]@)
}

/// One row holds what the file says for its fields; of two fields of one
/// name the later counts.
pub open spec fn row_matches(
    row: Map<Seq<char>, Option<SettingValue>>,
    fields: Seq<PaneField>,
    values: Seq<Option<SettingValue>>,
) -> bool {
    row == row_map(fields, values, fields.len())
}

pub open spec fn row_map(
    fields: Seq<PaneField>,
    values: Seq<Option<SettingValue>>,
    n: nat,
) -> Map<Seq<char>, Option<SettingValue>>
    decreases n,
{
    if n == 0 {
        Map::empty()
    } else {
        row_map(fields, values, (n - 1) as nat).insert(fields[n - 1].key@, values[n - 1])
    }
}

/// The repeating groups are those of the file.
pub open spec fn records_match(
    records: Map<usize, Vec<RecordRow>>,
    controls: Seq<PaneControl>,
    snap: ConfigSnapshot,
) -> bool {
    forall|i: usize|
        #![trigger records.contains_key(i)]
        records.contains_key(i) == (i < controls.len() && edits_records(controls[i as int])) && (
        records.contains_key(i) ==> rows_match(
            records[i]@,
            controls[i as int].fields@,
            snap.records@[i as int]@,
        ))
}

pub open spec fn rows_match(
    rows: Seq<RecordRow>,
    fields: Seq<PaneField>,
    values: Seq<Vec<Option<SettingValue>>>,
) -> bool {
    &&& rows.len() == values.len()
    &&& forall|r: int|
        0 <= r < rows.len() ==> row_matches((#[trigger] rows[r]).fields@, fields, values[r]@)
}

fn array_cache(controls: &Vec<PaneControl>, snap: &ConfigSnapshot) -> (arrays: HashMap<
    usize,
    Vec<String>,
>)
    requires
        snap.covers(controls@),
    ensures
        arrays_match(arrays@, controls@, *snap),
{
    let mut arrays: HashMap<usize, Vec<String>> = HashMap::new();
    let mut i: usize = 0;
    while i < controls.len()
        invariant
            i <= controls.len(),
            snap.covers(controls@),
            forall|k: usize|
                #![trigger arrays@.contains_key(k)]
                arrays@.contains_key(k) == (k < i && edits_array(controls@[k as int])) && (
                arrays@.contains_key(k) ==> arrays@[k]@ == snap.arrays@[k as int]@),
        decreases controls.len() - i,
    {
        if controls[i].kind == ControlKind::List && !controls[i].key.as_str().is_empty() {
            let members = copy_strings(&snap.arrays[i]);
            arrays.insert(i, members);
        }
        i += 1;
    }
    arrays
}

fn record_row(fields: &Vec<PaneField>, values: &Vec<Option<SettingValue>>) -> (row: RecordRow)
    requires
        fields@.len() == values@.len(),
    ensures
        row_matches(row.fields@, fields@, values@),
{
    let mut map: AssocMap<String, Option<SettingValue>> = AssocMap::new();
    let mut f: usize = 0;
    while f < fields.len()
        invariant
            f <= fields.len() == values.len(),
            map@ == row_map(fields@, values@, f as nat),
        decreases fields.len() - f,
    {
        map.insert(fields[f].key.clone(), copy_value(&values[f]));
        f += 1;
    }
    RecordRow { fields: map }
}

fn record_cache(controls: &Vec<PaneControl>, snap: &ConfigSnapshot) -> (records: HashMap<
    usize,
    Vec<RecordRow>,
>)
    requires
        snap.covers(controls@),
    ensures
        records_match(records@, controls@, *snap),
{
    let mut records: HashMap<usize, Vec<RecordRow>> = HashMap::new();
    let mut i: usize = 0;
    while i < controls.len()
        invariant
            i <= controls.len(),
            snap.covers(controls@),
            forall|k: usize|
                #![trigger records@.contains_key(k)]
                records@.contains_key(k) == (k < i && edits_records(controls@[k as int])) && (
                records@.contains_key(k) ==> rows_match(
                    records@[k]@,
                    controls@[k as int].fields@,
                    snap.records@[k as int]@,
                )),
        decreases controls.len() - i,
    {
        if controls[i].kind == ControlKind::Records && !crate::text::is_blank_text(
            controls[i].key.as_str(),
        ) {
            let mut rows: Vec<RecordRow> = Vec::new();
            let mut r: usize = 0;
            while r < snap.records[i].len()
                invariant
                    i < controls.len(),
                    snap.covers(controls@),
                    r <= snap.records@[i as int]@.len(),
                    rows@.len() == r,
                    forall|k: int|
                        0 <= k < r ==> row_matches(
                            (#[trigger] rows@[k]).fields@,
                            controls@[i as int].fields@,
                            snap.records@[i as int]@[k]@,
                        ),
                decreases snap.records@[i as int]@.len() - r,
            {
                let values = &snap.records[i][r];
                assert(values@ == snap.records@[i as int]@[r as int]@);
                rows.push(record_row(&controls[i].fields, values));
                r += 1;
            }
            records.insert(i, rows);
        }
        i += 1;
    }
    records
}

/// The value a control opens with: what the file holds, an array as its
/// members in one line.
pub open spec fn opening_value(c: PaneControl, snap: ConfigSnapshot, i: int) -> Option<ValueV> {
    if c.key@.len() == 0 {
        None
    } else if c.kind == ControlKind::Strings {
        if snap.arrays@[i]@.len() == 0 {
            None
        } else {
            Some(ValueV::Text(joined(texts(snap.arrays@[i]@), ", "@)))
        }
    } else {
        opt_value(snap.settings@[i])
    }
}

pub open spec fn opt_value(v: Option<SettingValue>) -> Option<ValueV> {
    match v {
        Some(x) => Some(x@),
        None => None,
    }
}

/// The file name of a plug-in's config, where the manifest names none.
pub open spec fn config_file_text(ext: DiscoveredExtension) -> Seq<char> {
    if ext.manifest.config_file@.len() == 0 {
        "config.toml"@
    } else {
        ext.manifest.config_file@
    }
}

/// The file a plug-in's settings live in, within the plug-in's own
/// directory.
pub fn config_file_name(ext: &DiscoveredExtension) -> (s: String)
    ensures
        s@ == config_file_text(*ext),
{
    if ext.manifest.config_file.as_str().is_empty() {
        "config.toml".to_owned()
    } else {
        ext.manifest.config_file.clone()
    }
}

/// The pane of an extension as it opens: what its file holds, nothing asked,
/// nothing typed.
pub open spec fn is_opened(
    p: PluginPane,
    ext: DiscoveredExtension,
    config_path: String,
    snap: ConfigSnapshot,
) -> bool {
    &&& p.ext == ext
    &&& p.config_path == config_path
    &&& p.values@.len() == ext.manifest.pane@.len()
    &&& forall|i: int|
        0 <= i < p.values@.len() ==> opt_value(#[trigger] p.values@[i]) == opening_value(
            ext.manifest.pane@[i],
            snap,
            i,
        )
    &&& p.status is None && p.section is None
    &&& p.open_suggest is None && p.running_action is None
    &&& p.outputs@ == Map::<Slot, CommandOutput>::empty()
    &&& p.rows@ == Map::<Slot, Vec<ListRow>>::empty()
    &&& p.edits@ == Map::<usize, String>::empty()
    &&& p.record_edits@ == Map::<(usize, usize, Seq<char>), String>::empty()
    &&& arrays_match(p.arrays@, ext.manifest.pane@, snap)
    &&& records_match(p.records@, ext.manifest.pane@, snap)
    &&& rows_in_step(p)
}

impl PluginPane {
    /// The pane of one extension, with what its config file holds.
    pub fn load(ext: DiscoveredExtension, config_path: String, snap: &ConfigSnapshot) -> (p:
        PluginPane)
        requires
            snap.covers(ext.manifest.pane@),
        ensures
            p.wf(),
            is_opened(p, ext, config_path, *snap),
    {
        let mut values: Vec<Option<SettingValue>> = Vec::new();
        let controls = &ext.manifest.pane;
        let mut i: usize = 0;
        while i < controls.len()
            invariant
                i <= controls.len(),
                controls == ext.manifest.pane,
                snap.covers(controls@),
                values@.len() == i,
                forall|k: int|
                    0 <= k < i ==> opt_value(#[trigger] values@[k]) == opening_value(
                        controls@[k],
                        *snap,
                        k,
                    ),
            decreases controls.len() - i,
        {
            let value = if controls[i].key.as_str().is_empty() {
                None
            } else if controls[i].kind == ControlKind::Strings {
                if snap.arrays[i].len() == 0 {
                    None
                } else {
                    Some(SettingValue::Text(join(&snap.arrays[i], ", ")))
                }
            } else {
                copy_value(&snap.settings[i])
            };
            values.push(value);
            i += 1;
        }
        let arrays = array_cache(&ext.manifest.pane, snap);
        let records = record_cache(&ext.manifest.pane, snap);
        PluginPane {
            ext,
            config_path,
            values,
            status: None,
            outputs: AssocMap::new(),
            section: None,
            edits: AssocMap::new(),
            arrays,
            rows: AssocMap::new(),
            open_suggest: None,
            running_action: None,
            records,
            record_edits: AssocMap::new(),
        }
    }

    /// Re-read every list control's array.
    pub fn reload_arrays(&mut self, snap: &ConfigSnapshot)
        requires
            snap.covers(controls_of(*old(self))),
        ensures
            arrays_match(final(self).arrays@, controls_of(*old(self)), *snap),
            *final(self) == (PluginPane { arrays: final(self).arrays, ..*old(self) }),
    {
        self.arrays = array_cache(&self.ext.manifest.pane, snap);
    }

    /// Re-read every repeating group.
    pub fn reload_records(&mut self, snap: &ConfigSnapshot)
        requires
            snap.covers(controls_of(*old(self))),
        ensures
            records_match(final(self).records@, controls_of(*old(self)), *snap),
            *final(self) == (PluginPane { records: final(self).records, ..*old(self) }),
    {
        self.records = record_cache(&self.ext.manifest.pane, snap);
    }

    /// Show one section, and re-read the arrays: a change made elsewhere
    /// since the window opened is picked up here.
    pub fn select_section(&mut self, index: usize, snap: &ConfigSnapshot)
        requires
            snap.covers(controls_of(*old(self))),
        ensures
            final(self).section == Some(index),
            arrays_match(final(self).arrays@, controls_of(*old(self)), *snap),
            *final(self) == (PluginPane {
                section: Some(index),
                arrays: final(self).arrays,
                ..*old(self)
            }),
    {
        self.section = Some(index);
        self.reload_arrays(snap);
    }

    fn key_at(&self, index: usize) -> (key: Option<String>)
        ensures
            match key {
                Some(k) => key_of(*self, index) == Some(k@),
                None => key_of(*self, index) is None,
            },
    {
        match self.control(index) {
            Some(c) => if c.key.as_str().is_empty() {
                None
            } else {
                Some(c.key.clone())
            },
            None => None,
        }
    }

    /// Write one control's value. Picking a value settles the box.
    pub fn set(&mut self, index: usize, value: SettingValue) -> (edit: Option<Edit>)
        ensures
            match key_of(*old(self), index) {
                Some(key) => {
                    &&& opt_edit(edit) == Some(EditV::Setting { index, key, value: value@ })
                    &&& final(self).edits.listed() == other_entries(
                        old(self).edits.listed(),
                        index,
                    )
                    &&& final(self).edits@ == old(self).edits@.remove(index)
                    &&& *final(self) == (PluginPane { edits: final(self).edits, ..*old(self) })
                },
                None => edit is None && *final(self) == *old(self),
            },
    {
        match self.key_at(index) {
            Some(key) => {
                self.edits.remove(&index);
                Some(Edit::Setting { index, key, value })
            },
            None => None,
        }
    }

    /// Write the comma-separated box back as an array, empty members
    /// dropped.
    pub fn set_strings(&self, index: usize, raw: &str) -> (edit: Option<Edit>)
        ensures
            opt_edit(edit) == match key_of(*self, index) {
                Some(key) => Some(
                    EditV::Strings {
                        index,
                        key,
                        members: trimmed_pieces(split(raw@, ',')),
                    },
                ),
                None => None,
            },
    {
        match self.key_at(index) {
            Some(key) => {
                let pieces = split_on(raw, ',');
                let members = trim_pieces(&pieces, 0);
                assert(texts(pieces@).skip(0) =~= texts(pieces@));
                Some(Edit::Strings { index, key, members })
            },
            None => None,
        }
    }

    /// Write one field of one row. Picking a value settles that box.
    pub fn set_record(
        &mut self,
        index: usize,
        row: usize,
        field: &str,
        value: SettingValue,
    ) -> (edit: Option<Edit>)
        ensures
            match key_of(*old(self), index) {
                Some(key) => {
                    &&& opt_edit(edit) == Some(
                        EditV::RecordField { index, key, row, field: field@, value: value@ },
                    )
                    &&& final(self).record_edits.listed() == other_entries(
                        old(self).record_edits.listed(),
                        (index, row, field@),
                    )
                    &&& final(self).record_edits@ == old(self).record_edits@.remove(
                        (index, row, field@),
                    )
                    &&& *final(self) == (PluginPane {
                        record_edits: final(self).record_edits,
                        ..*old(self)
                    })
                },
                None => edit is None && *final(self) == *old(self),
            },
    {
        match self.key_at(index) {
            Some(key) => {
                let name = RecordBox { control: index, row, field: field.to_owned() };
                self.record_edits.remove(&name);
                Some(Edit::RecordField { index, key, row, field: field.to_owned(), value })
            },
            None => None,
        }
    }

    /// One of a suggestion box's candidates was picked — write it,
    /// wherever that box lives.
    pub fn set_suggestion(&mut self, slot: Slot, value: &str) -> (edit: Option<Edit>)
        ensures
            match (slot.row, slot.field) {
                (Some(row), Some(field)) => if slot.control < controls_of(*old(self)).len() && field
                    < controls_of(*old(self))[slot.control as int].fields@.len() {
                    let name = controls_of(
                        *old(self),
                    )[slot.control as int].fields@[field as int].key@;
                    match key_of(*old(self), slot.control) {
                        Some(key) => {
                            &&& opt_edit(edit) == Some(
                                EditV::RecordField {
                                    index: slot.control,
                                    key,
                                    row,
                                    field: name,
                                    value: ValueV::Text(value@),
                                },
                            )
                            &&& final(self).record_edits.listed() == other_entries(
                                old(self).record_edits.listed(),
                                (slot.control, row, name),
                            )
                            &&& final(self).record_edits@ == old(self).record_edits@.remove(
                                (slot.control, row, name),
                            )
                            &&& *final(self) == (PluginPane {
                                record_edits: final(self).record_edits,
                                ..*old(self)
                            })
                        },
                        None => edit is None && *final(self) == *old(self),
                    }
                } else {
                    edit is None && *final(self) == *old(self)
                },
                _ => match key_of(*old(self), slot.control) {
                    Some(key) => {
                        &&& opt_edit(edit) == Some(
                            EditV::Setting {
                                index: slot.control,
                                key,
                                value: ValueV::Text(value@),
                            },
                        )
                        &&& final(self).edits.listed() == other_entries(
                            old(self).edits.listed(),
                            slot.control,
                        )
                        &&& final(self).edits@ == old(self).edits@.remove(slot.control)
                        &&& *final(self) == (PluginPane { edits: final(self).edits, ..*old(self) })
                    },
                    None => edit is None && *final(self) == *old(self),
                },
            },
    {
        let picked = SettingValue::Text(value.to_owned());
        match (slot.row, slot.field) {
            (Some(row), Some(field)) => {
                let name = match self.control(slot.control) {
                    Some(c) => {
                        if field >= c.fields.len() {
                            return None;
                        }
                        c.fields[field].key.clone()
                    },
                    None => {
                        return None;
                    },
                };
                self.set_record(slot.control, row, name.as_str(), picked)
            },
            _ => self.set(slot.control, picked),
        }
    }

    /// Append an empty row.
    pub fn add_record(&self, index: usize) -> (edit: Option<Edit>)
        ensures
            opt_edit(edit) == match key_of(*self, index) {
                Some(key) => Some(EditV::AddRecord { index, key }),
                None => None,
            },
    {
        match self.key_at(index) {
            Some(key) => Some(Edit::AddRecord { index, key }),
            None => None,
        }
    }

    /// Delete a row.
    pub fn remove_record(&self, index: usize, row: usize) -> (edit: Option<Edit>)
        ensures
            opt_edit(edit) == match key_of(*self, index) {
                Some(key) => Some(EditV::RemoveRecord { index, key, row }),
                None => None,
            },
    {
        match self.key_at(index) {
            Some(key) => Some(Edit::RemoveRecord { index, key, row }),
            None => None,
        }
    }

    /// Add `member` to this control's array, or take it out.
    pub fn set_array_member(&self, index: usize, member: &str, present: bool) -> (edit: Option<
        Edit,
    >)
        ensures
            opt_edit(edit) == match key_of(*self, index) {
                Some(key) => Some(EditV::ArrayMember { key, member: member@, present }),
                None => None,
            },
    {
        match self.key_at(index) {
            Some(key) => Some(Edit::ArrayMember { key, member: member.to_owned(), present }),
            None => None,
        }
    }

    /// Tick, or untick, every row this control is currently offering, and
    /// nothing else, in one edit. None where it offers no row.
    pub fn set_array_all(&self, index: usize, present: bool) -> (edit: Option<Edit>)
        ensures
            opt_edit(edit) == match key_of(*self, index) {
                Some(key) => if rows_shown(*self, control_slot(index)).len() == 0 {
                    None
                } else {
                    Some(
                        EditV::ArrayMembers {
                            key,
                            members: rows_shown(*self, control_slot(index)).map_values(
                                |r: ListRowV| r.id,
                            ),
                            present,
                        },
                    )
                },
                None => None,
            },
    {
        match self.key_at(index) {
            Some(key) => {
                let rows = self.list_rows(Slot::control(index));
                let ghost shown = rows_shown(*self, control_slot(index));
                if rows.len() == 0 {
                    assert(shown.len() == 0);
                    return None;
                }
                let mut members: Vec<String> = Vec::new();
                let mut i: usize = 0;
                while i < rows.len()
                    invariant
                        i <= rows.len(),
                        members@.len() == i,
                        list_views(rows@) == shown,
                        forall|k: int| 0 <= k < i ==> (#[trigger] members@[k])@ == shown[k].id,
                    decreases rows.len() - i,
                {
                    assert(shown[i as int] == rows@[i as int]@);
                    members.push(rows[i].id.clone());
                    i += 1;
                }
                assert(texts(members@) =~= shown.map_values(|r: ListRowV| r.id));
                Some(Edit::ArrayMembers { key, members, present })
            },
            None => None,
        }
    }

    /// A text-shaped control was typed into. Held, not written.
    pub fn set_text(&mut self, index: usize, raw: String)
        ensures
            final(self).edits.listed() == other_entries(old(self).edits.listed(), index).push(
                (index, raw),
            ),
            final(self).edits@ == old(self).edits@.insert(index, raw),
            *final(self) == (PluginPane { edits: final(self).edits, ..*old(self) }),
    {
        self.edits.insert(index, raw);
    }

    /// Note what is being typed into a record's field. Held, not written.
    pub fn set_record_text(&mut self, index: usize, row: usize, field: &str, raw: String)
        ensures
            final(self).record_edits.listed().drop_last() == other_entries(
                old(self).record_edits.listed(),
                (index, row, field@),
            ),
            final(self).record_edits.listed().len() > 0,
            final(self).record_edits.listed().last().0.id() == (index, row, field@),
            final(self).record_edits.listed().last().1 == raw,
            final(self).record_edits@ == old(self).record_edits@.insert((index, row, field@), raw),
            *final(self) == (PluginPane { record_edits: final(self).record_edits, ..*old(self) }),
    {
        let name = RecordBox { control: index, row, field: field.to_owned() };
        self.record_edits.insert(name, raw);
        assert(self.record_edits.listed().drop_last() =~= other_entries(
            old(self).record_edits.listed(),
            (index, row, field@),
        ));
    }
}

// ─── Outcomes ────────────────────────────────────────────────────────

/// The edit concerns a control the pane has.
pub open spec fn edit_fits(edit: EditV, p: PluginPane) -> bool {
    match edit {
        EditV::Setting { index, .. } => index < controls_of(p).len(),
        EditV::Strings { index, .. } => index < controls_of(p).len(),
        _ => true,
    }
}

/// What the pane says about an edit.
pub open spec fn status_text(path: Seq<char>, edit: EditV, outcome: EditOutcome) -> Seq<char> {
    match outcome {
        EditOutcome::Saved => "Saved to "@ + path,
        EditOutcome::NoDirectory { dir, error } => "Could not create "@ + dir@ + ": "@ + error@,
        EditOutcome::NotWritten { error } => "Could not write "@ + path + ": "@ + error@,
        EditOutcome::Refused { error } => match edit {
            EditV::Strings { key, .. } => "Could not change "@ + key + ": "@ + error@,
            EditV::ArrayMember { key, .. } => "Could not change "@ + key + ": "@ + error@,
            EditV::ArrayMembers { key, .. } => "Could not change "@ + key + ": "@ + error@,
            _ => error@,
        },
    }
}

fn concat4(a: &str, b: &str, c: &str, d: &str) -> (s: String)
    ensures
        s@ == a@ + b@ + c@ + d@,
{
    let mut s = a.to_owned();
    s.append(b);
    s.append(c);
    s.append(d);
    s
}

/// What was being typed into other controls' cards.
pub open spec fn without_control(m: Map<(usize, usize, Seq<char>), String>, control: usize) -> Map<
    (usize, usize, Seq<char>),
    String,
> {
    Map::new(
        |k: (usize, usize, Seq<char>)| m.contains_key(k) && k.0 != control,
        |k: (usize, usize, Seq<char>)| m[k],
    )
}

fn forget_control(m: &AssocMap<RecordBox, String>, control: usize) -> (out: AssocMap<
    RecordBox,
    String,
>)
    ensures
        out@ == without_control(m@, control),
{
    let mut out: AssocMap<RecordBox, String> = AssocMap::new();
    let entries = m.list();
    let ghost all = m.listed();
    let mut i: usize = 0;
    assert(all.take(0) =~= Seq::empty());
    assert(out@ =~= without_control(as_map(all.take(0)), control));
    while i < entries.len()
        invariant
            i <= entries.len(),
            all == entries@,
            out@ == without_control(as_map(all.take(i as int)), control),
        decreases entries.len() - i,
    {
        let name = &entries[i].0;
        assert(all.take(i + 1).drop_last() =~= all.take(i as int));
        assert(all.take(i + 1).last() == all[i as int]);
        if name.control != control {
            let copy = RecordBox {
                control: name.control,
                row: name.row,
                field: name.field.clone(),
            };
            out.insert(copy, entries[i].1.clone());
        }
        i += 1;
        assert(out@ =~= without_control(as_map(all.take(i as int)), control));
    }
    assert(all.take(all.len() as int) =~= all);
    out
}

impl PluginPane {
    /// Take in how an edit went. Whatever happened is said in the status;
    /// only an edit that was saved changes what the pane shows.
    pub fn edit_done(&mut self, edit: Edit, outcome: EditOutcome, snap: &ConfigSnapshot)
        requires
            old(self).wf(),
            snap.covers(controls_of(*old(self))),
            edit_fits(edit@, *old(self)),
        ensures
            final(self).wf(),
            final(self).status matches Some(s) && s@ == status_text(
                old(self).config_path@,
                edit@,
                outcome,
            ),
            !(outcome is Saved) ==> *final(self) == (PluginPane {
                status: final(self).status,
                ..*old(self)
            }),
            outcome is Saved ==> {
                &&& arrays_match(final(self).arrays@, controls_of(*old(self)), *snap)
                &&& match edit@ {
                    EditV::Setting { index, value, .. } => {
                        &&& opt_value(final(self).values@[index as int]) == Some(value)
                        &&& final(self).values@ == old(self).values@.update(
                            index as int,
                            final(self).values@[index as int],
                        )
                    },
                    EditV::Strings { index, members, .. } => {
                        &&& opt_value(final(self).values@[index as int]) == Some(
                            ValueV::Text(joined(members, ", "@)),
                        )
                        &&& final(self).values@ == old(self).values@.update(
                            index as int,
                            final(self).values@[index as int],
                        )
                    },
                    _ => final(self).values@ == old(self).values@,
                }
                &&& match edit@ {
                    EditV::RecordField { .. } | EditV::AddRecord { .. }
                    | EditV::RemoveRecord { .. } => records_match(
                        final(self).records@,
                        controls_of(*old(self)),
                        *snap,
                    ),
                    _ => final(self).records == old(self).records,
                }
                &&& match edit@ {
                    EditV::RemoveRecord { index, .. } => {
                        &&& final(self).record_edits@ == without_control(
                            old(self).record_edits@,
                            index,
                        )
                        &&& final(self).open_suggest is None
                    },
                    _ => {
                        &&& final(self).record_edits == old(self).record_edits
                        &&& final(self).open_suggest == old(self).open_suggest
                    },
                }
                &&& *final(self) == (PluginPane {
                    status: final(self).status,
                    arrays: final(self).arrays,
                    values: final(self).values,
                    records: final(self).records,
                    record_edits: final(self).record_edits,
                    open_suggest: final(self).open_suggest,
                    ..*old(self)
                })
            },
    {
        match outcome {
            EditOutcome::Refused { error } => {
                let text = match &edit {
                    Edit::Strings { key, .. } => concat4(
                        "Could not change ",
                        key.as_str(),
                        ": ",
                        error.as_str(),
                    ),
                    Edit::ArrayMember { key, .. } => concat4(
                        "Could not change ",
                        key.as_str(),
                        ": ",
                        error.as_str(),
                    ),
                    Edit::ArrayMembers { key, .. } => concat4(
                        "Could not change ",
                        key.as_str(),
                        ": ",
                        error.as_str(),
                    ),
                    _ => error,
                };
                self.status = Some(text);
            },
            EditOutcome::NoDirectory { dir, error } => {
                self.status = Some(
                    concat4("Could not create ", dir.as_str(), ": ", error.as_str()),
                );
            },
            EditOutcome::NotWritten { error } => {
                self.status = Some(
                    concat4(
                        "Could not write ",
                        self.config_path.as_str(),
                        ": ",
                        error.as_str(),
                    ),
                );
            },
            EditOutcome::Saved => {
                let mut text = "Saved to ".to_owned();
                text.append(self.config_path.as_str());
                self.status = Some(text);
                self.reload_arrays(snap);
                match edit {
                    Edit::Setting { index, value, .. } => {
                        self.values.set(index, Some(value));
                    },
                    Edit::Strings { index, members, .. } => {
                        self.values.set(index, Some(SettingValue::Text(join(&members, ", "))));
                    },
                    Edit::RecordField { .. } | Edit::AddRecord { .. } => {
                        self.reload_records(snap);
                    },
                    Edit::RemoveRecord { index, .. } => {
                        self.record_edits = forget_control(&self.record_edits, index);
                        self.open_suggest = None;
                        self.reload_records(snap);
                    },
                    Edit::ArrayMember { .. } | Edit::ArrayMembers { .. } => {},
                }
            },
        }
    }
}

// ─── Settling what was typed ─────────────────────────────────────────

/// The finite number the host reads a text as, where it reads one.
pub open spec fn number_of(numbers: Seq<(String, Decimal)>, text: Seq<char>) -> Option<ValueV>
    decreases numbers.len(),
{
    if numbers.len() == 0 {
        None
    } else if numbers[0].0@ == text {
        Some(ValueV::Float(numbers[0].1.bits, numbers[0].1.shown@))
    } else {
        number_of(numbers.drop_first(), text)
    }
}

fn find_number(numbers: &Vec<(String, Decimal)>, text: &str) -> (v: Option<SettingValue>)
    ensures
        opt_value(v) == number_of(numbers@, text@),
{
    let mut i: usize = 0;
    assert(numbers@.skip(0) =~= numbers@);
    while i < numbers.len()
        invariant
            i <= numbers.len(),
            number_of(numbers@, text@) == number_of(numbers@.skip(i as int), text@),
        decreases numbers.len() - i,
    {
        assert(numbers@.skip(i as int)[0] == numbers@[i as int]);
        if str_eq(numbers[i].0.as_str(), text) {
            let d = &numbers[i].1;
            return Some(SettingValue::Float(Decimal { bits: d.bits, shown: d.shown.clone() }));
        }
        assert(numbers@.skip(i as int).drop_first() =~= numbers@.skip(i + 1));
        i += 1;
    }
    None
}

/// The value a trimmed text is for a box of the given kind; none while it
/// is not one yet.
pub open spec fn settled_value(
    kind: ControlKind,
    text: Seq<char>,
    numbers: Seq<(String, Decimal)>,
) -> Option<ValueV> {
    match kind {
        ControlKind::Number => match integer(text, true) {
            Some(n) => if i64::MIN <= n <= i64::MAX {
                Some(ValueV::Int(n as i64))
            } else {
                None
            },
            None => None,
        },
        ControlKind::Decimal => number_of(numbers, text),
        _ => Some(ValueV::Text(text)),
    }
}

fn settle_value(kind: ControlKind, text: &str, numbers: &Vec<(String, Decimal)>) -> (v: Option<
    SettingValue,
>)
    ensures
        opt_value(v) == settled_value(kind, text@, numbers@),
{
    match kind {
        ControlKind::Number => match parse_i64(text) {
            Some(n) => Some(SettingValue::Int(n)),
            None => None,
        },
        ControlKind::Decimal => find_number(numbers, text),
        _ => Some(SettingValue::Text(text.to_owned())),
    }
}

/// What settles in a control's box: whether the text is done with, and the
/// edit it leads to.
pub open spec fn settle_control(
    p: PluginPane,
    index: usize,
    raw: Seq<char>,
    numbers: Seq<(String, Decimal)>,
) -> (bool, Option<EditV>) {
    match kind_at(p, index as int) {
        None => (false, None),
        Some(ControlKind::Strings) => (
            true,
            match key_of(p, index) {
                Some(key) => Some(
                    EditV::Strings {
                        index,
                        key,
                        members: trimmed_pieces(split(trimmed(raw), ',')),
                    },
                ),
                None => None,
            },
        ),
        Some(kind) => match settled_value(kind, trimmed(raw), numbers) {
            Some(value) => (
                true,
                match key_of(p, index) {
                    Some(key) => Some(EditV::Setting { index, key, value }),
                    None => None,
                },
            ),
            None => (false, None),
        },
    }
}

/// The kind of the first field of that name.
pub open spec fn field_kind(fields: Seq<PaneField>, name: Seq<char>) -> Option<ControlKind>
    decreases fields.len(),
{
    if fields.len() == 0 {
        None
    } else if fields[0].key@ == name {
        Some(fields[0].kind)
    } else {
        field_kind(fields.drop_first(), name)
    }
}

/// What settles in a card's box. What was typed into a field the manifest
/// does not declare is dropped.
pub open spec fn settle_record(
    p: PluginPane,
    at: (usize, usize, Seq<char>),
    raw: Seq<char>,
    numbers: Seq<(String, Decimal)>,
) -> (bool, Option<EditV>) {
    let kind = if at.0 < controls_of(p).len() {
        field_kind(controls_of(p)[at.0 as int].fields@, at.2)
    } else {
        None
    };
    match kind {
        None => (true, None),
        Some(k) => match settled_value(k, trimmed(raw), numbers) {
            Some(value) => (
                true,
                match key_of(p, at.0) {
                    Some(key) => Some(
                        EditV::RecordField { index: at.0, key, row: at.1, field: at.2, value },
                    ),
                    None => None,
                },
            ),
            None => (false, None),
        },
    }
}

/// The box of a control the cursor is in.
pub open spec fn held_control(typing: Option<Typing>) -> Option<usize> {
    match typing {
        Some(Typing::Control(index)) => Some(index),
        _ => None,
    }
}

/// The box of a card the cursor is in.
pub open spec fn held_record(typing: Option<Typing>) -> Option<(usize, usize, Seq<char>)> {
    match typing {
        Some(Typing::Record { control, row, field }) => Some((control, row, field@)),
        _ => None,
    }
}

/// The edits the controls' boxes lead to, in order.
pub open spec fn control_edits(
    p: PluginPane,
    entries: Seq<(usize, String)>,
    held: Option<usize>,
    numbers: Seq<(String, Decimal)>,
) -> Seq<EditV>
    decreases entries.len(),
{
    if entries.len() == 0 {
        Seq::empty()
    } else {
        let init = control_edits(p, entries.drop_last(), held, numbers);
        let e = entries.last();
        if held == Some(e.0) {
            init
        } else {
            match settle_control(p, e.0, e.1@, numbers).1 {
                Some(edit) => init.push(edit),
                None => init,
            }
        }
    }
}

/// The controls' boxes that keep their text.
pub open spec fn control_left(
    p: PluginPane,
    entries: Seq<(usize, String)>,
    held: Option<usize>,
    numbers: Seq<(String, Decimal)>,
) -> Seq<(usize, String)>
    decreases entries.len(),
{
    if entries.len() == 0 {
        Seq::empty()
    } else {
        let init = control_left(p, entries.drop_last(), held, numbers);
        let e = entries.last();
        if held == Some(e.0) || !settle_control(p, e.0, e.1@, numbers).0 {
            init.push(e)
        } else {
            init
        }
    }
}

/// The edits the cards' boxes lead to, in order.
pub open spec fn record_edits_of(
    p: PluginPane,
    entries: Seq<(RecordBox, String)>,
    held: Option<(usize, usize, Seq<char>)>,
    numbers: Seq<(String, Decimal)>,
) -> Seq<EditV>
    decreases entries.len(),
{
    if entries.len() == 0 {
        Seq::empty()
    } else {
        let init = record_edits_of(p, entries.drop_last(), held, numbers);
        let e = entries.last();
        if held == Some(e.0.id()) {
            init
        } else {
            match settle_record(p, e.0.id(), e.1@, numbers).1 {
                Some(edit) => init.push(edit),
                None => init,
            }
        }
    }
}

/// The cards' boxes that keep their text, as (box, text).
pub open spec fn record_left(
    p: PluginPane,
    entries: Seq<(RecordBox, String)>,
    held: Option<(usize, usize, Seq<char>)>,
    numbers: Seq<(String, Decimal)>,
) -> Seq<(RecordBox, String)>
    decreases entries.len(),
{
    if entries.len() == 0 {
        Seq::empty()
    } else {
        let init = record_left(p, entries.drop_last(), held, numbers);
        let e = entries.last();
        if held == Some(e.0.id()) || !settle_record(p, e.0.id(), e.1@, numbers).0 {
            init.push(e)
        } else {
            init
        }
    }
}

/// What is being typed into the controls' boxes once everything that can
/// settle has: the box in use keeps its text, and so does one whose text is
/// not a value of its kind yet, or which is no control's.
pub open spec fn kept_texts(
    p: PluginPane,
    held: Option<usize>,
    numbers: Seq<(String, Decimal)>,
) -> Map<usize, String> {
    texts_kept(p, p.edits@, held, numbers)
}

pub open spec fn texts_kept(
    p: PluginPane,
    typed: Map<usize, String>,
    held: Option<usize>,
    numbers: Seq<(String, Decimal)>,
) -> Map<usize, String> {
    Map::new(
        |k: usize|
            typed.contains_key(k) && (held == Some(k) || !settle_control(
                p,
                k,
                typed[k]@,
                numbers,
            ).0),
        |k: usize| typed[k],
    )
}

/// The same of the cards' boxes.
pub open spec fn kept_card_texts(
    p: PluginPane,
    held: Option<(usize, usize, Seq<char>)>,
    numbers: Seq<(String, Decimal)>,
) -> Map<(usize, usize, Seq<char>), String> {
    card_texts_kept(p, p.record_edits@, held, numbers)
}

pub open spec fn card_texts_kept(
    p: PluginPane,
    typed: Map<(usize, usize, Seq<char>), String>,
    held: Option<(usize, usize, Seq<char>)>,
    numbers: Seq<(String, Decimal)>,
) -> Map<(usize, usize, Seq<char>), String> {
    Map::new(
        |k: (usize, usize, Seq<char>)|
            typed.contains_key(k) && (held == Some(k) || !settle_record(
                p,
                k,
                typed[k]@,
                numbers,
            ).0),
        |k: (usize, usize, Seq<char>)| typed[k],
    )
}

/// The control's box an edit comes from.
pub open spec fn control_box(e: EditV) -> Option<usize> {
    match e {
        EditV::Setting { index, .. } => Some(index),
        EditV::Strings { index, .. } => Some(index),
        _ => None,
    }
}

/// The card's box an edit comes from.
pub open spec fn card_box(e: EditV) -> Option<(usize, usize, Seq<char>)> {
    match e {
        EditV::RecordField { index, row, field, .. } => Some((index, row, field)),
        _ => None,
    }
}

/// The edit is what the text in a control's box settles to.
pub open spec fn control_due(
    p: PluginPane,
    typed: Map<usize, String>,
    held: Option<usize>,
    numbers: Seq<(String, Decimal)>,
    e: EditV,
) -> bool {
    control_box(e) matches Some(k) && typed.contains_key(k) && held != Some(k) && settle_control(
        p,
        k,
        typed[k]@,
        numbers,
    ).1 == Some(e)
}

/// The edit is what the text in a card's box settles to.
pub open spec fn card_due(
    p: PluginPane,
    typed: Map<(usize, usize, Seq<char>), String>,
    held: Option<(usize, usize, Seq<char>)>,
    numbers: Seq<(String, Decimal)>,
    e: EditV,
) -> bool {
    card_box(e) matches Some(k) && typed.contains_key(k) && held != Some(k) && settle_record(
        p,
        k,
        typed[k]@,
        numbers,
    ).1 == Some(e)
}

/// The edit is what the text in some box settles to, and the box is not the
/// one in use.
pub open spec fn is_due(
    p: PluginPane,
    typing: Option<Typing>,
    numbers: Seq<(String, Decimal)>,
    e: EditV,
) -> bool {
    ||| control_due(p, p.edits@, held_control(typing), numbers, e)
    ||| card_due(p, p.record_edits@, held_record(typing), numbers, e)
}

/// No box is written twice.
pub open spec fn one_edit_per_box(edits: Seq<EditV>) -> bool {
    forall|i: int, j: int|
        0 <= i < j < edits.len() ==> control_box(#[trigger] edits[i]) != control_box(
            #[trigger] edits[j],
        ) || card_box(edits[i]) != card_box(edits[j])
}

proof fn lemma_controls_flush(
    p: PluginPane,
    entries: Seq<(usize, String)>,
    held: Option<usize>,
    numbers: Seq<(String, Decimal)>,
)
    requires
        distinct_keys(entries),
    ensures
        as_map(control_left(p, entries, held, numbers)) == texts_kept(
            p,
            as_map(entries),
            held,
            numbers,
        ),
        distinct_keys(control_left(p, entries, held, numbers)),
        forall|e: EditV| #[trigger]
            control_edits(p, entries, held, numbers).contains(e) == control_due(
                p,
                as_map(entries),
                held,
                numbers,
                e,
            ),
        one_edit_per_box(control_edits(p, entries, held, numbers)),
    decreases entries.len(),
{
    let left = control_left(p, entries, held, numbers);
    let edits = control_edits(p, entries, held, numbers);
    if entries.len() == 0 {
        assert(as_map(left) =~= texts_kept(p, as_map(entries), held, numbers));
    } else {
        let init = entries.drop_last();
        let last = entries.last();
        let m = as_map(init);
        let kept = control_left(p, init, held, numbers);
        let before = control_edits(p, init, held, numbers);
        lemma_distinct_init(entries);
        lemma_controls_flush(p, init, held, numbers);
        if held == Some(last.0) || !settle_control(p, last.0, last.1@, numbers).0 {
            assert(left.drop_last() =~= kept);
            lemma_push_keeps_distinct(kept, last);
        }
        assert(as_map(left) =~= texts_kept(p, as_map(entries), held, numbers));
        assert forall|e: EditV| #[trigger] edits.contains(e) == control_due(
            p,
            as_map(entries),
            held,
            numbers,
            e,
        ) by {
            assert(before.contains(e) == control_due(p, m, held, numbers, e));
            lemma_push_contains(before, edits, e);
        }
        assert forall|i: int, j: int| 0 <= i < j < edits.len() implies control_box(
            #[trigger] edits[i],
        ) != control_box(#[trigger] edits[j]) || card_box(edits[i]) != card_box(edits[j]) by {
            assert(edits[i] == before[i]);
            assert(before.contains(before[i]));
            if j < before.len() {
                assert(edits[j] == before[j]);
            }
        }
    }
}

proof fn lemma_cards_flush(
    p: PluginPane,
    entries: Seq<(RecordBox, String)>,
    held: Option<(usize, usize, Seq<char>)>,
    numbers: Seq<(String, Decimal)>,
)
    requires
        distinct_keys(entries),
    ensures
        as_map(record_left(p, entries, held, numbers)) == card_texts_kept(
            p,
            as_map(entries),
            held,
            numbers,
        ),
        distinct_keys(record_left(p, entries, held, numbers)),
        forall|e: EditV| #[trigger]
            record_edits_of(p, entries, held, numbers).contains(e) == card_due(
                p,
                as_map(entries),
                held,
                numbers,
                e,
            ),
        one_edit_per_box(record_edits_of(p, entries, held, numbers)),
    decreases entries.len(),
{
    let left = record_left(p, entries, held, numbers);
    let edits = record_edits_of(p, entries, held, numbers);
    if entries.len() == 0 {
        assert(as_map(left) =~= card_texts_kept(p, as_map(entries), held, numbers));
    } else {
        let init = entries.drop_last();
        let last = entries.last();
        let m = as_map(init);
        let kept = record_left(p, init, held, numbers);
        let before = record_edits_of(p, init, held, numbers);
        lemma_distinct_init(entries);
        lemma_cards_flush(p, init, held, numbers);
        if held == Some(last.0.id()) || !settle_record(p, last.0.id(), last.1@, numbers).0 {
            assert(left.drop_last() =~= kept);
            lemma_push_keeps_distinct(kept, last);
        }
        assert(as_map(left) =~= card_texts_kept(p, as_map(entries), held, numbers));
        assert forall|e: EditV| #[trigger] edits.contains(e) == card_due(
            p,
            as_map(entries),
            held,
            numbers,
            e,
        ) by {
            assert(before.contains(e) == card_due(p, m, held, numbers, e));
            lemma_push_contains(before, edits, e);
        }
        assert forall|i: int, j: int| 0 <= i < j < edits.len() implies control_box(
            #[trigger] edits[i],
        ) != control_box(#[trigger] edits[j]) || card_box(edits[i]) != card_box(edits[j]) by {
            assert(edits[i] == before[i]);
            assert(before.contains(before[i]));
            if j < before.len() {
                assert(edits[j] == before[j]);
            }
        }
    }
}

/// A list that is another one, or that with something behind it, has what
/// the other has, and that.
proof fn lemma_push_contains(before: Seq<EditV>, after: Seq<EditV>, e: EditV)
    requires
        after == before || (after.len() > 0 && after == before.push(after.last())),
    ensures
        after == before ==> after.contains(e) == before.contains(e),
        after != before ==> after.contains(e) == (before.contains(e) || e == after.last()),
{
    if after != before {
        if before.contains(e) {
            let i = choose|i: int| 0 <= i < before.len() && before[i] == e;
            assert(after[i] == e);
        }
        if e == after.last() {
            assert(after[after.len() - 1] == e);
        }
        if after.contains(e) && e != after.last() {
            let i = choose|i: int| 0 <= i < after.len() && after[i] == e;
            assert(before[i] == e);
        }
    }
}

/// The edits of both kinds of boxes together.
proof fn lemma_due(p: PluginPane, typing: Option<Typing>, numbers: Seq<(String, Decimal)>)
    requires
        distinct_keys(p.edits.listed()),
        distinct_keys(p.record_edits.listed()),
    ensures
        ({
            let all = control_edits(p, p.edits.listed(), held_control(typing), numbers)
                + record_edits_of(p, p.record_edits.listed(), held_record(typing), numbers);
            &&& forall|e: EditV| #[trigger] all.contains(e) == is_due(p, typing, numbers, e)
            &&& one_edit_per_box(all)
        }),
{
    let a = control_edits(p, p.edits.listed(), held_control(typing), numbers);
    let b = record_edits_of(p, p.record_edits.listed(), held_record(typing), numbers);
    let all = a + b;
    lemma_controls_flush(p, p.edits.listed(), held_control(typing), numbers);
    lemma_cards_flush(p, p.record_edits.listed(), held_record(typing), numbers);
    assert forall|e: EditV| #[trigger] all.contains(e) == is_due(p, typing, numbers, e) by {
        assert(a.contains(e) == control_due(p, p.edits@, held_control(typing), numbers, e));
        assert(b.contains(e) == card_due(p, p.record_edits@, held_record(typing), numbers, e));
        if a.contains(e) {
            let i = choose|i: int| 0 <= i < a.len() && a[i] == e;
            assert(all[i] == e);
        }
        if b.contains(e) {
            let i = choose|i: int| 0 <= i < b.len() && b[i] == e;
            assert(all[a.len() + i] == e);
        }
        if all.contains(e) {
            let i = choose|i: int| 0 <= i < all.len() && all[i] == e;
            if i < a.len() {
                assert(a[i] == e);
            } else {
                assert(b[i - a.len()] == e);
            }
        }
    }
    assert forall|i: int, j: int| 0 <= i < j < all.len() implies control_box(
        #[trigger] all[i],
    ) != control_box(#[trigger] all[j]) || card_box(all[i]) != card_box(all[j]) by {
        if j < a.len() {
            assert(all[i] == a[i] && all[j] == a[j]);
        } else if i >= a.len() {
            assert(all[i] == b[i - a.len()] && all[j] == b[j - a.len()]);
        } else {
            assert(a.contains(all[i])) by {
                assert(a[i] == all[i]);
            }
            assert(b.contains(all[j])) by {
                assert(b[j - a.len()] == all[j]);
            }
        }
    }
}

fn kind_of_field(fields: &Vec<PaneField>, name: &str) -> (kind: Option<ControlKind>)
    ensures
        kind == field_kind(fields@, name@),
{
    let mut i: usize = 0;
    assert(fields@.skip(0) =~= fields@);
    while i < fields.len()
        invariant
            i <= fields.len(),
            field_kind(fields@, name@) == field_kind(fields@.skip(i as int), name@),
        decreases fields.len() - i,
    {
        assert(fields@.skip(i as int)[0] == fields@[i as int]);
        if str_eq(fields[i].key.as_str(), name) {
            return Some(fields[i].kind);
        }
        assert(fields@.skip(i as int).drop_first() =~= fields@.skip(i + 1));
        i += 1;
    }
    None
}

impl PluginPane {
    fn settle_box(&self, index: usize, raw: &str, numbers: &Vec<(String, Decimal)>) -> (r: (
        bool,
        Option<Edit>,
    ))
        ensures
            (r.0, opt_edit(r.1)) == settle_control(*self, index, raw@, numbers@),
    {
        let kind = match self.control(index) {
            Some(c) => c.kind,
            None => {
                return (false, None);
            },
        };
        let text = trim(raw);
        if kind == ControlKind::Strings {
            return (true, self.set_strings(index, text.as_str()));
        }
        match settle_value(kind, text.as_str(), numbers) {
            Some(value) => match self.key_at(index) {
                Some(key) => (true, Some(Edit::Setting { index, key, value })),
                None => (true, None),
            },
            None => (false, None),
        }
    }

    fn settle_card(&self, at: &RecordBox, raw: &str, numbers: &Vec<(String, Decimal)>) -> (r: (
        bool,
        Option<Edit>,
    ))
        ensures
            (r.0, opt_edit(r.1)) == settle_record(*self, at.id(), raw@, numbers@),
    {
        let kind = match self.control(at.control) {
            Some(c) => kind_of_field(&c.fields, at.field.as_str()),
            None => None,
        };
        let text = trim(raw);
        match kind {
            None => (true, None),
            Some(k) => match settle_value(k, text.as_str(), numbers) {
                Some(value) => match self.key_at(at.control) {
                    Some(key) => (
                        true,
                        Some(
                            Edit::RecordField {
                                index: at.control,
                                key,
                                row: at.row,
                                field: at.field.clone(),
                                value,
                            },
                        ),
                    ),
                    None => (true, None),
                },
                None => (false, None),
            },
        }
    }

    /// Settle everything typed since the last flush, except the box the
    /// user is still in: the edits to write, in order. Text that is not yet
    /// a value of the right shape stays in its box and out of the file.
    /// `numbers` is what the host reads the decimal texts as.
    pub fn flush_edits(
        &mut self,
        still_typing: Option<&Typing>,
        numbers: &Vec<(String, Decimal)>,
    ) -> (edits: Vec<Edit>)
        ensures
            ({
                let typing = match still_typing {
                    Some(t) => Some(*t),
                    None => None,
                };
                let p = *old(self);
                &&& edit_views(edits@) == control_edits(
                    p,
                    p.edits.listed(),
                    held_control(typing),
                    numbers@,
                ) + record_edits_of(p, p.record_edits.listed(), held_record(typing), numbers@)
                &&& final(self).edits.listed() == control_left(
                    p,
                    p.edits.listed(),
                    held_control(typing),
                    numbers@,
                )
                &&& final(self).record_edits.listed() == record_left(
                    p,
                    p.record_edits.listed(),
                    held_record(typing),
                    numbers@,
                )
                &&& final(self).edits@ == kept_texts(p, held_control(typing), numbers@)
                &&& final(self).record_edits@ == kept_card_texts(
                    p,
                    held_record(typing),
                    numbers@,
                )
                &&& forall|e: EditV| #[trigger]
                    edit_views(edits@).contains(e) == is_due(p, typing, numbers@, e)
                &&& one_edit_per_box(edit_views(edits@))
                &&& *final(self) == (PluginPane {
                    edits: final(self).edits,
                    record_edits: final(self).record_edits,
                    ..p
                })
            }),
    {
        let ghost typing = match still_typing {
            Some(t) => Some(*t),
            None => None,
        };
        let held = match still_typing {
            Some(Typing::Control(index)) => Some(*index),
            _ => None,
        };
        let mut edits: Vec<Edit> = Vec::new();
        let mut left: Vec<(usize, String)> = Vec::new();
        let entries = self.edits.list();
        let ghost all = self.edits.listed();
        let mut i: usize = 0;
        assert(all.take(0) =~= Seq::empty());
        assert(edit_views(edits@) =~= Seq::empty());
        while i < entries.len()
            invariant
                i <= entries.len(),
                *self == *old(self),
                all == entries@,
                held == held_control(typing),
                edit_views(edits@) == control_edits(
                    *self,
                    all.take(i as int),
                    held_control(typing),
                    numbers@,
                ),
                left@ == control_left(*self, all.take(i as int), held_control(typing), numbers@),
            decreases entries.len() - i,
        {
            let index: usize = entries[i].0;
            let ghost before = edit_views(edits@);
            assert(all.take(i + 1).drop_last() =~= all.take(i as int));
            assert(all.take(i + 1).last() == all[i as int]);
            let in_it = match held {
                Some(h) => h == index,
                None => false,
            };
            if in_it {
                left.push((index, entries[i].1.clone()));
            } else {
                let (settled, edit) = self.settle_box(index, entries[i].1.as_str(), numbers);
                if let Some(e) = edit {
                    let ghost v = e@;
                    edits.push(e);
                    assert(edit_views(edits@) =~= before.push(v));
                }
                if !settled {
                    left.push((index, entries[i].1.clone()));
                }
            }
            i += 1;
        }
        assert(all.take(all.len() as int) =~= all);
        let mut card_edits = self.flush_record_edits(still_typing, numbers);
        let ghost a = edit_views(edits@);
        let ghost b = edit_views(card_edits.0@);
        edits.append(&mut card_edits.0);
        assert(edit_views(edits@) =~= a + b);
        proof {
            lemma_controls_flush(*self, all, held_control(typing), numbers@);
            lemma_cards_flush(*self, self.record_edits.listed(), held_record(typing), numbers@);
            lemma_due(*self, typing, numbers@);
        }
        self.edits = AssocMap::of(left);
        self.record_edits = AssocMap::of(card_edits.1);
        edits
    }

    /// The same for the boxes inside a repeating group: the edits, and the
    /// boxes that keep their text.
    fn flush_record_edits(
        &self,
        still_typing: Option<&Typing>,
        numbers: &Vec<(String, Decimal)>,
    ) -> (r: (Vec<Edit>, Vec<(RecordBox, String)>))
        ensures
            ({
                let typing = match still_typing {
                    Some(t) => Some(*t),
                    None => None,
                };
                &&& distinct_keys(self.record_edits.listed())
                &&& edit_views(r.0@) == record_edits_of(
                    *self,
                    self.record_edits.listed(),
                    held_record(typing),
                    numbers@,
                )
                &&& r.1@ == record_left(
                    *self,
                    self.record_edits.listed(),
                    held_record(typing),
                    numbers@,
                )
            }),
    {
        let ghost typing = match still_typing {
            Some(t) => Some(*t),
            None => None,
        };
        let mut edits: Vec<Edit> = Vec::new();
        let mut left: Vec<(RecordBox, String)> = Vec::new();
        let entries = self.record_edits.list();
        let ghost all = self.record_edits.listed();
        let mut i: usize = 0;
        assert(all.take(0) =~= Seq::empty());
        assert(edit_views(edits@) =~= Seq::empty());
        while i < entries.len()
            invariant
                i <= entries.len(),
                all == entries@,
                typing == (match still_typing {
                    Some(t) => Some(*t),
                    None => None,
                }),
                edit_views(edits@) == record_edits_of(
                    *self,
                    all.take(i as int),
                    held_record(typing),
                    numbers@,
                ),
                left@ == record_left(*self, all.take(i as int), held_record(typing), numbers@),
            decreases entries.len() - i,
        {
            let ghost before = edit_views(edits@);
            assert(all.take(i + 1).drop_last() =~= all.take(i as int));
            assert(all.take(i + 1).last() == all[i as int]);
            let at = &entries[i].0;
            let copy = RecordBox { control: at.control, row: at.row, field: at.field.clone() };
            let in_it = match still_typing {
                Some(Typing::Record { control, row, field }) => *control == at.control && *row
                    == at.row && str_eq(field.as_str(), at.field.as_str()),
                _ => false,
            };
            if in_it {
                left.push((copy, entries[i].1.clone()));
            } else {
                let (settled, edit) = self.settle_card(
                    at,
                    entries[i].1.as_str(),
                    numbers,
                );
                if let Some(e) = edit {
                    let ghost v = e@;
                    edits.push(e);
                    assert(edit_views(edits@) =~= before.push(v));
                }
                if !settled {
                    left.push((copy, entries[i].1.clone()));
                }
            }
            i += 1;
        }
        assert(all.take(all.len() as int) =~= all);
        (edits, left)
    }

    /// Every text a decimal box may be holding: what the host has to read
    /// as a number before a flush.
    pub fn typed_texts(&self) -> (v: Vec<String>)
        ensures
            texts(v@) == self.edits.listed().map_values(|e: (usize, String)| trimmed(e.1@))
                + self.record_edits.listed().map_values(|e: (RecordBox, String)| trimmed(e.1@)),
    {
        let mut v: Vec<String> = Vec::new();
        let mut i: usize = 0;
        let ghost a = self.edits.listed().map_values(|e: (usize, String)| trimmed(e.1@));
        let ghost b = self.record_edits.listed().map_values(
            |e: (RecordBox, String)| trimmed(e.1@),
        );
        let boxes = self.edits.list();
        while i < boxes.len()
            invariant
                i <= boxes.len(),
                boxes@ == self.edits.listed(),
                a == self.edits.listed().map_values(|e: (usize, String)| trimmed(e.1@)),
                v@.len() == i,
                forall|k: int| 0 <= k < i ==> (#[trigger] v@[k])@ == a[k],
            decreases boxes.len() - i,
        {
            v.push(trim(boxes[i].1.as_str()));
            i += 1;
        }
        let mut k: usize = 0;
        let cards = self.record_edits.list();
        while k < cards.len()
            invariant
                k <= cards.len(),
                cards@ == self.record_edits.listed(),
                a.len() + k == v@.len(),
                b == self.record_edits.listed().map_values(
                    |e: (RecordBox, String)| trimmed(e.1@),
                ),
                forall|j: int| 0 <= j < a.len() ==> (#[trigger] v@[j])@ == a[j],
                forall|j: int| a.len() <= j < v@.len() ==> (#[trigger] v@[j])@ == b[j - a.len()],
            decreases cards.len() - k,
        {
            v.push(trim(cards[k].1.as_str()));
            k += 1;
        }
        assert(texts(v@) =~= a + b);
        v
    }
}

/// Settling never takes the text out of the box the user is in, and never
/// writes it.
pub proof fn law_the_box_in_use_keeps_its_text(
    p: PluginPane,
    typing: Option<Typing>,
    numbers: Seq<(String, Decimal)>,
    e: EditV,
)
    ensures
        held_control(typing) matches Some(k) ==> {
            &&& p.edits@.contains_key(k) ==> kept_texts(
                p,
                held_control(typing),
                numbers,
            ).contains_pair(k, p.edits@[k])
            &&& is_due(p, typing, numbers, e) ==> control_box(e) != Some(k)
        },
        held_record(typing) matches Some(k) ==> {
            &&& p.record_edits@.contains_key(k) ==> kept_card_texts(
                p,
                held_record(typing),
                numbers,
            ).contains_pair(k, p.record_edits@[k])
            &&& is_due(p, typing, numbers, e) ==> card_box(e) != Some(k)
        },
{
}

/// Text that stays in its box stays out of the file.
pub proof fn law_what_stays_is_not_written(
    p: PluginPane,
    typing: Option<Typing>,
    numbers: Seq<(String, Decimal)>,
    e: EditV,
)
    requires
        is_due(p, typing, numbers, e),
    ensures
        control_box(e) matches Some(k) ==> !kept_texts(
            p,
            held_control(typing),
            numbers,
        ).contains_key(k),
        card_box(e) matches Some(k) ==> !kept_card_texts(
            p,
            held_record(typing),
            numbers,
        ).contains_key(k),
{
}

/// No prefix of what is typed reaches the file: once a newer text is in a
/// control's box, the pane holds just what it would hold had the older one
/// never been typed, and what is written of the box is the newer one.
pub proof fn law_only_the_newest_text_is_written(
    p: PluginPane,
    once: PluginPane,
    twice: PluginPane,
    index: usize,
    older: String,
    newer: String,
    typing: Option<Typing>,
    numbers: Seq<(String, Decimal)>,
    e: EditV,
)
    requires
        once.edits@ == p.edits@.insert(index, older),
        twice.edits@ == once.edits@.insert(index, newer),
    ensures
        twice.edits@ == p.edits@.insert(index, newer),
        is_due(twice, typing, numbers, e) && control_box(e) == Some(index) ==> settle_control(
            twice,
            index,
            newer@,
            numbers,
        ).1 == Some(e),
{
    assert(twice.edits@ =~= p.edits@.insert(index, newer));
}

/// The same of a card's box.
pub proof fn law_only_the_newest_card_text_is_written(
    p: PluginPane,
    once: PluginPane,
    twice: PluginPane,
    at: (usize, usize, Seq<char>),
    older: String,
    newer: String,
    typing: Option<Typing>,
    numbers: Seq<(String, Decimal)>,
    e: EditV,
)
    requires
        once.record_edits@ == p.record_edits@.insert(at, older),
        twice.record_edits@ == once.record_edits@.insert(at, newer),
    ensures
        twice.record_edits@ == p.record_edits@.insert(at, newer),
        is_due(twice, typing, numbers, e) && card_box(e) == Some(at) ==> settle_record(
            twice,
            at,
            newer@,
            numbers,
        ).1 == Some(e),
{
    assert(twice.record_edits@ =~= p.record_edits@.insert(at, newer));
}

/// An extension with its config file and what that holds.
pub type FoundPlugin = (DiscoveredExtension, String, ConfigSnapshot);

/// Those that declare a pane, in order.
pub open spec fn with_pane(found: Seq<FoundPlugin>) -> Seq<FoundPlugin> {
    found.filter(|f: FoundPlugin| f.0.manifest.pane@.len() > 0)
}

/// The panes of the plug-ins that declare one, each with its file and what
/// that holds.
pub fn load_all(found: Vec<FoundPlugin>) -> (panes: Vec<PluginPane>)
    requires
        forall|i: int|
            0 <= i < found@.len() ==> (#[trigger] found@[i]).2.covers(found@[i].0.manifest.pane@),
    ensures
        panes@.len() == with_pane(found@).len(),
        forall|i: int|
            0 <= i < panes@.len() ==> (#[trigger] panes@[i]).wf() && is_opened(
                panes@[i],
                with_pane(found@)[i].0,
                with_pane(found@)[i].1,
                with_pane(found@)[i].2,
            ),
{
    let ghost all = found@;
    let mut rest = found;
    let mut panes: Vec<PluginPane> = Vec::new();
    let ghost mut n: int = 0;
    proof {
        reveal(Seq::filter);
        assert(all.skip(0) =~= all);
        assert(with_pane(all.take(0)) =~= Seq::empty());
    }
    while rest.len() > 0
        invariant
            0 <= n <= all.len(),
            rest@ == all.skip(n),
            forall|i: int|
                0 <= i < all.len() ==> (#[trigger] all[i]).2.covers(all[i].0.manifest.pane@),
            panes@.len() == with_pane(all.take(n)).len(),
            forall|i: int|
                0 <= i < panes@.len() ==> (#[trigger] panes@[i]).wf() && is_opened(
                    panes@[i],
                    with_pane(all.take(n))[i].0,
                    with_pane(all.take(n))[i].1,
                    with_pane(all.take(n))[i].2,
                ),
        decreases rest.len(),
    {
        proof {
            assert(rest@[0] == all[n]);
            assert(all.take(n + 1).drop_last() =~= all.take(n));
            assert(all.skip(n).drop_first() =~= all.skip(n + 1));
            reveal(Seq::filter);
            assert(with_pane(all.take(n + 1)) == if all[n].0.manifest.pane@.len() > 0 {
                with_pane(all.take(n)).push(all[n])
            } else {
                with_pane(all.take(n))
            });
        }
        let (ext, path, snap) = rest.remove(0);
        assert(rest@ =~= all.skip(n + 1));
        if ext.manifest.pane.len() > 0 {
            panes.push(PluginPane::load(ext, path, &snap));
        }
        proof {
            n = n + 1;
        }
    }
    assert(all.take(all.len() as int) =~= all);
    panes
}

} // verus!
