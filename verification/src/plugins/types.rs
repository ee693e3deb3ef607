//! What a plug-in's manifest declares.

use vstd::prelude::*;

verus! {

/// What a control of a plug-in's settings pane is.
#[derive(Clone, Copy, PartialEq, Eq, Structural, Debug)]
pub enum ControlKind {
    Section,
    Report,
    List,
    Suggest,
    Records,
    Strings,
    Number,
    Decimal,
    Toggle,
    Choice,
    Text,
    Button,
}

/// One choice a control offers.
#[derive(Clone, Debug)]
pub struct PaneOption {
    pub value: String,
    pub detail: String,
}

/// One field of a repeating group.
#[derive(Clone, Debug)]
pub struct PaneField {
    pub kind: ControlKind,
    pub key: String,
    pub command: String,
    pub options: Vec<PaneOption>,
}

/// One control of a settings pane.
#[derive(Clone, Debug)]
pub struct PaneControl {
    pub kind: ControlKind,
    /// Where in the plug-in's config file the value lives; empty for none.
    pub key: String,
    pub command: String,
    pub options: Vec<PaneOption>,
    pub fields: Vec<PaneField>,
    /// The field a card of the group is named by.
    pub id_field: String,
}

/// How a tray entry behaves.
#[derive(Clone, Copy, PartialEq, Eq, Structural, Debug)]
pub enum TrayItemKind {
    /// Reports, does not act.
    Status,
    /// Ticked while its alternative is the live one.
    Check,
    Plain,
}

#[derive(Clone, Debug)]
pub struct TrayItem {
    pub label: String,
    pub command: String,
    pub kind: TrayItemKind,
}

#[derive(Clone, Debug)]
pub struct TrayAction {
    pub label: String,
    pub command: String,
}

/// A submenu whose rows the plug-in prints.
#[derive(Clone, Debug)]
pub struct TrayList {
    pub label: String,
    pub command: String,
    pub empty_label: String,
    /// Offered on every row.
    pub actions: Vec<TrayAction>,
    /// Offered on the list as a whole.
    pub bulk: Vec<TrayAction>,
}

#[derive(Clone, Debug)]
pub struct Manifest {
    pub pane: Vec<PaneControl>,
    pub tray_items: Vec<TrayItem>,
    pub tray_lists: Vec<TrayList>,
    /// Which reported value counts what waits for the owner.
    pub attention_state_key: String,
    pub config_file: String,
}

#[derive(Clone, Debug)]
pub struct DiscoveredExtension {
    pub id: String,
    pub manifest: Manifest,
}

/// A value in a plug-in's config file.
#[derive(Clone, Debug)]
pub enum SettingValue {
    Bool(bool),
    Int(i64),
    Float(Decimal),
    Text(String),
}

/// A decimal number: its 64-bit pattern, and how it is written.
#[derive(Clone, Debug)]
pub struct Decimal {
    pub bits: u64,
    pub shown: String,
}

} // verus!
