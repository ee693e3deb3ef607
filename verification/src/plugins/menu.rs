//! Plug-in entries in the tray menu: which entries there are, what a click
//! on one means, and what a plug-in's own list turns into.

use vstd::prelude::*;
use vstd::string::*;

use crate::assoc::AssocMap;
use crate::plugins::supervisor::{
    disabled, read_rows, read_state, run_command, run_command_for_row,
};
use crate::plugins::types::{DiscoveredExtension, TrayAction, TrayItemKind, TrayList};
use crate::text::{
    chars_of, contains_text, decimal, decimal_text, find, integer, is_blank, is_blank_text,
    lemma_blank_trims_to_nothing, lemma_split_is_never_empty, parse_u32, split, split_on,
    stands_at, string_of, texts, trim, trim_pieces, trimmed, trimmed_pieces,
};

verus! {

broadcast use vstd::string::group_string_axioms;

// ─── Rows ────────────────────────────────────────────────────────────

/// One entry of a plug-in's runtime menu, as the plug-in printed it.
#[derive(Clone, Debug, PartialEq, Eq)]
pub struct MenuRow {
    /// Handed back to the plug-in when an action on this row is chosen.
    pub id: String,
    /// The line the user reads in the menu.
    pub label: String,
    /// Lines shown under it, disabled.
    pub details: Vec<String>,
}

pub struct MenuRowV {
    pub id: Seq<char>,
    pub label: Seq<char>,
    pub details: Seq<Seq<char>>,
}

impl View for MenuRow {
    type V = MenuRowV;

    open spec fn view(&self) -> MenuRowV {
        MenuRowV { id: self.id@, label: self.label@, details: texts(self.details@) }
    }
}

pub open spec fn row_views(rows: Seq<MenuRow>) -> Seq<MenuRowV> {
    rows.map_values(|r: MenuRow| r@)
}

/// What one printed line says: tab-separated, the id, the label, then the
/// details; blank details are left out, and an id is its own label where
/// none is given.
pub open spec fn row_of(line: Seq<char>) -> MenuRowV {
    let fields = split(line, '\t');
    let id = trimmed(fields[0]);
    let label = if fields.len() > 1 {
        trimmed(fields[1])
    } else {
        Seq::empty()
    };
    MenuRowV {
        id,
        label: if label.len() == 0 {
            id
        } else {
            label
        },
        details: if fields.len() > 2 {
            trimmed_pieces(fields.skip(2))
        } else {
            Seq::empty()
        },
    }
}

/// The rows of the lines: blank lines and rows without an id are left out.
pub open spec fn rows_of(lines: Seq<Seq<char>>) -> Seq<MenuRowV>
    decreases lines.len(),
{
    if lines.len() == 0 {
        Seq::empty()
    } else {
        let init = rows_of(lines.drop_last());
        let row = row_of(lines.last());
        if is_blank(lines.last()) || row.id.len() == 0 {
            init
        } else {
            init.push(row)
        }
    }
}

fn parse_row(line: &str) -> (row: MenuRow)
    ensures
        row@ == row_of(line@),
{
    proof {
        lemma_split_is_never_empty(line@, '\t');
    }
    let fields = split_on(line, '\t');
    let ghost f = texts(fields@);
    assert(f[0] == fields@[0]@);
    let id = trim(fields[0].as_str());
    let label = if fields.len() > 1 {
        assert(f[1] == fields@[1]@);
        trim(fields[1].as_str())
    } else {
        String::new()
    };
    let details = if fields.len() > 2 {
        trim_pieces(&fields, 2)
    } else {
        Vec::new()
    };
    assert(fields@.len() <= 2 ==> texts(details@) =~= Seq::empty());
    let label = if label.as_str().is_empty() {
        id.clone()
    } else {
        label
    };
    MenuRow { id, label, details }
}

/// Parse a list command's output into rows, one per line.
pub fn parse_rows(text: &str) -> (rows: Vec<MenuRow>)
    ensures
        row_views(rows@) == rows_of(split(text@, '\n')),
{
    let lines = split_on(text, '\n');
    let ghost all = texts(lines@);
    let mut rows: Vec<MenuRow> = Vec::new();
    let mut i: usize = 0;
    assert(row_views(rows@) =~= rows_of(all.take(0)));
    while i < lines.len()
        invariant
            i <= lines.len(),
            all == texts(lines@),
            row_views(rows@) == rows_of(all.take(i as int)),
        decreases lines.len() - i,
    {
        let ghost before = row_views(rows@);
        proof {
            assert(all.take(i + 1).drop_last() =~= all.take(i as int));
            assert(all.take(i + 1).last() == lines@[i as int]@);
        }
        if !is_blank_text(lines[i].as_str()) {
            let row = parse_row(lines[i].as_str());
            let ghost v = row@;
            if !row.id.as_str().is_empty() {
                rows.push(row);
                assert(row_views(rows@) =~= before.push(v));
            }
        }
        i += 1;
    }
    assert(all.take(all.len() as int) =~= all);
    rows
}

/// Every row has an id to act on and a label to read.
pub proof fn law_rows_have_id_and_label(lines: Seq<Seq<char>>)
    ensures
        forall|i: int|
            0 <= i < rows_of(lines).len() ==> (#[trigger] rows_of(lines)[i]).id.len() > 0
                && rows_of(lines)[i].label.len() > 0,
    decreases lines.len(),
{
    if lines.len() > 0 {
        law_rows_have_id_and_label(lines.drop_last());
        let init = rows_of(lines.drop_last());
        assert forall|i: int| 0 <= i < rows_of(lines).len() implies (#[trigger] rows_of(
            lines,
        )[i]).id.len() > 0 && rows_of(lines)[i].label.len() > 0 by {
            if i < init.len() {
                assert(rows_of(lines)[i] == init[i]);
            }
        }
    }
}

// ─── Titles ──────────────────────────────────────────────────────────

/// `i` is where `{}` first stands in the label.
pub open spec fn placeholder_at(label: Seq<char>, i: int) -> bool {
    stands_at(label, "{}"@, i) && forall|j: int| 0 <= j < i ==> !#[trigger] stands_at(label, "{}"@, j)
}

/// The title of a list of `rows` rows: the number in place of the first
/// `{}`, or in brackets behind a label that has none.
pub open spec fn is_count_label(title: Seq<char>, label: Seq<char>, rows: nat) -> bool {
    if contains_text(label, "{}"@) {
        exists|i: int| #[trigger]
            placeholder_at(label, i) && title == label.take(i) + decimal(rows) + label.skip(i + 2)
    } else {
        title == label + " ("@ + decimal(rows) + ")"@
    }
}

/// A list's title with `{}` replaced by how many rows are in it. Without
/// a placeholder the count is appended.
pub fn count_label(label: &str, rows: usize) -> (title: String)
    ensures
        is_count_label(title@, label@, rows as nat),
{
    proof {
        reveal_strlit("{}");
    }
    let v = chars_of(label);
    let mark = chars_of("{}");
    assert(mark@.len() == 2);
    match find(&v, &mark) {
        Some(i) => {
            let end: usize = v.len();
            assert(i + mark@.len() <= end);
            let mut title = string_of(&v, 0, i);
            title.append(decimal_text(rows as u64).as_str());
            title.append(string_of(&v, i + 2, end).as_str());
            proof {
                assert(placeholder_at(label@, i as int));
                assert(label@.subrange(0, i as int) =~= label@.take(i as int));
                assert(label@.subrange(i + 2, label@.len() as int) =~= label@.skip(i + 2));
                assert(title@ =~= label@.take(i as int) + decimal(rows as nat) + label@.skip(i + 2));
            }
            title
        },
        None => {
            let mut title = label.to_owned();
            title.append(" (");
            title.append(decimal_text(rows as u64).as_str());
            title.append(")");
            title
        },
    }
}

// ─── Entries ─────────────────────────────────────────────────────────

/// An entry appended to the tray menu, by the plug-in it belongs to and its
/// place in that plug-in's manifest.
#[derive(Clone, Copy, PartialEq, Eq, Structural, Debug)]
pub enum MenuEntry {
    Separator,
    Status { ext: usize, item: usize },
    Check { ext: usize, item: usize },
    Plain { ext: usize, item: usize },
    List { ext: usize, list: usize },
}

pub open spec fn item_entry(kind: TrayItemKind, ext: usize, item: usize) -> MenuEntry {
    match kind {
        TrayItemKind::Status => MenuEntry::Status { ext, item },
        TrayItemKind::Check => MenuEntry::Check { ext, item },
        TrayItemKind::Plain => MenuEntry::Plain { ext, item },
    }
}

/// The entries of the first `n` items.
pub open spec fn item_entries(e: DiscoveredExtension, ext: usize, n: nat) -> Seq<MenuEntry>
    decreases n,
{
    if n == 0 {
        Seq::empty()
    } else {
        let i = (n - 1) as nat;
        item_entries(e, ext, i).push(
            item_entry(e.manifest.tray_items@[i as int].kind, ext, i as usize),
        )
    }
}

/// The entries of the first `n` lists, those without a command left out.
pub open spec fn list_entries(e: DiscoveredExtension, ext: usize, n: nat) -> Seq<MenuEntry>
    decreases n,
{
    if n == 0 {
        Seq::empty()
    } else {
        let i = (n - 1) as nat;
        let init = list_entries(e, ext, i);
        if is_blank(e.manifest.tray_lists@[i as int].command@) {
            init
        } else {
            init.push(MenuEntry::List { ext, list: i as usize })
        }
    }
}

/// A plug-in's section of the menu: a separator, its items, its lists. A
/// plug-in that declares neither gets no section.
pub open spec fn section_of(e: DiscoveredExtension, ext: usize) -> Seq<MenuEntry> {
    if e.manifest.tray_items@.len() == 0 && e.manifest.tray_lists@.len() == 0 {
        Seq::empty()
    } else {
        seq![MenuEntry::Separator] + item_entries(e, ext, e.manifest.tray_items@.len())
            + list_entries(e, ext, e.manifest.tray_lists@.len())
    }
}

/// The sections of the first `n` plug-ins, in order.
pub open spec fn menu_of(exts: Seq<DiscoveredExtension>, n: nat) -> Seq<MenuEntry>
    decreases n,
{
    if n == 0 {
        Seq::empty()
    } else {
        let i = (n - 1) as nat;
        menu_of(exts, i) + section_of(exts[i as int], i as usize)
    }
}

/// What a click on a list's entry does: which plug-in, which command, which
/// row — empty for an action on the whole list.
#[derive(Clone, Debug)]
pub struct RowRoute {
    pub ext: usize,
    pub command: String,
    pub row: String,
}

pub struct RowRouteV {
    pub ext: usize,
    pub command: Seq<char>,
    pub row: Seq<char>,
}

impl View for RowRoute {
    type V = RowRouteV;

    open spec fn view(&self) -> RowRouteV {
        RowRouteV { ext: self.ext, command: self.command@, row: self.row@ }
    }
}

pub open spec fn route_views(routes: Seq<RowRoute>) -> Seq<RowRouteV> {
    routes.map_values(|r: RowRoute| r@)
}

/// The routes of the given actions on one row.
pub open spec fn action_routes(ext: usize, actions: Seq<TrayAction>, row: Seq<char>) -> Seq<RowRouteV> {
    actions.map_values(|a: TrayAction| RowRouteV { ext, command: a.command@, row })
}

/// The routes of a list: every action on every row, row by row, then the
/// actions on the whole. An empty list has none.
pub open spec fn list_routes(ext: usize, spec: TrayList, rows: Seq<MenuRowV>) -> Seq<RowRouteV> {
    if rows.len() == 0 {
        Seq::empty()
    } else {
        rows_routes(ext, spec, rows) + action_routes(ext, spec.bulk@, Seq::empty())
    }
}

pub open spec fn rows_routes(ext: usize, spec: TrayList, rows: Seq<MenuRowV>) -> Seq<RowRouteV>
    decreases rows.len(),
{
    if rows.len() == 0 {
        Seq::empty()
    } else {
        rows_routes(ext, spec, rows.drop_last()) + action_routes(
            ext,
            spec.actions@,
            rows.last().id,
        )
    }
}

/// How a list's submenu looks.
#[derive(Clone, Debug)]
pub struct ListLook {
    pub title: String,
    /// An empty list cannot be opened.
    pub enabled: bool,
}

/// The look of a list with so many rows: its own words for emptiness, or
/// its title with the count.
pub open spec fn is_look(look: ListLook, spec: TrayList, rows: nat) -> bool {
    &&& look.enabled == (rows > 0)
    &&& if rows == 0 && !is_blank(spec.empty_label@) {
        look.title@ == trimmed(spec.empty_label@)
    } else {
        is_count_label(look.title@, spec.label@, rows)
    }
}

pub fn look_of(spec: &TrayList, rows: usize) -> (look: ListLook)
    ensures
        is_look(look, *spec, rows as nat),
{
    if rows == 0 {
        let empty = trim(spec.empty_label.as_str());
        proof {
            lemma_blank_trims_to_nothing(spec.empty_label@);
        }
        if !empty.as_str().is_empty() {
            return ListLook { title: empty, enabled: false };
        }
    }
    ListLook { title: count_label(spec.label.as_str(), rows), enabled: rows > 0 }
}

fn push_action_routes(out: &mut Vec<RowRoute>, ext: usize, actions: &Vec<TrayAction>, row: &str)
    ensures
        route_views(final(out)@) == route_views(old(out)@) + action_routes(ext, actions@, row@),
{
    let ghost before = route_views(out@);
    let mut i: usize = 0;
    while i < actions.len()
        invariant
            i <= actions.len(),
            route_views(out@) == before + action_routes(ext, actions@.take(i as int), row@),
        decreases actions.len() - i,
    {
        let ghost now = route_views(out@);
        let r = RowRoute { ext, command: actions[i].command.clone(), row: row.to_owned() };
        let ghost v = r@;
        out.push(r);
        i += 1;
        proof {
            assert(route_views(out@) =~= now.push(v));
            assert(action_routes(ext, actions@.take(i as int), row@) =~= action_routes(
                ext,
                actions@.take(i - 1),
                row@,
            ).push(v));
            assert(route_views(out@) =~= before + action_routes(
                ext,
                actions@.take(i as int),
                row@,
            ));
        }
    }
    assert(actions@.take(actions@.len() as int) =~= actions@);
}

/// Where the clicks on one list's entries lead.
pub fn routes_of(ext: usize, spec: &TrayList, rows: &Vec<MenuRow>) -> (routes: Vec<RowRoute>)
    ensures
        route_views(routes@) == list_routes(ext, *spec, row_views(rows@)),
{
    let mut routes: Vec<RowRoute> = Vec::new();
    let ghost all = row_views(rows@);
    assert(route_views(routes@) =~= Seq::empty());
    if rows.len() == 0 {
        return routes;
    }
    let mut i: usize = 0;
    while i < rows.len()
        invariant
            i <= rows.len(),
            all == row_views(rows@),
            route_views(routes@) == rows_routes(ext, *spec, all.take(i as int)),
        decreases rows.len() - i,
    {
        proof {
            assert(all.take(i + 1).drop_last() =~= all.take(i as int));
            assert(all.take(i + 1).last() == rows@[i as int]@);
        }
        push_action_routes(&mut routes, ext, &spec.actions, rows[i].id.as_str());
        i += 1;
    }
    assert(all.take(all.len() as int) =~= all);
    push_action_routes(&mut routes, ext, &spec.bulk, "");
    proof {
        reveal_strlit("");
        assert(""@ =~= Seq::empty());
    }
    routes
}

// ─── The menu ────────────────────────────────────────────────────────

/// A submenu whose rows come from the plug-in each time state is read.
pub struct ListMenu {
    pub ext: usize,
    pub list: usize,
    pub look: ListLook,
    pub rows: Vec<MenuRow>,
}

/// The plug-in half of the tray menu: the entries, and what they mean.
pub struct PluginMenu {
    pub extensions: Vec<DiscoveredExtension>,
    /// In the order they are appended; an entry is addressed by its place.
    pub entries: Vec<MenuEntry>,
    pub lists: Vec<ListMenu>,
    /// A list's own entries, addressed by their place.
    pub row_routes: Vec<RowRoute>,
    /// How many things the plug-ins are waiting on the owner for.
    pub attention: u32,
}

/// A click on an entry of the menu proper, or on one of a list's.
#[derive(Clone, Copy, PartialEq, Eq, Structural, Debug)]
pub enum MenuClick {
    Entry(usize),
    Row(usize),
}

/// What an entry of the menu proper runs, if it runs anything.
pub open spec fn entry_command(exts: Seq<DiscoveredExtension>, e: MenuEntry) -> Option<(
    usize,
    Seq<char>,
)> {
    match e {
        MenuEntry::Check { ext, item } | MenuEntry::Plain { ext, item } => if ext < exts.len()
            && item < exts[ext as int].manifest.tray_items@.len() {
            Some((ext, exts[ext as int].manifest.tray_items@[item as int].command@))
        } else {
            None
        },
        _ => None,
    }
}

/// What a click runs, if it is a plug-in's: which plug-in, which command and
/// which row, empty for none.
pub open spec fn click_target(m: PluginMenu, click: MenuClick) -> Option<
    (usize, Seq<char>, Seq<char>),
> {
    match click {
        MenuClick::Row(i) => if i < m.row_routes@.len() && m.row_routes@[i as int].ext
            < m.extensions@.len() {
            let r = m.row_routes@[i as int];
            Some((r.ext, r.command@, r.row@))
        } else {
            None
        },
        MenuClick::Entry(i) => if i < m.entries@.len() {
            match entry_command(m.extensions@, m.entries@[i as int]) {
                Some(c) => Some((c.0, c.1, Seq::empty())),
                None => None,
            }
        } else {
            None
        },
    }
}

/// A target by its plug-in and its texts.
pub open spec fn target_view(t: Option<(usize, String, String)>) -> Option<
    (usize, Seq<char>, Seq<char>),
> {
    match t {
        Some(x) => Some((x.0, x.1@, x.2@)),
        None => None,
    }
}

/// Some entry shows what a plug-in reports.
pub open spec fn shows_state(entries: Seq<MenuEntry>) -> bool {
    exists|i: int|
        0 <= i < entries.len() && ((#[trigger] entries[i]) is Status || entries[i] is Check
            || entries[i] is List)
}

/// What one plug-in reports as waiting for the owner.
pub open spec fn attention_of(e: DiscoveredExtension, state: Option<AssocMap<String, String>>) -> int {
    let key = trimmed(e.manifest.attention_state_key@);
    match state {
        Some(m) => if !is_blank(e.manifest.attention_state_key@) && m@.contains_key(key) {
            match integer(trimmed(m@[key]@), false) {
                Some(n) => if n <= u32::MAX {
                    n
                } else {
                    0
                },
                None => 0,
            }
        } else {
            0
        },
        None => 0,
    }
}

pub open spec fn attention_sum(
    exts: Seq<DiscoveredExtension>,
    states: Seq<Option<AssocMap<String, String>>>,
    n: nat,
) -> int
    decreases n,
{
    if n == 0 {
        0
    } else {
        attention_sum(exts, states, (n - 1) as nat) + attention_of(exts[n - 1], states[n - 1])
    }
}

/// What one plug-in's report adds to the count; never below nothing.
proof fn lemma_attention_is_a_count(e: DiscoveredExtension, state: Option<AssocMap<String, String>>)
    ensures
        attention_of(e, state) >= 0,
{
    match state {
        Some(m) => {
            let t = trimmed(m@[trimmed(e.manifest.attention_state_key@)]@);
            crate::text::lemma_unsigned_integer_is_not_negative(t);
        },
        None => {},
    }
}

proof fn lemma_attention_grows(
    exts: Seq<DiscoveredExtension>,
    states: Seq<Option<AssocMap<String, String>>>,
    m: nat,
    n: nat,
)
    requires
        m <= n,
    ensures
        attention_sum(exts, states, m) <= attention_sum(exts, states, n),
    decreases n,
{
    if m < n {
        lemma_attention_grows(exts, states, m, (n - 1) as nat);
        lemma_attention_is_a_count(exts[n - 1], states[n - 1]);
    }
}

/// A list built again from a plug-in that prints nothing: no rows, its own
/// words for emptiness.
pub open spec fn is_emptied(l: ListMenu, was: ListMenu, exts: Seq<DiscoveredExtension>) -> bool {
    &&& l.ext == was.ext
    &&& l.list == was.list
    &&& l.rows@.len() == 0
    &&& if was.ext < exts.len() && was.list < exts[was.ext as int].manifest.tray_lists@.len() {
        is_look(l.look, exts[was.ext as int].manifest.tray_lists@[was.list as int], 0)
    } else {
        l.look.title@ == was.look.title@ && !l.look.enabled
    }
}

/// Every list was built again, and no entry of a list is left to click.
pub open spec fn lists_emptied(before: PluginMenu, after: PluginMenu) -> bool {
    &&& after.row_routes@.len() == 0
    &&& after.lists@.len() == before.lists@.len()
    &&& forall|i: int|
        0 <= i < after.lists@.len() ==> is_emptied(
            #[trigger] after.lists@[i],
            before.lists@[i],
            before.extensions@,
        )
}

impl PluginMenu {
    /// One section per plug-in that declares menu entries, nothing for a
    /// plug-in that declares none. The lists start truthful rather than
    /// blank.
    pub fn build(extensions: Vec<DiscoveredExtension>) -> (menu: PluginMenu)
        ensures
            menu.entries@ == menu_of(extensions@, extensions@.len()),
            menu.extensions == extensions,
            menu.lists_follow_entries(),
            forall|i: int|
                0 <= i < menu.lists@.len() ==> is_emptied(
                    #[trigger] menu.lists@[i],
                    menu.lists@[i],
                    extensions@,
                ),
            menu.row_routes@.len() == 0,
            menu.attention == 0,
    {
        let mut entries: Vec<MenuEntry> = Vec::new();
        let mut i: usize = 0;
        assert(entries@ =~= menu_of(extensions@, 0));
        while i < extensions.len()
            invariant
                i <= extensions.len(),
                entries@ == menu_of(extensions@, i as nat),
            decreases extensions.len() - i,
        {
            push_section(&mut entries, &extensions[i], i);
            i += 1;
        }
        let lists = lists_of(&entries, &extensions);
        let ghost f = |l: ListMenu| MenuEntry::List { ext: l.ext, list: l.list };
        let ghost declared = lists@.map_values(f);
        let mut menu = PluginMenu {
            extensions,
            entries,
            lists,
            row_routes: Vec::new(),
            attention: 0,
        };
        menu.refresh_lists();
        assert(menu.lists@.map_values(f) =~= declared);
        menu
    }

    /// There is one list per list entry, in the order of the entries.
    pub open spec fn lists_follow_entries(&self) -> bool {
        &&& self.lists@.map_values(
            |l: ListMenu| MenuEntry::List { ext: l.ext, list: l.list },
        ) == self.entries@.filter(|e: MenuEntry| e is List)
        &&& forall|i: int|
            0 <= i < self.lists@.len() ==> (#[trigger] self.lists@[i]).rows@.len() == 0
                && !self.lists@[i].look.enabled
    }

    /// Does any plug-in report state worth re-reading?
    pub fn reports_state(&self) -> (b: bool)
        ensures
            b == shows_state(self.entries@),
    {
        let mut i: usize = 0;
        while i < self.entries.len()
            invariant
                i <= self.entries.len(),
                forall|j: int|
                    0 <= j < i ==> !((#[trigger] self.entries@[j]) is Status || self.entries@[j] is Check
                        || self.entries@[j] is List),
            decreases self.entries.len() - i,
        {
            match self.entries[i] {
                MenuEntry::Status { .. } | MenuEntry::Check { .. } | MenuEntry::List { .. } => {
                    return true;
                },
                _ => {},
            }
            i += 1;
        }
        false
    }

    /// How many things the plug-ins are waiting on the owner for.
    pub fn attention(&self) -> (n: u32)
        ensures
            n == self.attention,
    {
        self.attention
    }

    /// Count what the plug-ins report as waiting.
    pub fn count_attention(&mut self, states: &Vec<Option<AssocMap<String, String>>>)
        requires
            states@.len() == old(self).extensions@.len(),
            attention_sum(old(self).extensions@, states@, states@.len()) <= u32::MAX,
        ensures
            final(self).attention == attention_sum(
                old(self).extensions@,
                states@,
                states@.len(),
            ),
            *final(self) == (PluginMenu { attention: final(self).attention, ..*old(self) }),
    {
        let mut total: u32 = 0;
        let mut i: usize = 0;
        while i < self.extensions.len()
            invariant
                i <= self.extensions.len(),
                *self == *old(self),
                states@.len() == self.extensions@.len(),
                attention_sum(self.extensions@, states@, states@.len()) <= u32::MAX,
                total == attention_sum(self.extensions@, states@, i as nat),
            decreases self.extensions.len() - i,
        {
            proof {
                lemma_attention_grows(
                    self.extensions@,
                    states@,
                    (i + 1) as nat,
                    states@.len(),
                );
            }
            total = total + attention_count(&self.extensions[i], &states[i]);
            i += 1;
        }
        self.attention = total;
    }

    /// Re-read every plug-in's state and redraw the entries that show it.
    /// No plug-in runs, so nothing waits and every list is empty.
    pub fn refresh(&mut self)
        ensures
            final(self).extensions == old(self).extensions,
            final(self).entries == old(self).entries,
            shows_state(old(self).entries@) ==> final(self).attention == 0 && lists_emptied(
                *old(self),
                *final(self),
            ),
            !shows_state(old(self).entries@) ==> *final(self) == *old(self),
    {
        if !self.reports_state() {
            return;
        }
        let mut states: Vec<Option<AssocMap<String, String>>> = Vec::new();
        let mut i: usize = 0;
        while i < self.extensions.len()
            invariant
                i <= self.extensions.len(),
                states@.len() == i,
                *self == *old(self),
                forall|j: int| 0 <= j < i ==> (#[trigger] states@[j]) is None,
                attention_sum(self.extensions@, states@, i as nat) == 0,
            decreases self.extensions.len() - i,
        {
            states.push(read_state(&self.extensions[i]));
            i += 1;
            proof {
                lemma_attention_of_nothing(self.extensions@, states@, i as nat);
            }
        }
        self.count_attention(&states);
        self.refresh_lists();
    }

    /// Throw away every list's contents and build them again from what the
    /// plug-in prints now.
    pub fn refresh_lists(&mut self)
        ensures
            final(self).extensions == old(self).extensions,
            final(self).entries == old(self).entries,
            final(self).attention == old(self).attention,
            lists_emptied(*old(self), *final(self)),
    {
        let mut routes: Vec<RowRoute> = Vec::new();
        let mut built: Vec<ListMenu> = Vec::new();
        let mut i: usize = 0;
        while i < self.lists.len()
            invariant
                i <= self.lists.len(),
                *self == *old(self),
                built@.len() == i,
                routes@.len() == 0,
                forall|j: int|
                    0 <= j < i ==> is_emptied(
                        #[trigger] built@[j],
                        old(self).lists@[j],
                        old(self).extensions@,
                    ),
            decreases self.lists.len() - i,
        {
            let ext: usize = self.lists[i].ext;
            let list: usize = self.lists[i].list;
            if ext < self.extensions.len() && list < self.extensions[ext].manifest.tray_lists.len() {
                let spec = &self.extensions[ext].manifest.tray_lists[list];
                let rows = read_rows(&self.extensions[ext], spec.command.as_str());
                let mut own = routes_of(ext, spec, &rows);
                let ghost o = route_views(own@);
                assert(o.len() == 0);
                routes.append(&mut own);
                let look = look_of(spec, rows.len());
                built.push(ListMenu { ext, list, look, rows });
            } else {
                let look = ListLook { title: self.lists[i].look.title.clone(), enabled: false };
                built.push(ListMenu { ext, list, look, rows: Vec::new() });
            }
            i += 1;
        }
        self.lists = built;
        self.row_routes = routes;
    }

    /// What a click runs: the plug-in, the command, and the row — empty for
    /// a command that is about no row. None where the click is not a
    /// plug-in's.
    pub fn target(&self, click: MenuClick) -> (target: Option<(usize, String, String)>)
        ensures
            target_view(target) == click_target(*self, click),
    {
        match click {
            MenuClick::Row(i) => {
                if i >= self.row_routes.len() || self.row_routes[i].ext >= self.extensions.len() {
                    return None;
                }
                let route = &self.row_routes[i];
                Some((route.ext, route.command.clone(), route.row.clone()))
            },
            MenuClick::Entry(i) => {
                if i >= self.entries.len() {
                    return None;
                }
                match self.entries[i] {
                    MenuEntry::Check { ext, item } | MenuEntry::Plain { ext, item } => {
                        if ext >= self.extensions.len() || item
                            >= self.extensions[ext].manifest.tray_items.len() {
                            return None;
                        }
                        let command = self.extensions[ext].manifest.tray_items[item].command.clone();
                        let none = String::new();
                        assert(none@ =~= Seq::<char>::empty());
                        Some((ext, command, none))
                    },
                    _ => None,
                }
            },
        }
    }

    /// Handle a click if it belongs to a plug-in: its target is run, and the
    /// answer says how that went. None where the click is not a plug-in's.
    pub fn handle(&self, click: MenuClick) -> (outcome: Option<Result<(), String>>)
        ensures
            outcome is Some == click_target(*self, click) is Some,
            outcome matches Some(r) ==> r matches Err(e) && e@ == disabled(),
    {
        match self.target(click) {
            Some((ext, command, row)) => {
                let ext = &self.extensions[ext];
                Some(
                    if row.as_str().is_empty() {
                        run_command(ext, command.as_str())
                    } else {
                        run_command_for_row(ext, command.as_str(), row.as_str())
                    },
                )
            },
            None => None,
        }
    }
}

proof fn lemma_attention_of_nothing(
    exts: Seq<DiscoveredExtension>,
    states: Seq<Option<AssocMap<String, String>>>,
    n: nat,
)
    requires
        n <= states.len(),
        forall|i: int| 0 <= i < states.len() ==> (#[trigger] states[i]) is None,
    ensures
        attention_sum(exts, states, n) == 0,
    decreases n,
{
    if n > 0 {
        lemma_attention_of_nothing(exts, states, (n - 1) as nat);
        assert(states[n - 1] is None);
    }
}

fn attention_count(e: &DiscoveredExtension, state: &Option<AssocMap<String, String>>) -> (n: u32)
    ensures
        n == attention_of(*e, *state),
{
    proof {
        lemma_blank_trims_to_nothing(e.manifest.attention_state_key@);
    }
    let key = trim(e.manifest.attention_state_key.as_str());
    if key.as_str().is_empty() {
        return 0;
    }
    match state {
        Some(m) => match m.get(&key) {
            Some(v) => match parse_u32(trim(v.as_str()).as_str()) {
                Some(n) => n,
                None => 0,
            },
            None => 0,
        },
        None => 0,
    }
}

fn push_section(entries: &mut Vec<MenuEntry>, e: &DiscoveredExtension, ext: usize)
    ensures
        final(entries)@ == old(entries)@ + section_of(*e, ext),
{
    let ghost before = entries@;
    let items = &e.manifest.tray_items;
    let lists = &e.manifest.tray_lists;
    if items.len() == 0 && lists.len() == 0 {
        assert(before + section_of(*e, ext) =~= before);
        return;
    }
    entries.push(MenuEntry::Separator);
    let ghost start = before + seq![MenuEntry::Separator];
    assert(entries@ =~= start + item_entries(*e, ext, 0));
    let mut i: usize = 0;
    while i < items.len()
        invariant
            i <= items.len(),
            items == e.manifest.tray_items,
            entries@ == start + item_entries(*e, ext, i as nat),
        decreases items.len() - i,
    {
        let entry = match items[i].kind {
            TrayItemKind::Status => MenuEntry::Status { ext, item: i },
            TrayItemKind::Check => MenuEntry::Check { ext, item: i },
            TrayItemKind::Plain => MenuEntry::Plain { ext, item: i },
        };
        entries.push(entry);
        i += 1;
        assert(entries@ =~= start + item_entries(*e, ext, i as nat));
    }
    let ghost with_items = start + item_entries(*e, ext, items@.len());
    let mut k: usize = 0;
    assert(entries@ =~= with_items + list_entries(*e, ext, 0));
    while k < lists.len()
        invariant
            k <= lists.len(),
            lists == e.manifest.tray_lists,
            entries@ == with_items + list_entries(*e, ext, k as nat),
        decreases lists.len() - k,
    {
        if !is_blank_text(lists[k].command.as_str()) {
            entries.push(MenuEntry::List { ext, list: k });
        }
        k += 1;
        assert(entries@ =~= with_items + list_entries(*e, ext, k as nat));
    }
    assert(entries@ =~= before + section_of(*e, ext));
}

fn lists_of(entries: &Vec<MenuEntry>, exts: &Vec<DiscoveredExtension>) -> (lists: Vec<ListMenu>)
    ensures
        lists@.map_values(|l: ListMenu| MenuEntry::List { ext: l.ext, list: l.list })
            == entries@.filter(|e: MenuEntry| e is List),
        forall|i: int|
            0 <= i < lists@.len() ==> (#[trigger] lists@[i]).rows@.len() == 0
                && !lists@[i].look.enabled,
{
    let ghost p = |e: MenuEntry| e is List;
    let ghost f = |l: ListMenu| MenuEntry::List { ext: l.ext, list: l.list };
    let mut lists: Vec<ListMenu> = Vec::new();
    let mut i: usize = 0;
    proof {
        reveal(Seq::filter);
        assert(lists@.map_values(f) =~= entries@.take(0).filter(p));
    }
    while i < entries.len()
        invariant
            i <= entries.len(),
            p == (|e: MenuEntry| e is List),
            f == (|l: ListMenu| MenuEntry::List { ext: l.ext, list: l.list }),
            lists@.map_values(f) == entries@.take(i as int).filter(p),
            forall|j: int|
                0 <= j < lists@.len() ==> (#[trigger] lists@[j]).rows@.len() == 0
                    && !lists@[j].look.enabled,
        decreases entries.len() - i,
    {
        let ghost before = lists@.map_values(f);
        proof {
            reveal(Seq::filter);
            assert(entries@.take(i + 1).drop_last() =~= entries@.take(i as int));
        }
        if let MenuEntry::List { ext, list } = entries[i] {
            let title = if ext < exts.len() && list < exts[ext].manifest.tray_lists.len() {
                exts[ext].manifest.tray_lists[list].label.clone()
            } else {
                String::new()
            };
            let l = ListMenu {
                ext,
                list,
                look: ListLook { title, enabled: false },
                rows: Vec::new(),
            };
            lists.push(l);
            assert(lists@.map_values(f) =~= before.push(MenuEntry::List { ext, list }));
        }
        i += 1;
    }
    assert(entries@.take(entries@.len() as int) =~= entries@);
    lists
}

} // verus!
