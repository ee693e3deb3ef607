//! What holds of every tray menu: which entries it has, what they run, and
//! what a plug-in's printed list turns into.

use vstd::prelude::*;
use vstd::string::*;

use crate::assoc::AssocMap;
use crate::plugins::menu::{
    action_routes, attention_of, attention_sum, click_target, is_count_label, is_emptied, is_look,
    item_entries, item_entry, list_entries, list_routes, lists_emptied, menu_of, placeholder_at, row_of, rows_of,
    rows_routes, section_of, shows_state, ListLook, ListMenu, MenuClick, MenuEntry, MenuRowV, PluginMenu,
};
use crate::plugins::types::{DiscoveredExtension, TrayItemKind, TrayList};
use crate::text::{
    contains_text, decimal, is_blank, joined, lemma_blank_trims_to_nothing, split, stands_at,
    trimmed, trimmed_pieces,
};
use crate::text_laws::{
    law_a_written_number_is_read_back, law_joined_pieces_are_found_again,
    law_trimming_leaves_a_number_alone,
};

verus! {

broadcast use vstd::string::group_string_axioms;

// ─── Rows ────────────────────────────────────────────────────────────

/// A field as a plug-in means it: no tab in it, nothing to trim, not empty.
pub open spec fn is_plain_field(f: Seq<char>) -> bool {
    !f.contains('\t') && trimmed(f) == f && f.len() > 0
}

proof fn lemma_plain_pieces(fields: Seq<Seq<char>>)
    requires
        forall|i: int| 0 <= i < fields.len() ==> is_plain_field(#[trigger] fields[i]),
    ensures
        trimmed_pieces(fields) == fields,
    decreases fields.len(),
{
    if fields.len() > 0 {
        let init = fields.drop_last();
        assert forall|i: int| 0 <= i < init.len() implies is_plain_field(#[trigger] init[i]) by {
            assert(init[i] == fields[i]);
        }
        lemma_plain_pieces(init);
        assert(is_plain_field(fields[fields.len() - 1]));
        assert(init.push(fields.last()) =~= fields);
    } else {
        assert(trimmed_pieces(fields) =~= fields);
    }
}

/// What a plug-in prints is what the menu holds: a line of fields with tabs
/// between them gives the id, the label and the details that were printed,
/// in their order; an id printed alone is its own label.
pub proof fn law_a_printed_row_is_read_back(fields: Seq<Seq<char>>)
    requires
        fields.len() > 0,
        forall|i: int| 0 <= i < fields.len() ==> is_plain_field(#[trigger] fields[i]),
    ensures
        ({
            let row = row_of(joined(fields, seq!['\t']));
            &&& row.id == fields[0]
            &&& row.label == if fields.len() > 1 {
                fields[1]
            } else {
                fields[0]
            }
            &&& fields.len() > 2 ==> row.details == fields.skip(2)
            &&& fields.len() <= 2 ==> row.details.len() == 0
        }),
{
    assert forall|i: int| 0 <= i < fields.len() implies !(#[trigger] fields[i]).contains('\t') by {
        assert(is_plain_field(fields[i]));
    }
    law_joined_pieces_are_found_again(fields, '\t');
    assert(is_plain_field(fields[0]));
    if fields.len() > 1 {
        assert(is_plain_field(fields[1]));
    }
    if fields.len() > 2 {
        let rest = fields.skip(2);
        assert forall|i: int| 0 <= i < rest.len() implies is_plain_field(#[trigger] rest[i]) by {
            assert(rest[i] == fields[i + 2]);
        }
        lemma_plain_pieces(rest);
    }
}

/// A list is read line by line, in order: a line gives its row, or nothing
/// where it is blank or names no id.
pub proof fn law_a_list_is_read_line_by_line(a: Seq<Seq<char>>, b: Seq<Seq<char>>, line: Seq<char>)
    ensures
        rows_of(a + b) == rows_of(a) + rows_of(b),
        is_blank(line) || is_blank(split(line, '\t')[0]) ==> rows_of(seq![line]) == Seq::<
            MenuRowV,
        >::empty(),
        !is_blank(line) && !is_blank(split(line, '\t')[0]) ==> rows_of(seq![line]) == seq![
            row_of(line),
        ],
    decreases b.len(),
{
    lemma_blank_trims_to_nothing(split(line, '\t')[0]);
    assert(seq![line].drop_last() =~= Seq::empty());
    assert(rows_of(Seq::<Seq<char>>::empty()) =~= Seq::empty());
    assert(seq![line].last() == line);
    assert(Seq::<MenuRowV>::empty().push(row_of(line)) =~= seq![row_of(line)]);
    if b.len() == 0 {
        assert(a + b =~= a);
        assert(rows_of(a) + rows_of(b) =~= rows_of(a));
    } else {
        law_a_list_is_read_line_by_line(a, b.drop_last(), line);
        assert((a + b).drop_last() =~= a + b.drop_last());
        assert((a + b).last() == b.last());
        let x = row_of(b.last());
        assert(rows_of(a) + rows_of(b.drop_last()).push(x) =~= (rows_of(a) + rows_of(
            b.drop_last(),
        )).push(x));
    }
}

// ─── What a list's entries run ───────────────────────────────────────

proof fn lemma_row_routes(ext: usize, spec: TrayList, rows: Seq<MenuRowV>, r: int, a: int)
    ensures
        rows_routes(ext, spec, rows).len() == rows.len() * spec.actions@.len(),
        0 <= r < rows.len() && 0 <= a < spec.actions@.len() ==> {
            let k = r * spec.actions@.len() + a;
            &&& 0 <= k < rows_routes(ext, spec, rows).len()
            &&& rows_routes(ext, spec, rows)[k].ext == ext
            &&& rows_routes(ext, spec, rows)[k].command == spec.actions@[a].command@
            &&& rows_routes(ext, spec, rows)[k].row == rows[r].id
        },
    decreases rows.len(),
{
    let m = spec.actions@.len() as int;
    if rows.len() == 0 {
        assert(0 * m == 0);
    } else {
        let init = rows.drop_last();
        let n = rows.len() as int;
        lemma_row_routes(ext, spec, init, r, a);
        assert((n - 1) * m + m == n * m) by (nonlinear_arith);
        let before = rows_routes(ext, spec, init);
        let own = action_routes(ext, spec.actions@, rows.last().id);
        assert(rows_routes(ext, spec, rows) == before + own);
        assert(own.len() == m);
        if 0 <= r < n && 0 <= a < m {
            let k = r * m + a;
            if r < n - 1 {
                assert(init[r] == rows[r]);
                assert(rows_routes(ext, spec, rows)[k] == before[k]);
            } else {
                assert(k == before.len() + a);
                assert(rows_routes(ext, spec, rows)[k] == own[a]);
            }
        }
    }
}

/// A click on an action of a row runs that action's command on that row; a
/// click on an action on the whole runs its command on none. The entries
/// stand row by row, the actions in their order, and those on the whole at
/// the end; an empty list has none.
pub proof fn law_every_action_runs_on_its_row(
    ext: usize,
    spec: TrayList,
    rows: Seq<MenuRowV>,
    r: int,
    a: int,
    b: int,
)
    ensures
        ({
            let routes = list_routes(ext, spec, rows);
            let m = spec.actions@.len() as int;
            &&& rows.len() == 0 ==> routes.len() == 0
            &&& rows.len() > 0 ==> routes.len() == rows.len() * m + spec.bulk@.len()
            &&& 0 <= r < rows.len() && 0 <= a < m ==> {
                let x = routes[r * m + a];
                x.ext == ext && x.command == spec.actions@[a].command@ && x.row == rows[r].id
            }
            &&& rows.len() > 0 && 0 <= b < spec.bulk@.len() ==> {
                let x = routes[rows.len() * m + b];
                x.ext == ext && x.command == spec.bulk@[b].command@ && x.row.len() == 0
            }
        }),
{
    lemma_row_routes(ext, spec, rows, r, a);
    let whole = action_routes(ext, spec.bulk@, Seq::empty());
    assert(whole.len() == spec.bulk@.len());
    if rows.len() > 0 {
        let routes = list_routes(ext, spec, rows);
        let per_row = rows_routes(ext, spec, rows);
        assert(routes == per_row + whole);
        if 0 <= b < spec.bulk@.len() {
            assert(routes[per_row.len() + b] == whole[b]);
        }
        if 0 <= r < rows.len() && 0 <= a < spec.actions@.len() {
            let k = r * spec.actions@.len() + a;
            assert(routes[k] == per_row[k]);
        }
    }
}

// ─── The entries ─────────────────────────────────────────────────────

/// The entry stands for the item: it says where the item is declared, and
/// acts as the item is to.
pub open spec fn stands_for_item(
    entry: MenuEntry,
    exts: Seq<DiscoveredExtension>,
    ext: int,
    item: int,
) -> bool {
    &&& 0 <= ext < exts.len()
    &&& 0 <= item < exts[ext].manifest.tray_items@.len()
    &&& match entry {
        MenuEntry::Status { ext: e, item: i } => e == ext && i == item
            && exts[ext].manifest.tray_items@[item].kind == TrayItemKind::Status,
        MenuEntry::Check { ext: e, item: i } => e == ext && i == item
            && exts[ext].manifest.tray_items@[item].kind == TrayItemKind::Check,
        MenuEntry::Plain { ext: e, item: i } => e == ext && i == item
            && exts[ext].manifest.tray_items@[item].kind == TrayItemKind::Plain,
        _ => false,
    }
}

/// The entry stands for a list that has a command.
pub open spec fn stands_for_list(
    entry: MenuEntry,
    exts: Seq<DiscoveredExtension>,
    ext: int,
    list: int,
) -> bool {
    &&& 0 <= ext < exts.len()
    &&& 0 <= list < exts[ext].manifest.tray_lists@.len()
    &&& !is_blank(exts[ext].manifest.tray_lists@[list].command@)
    &&& entry is List && entry->List_ext == ext && entry->list == list
}

proof fn lemma_items(e: DiscoveredExtension, ext: usize, n: nat)
    requires
        n <= e.manifest.tray_items@.len(),
    ensures
        item_entries(e, ext, n).len() == n,
        forall|i: int|
            0 <= i < n ==> #[trigger] item_entries(e, ext, n)[i] == item_entry(
                e.manifest.tray_items@[i].kind,
                ext,
                i as usize,
            ),
    decreases n,
{
    if n > 0 {
        lemma_items(e, ext, (n - 1) as nat);
    }
}

proof fn lemma_lists(e: DiscoveredExtension, ext: usize, n: nat)
    requires
        n <= e.manifest.tray_lists@.len() <= usize::MAX,
    ensures
        forall|k: int|
            0 <= k < list_entries(e, ext, n).len() ==> {
                let x = #[trigger] list_entries(e, ext, n)[k];
                &&& x is List && x->List_ext == ext && x->list < n
                &&& !is_blank(e.manifest.tray_lists@[x->list as int].command@)
            },
        forall|i: int|
            #![trigger e.manifest.tray_lists@[i]]
            0 <= i < n && !is_blank(e.manifest.tray_lists@[i].command@) ==> list_entries(
                e,
                ext,
                n,
            ).contains(MenuEntry::List { ext, list: i as usize }),
    decreases n,
{
    if n > 0 {
        let m = (n - 1) as nat;
        let init = list_entries(e, ext, m);
        let all = list_entries(e, ext, n);
        lemma_lists(e, ext, m);
        assert forall|k: int| 0 <= k < all.len() implies {
            let x = #[trigger] all[k];
            &&& x is List && x->List_ext == ext && x->list < n
            &&& !is_blank(e.manifest.tray_lists@[x->list as int].command@)
        } by {
            if k < init.len() {
                assert(all[k] == init[k]);
            }
        }
        assert forall|i: int|
            #![trigger e.manifest.tray_lists@[i]]
            0 <= i < n && !is_blank(e.manifest.tray_lists@[i].command@) implies all.contains(
            MenuEntry::List { ext, list: i as usize },
        ) by {
            let entry = MenuEntry::List { ext, list: i as usize };
            if i < m {
                assert(init.contains(entry));
                let k = choose|k: int| 0 <= k < init.len() && init[k] == entry;
                assert(all[k] == entry);
            } else {
                assert(all[all.len() - 1] == entry);
            }
        }
    }
}

/// A plug-in's section opens with a separator and shows its items in their
/// order, each as its kind; a plug-in that declares nothing gets none.
pub proof fn law_a_section_shows_the_items_in_order(e: DiscoveredExtension, ext: usize, i: int)
    ensures
        ({
            let s = section_of(e, ext);
            let items = e.manifest.tray_items@;
            &&& s.len() == 0 <==> items.len() == 0 && e.manifest.tray_lists@.len() == 0
            &&& s.len() > 0 ==> s[0] is Separator && s.len() >= 1 + items.len()
            &&& 0 <= i < items.len() ==> match items[i].kind {
                TrayItemKind::Status => s[i + 1] == (MenuEntry::Status { ext, item: i as usize }),
                TrayItemKind::Check => s[i + 1] == (MenuEntry::Check { ext, item: i as usize }),
                TrayItemKind::Plain => s[i + 1] == (MenuEntry::Plain { ext, item: i as usize }),
            }
        }),
{
    let n = e.manifest.tray_items@.len();
    lemma_items(e, ext, n);
    if 0 <= i < n {
        assert(section_of(e, ext)[i + 1] == item_entries(e, ext, n)[i]);
    }
}

/// Every entry of the menu is a separator, or stands for something that a
/// plug-in declares.
pub proof fn law_every_entry_was_declared(exts: Seq<DiscoveredExtension>, n: nat, k: int)
    requires
        n <= exts.len() <= usize::MAX,
        forall|x: int|
            0 <= x < exts.len() ==> (#[trigger] exts[x]).manifest.tray_items@.len() <= usize::MAX
                && exts[x].manifest.tray_lists@.len() <= usize::MAX,
        0 <= k < menu_of(exts, n).len(),
    ensures
        ({
            let entry = menu_of(exts, n)[k];
            ||| entry is Separator
            ||| exists|ext: int, item: int| #[trigger] stands_for_item(entry, exts, ext, item)
            ||| exists|ext: int, list: int| #[trigger] stands_for_list(entry, exts, ext, list)
        }),
    decreases n,
{
    if n > 0 {
        let x = n - 1;
        let before = menu_of(exts, (n - 1) as nat);
        let own = section_of(exts[x], x as usize);
        let entry = menu_of(exts, n)[k];
        if k < before.len() {
            law_every_entry_was_declared(exts, (n - 1) as nat, k);
        } else {
            let e = exts[x];
            let items = e.manifest.tray_items@.len();
            let lists = e.manifest.tray_lists@.len();
            let j = k - before.len();
            assert(entry == own[j]);
            lemma_items(e, x as usize, items);
            lemma_lists(e, x as usize, lists);
            if 1 <= j <= items {
                assert(own[j] == item_entries(e, x as usize, items)[j - 1]);
                assert(stands_for_item(entry, exts, x, j - 1));
            } else if j > items {
                let y = list_entries(e, x as usize, lists)[j - 1 - items];
                assert(own[j] == y);
                assert(stands_for_list(entry, exts, x, y->list as int));
            }
        }
    }
}

/// Every item and every list with a command that a plug-in declares has its
/// entry in the menu.
pub proof fn law_every_declaration_has_an_entry(
    exts: Seq<DiscoveredExtension>,
    n: nat,
    ext: int,
    i: int,
)
    requires
        ext < n <= exts.len() <= usize::MAX,
        0 <= ext,
        exts[ext].manifest.tray_items@.len() <= usize::MAX,
        exts[ext].manifest.tray_lists@.len() <= usize::MAX,
    ensures
        0 <= i < exts[ext].manifest.tray_items@.len() ==> exists|k: int|
            0 <= k < menu_of(exts, n).len() && stands_for_item(
                #[trigger] menu_of(exts, n)[k],
                exts,
                ext,
                i,
            ),
        0 <= i < exts[ext].manifest.tray_lists@.len() && !is_blank(
            exts[ext].manifest.tray_lists@[i].command@,
        ) ==> exists|k: int|
            0 <= k < menu_of(exts, n).len() && stands_for_list(
                #[trigger] menu_of(exts, n)[k],
                exts,
                ext,
                i,
            ),
    decreases n,
{
    let all = menu_of(exts, n);
    let before = menu_of(exts, (n - 1) as nat);
    let e = exts[ext];
    if ext < n - 1 {
        law_every_declaration_has_an_entry(exts, (n - 1) as nat, ext, i);
        if 0 <= i < e.manifest.tray_items@.len() {
            let k = choose|k: int|
                0 <= k < before.len() && stands_for_item(#[trigger] before[k], exts, ext, i);
            assert(all[k] == before[k]);
        }
        if 0 <= i < e.manifest.tray_lists@.len() && !is_blank(
            e.manifest.tray_lists@[i].command@,
        ) {
            let k = choose|k: int|
                0 <= k < before.len() && stands_for_list(#[trigger] before[k], exts, ext, i);
            assert(all[k] == before[k]);
        }
    } else {
        let own = section_of(e, ext as usize);
        let items = e.manifest.tray_items@.len();
        let lists = e.manifest.tray_lists@.len();
        lemma_items(e, ext as usize, items);
        lemma_lists(e, ext as usize, lists);
        if 0 <= i < items {
            assert(own[i + 1] == item_entries(e, ext as usize, items)[i]);
            assert(all[before.len() + i + 1] == own[i + 1]);
            assert(stands_for_item(all[before.len() + i + 1], exts, ext, i));
        }
        if 0 <= i < lists && !is_blank(e.manifest.tray_lists@[i].command@) {
            let ls = list_entries(e, ext as usize, lists);
            let entry = MenuEntry::List { ext: ext as usize, list: i as usize };
            assert(ls.contains(entry));
            let k = choose|k: int| 0 <= k < ls.len() && ls[k] == entry;
            assert(own[1 + items + k] == entry);
            assert(all[before.len() + 1 + items + k] == entry);
            assert(stands_for_list(all[before.len() + 1 + items + k], exts, ext, i));
        }
    }
}

/// A click on an item's entry runs the item's own command in its own
/// plug-in, on no row; an entry that only reports, a separator and a list
/// run nothing.
pub proof fn law_a_click_runs_the_items_command(m: PluginMenu, k: usize, ext: int, item: int)
    requires
        k < m.entries@.len(),
    ensures
        stands_for_item(m.entries@[k as int], m.extensions@, ext, item) ==> {
            let it = m.extensions@[ext].manifest.tray_items@[item];
            let t = click_target(m, MenuClick::Entry(k));
            if it.kind == TrayItemKind::Status {
                t is None
            } else {
                t is Some && (t->0).0 == ext && (t->0).1 == it.command@ && (t->0).2.len() == 0
            }
        },
        m.entries@[k as int] is Separator || m.entries@[k as int] is List ==> click_target(
            m,
            MenuClick::Entry(k),
        ) is None,
        click_target(m, MenuClick::Entry(m.entries@.len() as usize)) is None
            || m.entries@.len() > usize::MAX,
{
}

/// A click on a list's entry runs what the entry says, where its plug-in is
/// there; a click beyond the last one runs nothing.
pub proof fn law_a_click_on_a_row_runs_its_route(m: PluginMenu, i: usize)
    ensures
        ({
            let t = click_target(m, MenuClick::Row(i));
            &&& i >= m.row_routes@.len() ==> t is None
            &&& i < m.row_routes@.len() && m.row_routes@[i as int].ext < m.extensions@.len() ==> t
                is Some && (t->0).0 == m.row_routes@[i as int].ext && (t->0).1
                == m.row_routes@[i as int].command@ && (t->0).2 == m.row_routes@[i as int].row@
        }),
{
}

/// State is read exactly where the menu holds an entry that is not a
/// separator and does more than act.
pub proof fn law_state_is_read_where_it_shows(entries: Seq<MenuEntry>)
    ensures
        shows_state(entries) <==> !(forall|i: int|
            0 <= i < entries.len() ==> (#[trigger] entries[i]) is Separator || entries[i] is Plain),
{
}

// ─── Attention ───────────────────────────────────────────────────────

/// A plug-in that reports a number is waiting for that many things; one that
/// reports nothing, or names no value to report, for none.
pub proof fn law_the_reported_number_counts(
    e: DiscoveredExtension,
    m: AssocMap<String, String>,
    n: u32,
)
    ensures
        attention_of(e, None) == 0,
        is_blank(e.manifest.attention_state_key@) ==> attention_of(e, Some(m)) == 0,
        !m@.contains_key(trimmed(e.manifest.attention_state_key@)) ==> attention_of(e, Some(m))
            == 0,
        !is_blank(e.manifest.attention_state_key@) && m@.contains_key(
            trimmed(e.manifest.attention_state_key@),
        ) && m@[trimmed(e.manifest.attention_state_key@)]@ == decimal(n as nat) ==> attention_of(
            e,
            Some(m),
        ) == n,
{
    law_trimming_leaves_a_number_alone(n as nat);
    law_a_written_number_is_read_back(n as int);
}

/// What waits is what waits in each plug-in, taken together: one more
/// plug-in adds its own number.
pub proof fn law_attention_adds_up(
    exts: Seq<DiscoveredExtension>,
    states: Seq<Option<AssocMap<String, String>>>,
    n: nat,
)
    ensures
        attention_sum(exts, states, 0) == 0,
        attention_sum(exts, states, n + 1) - attention_sum(exts, states, n) == attention_of(
            exts[n as int],
            states[n as int],
        ),
{
}

// ─── Titles ──────────────────────────────────────────────────────────

/// A title shows the number of rows once: in place of the first `{}` of the
/// label, with what stands before and behind it kept, or in brackets behind
/// a label without one.
pub proof fn law_a_title_shows_the_count(
    title: Seq<char>,
    label: Seq<char>,
    a: Seq<char>,
    b: Seq<char>,
    rows: nat,
)
    requires
        is_count_label(title, label, rows),
    ensures
        label == a + "{}"@ + b && !contains_text(a + "{"@, "{}"@) ==> title == a + decimal(rows) + b,
        !contains_text(label, "{}"@) ==> title == label + " ("@ + decimal(rows) + ")"@,
{
    reveal_strlit("{}");
    reveal_strlit("{");
    if label == a + "{}"@ + b && !contains_text(a + "{"@, "{}"@) {
        let n = a.len() as int;
        assert(label.subrange(n, n + 2) =~= "{}"@);
        assert(stands_at(label, "{}"@, n));
        assert(contains_text(label, "{}"@));
        let i = choose|i: int| #[trigger]
            placeholder_at(label, i) && title == label.take(i) + decimal(rows) + label.skip(i + 2);
        if i < n {
            let head = a + "{"@;
            assert(head.subrange(i, i + 2) =~= label.subrange(i, i + 2));
            assert(stands_at(head, "{}"@, i));
        }
        if n < i {
            assert(!stands_at(label, "{}"@, n));
        }
        assert(label.take(n) =~= a);
        assert(label.skip(n + 2) =~= b);
    }
}

/// A list can be opened exactly where it has rows; an empty one shows its
/// own words, where it has any.
pub proof fn law_an_empty_list_cannot_be_opened(look: ListLook, spec: TrayList, rows: nat)
    requires
        is_look(look, spec, rows),
    ensures
        look.enabled <==> rows != 0,
        rows == 0 && trimmed(spec.empty_label@).len() > 0 ==> look.title@ == trimmed(
            spec.empty_label@,
        ),
        rows != 0 || trimmed(spec.empty_label@).len() == 0 ==> is_count_label(
            look.title@,
            spec.label@,
            rows,
        ),
{
    lemma_blank_trims_to_nothing(spec.empty_label@);
}

/// Once the lists are emptied no entry of one can be clicked, and none of
/// them can be opened.
pub proof fn law_an_emptied_list_has_nothing_to_click(
    before: PluginMenu,
    after: PluginMenu,
    i: usize,
    k: int,
)
    requires
        lists_emptied(before, after),
    ensures
        click_target(after, MenuClick::Row(i)) is None,
        after.lists@.len() == before.lists@.len(),
        0 <= k < after.lists@.len() ==> after.lists@[k].rows@.len() == 0
            && !after.lists@[k].look.enabled && after.lists@[k].ext == before.lists@[k].ext
            && after.lists@[k].list == before.lists@[k].list,
{
    if 0 <= k < after.lists@.len() {
        assert(is_emptied(after.lists@[k], before.lists@[k], before.extensions@));
    }
}

/// There is a list for each list entry of the menu, and in their order.
pub proof fn law_every_list_entry_has_its_list(m: PluginMenu, k: int)
    requires
        m.lists_follow_entries(),
        0 <= k < m.lists@.len(),
    ensures
        m.entries@.contains(MenuEntry::List { ext: m.lists@[k].ext, list: m.lists@[k].list }),
        m.lists@.len() <= m.entries@.len(),
        m.lists@[k].rows@.len() == 0,
{
    let p = |e: MenuEntry| e is List;
    let f = |l: ListMenu| MenuEntry::List { ext: l.ext, list: l.list };
    let kept = m.entries@.filter(p);
    assert(m.lists@.map_values(f)[k] == kept[k]);
    assert(kept.contains(kept[k]));
    m.entries@.lemma_filter_contains_rev(p, kept[k]);
    m.entries@.lemma_filter_len(p);
    assert(m.lists@.map_values(f).len() == m.lists@.len());
}

} // verus!
