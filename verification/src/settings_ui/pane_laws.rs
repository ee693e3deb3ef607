//! What holds of every plug-in pane: what is on screen, which boxes ask the
//! plug-in, and what they offer.

use vstd::prelude::*;
use vstd::string::*;

use crate::plugins::menu_laws::is_plain_field;
use crate::plugins::types::{ControlKind, PaneControl};
use crate::settings_ui::plugin_pane::{
    added_to_group, all_command_slots, card_name, command_of, command_slots_in, controls_of,
    field_slots, field_text, first_of_each, grouped, heading_before,
    law_every_candidate_is_offered, list_row_of, list_rows_of, narrowing, narrows_to, offers,
    option_pairs, options_of, pending_text, reports_in, row_pairs, rows_in_step, rows_shown,
    section_shown, sections_in, slots_of, stored_field, suggest_toggled, suggestions_of, visible,
    ListRowV, PluginPane, Slot,
};
use crate::text::{
    contains_text, is_blank, joined, lemma_blank_trims_to_nothing, lowercase, split, stands_at,
    trimmed,
};
use crate::text_laws::law_joined_pieces_are_found_again;

verus! {

broadcast use vstd::string::group_string_axioms;

// ─── Sections ────────────────────────────────────────────────────────

/// The control is a section heading.
pub open spec fn is_heading(p: PluginPane, i: int) -> bool {
    0 <= i < p.ext.manifest.pane@.len() && p.ext.manifest.pane@[i].kind == ControlKind::Section
}

proof fn lemma_sections(p: PluginPane, n: nat)
    requires
        n <= controls_of(p).len() <= usize::MAX,
    ensures
        forall|k: int|
            0 <= k < sections_in(p, n).len() ==> is_heading(p, (#[trigger] sections_in(p, n)[k]) as int)
                && sections_in(p, n)[k] < n,
        forall|i: int| 0 <= i < n && #[trigger] is_heading(p, i) ==> sections_in(p, n).contains(
            i as usize,
        ),
        forall|j: int, k: int|
            0 <= j < k < sections_in(p, n).len() ==> (#[trigger] sections_in(p, n)[j]) < (
            #[trigger] sections_in(p, n)[k]),
    decreases n,
{
    if n > 0 {
        let m = (n - 1) as nat;
        let init = sections_in(p, m);
        let all = sections_in(p, n);
        lemma_sections(p, m);
        assert forall|i: int| 0 <= i < n && #[trigger] is_heading(p, i) implies all.contains(
            i as usize,
        ) by {
            if i < m {
                let k = choose|k: int| 0 <= k < init.len() && init[k] == i as usize;
                assert(all[k] == i as usize);
            } else {
                assert(all[all.len() - 1] == i as usize);
            }
        }
    }
}

/// The section chips are the headings, each once, from the top down.
pub proof fn law_every_heading_has_its_chip(p: PluginPane, i: int)
    requires
        controls_of(p).len() <= usize::MAX,
    ensures
        ({
            let all = sections_in(p, controls_of(p).len());
            &&& is_heading(p, i) ==> all.contains(i as usize)
            &&& forall|k: int| 0 <= k < all.len() ==> is_heading(p, (#[trigger] all[k]) as int)
            &&& forall|j: int, k: int|
                0 <= j < k < all.len() ==> (#[trigger] all[j]) < (#[trigger] all[k])
        }),
{
    lemma_sections(p, controls_of(p).len());
}

proof fn lemma_heading(p: PluginPane, n: nat, h: int)
    requires
        0 <= h < n <= controls_of(p).len() <= usize::MAX,
        is_heading(p, h),
        forall|k: int| h < k < n ==> !#[trigger] is_heading(p, k),
    ensures
        heading_before(p, n) == Some(h as usize),
    decreases n,
{
    if h < n - 1 {
        assert(!is_heading(p, n - 1));
        lemma_heading(p, (n - 1) as nat, h);
    }
}

proof fn lemma_no_heading(p: PluginPane, n: nat)
    requires
        n <= controls_of(p).len(),
        forall|k: int| 0 <= k < n ==> !#[trigger] is_heading(p, k),
    ensures
        heading_before(p, n) is None,
    decreases n,
{
    if n > 0 {
        assert(!is_heading(p, n - 1));
        lemma_no_heading(p, (n - 1) as nat);
    }
}

/// The section on screen: the chosen one, where that is a heading, and else
/// the first.
pub open spec fn is_shown_section(p: PluginPane, s: int) -> bool {
    &&& is_heading(p, s)
    &&& if p.section is Some && is_heading(p, p.section->0 as int) {
        p.section->0 == s
    } else {
        forall|k: int| 0 <= k < s ==> !#[trigger] is_heading(p, k)
    }
}

/// A plug-in without headings shows everything. One with headings shows one
/// of them, what stands under that one, and what stands before the first;
/// what stands under another is not shown.
pub proof fn law_what_is_on_screen(p: PluginPane, s: int, h: int, i: int)
    requires
        controls_of(p).len() <= usize::MAX,
        0 <= i < controls_of(p).len(),
    ensures
        (forall|k: int| !#[trigger] is_heading(p, k)) ==> visible(p, i),
        is_shown_section(p, s) ==> section_shown(p) == Some(s as usize),
        is_shown_section(p, s) && is_heading(p, i) ==> visible(p, i) == (i == s),
        is_shown_section(p, s) && !is_heading(p, i) && is_heading(p, h) && h < i && (forall|k: int|
            h < k < i ==> !#[trigger] is_heading(p, k)) ==> visible(p, i) == (h == s),
        is_shown_section(p, s) && (forall|k: int| 0 <= k <= i ==> !#[trigger] is_heading(p, k))
            ==> visible(p, i),
{
    let n = controls_of(p).len();
    let all = sections_in(p, n);
    lemma_sections(p, n);
    if forall|k: int| !#[trigger] is_heading(p, k) {
        if all.len() > 0 {
            assert(is_heading(p, all[0] as int));
        }
        if p.section is Some {
            assert(!is_heading(p, p.section->0 as int));
        }
    }
    if is_shown_section(p, s) {
        assert(all.contains(s as usize));
        let k = choose|k: int| 0 <= k < all.len() && all[k] == s as usize;
        assert(is_heading(p, all[0] as int));
        if !(p.section is Some && is_heading(p, p.section->0 as int)) {
            if k > 0 {
                assert(all[0] < all[k]);
                assert(!is_heading(p, all[0] as int));
            }
        }
        assert(section_shown(p) == Some(s as usize));
        if !is_heading(p, i) && is_heading(p, h) && h < i && (forall|k: int|
            h < k < i ==> !#[trigger] is_heading(p, k)) {
            lemma_heading(p, i as nat, h);
        }
        if forall|k: int| 0 <= k <= i ==> !#[trigger] is_heading(p, k) {
            assert(!is_heading(p, i));
            lemma_no_heading(p, i as nat);
        }
    }
}

// ─── Rows ────────────────────────────────────────────────────────────

/// What a plug-in prints is what the list holds: the id, the label and the
/// line of detail, with tabs between them; an id printed alone is its own
/// label.
pub proof fn law_a_printed_line_is_read_back(fields: Seq<Seq<char>>)
    requires
        fields.len() > 0,
        forall|i: int| 0 <= i < fields.len() ==> is_plain_field(#[trigger] fields[i]),
    ensures
        ({
            let row = list_row_of(joined(fields, seq!['\t']));
            &&& row.id == fields[0]
            &&& row.label == if fields.len() > 1 {
                fields[1]
            } else {
                fields[0]
            }
            &&& fields.len() > 2 ==> row.detail == fields[2]
            &&& fields.len() <= 2 ==> row.detail.len() == 0
        }),
{
    assert forall|i: int| 0 <= i < fields.len() implies !(#[trigger] fields[i]).contains('\t') by {
        assert(is_plain_field(fields[i]));
    }
    law_joined_pieces_are_found_again(fields, '\t');
    assert(is_plain_field(fields[0]));
    if fields.len() > 1 {
        assert(is_plain_field(fields[1]));
    }
    if fields.len() > 2 {
        assert(is_plain_field(fields[2]));
    }
}

/// An answer is read line by line, in order: a line gives its row, or
/// nothing where it is blank or names no id.
pub proof fn law_an_answer_is_read_line_by_line(
    a: Seq<Seq<char>>,
    b: Seq<Seq<char>>,
    line: Seq<char>,
)
    ensures
        list_rows_of(a + b) == list_rows_of(a) + list_rows_of(b),
        is_blank(line) || is_blank(split(line, '\t')[0]) ==> list_rows_of(seq![line]) == Seq::<
            ListRowV,
        >::empty(),
        !is_blank(line) && !is_blank(split(line, '\t')[0]) ==> list_rows_of(seq![line]) == seq![
            list_row_of(line),
        ],
    decreases b.len(),
{
    lemma_blank_trims_to_nothing(split(line, '\t')[0]);
    assert(seq![line].drop_last() =~= Seq::empty());
    assert(list_rows_of(Seq::<Seq<char>>::empty()) =~= Seq::empty());
    assert(seq![line].last() == line);
    assert(Seq::<ListRowV>::empty().push(list_row_of(line)) =~= seq![list_row_of(line)]);
    if b.len() == 0 {
        assert(a + b =~= a);
        assert(list_rows_of(a) + list_rows_of(b) =~= list_rows_of(a));
    } else {
        law_an_answer_is_read_line_by_line(a, b.drop_last(), line);
        assert((a + b).drop_last() =~= a + b.drop_last());
        assert((a + b).last() == b.last());
        let x = list_row_of(b.last());
        assert(list_rows_of(a) + list_rows_of(b.drop_last()).push(x) =~= (list_rows_of(a)
            + list_rows_of(b.drop_last())).push(x));
    }
}

// ─── Boxes ───────────────────────────────────────────────────────────

/// The box gets its contents from the plug-in: a report, a list, or a
/// suggestion box with a command, the last in a card too.
pub open spec fn asks_the_plugin(c: PaneControl, field: Option<usize>) -> bool {
    match field {
        None => c.kind == ControlKind::Report || c.kind == ControlKind::List || (c.kind
            == ControlKind::Suggest && !is_blank(c.command@)),
        Some(f) => c.kind == ControlKind::Records && f < c.fields@.len()
            && c.fields@[f as int].kind == ControlKind::Suggest && !is_blank(
            c.fields@[f as int].command@,
        ),
    }
}

proof fn lemma_field_slots(c: PaneControl, control: usize, n: nat, slot: Slot)
    requires
        n <= c.fields@.len() <= usize::MAX,
    ensures
        field_slots(c, control, n).contains(slot) <==> slot.control == control && slot.row is None
            && slot.field is Some && slot.field->0 < n && c.fields@[slot.field->0 as int].kind
            == ControlKind::Suggest && !is_blank(c.fields@[slot.field->0 as int].command@),
    decreases n,
{
    if n > 0 {
        let m = (n - 1) as nat;
        let init = field_slots(c, control, m);
        let all = field_slots(c, control, n);
        lemma_field_slots(c, control, m, slot);
        if init.contains(slot) {
            let k = choose|k: int| 0 <= k < init.len() && init[k] == slot;
            assert(all[k] == slot);
        }
        if all.contains(slot) {
            let k = choose|k: int| 0 <= k < all.len() && all[k] == slot;
            if k < init.len() {
                assert(init[k] == slot);
            }
        }
        if slot == (Slot { control, field: Some(m as usize), row: None }) && all.len() > init.len() {
            assert(all[init.len() as int] == slot);
        }
    }
}

proof fn lemma_slots_of(c: PaneControl, control: usize, slot: Slot)
    requires
        c.fields@.len() <= usize::MAX,
    ensures
        slots_of(c, control).contains(slot) <==> slot.control == control && slot.row is None
            && asks_the_plugin(c, slot.field),
{
    lemma_field_slots(c, control, c.fields@.len(), slot);
    let own = slots_of(c, control);
    if own.contains(slot) {
        let k = choose|k: int| 0 <= k < own.len() && own[k] == slot;
    }
    if slot == (Slot { control, field: None, row: None }) && own.len() == 1 {
        assert(own[0] == own.last());
        if c.kind == ControlKind::Report || c.kind == ControlKind::List || c.kind
            == ControlKind::Suggest {
            assert(own[0] == slot);
        }
    }
}

proof fn lemma_command_slots(p: PluginPane, n: nat, slot: Slot)
    requires
        n <= controls_of(p).len() <= usize::MAX,
        forall|i: int|
            0 <= i < controls_of(p).len() ==> (#[trigger] controls_of(p)[i]).fields@.len()
                <= usize::MAX,
    ensures
        command_slots_in(p, n).contains(slot) <==> slot.control < n && slot.row is None && visible(
            p,
            slot.control as int,
        ) && asks_the_plugin(controls_of(p)[slot.control as int], slot.field),
    decreases n,
{
    if n > 0 {
        let m = (n - 1) as nat;
        let init = command_slots_in(p, m);
        let all = command_slots_in(p, n);
        let own = slots_of(controls_of(p)[m as int], m as usize);
        lemma_command_slots(p, m, slot);
        lemma_slots_of(controls_of(p)[m as int], m as usize, slot);
        if all.contains(slot) {
            let k = choose|k: int| 0 <= k < all.len() && all[k] == slot;
            if k < init.len() {
                assert(init[k] == slot);
            } else {
                assert(own[k - init.len()] == slot);
            }
        }
        if init.contains(slot) {
            let k = choose|k: int| 0 <= k < init.len() && init[k] == slot;
            assert(all[k] == slot);
        }
        if own.contains(slot) && visible(p, m as int) {
            let k = choose|k: int| 0 <= k < own.len() && own[k] == slot;
            assert(all[init.len() + k] == slot);
        }
    }
}

/// The plug-in is asked for exactly the boxes that are on screen and get
/// their contents from it, a card's box once for all its cards.
pub proof fn law_what_is_on_screen_is_asked_for(p: PluginPane, slot: Slot)
    requires
        controls_of(p).len() <= usize::MAX,
        forall|i: int|
            0 <= i < controls_of(p).len() ==> (#[trigger] controls_of(p)[i]).fields@.len()
                <= usize::MAX,
    ensures
        all_command_slots(p).contains(slot) <==> slot.row is None && slot.control < controls_of(
            p,
        ).len() && visible(p, slot.control as int) && asks_the_plugin(
            controls_of(p)[slot.control as int],
            slot.field,
        ),
{
    lemma_command_slots(p, controls_of(p).len(), slot);
}

/// The reports that are refreshed are exactly those on screen.
pub proof fn law_reports_on_screen(p: PluginPane, n: nat, i: int)
    requires
        n <= controls_of(p).len() <= usize::MAX,
        0 <= i < n,
    ensures
        reports_in(p, n).contains(Slot { control: i as usize, field: None, row: None }) <==> visible(
            p,
            i,
        ) && controls_of(p)[i].kind == ControlKind::Report,
    decreases n,
{
    let slot = Slot { control: i as usize, field: None, row: None };
    let m = (n - 1) as nat;
    let init = reports_in(p, m);
    let all = reports_in(p, n);
    if i < m {
        law_reports_on_screen(p, m, i);
    } else {
        lemma_reports_below(p, m, i);
    }
    if init.contains(slot) {
        let k = choose|k: int| 0 <= k < init.len() && init[k] == slot;
        assert(all[k] == slot);
    }
    if all.contains(slot) {
        let k = choose|k: int| 0 <= k < all.len() && all[k] == slot;
        if k < init.len() {
            assert(init[k] == slot);
        }
    }
    if i == m && all.len() > init.len() {
        assert(all[init.len() as int] == slot);
    }
}

proof fn lemma_reports_below(p: PluginPane, n: nat, i: int)
    requires
        n <= i < controls_of(p).len() <= usize::MAX,
    ensures
        !reports_in(p, n).contains(Slot { control: i as usize, field: None, row: None }),
    decreases n,
{
    if n > 0 {
        lemma_reports_below(p, (n - 1) as nat, i);
        let slot = Slot { control: i as usize, field: None, row: None };
        let init = reports_in(p, (n - 1) as nat);
        let all = reports_in(p, n);
        if all.contains(slot) {
            let k = choose|k: int| 0 <= k < all.len() && all[k] == slot;
            if k < init.len() {
                assert(init[k] == slot);
            }
        }
    }
}

/// A box runs the command that is declared for it, with the white space
/// round it taken off; a blank one is none.
pub proof fn law_a_box_runs_its_own_command(p: PluginPane, slot: Slot)
    requires
        slot.control < controls_of(p).len(),
    ensures
        ({
            let c = controls_of(p)[slot.control as int];
            &&& slot.field is None && !is_blank(c.command@) ==> command_of(p, slot) == Some(
                trimmed(c.command@),
            )
            &&& slot.field is None && is_blank(c.command@) ==> command_of(p, slot) is None
            &&& slot.field is Some && slot.field->0 < c.fields@.len() && !is_blank(
                c.fields@[slot.field->0 as int].command@,
            ) ==> command_of(p, slot) == Some(trimmed(c.fields@[slot.field->0 as int].command@))
            &&& command_of(p, slot) is Some ==> command_of(p, slot)->0.len() > 0
            &&& command_of(p, slot) == command_of(p, Slot { row: None, ..slot })
        }),
{
    let c = controls_of(p)[slot.control as int];
    lemma_blank_trims_to_nothing(c.command@);
    if slot.field is Some && slot.field->0 < c.fields@.len() {
        lemma_blank_trims_to_nothing(c.fields@[slot.field->0 as int].command@);
    }
}

// ─── Groups ──────────────────────────────────────────────────────────

/// No two groups are of one command.
pub open spec fn commands_differ(groups: Seq<(Seq<char>, Seq<Slot>)>) -> bool {
    forall|i: int, j: int|
        0 <= i < j < groups.len() ==> (#[trigger] groups[i]).0 != (#[trigger] groups[j]).0
}

/// The slot is in the group of the command.
pub open spec fn is_grouped_under(
    groups: Seq<(Seq<char>, Seq<Slot>)>,
    cmd: Seq<char>,
    slot: Slot,
) -> bool {
    exists|g: int| 0 <= g < groups.len() && (#[trigger] groups[g]).0 == cmd && groups[g].1.contains(slot)
}

proof fn lemma_added(
    groups: Seq<(Seq<char>, Seq<Slot>)>,
    cmd: Seq<char>,
    slot: Slot,
    other: Slot,
    under: Seq<char>,
)
    requires
        commands_differ(groups),
    ensures
        ({
            let all = added_to_group(groups, cmd, slot);
            &&& commands_differ(all)
            &&& forall|k: int|
                0 <= k < all.len() ==> (#[trigger] all[k]).0 == cmd || exists|j: int|
                    0 <= j < groups.len() && (#[trigger] groups[j]).0 == all[k].0
            &&& is_grouped_under(all, under, other) <==> is_grouped_under(groups, under, other) || (
            under == cmd && other == slot)
        }),
    decreases groups.len(),
{
    let all = added_to_group(groups, cmd, slot);
    if groups.len() == 0 {
        assert(all[0] == (cmd, seq![slot]));
        if other == slot && under == cmd {
            assert(seq![slot][0] == slot);
            assert(all[0].1.contains(other));
        }
    } else if groups[0].0 == cmd {
        assert forall|k: int| 0 <= k < all.len() implies (#[trigger] all[k]).0 == groups[k].0 by {}
        let longer = groups[0].1.push(slot);
        assert(longer[groups[0].1.len() as int] == slot);
        if is_grouped_under(groups, under, other) {
            let g = choose|g: int|
                0 <= g < groups.len() && (#[trigger] groups[g]).0 == under && groups[g].1.contains(
                    other,
                );
            if g == 0 {
                let k = choose|k: int| 0 <= k < groups[0].1.len() && groups[0].1[k] == other;
                assert(longer[k] == other);
            }
            assert(all[g].0 == under && all[g].1.contains(other));
        }
        if under == cmd && other == slot {
            assert(all[0].1.contains(other));
        }
        if is_grouped_under(all, under, other) {
            let g = choose|g: int|
                0 <= g < all.len() && (#[trigger] all[g]).0 == under && all[g].1.contains(other);
            if g == 0 {
                let k = choose|k: int| 0 <= k < longer.len() && longer[k] == other;
                if k < groups[0].1.len() {
                    assert(groups[0].1[k] == other);
                    assert(groups[0].0 == under && groups[0].1.contains(other));
                }
            } else {
                assert(groups[g].0 == under && groups[g].1.contains(other));
            }
        }
    } else {
        let rest = groups.drop_first();
        assert forall|i: int, j: int| 0 <= i < j < rest.len() implies (#[trigger] rest[i]).0 != (
        #[trigger] rest[j]).0 by {
            assert(groups[i + 1].0 != groups[j + 1].0);
        }
        lemma_added(rest, cmd, slot, other, under);
        let tail = added_to_group(rest, cmd, slot);
        assert(all == seq![groups[0]] + tail);
        assert forall|k: int| 0 <= k < all.len() implies (#[trigger] all[k]).0 == cmd || exists|
            j: int,
        |
            0 <= j < groups.len() && (#[trigger] groups[j]).0 == all[k].0 by {
            if k == 0 {
                assert(groups[0].0 == all[0].0);
            } else {
                assert(all[k] == tail[k - 1]);
                if tail[k - 1].0 != cmd {
                    let j = choose|j: int|
                        0 <= j < rest.len() && (#[trigger] rest[j]).0 == tail[k - 1].0;
                    assert(groups[j + 1].0 == all[k].0);
                }
            }
        }
        assert forall|i: int, j: int| 0 <= i < j < all.len() implies (#[trigger] all[i]).0 != (
        #[trigger] all[j]).0 by {
            assert(all[j] == tail[j - 1]);
            if i > 0 {
                assert(all[i] == tail[i - 1]);
            } else if tail[j - 1].0 != cmd {
                let m = choose|m: int| 0 <= m < rest.len() && (#[trigger] rest[m]).0 == tail[j - 1].0;
                assert(groups[0].0 != groups[m + 1].0);
            }
        }
        if is_grouped_under(groups, under, other) {
            let g = choose|g: int|
                0 <= g < groups.len() && (#[trigger] groups[g]).0 == under && groups[g].1.contains(
                    other,
                );
            if g == 0 {
                assert(all[0].0 == under && all[0].1.contains(other));
            } else {
                assert(rest[g - 1].0 == under && rest[g - 1].1.contains(other));
                assert(is_grouped_under(rest, under, other));
            }
        }
        if is_grouped_under(tail, under, other) {
            let g = choose|g: int|
                0 <= g < tail.len() && (#[trigger] tail[g]).0 == under && tail[g].1.contains(other);
            assert(all[g + 1].0 == under && all[g + 1].1.contains(other));
        }
        if is_grouped_under(rest, under, other) {
            let g = choose|g: int|
                0 <= g < rest.len() && (#[trigger] rest[g]).0 == under && rest[g].1.contains(other);
            assert(groups[g + 1].0 == under && groups[g + 1].1.contains(other));
        }
        if is_grouped_under(all, under, other) {
            let g = choose|g: int|
                0 <= g < all.len() && (#[trigger] all[g]).0 == under && all[g].1.contains(other);
            if g == 0 {
                assert(groups[0].0 == under && groups[0].1.contains(other));
            } else {
                assert(tail[g - 1].0 == under && tail[g - 1].1.contains(other));
                assert(is_grouped_under(tail, under, other));
            }
        }
    }
}

/// Each command is run once, for all the boxes that it feeds: a box is in
/// the group of its own command and in no other, every box with a command is
/// in one, and no two groups are of the same command.
pub proof fn law_each_command_runs_once(
    p: PluginPane,
    slots: Seq<Slot>,
    slot: Slot,
    cmd: Seq<char>,
)
    ensures
        commands_differ(grouped(p, slots)),
        is_grouped_under(grouped(p, slots), cmd, slot) <==> slots.contains(slot) && command_of(
            p,
            slot,
        ) == Some(cmd),
    decreases slots.len(),
{
    if slots.len() > 0 {
        let init = slots.drop_last();
        let last = slots.last();
        law_each_command_runs_once(p, init, slot, cmd);
        let before = grouped(p, init);
        if let Some(c) = command_of(p, last) {
            lemma_added(before, c, last, slot, cmd);
        }
        if init.contains(slot) {
            let k = choose|k: int| 0 <= k < init.len() && init[k] == slot;
            assert(slots[k] == slot);
        }
        if slots.contains(slot) {
            let k = choose|k: int| 0 <= k < slots.len() && slots[k] == slot;
            if k < init.len() {
                assert(init[k] == slot);
            }
        }
        assert(slots[slots.len() - 1] == last);
    }
}

// ─── Suggestions ─────────────────────────────────────────────────────

/// What is offered keeps its order, and of each value the first line: what
/// comes later adds to the end, or, where its value is offered already,
/// nothing.
pub proof fn law_offers_keep_their_order(
    a: Seq<(Seq<char>, Seq<char>)>,
    b: Seq<(Seq<char>, Seq<char>)>,
    next: (Seq<char>, Seq<char>),
)
    ensures
        first_of_each(a).len() <= first_of_each(a + b).len(),
        first_of_each(a + b).take(first_of_each(a).len() as int) == first_of_each(a),
        offers(first_of_each(a), next.0) ==> first_of_each(a.push(next)) == first_of_each(a),
        !offers(first_of_each(a), next.0) ==> first_of_each(a.push(next)) == first_of_each(a).push(
            next,
        ),
    decreases b.len(),
{
    assert(a.push(next).drop_last() =~= a);
    if b.len() == 0 {
        assert(a + b =~= a);
        assert(first_of_each(a).take(first_of_each(a).len() as int) =~= first_of_each(a));
    } else {
        law_offers_keep_their_order(a, b.drop_last(), next);
        assert((a + b).drop_last() =~= a + b.drop_last());
        let n = first_of_each(a).len() as int;
        assert(first_of_each(a + b).take(n) =~= first_of_each(a + b.drop_last()).take(n));
    }
}

/// At most one list is open: opening one closes any other.
pub proof fn law_one_list_is_open(p: PluginPane, slot: Slot, other: Slot)
    ensures
        p.open_suggest != Some(slot) ==> suggest_toggled(p, slot).open_suggest == Some(slot),
        p.open_suggest == Some(slot) ==> suggest_toggled(p, slot).open_suggest is None,
        other != slot ==> suggest_toggled(p, slot).open_suggest != Some(other),
        suggest_toggled(p, slot) == (PluginPane {
            open_suggest: suggest_toggled(p, slot).open_suggest,
            ..p
        }),
{
}

// ─── What is being typed ─────────────────────────────────────────────

/// What is being typed goes before what the file holds; without either a
/// field shows nothing.
pub proof fn law_what_is_typed_is_shown(p: PluginPane, index: usize, row: usize, field: Seq<char>)
    ensures
        p.record_edits@.contains_key((index, row, field)) ==> field_text(p, index, row, field)
            == Some(p.record_edits@[(index, row, field)]@),
        !p.record_edits@.contains_key((index, row, field)) ==> (field_text(p, index, row, field)
            is Some <==> stored_field(p, index, row, field) is Some),
        !p.records@.contains_key(index) ==> stored_field(p, index, row, field) is None,
{
}

/// A card's box is typed into by itself: it shows the text of its own field
/// in its own card, and a control's box that of the control.
pub proof fn law_a_card_is_typed_into_by_itself(p: PluginPane, slot: Slot)
    requires
        slot.control < controls_of(p).len(),
    ensures
        slot.row is None ==> (pending_text(p, slot) is Some <==> p.edits@.contains_key(
            slot.control,
        )) && (pending_text(p, slot) is Some ==> pending_text(p, slot)->0
            == p.edits@[slot.control]@),
        slot.row is Some && slot.field is Some && slot.field->0 < controls_of(
            p,
        )[slot.control as int].fields@.len() ==> {
            let key = controls_of(p)[slot.control as int].fields@[slot.field->0 as int].key@;
            let b = (slot.control, slot.row->0, key);
            &&& pending_text(p, slot) is Some <==> p.record_edits@.contains_key(b)
            &&& pending_text(p, slot) is Some ==> pending_text(p, slot)->0 == p.record_edits@[b]@
        },
{
}

/// All the cards of a group share one answer: a card's box offers the same
/// in each.
pub proof fn law_cards_share_an_answer(p: PluginPane, slot: Slot, row: Option<usize>)
    ensures
        rows_shown(p, Slot { row, ..slot }) == rows_shown(p, slot),
        suggestions_of(p, Slot { row, ..slot }) == suggestions_of(p, slot),
{
}

/// A card is named by what its id field shows, without the white space round
/// it, and by nothing while that is blank or not there.
pub proof fn law_a_card_is_named_by_its_id_field(p: PluginPane, index: usize, row: usize)
    requires
        index < controls_of(p).len(),
    ensures
        ({
            let id = trimmed(controls_of(p)[index as int].id_field@);
            let name = card_name(p, index, row);
            &&& id.len() == 0 ==> name is None
            &&& id.len() > 0 && field_text(p, index, row, id) is None ==> name is None
            &&& id.len() > 0 && field_text(p, index, row, id) is Some ==> {
                let shown = trimmed(field_text(p, index, row, id)->0);
                name == if shown.len() == 0 {
                    None
                } else {
                    Some(shown)
                }
            }
        }),
{
    lemma_blank_trims_to_nothing(controls_of(p)[index as int].id_field@);
    let id = trimmed(controls_of(p)[index as int].id_field@);
    if let Some(t) = field_text(p, index, row, id) {
        lemma_blank_trims_to_nothing(t);
    }
}

/// What is offered stays offered while it is being typed out: a value is
/// never narrowed away by itself, nor by anything that it contains.
pub proof fn law_a_value_matches_itself(p: PluginPane, slot: Slot, value: Seq<char>)
    requires
        contains_text(lowercase(value), lowercase(narrowing(p, slot))) || narrowing(p, slot)
            == value,
    ensures
        narrows_to(p, slot, value),
{
    let low = lowercase(value);
    assert(low.subrange(0, low.len() as int) =~= low);
    assert(stands_at(low, low, 0));
}

/// A box offers what its own declaration names: a field's box the choices of
/// the field, a control's box those of the control.
pub proof fn law_a_box_offers_its_own_choices(p: PluginPane, slot: Slot, i: int)
    requires
        slot.control < controls_of(p).len(),
    ensures
        ({
            let c = controls_of(p)[slot.control as int];
            &&& slot.field is None && 0 <= i < c.options@.len() ==> offers(
                suggestions_of(p, slot),
                c.options@[i].value@,
            )
            &&& slot.field is Some && slot.field->0 < c.fields@.len() && 0 <= i
                < c.fields@[slot.field->0 as int].options@.len() ==> offers(
                suggestions_of(p, slot),
                c.fields@[slot.field->0 as int].options@[i].value@,
            )
            &&& slot.field is Some && slot.field->0 >= c.fields@.len() ==> suggestions_of(
                p,
                slot,
            ).len() == 0
        }),
{
    let c = controls_of(p)[slot.control as int];
    let options = if slot.field is None {
        c.options@
    } else {
        c.fields@[slot.field->0 as int].options@
    };
    if options_of(p, slot) == Some(options) && 0 <= i < options.len() {
        law_every_candidate_is_offered(p, slot, i);
        assert((option_pairs(options) + row_pairs(rows_shown(p, slot)))[i] == option_pairs(
            options,
        )[i]);
    }
}

/// A box shows the rows of the answer that came for it.
pub proof fn law_rows_are_those_of_the_answer(p: PluginPane, slot: Slot)
    requires
        rows_in_step(p),
    ensures
        ({
            let asked = Slot { row: None, ..slot };
            let ready = p.outputs@.contains_key(asked) && p.outputs@[asked] is Ready;
            &&& ready ==> rows_shown(p, slot) == list_rows_of(
                split(p.outputs@[asked]->Ready_0@, '\n'),
            )
            &&& !ready ==> rows_shown(p, slot).len() == 0
        }),
{
    let asked = Slot { row: None, ..slot };
    let _ = p.rows@.contains_key(asked);
}

} // verus!
