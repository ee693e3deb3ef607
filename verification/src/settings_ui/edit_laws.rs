//! What holds of everything that is typed into a plug-in's pane and written
//! to its file.

use vstd::prelude::*;
use vstd::string::*;

use crate::plugins::types::{
    ControlKind, Decimal, DiscoveredExtension, PaneControl, PaneField, SettingValue,
};
use crate::settings_ui::plugin_edits::{
    control_box, control_due, edit_views, field_kind, is_due, is_opened, kept_texts, key_of, number_of, opening_value, opt_value,
    row_map, row_matches, settle_control, settle_record, status_text, with_pane, without_control,
    ConfigSnapshot, Edit, EditOutcome, EditV, FoundPlugin, ValueV,
};
use crate::settings_ui::plugin_pane::{
    controls_of, display_text, pending_text, rows_shown, stored_field, PluginPane, Slot, Typing,
};
use crate::text::{
    integer, is_blank, is_space, joined, signed_decimal, texts, trim_start, trimmed, trimmed_pieces,
};
use crate::text_laws::{
    law_a_written_number_is_read_back, law_joined_pieces_are_found_again,
    law_trimming_leaves_a_signed_number_alone, law_trimming_takes_the_white_space_off_the_ends,
};

verus! {

broadcast use vstd::string::group_string_axioms;

// ─── What a text settles to ──────────────────────────────────────────

/// The control is of the kind, and has somewhere to write to.
pub open spec fn writes_as(p: PluginPane, index: usize, kind: ControlKind) -> bool {
    &&& index < p.ext.manifest.pane@.len()
    &&& p.ext.manifest.pane@[index as int].kind == kind
    &&& p.ext.manifest.pane@[index as int].key@.len() > 0
}

/// A number that is typed into a number box is written as that number, under
/// the control's own key; what is no number, or none that the file can hold,
/// stays in the box.
pub proof fn law_a_typed_number_is_written(
    p: PluginPane,
    index: usize,
    raw: Seq<char>,
    numbers: Seq<(String, Decimal)>,
    n: i64,
)
    requires
        writes_as(p, index, ControlKind::Number),
    ensures
        trimmed(raw) == signed_decimal(n as int) ==> settle_control(p, index, raw, numbers) == (
            true,
            Some(
                EditV::Setting {
                    index,
                    key: p.ext.manifest.pane@[index as int].key@,
                    value: ValueV::Int(n),
                },
            ),
        ),
        integer(trimmed(raw), true) is None || integer(trimmed(raw), true)->0 > i64::MAX || integer(
            trimmed(raw),
            true,
        )->0 < i64::MIN ==> settle_control(p, index, raw, numbers) == (
            false,
            Option::<EditV>::None,
        ),
{
    law_a_written_number_is_read_back(n as int);
}

/// What a number box shows, it writes: a stored number that is left as it is
/// shown settles to itself.
pub proof fn law_a_shown_number_is_written_back(
    p: PluginPane,
    index: usize,
    numbers: Seq<(String, Decimal)>,
    n: i64,
)
    requires
        writes_as(p, index, ControlKind::Number),
    ensures
        settle_control(p, index, display_text(SettingValue::Int(n)), numbers) == (
            true,
            Some(
                EditV::Setting {
                    index,
                    key: p.ext.manifest.pane@[index as int].key@,
                    value: ValueV::Int(n),
                },
            ),
        ),
{
    law_trimming_leaves_a_signed_number_alone(n as int);
    law_a_typed_number_is_written(p, index, display_text(SettingValue::Int(n)), numbers, n);
}

/// A text box is written as it reads, without the white space round it.
pub proof fn law_a_typed_text_is_written(
    p: PluginPane,
    index: usize,
    raw: Seq<char>,
    numbers: Seq<(String, Decimal)>,
)
    requires
        writes_as(p, index, ControlKind::Text) || writes_as(p, index, ControlKind::Suggest)
            || writes_as(p, index, ControlKind::Choice),
    ensures
        settle_control(p, index, raw, numbers) == (
            true,
            Some(
                EditV::Setting {
                    index,
                    key: p.ext.manifest.pane@[index as int].key@,
                    value: ValueV::Text(trimmed(raw)),
                },
            ),
        ),
{
}

/// A member of a list as it is written: no comma in it, nothing to trim, not
/// empty.
pub open spec fn is_plain_member(m: Seq<char>) -> bool {
    !m.contains(',') && trimmed(m) == m && m.len() > 0
}

/// The members with a space before each but the first.
spec fn spaced(ms: Seq<Seq<char>>) -> Seq<Seq<char>> {
    Seq::new(
        ms.len(),
        |i: int|
            if i == 0 {
                ms[0]
            } else {
                seq![' '] + ms[i]
            },
    )
}

proof fn lemma_spaced(ms: Seq<Seq<char>>)
    ensures
        joined(ms, seq![',', ' ']) == joined(spaced(ms), seq![',']),
    decreases ms.len(),
{
    if ms.len() == 1 {
        assert(spaced(ms)[0] == ms[0]);
    } else if ms.len() > 1 {
        let init = ms.drop_last();
        lemma_spaced(init);
        assert(spaced(ms).drop_last() =~= spaced(init));
        let front = joined(init, seq![',', ' ']);
        assert(front + seq![',', ' '] + ms.last() =~= front + seq![','] + (seq![' '] + ms.last()));
    }
}

proof fn lemma_space_is_trimmed(m: Seq<char>)
    requires
        is_plain_member(m),
    ensures
        trimmed(seq![' '] + m) == m,
{
    let s = seq![' '] + m;
    assert(is_space(' '));
    assert(s[0] == ' ');
    assert(s.drop_first() =~= m);
    assert(trim_start(s) == trim_start(m));
}

proof fn lemma_members_come_back(ms: Seq<Seq<char>>)
    requires
        forall|i: int| 0 <= i < ms.len() ==> is_plain_member(#[trigger] ms[i]),
    ensures
        trimmed_pieces(spaced(ms)) == ms,
    decreases ms.len(),
{
    if ms.len() == 0 {
        assert(trimmed_pieces(spaced(ms)) =~= ms);
    } else {
        let init = ms.drop_last();
        assert forall|i: int| 0 <= i < init.len() implies is_plain_member(#[trigger] init[i]) by {
            assert(init[i] == ms[i]);
        }
        lemma_members_come_back(init);
        assert(spaced(ms).drop_last() =~= spaced(init));
        assert(is_plain_member(ms[ms.len() - 1]));
        lemma_space_is_trimmed(ms.last());
        assert(init.push(ms.last()) =~= ms);
    }
}

/// A joined list starts and ends with something to read.
proof fn lemma_joined_ends(ms: Seq<Seq<char>>)
    requires
        ms.len() > 0,
        forall|i: int| 0 <= i < ms.len() ==> is_plain_member(#[trigger] ms[i]),
    ensures
        ({
            let t = joined(ms, seq![',', ' ']);
            t.len() > 0 && !is_space(t[0]) && !is_space(t.last())
        }),
    decreases ms.len(),
{
    let t = joined(ms, seq![',', ' ']);
    let last = ms.last();
    assert(is_plain_member(ms[ms.len() - 1]));
    law_trimming_takes_the_white_space_off_the_ends(last);
    if ms.len() > 1 {
        let init = ms.drop_last();
        assert forall|i: int| 0 <= i < init.len() implies is_plain_member(#[trigger] init[i]) by {
            assert(init[i] == ms[i]);
        }
        lemma_joined_ends(init);
        assert(t[0] == joined(init, seq![',', ' '])[0]);
        assert(t.last() == last.last());
    }
}

/// What a list box shows is what it writes: the text that the members of the
/// file are shown as settles to those members again, in their order.
pub proof fn law_a_list_is_written_as_it_is_shown(
    p: PluginPane,
    index: usize,
    snap: ConfigSnapshot,
    numbers: Seq<(String, Decimal)>,
)
    requires
        writes_as(p, index, ControlKind::Strings),
        index < snap.arrays@.len(),
        snap.arrays@[index as int]@.len() > 0,
        forall|i: int|
            0 <= i < snap.arrays@[index as int]@.len() ==> is_plain_member(
                (#[trigger] snap.arrays@[index as int]@[i])@,
            ),
    ensures
        ({
            let members = texts(snap.arrays@[index as int]@);
            let shown = opening_value(p.ext.manifest.pane@[index as int], snap, index as int);
            &&& shown is Some && shown->0 is Text
            &&& settle_control(p, index, shown->0->Text_0, numbers) == (
                true,
                Some(
                    EditV::Strings {
                        index,
                        key: p.ext.manifest.pane@[index as int].key@,
                        members,
                    },
                ),
            )
        }),
{
    reveal_strlit(", ");
    assert(", "@ =~= seq![',', ' ']);
    let ms = texts(snap.arrays@[index as int]@);
    assert forall|i: int| 0 <= i < ms.len() implies is_plain_member(#[trigger] ms[i]) by {
        assert(ms[i] == snap.arrays@[index as int]@[i]@);
    }
    let t = joined(ms, seq![',', ' ']);
    lemma_joined_ends(ms);
    assert(trimmed(t) == t);
    lemma_spaced(ms);
    let parts = spaced(ms);
    assert forall|i: int| 0 <= i < parts.len() implies !(#[trigger] parts[i]).contains(',') by {
        assert(is_plain_member(ms[i]));
        if i > 0 && parts[i].contains(',') {
            let k = choose|k: int| 0 <= k < parts[i].len() && parts[i][k] == ',';
            assert(k > 0);
            assert(ms[i][k - 1] == ',');
        }
    }
    law_joined_pieces_are_found_again(parts, ',');
    lemma_members_come_back(ms);
}

/// A card's box settles as a control's of the same kind would, into the
/// field of its own card.
pub proof fn law_a_card_settles_like_a_control(
    p: PluginPane,
    at: (usize, usize, Seq<char>),
    raw: Seq<char>,
    numbers: Seq<(String, Decimal)>,
    f: int,
)
    requires
        at.0 < controls_of(p).len(),
        controls_of(p)[at.0 as int].key@.len() > 0,
        0 <= f < controls_of(p)[at.0 as int].fields@.len(),
        controls_of(p)[at.0 as int].fields@[f].key@ == at.2,
        forall|j: int|
            0 <= j < f ==> (#[trigger] controls_of(p)[at.0 as int].fields@[j]).key@ != at.2,
    ensures
        ({
            let kind = controls_of(p)[at.0 as int].fields@[f].kind;
            let (done, edit) = settle_record(p, at, raw, numbers);
            &&& edit is Some <==> done
            &&& edit is Some ==> edit->0 is RecordField && edit->0->RecordField_index == at.0
                && edit->0->RecordField_row == at.1 && edit->0->field == at.2
                && edit->0->RecordField_key == controls_of(p)[at.0 as int].key@
            &&& kind == ControlKind::Text ==> edit is Some && edit->0->RecordField_value
                == ValueV::Text(trimmed(raw))
            &&& kind == ControlKind::Number && edit is Some ==> edit->0->RecordField_value is Int
                && integer(trimmed(raw), true) == Some(
                edit->0->RecordField_value->Int_0 as int,
            )
            &&& kind == ControlKind::Number && integer(trimmed(raw), true) is None ==> edit is None
        }),
{
    law_the_first_field_of_a_name_counts(controls_of(p)[at.0 as int].fields@, at.2, f);
}

/// Of the fields with one name the first says what kind it is; a name that
/// no field has is none.
pub proof fn law_the_first_field_of_a_name_counts(fields: Seq<PaneField>, name: Seq<char>, f: int)
    ensures
        0 <= f < fields.len() && fields[f].key@ == name && (forall|j: int|
            0 <= j < f ==> (#[trigger] fields[j]).key@ != name) ==> field_kind(fields, name) == Some(
            fields[f].kind,
        ),
        (forall|j: int| 0 <= j < fields.len() ==> (#[trigger] fields[j]).key@ != name)
            ==> field_kind(fields, name) is None,
    decreases fields.len(),
{
    if fields.len() > 0 {
        let rest = fields.drop_first();
        law_the_first_field_of_a_name_counts(rest, name, f - 1);
        assert(forall|j: int| 0 <= j < rest.len() ==> #[trigger] rest[j] == fields[j + 1]);
        if 0 < f < fields.len() {
            assert(rest[f - 1] == fields[f]);
        }
    }
}

/// A decimal is taken from the first reading of the very text.
pub proof fn law_a_decimal_is_its_own_reading(numbers: Seq<(String, Decimal)>, i: int)
    requires
        0 <= i < numbers.len(),
        forall|j: int| 0 <= j < i ==> (#[trigger] numbers[j]).0@ != numbers[i].0@,
    ensures
        number_of(numbers, numbers[i].0@) == Some(
            ValueV::Float(numbers[i].1.bits, numbers[i].1.shown@),
        ),
    decreases numbers.len(),
{
    if i > 0 {
        let rest = numbers.drop_first();
        assert(numbers[0].0@ != numbers[i].0@);
        assert(rest[i - 1] == numbers[i]);
        assert forall|j: int| 0 <= j < i - 1 implies (#[trigger] rest[j]).0@ != rest[i - 1].0@ by {
            assert(rest[j] == numbers[j + 1]);
        }
        law_a_decimal_is_its_own_reading(rest, i - 1);
    }
}

// ─── What stays and what goes ────────────────────────────────────────

/// Every text in a control's box is kept or done with, and one that is done
/// with is written where the control has a key; what is kept is kept as it
/// is.
pub proof fn law_a_text_is_kept_or_written(
    p: PluginPane,
    held: Option<usize>,
    numbers: Seq<(String, Decimal)>,
    k: usize,
)
    requires
        p.edits@.contains_key(k),
    ensures
        ({
            let kept = kept_texts(p, held, numbers);
            &&& held == Some(k) ==> kept.contains_key(k)
            &&& kept.contains_key(k) ==> kept[k] == p.edits@[k]
            &&& !kept.contains_key(k) && key_of(p, k) is Some ==> exists|e: EditV|
                #[trigger] control_due(p, p.edits@, held, numbers, e)
            &&& k >= controls_of(p).len() ==> kept.contains_key(k)
        }),
{
    let kept = kept_texts(p, held, numbers);
    if !kept.contains_key(k) && key_of(p, k) is Some {
        let e = settle_control(p, k, p.edits@[k]@, numbers).1->0;
        assert(control_due(p, p.edits@, held, numbers, e));
    }
}

/// A control has somewhere to write to exactly where it declares a key.
pub proof fn law_a_key_is_where_it_writes(p: PluginPane, index: usize)
    ensures
        index >= controls_of(p).len() ==> key_of(p, index) is None,
        index < controls_of(p).len() ==> (key_of(p, index) is None <==> controls_of(
            p,
        )[index as int].key@.len() == 0),
        key_of(p, index) is Some ==> key_of(p, index)->0 == controls_of(p)[index as int].key@,
{
}

/// When the cards of one group move, what is being typed into them is
/// dropped, and nothing else is.
pub proof fn law_only_the_moved_cards_lose_their_text(
    m: Map<(usize, usize, Seq<char>), String>,
    control: usize,
    at: (usize, usize, Seq<char>),
)
    ensures
        at.0 == control ==> !without_control(m, control).contains_key(at),
        at.0 != control ==> without_control(m, control).contains_key(at) == m.contains_key(at),
        at.0 != control && m.contains_key(at) ==> without_control(m, control)[at] == m[at],
{
}

// ─── What the file says ──────────────────────────────────────────────

/// A row of a group holds what the file says of each declared field, under
/// the field's own key; of two fields with one key the later counts, and
/// there is nothing else in it.
pub proof fn law_a_row_holds_its_fields(
    fields: Seq<PaneField>,
    values: Seq<Option<SettingValue>>,
    n: nat,
    i: int,
    name: Seq<char>,
)
    ensures
        0 <= i < n && (forall|j: int| i < j < n ==> (#[trigger] fields[j]).key@ != fields[i].key@)
            ==> row_map(fields, values, n).contains_key(fields[i].key@) && row_map(
            fields,
            values,
            n,
        )[fields[i].key@] == values[i],
        (forall|j: int| 0 <= j < n ==> (#[trigger] fields[j]).key@ != name) ==> !row_map(
            fields,
            values,
            n,
        ).contains_key(name),
    decreases n,
{
    if n > 0 {
        law_a_row_holds_its_fields(fields, values, (n - 1) as nat, i, name);
    }
}

/// A box opens with what the file holds for its key, and with nothing where
/// it has no key.
pub proof fn law_a_box_opens_with_the_files_value(c: PaneControl, snap: ConfigSnapshot, i: int)
    ensures
        c.key@.len() == 0 ==> opening_value(c, snap, i) is None,
        c.key@.len() > 0 && c.kind != ControlKind::Strings ==> opening_value(c, snap, i)
            == opt_value(snap.settings@[i]),
        c.key@.len() > 0 && c.kind == ControlKind::Strings && snap.arrays@[i]@.len() == 1
            ==> opening_value(c, snap, i) == Some(ValueV::Text(snap.arrays@[i]@[0]@)),
        c.kind == ControlKind::Strings && snap.arrays@[i]@.len() == 0 ==> opening_value(c, snap, i)
            is None,
{
    if snap.arrays@[i]@.len() == 1 {
        assert(texts(snap.arrays@[i]@)[0] == snap.arrays@[i]@[0]@);
    }
}

/// A pane that has just been opened shows what the file holds: each box its
/// value, each list its members, each card its fields; nothing is asked,
/// nothing typed, and no section chosen.
pub proof fn law_an_opened_pane_shows_the_file(
    p: PluginPane,
    ext: DiscoveredExtension,
    config_path: String,
    snap: ConfigSnapshot,
    i: usize,
    r: usize,
    f: int,
    slot: Slot,
)
    requires
        is_opened(p, ext, config_path, snap),
        snap.covers(ext.manifest.pane@),
        i < ext.manifest.pane@.len(),
    ensures
        ({
            let c = ext.manifest.pane@[i as int];
            &&& p.ext == ext && p.config_path == config_path
            &&& p.section is None && p.status is None
            &&& pending_text(p, slot) is None
            &&& rows_shown(p, slot).len() == 0
            &&& !p.outputs@.contains_key(slot)
            &&& opt_value(p.values@[i as int]) == opening_value(c, snap, i as int)
            &&& c.kind == ControlKind::List && c.key@.len() > 0 ==> p.arrays@.contains_key(i)
                && p.arrays@[i]@ == snap.arrays@[i as int]@
            &&& c.kind == ControlKind::Records && !is_blank(c.key@) && r
                < snap.records@[i as int]@.len() && 0 <= f < c.fields@.len() && (forall|j: int|
                f < j < c.fields@.len() ==> (#[trigger] c.fields@[j]).key@ != c.fields@[f].key@)
                ==> stored_field(p, i, r, c.fields@[f].key@) == snap.records@[i as int]@[r as int]@[f]
            &&& c.kind != ControlKind::Records ==> !p.records@.contains_key(i)
            &&& c.kind != ControlKind::List ==> !p.arrays@.contains_key(i)
        }),
{
    let c = ext.manifest.pane@[i as int];
    let _ = p.arrays@.contains_key(i);
    if p.records@.contains_key(i) && r < snap.records@[i as int]@.len() && 0 <= f < c.fields@.len() {
        let row = p.records@[i]@[r as int];
        let values = snap.records@[i as int]@[r as int]@;
        assert(row_matches(row.fields@, c.fields@, values));
        law_a_row_holds_its_fields(c.fields@, values, c.fields@.len(), f, Seq::empty());
    }
}

/// Each plug-in that declares controls has its pane, in the order they were
/// found, and no other has one.
pub proof fn law_every_plugin_with_controls_has_a_pane(found: Seq<FoundPlugin>, one: FoundPlugin)
    ensures
        one.0.manifest.pane@.len() > 0 ==> with_pane(found.push(one)) == with_pane(found).push(one),
        one.0.manifest.pane@.len() == 0 ==> with_pane(found.push(one)) == with_pane(found),
        with_pane(Seq::empty()).len() == 0,
{
    reveal(Seq::filter);
    assert(found.push(one).drop_last() =~= found);
}

/// The text ends with the other.
pub open spec fn ends_with(text: Seq<char>, end: Seq<char>) -> bool {
    text.len() >= end.len() && text.skip(text.len() - end.len()) == end
}

/// What is said of an edit is true: only one that was written is called
/// saved, with its file; of any other the reason is given.
pub proof fn law_the_status_is_true(path: Seq<char>, edit: EditV, outcome: EditOutcome)
    ensures
        match outcome {
            EditOutcome::Saved => status_text(path, edit, outcome) == "Saved to "@ + path,
            EditOutcome::Refused { error } => ends_with(
                status_text(path, edit, outcome),
                error@,
            ),
            EditOutcome::NoDirectory { error, .. } => ends_with(
                status_text(path, edit, outcome),
                error@,
            ),
            EditOutcome::NotWritten { error } => ends_with(
                status_text(path, edit, outcome),
                error@,
            ),
        },
{
    let said = status_text(path, edit, outcome);
    match outcome {
        EditOutcome::Saved => {},
        EditOutcome::Refused { error } => {
            assert(said.skip(said.len() - error@.len()) =~= error@);
        },
        EditOutcome::NoDirectory { error, .. } => {
            assert(said.skip(said.len() - error@.len()) =~= error@);
        },
        EditOutcome::NotWritten { error } => {
            assert(said.skip(said.len() - error@.len()) =~= error@);
        },
    }
}

// ─── Typing and leaving ──────────────────────────────────────────────

/// What was typed is what is written: a text that is put into a text box is
/// written under the box's key when the box is left, in place of any before
/// it, and the box is done with.
pub proof fn law_a_box_that_is_left_is_written(
    p: PluginPane,
    typed: PluginPane,
    after: PluginPane,
    index: usize,
    raw: String,
    numbers: &Vec<(String, Decimal)>,
    edits: Vec<Edit>,
)
    requires
        writes_as(p, index, ControlKind::Text),
        exists|m: &mut PluginPane|
            *m == p && *final(m) == typed && #[trigger] call_ensures(
                PluginPane::set_text,
                (m, index, raw),
                (),
            ),
        exists|m: &mut PluginPane|
            *m == typed && *final(m) == after && #[trigger] call_ensures(
                PluginPane::flush_edits,
                (m, None, numbers),
                edits,
            ),
    ensures
        edit_views(edits@).contains(
            EditV::Setting {
                index,
                key: p.ext.manifest.pane@[index as int].key@,
                value: ValueV::Text(trimmed(raw@)),
            },
        ),
        !after.edits@.contains_key(index),
{
    let e = EditV::Setting {
        index,
        key: p.ext.manifest.pane@[index as int].key@,
        value: ValueV::Text(trimmed(raw@)),
    };
    assert(typed.edits@[index] == raw);
    assert(control_due(typed, typed.edits@, None, numbers@, e));
    assert(is_due(typed, None, numbers@, e));
}

/// A box that the cursor is in is not written, and keeps its text.
pub proof fn law_a_box_in_use_is_not_written(
    p: PluginPane,
    after: PluginPane,
    typing: &Typing,
    index: usize,
    numbers: &Vec<(String, Decimal)>,
    edits: Vec<Edit>,
    e: EditV,
)
    requires
        *typing == Typing::Control(index),
        p.edits@.contains_key(index),
        exists|m: &mut PluginPane|
            *m == p && *final(m) == after && #[trigger] call_ensures(
                PluginPane::flush_edits,
                (m, Some(typing), numbers),
                edits,
            ),
    ensures
        after.edits@.contains_key(index),
        after.edits@[index] == p.edits@[index],
        edit_views(edits@).contains(e) ==> control_box(e) != Some(index),
{
    assert(edit_views(edits@).contains(e) == is_due(p, Some(*typing), numbers@, e));
}

} // verus!
