//! What holds of every layout table and of everything that is read in one.

use vstd::prelude::*;

use crate::engine::heuristics::code_reading;
use crate::keys::{plain_key, WordKey};
use crate::layouts::{
    char_of_key, key_of_char, reading, row_names, CharKey, KeyLevel, LayoutDb,
};
use crate::text::char_is_alphabetic;

verus! {

/// A key gives the character of the first cell of the same key on the same
/// level, Shift and Caps Lock both; where there is no such cell it gives
/// nothing.
pub proof fn law_a_key_gives_the_first_cells_character(levels: Seq<KeyLevel>, k: WordKey, i: int)
    ensures
        0 <= i < levels.len() && levels[i].scancode == k.scancode && levels[i].shift == k.shift
            && levels[i].caps == k.caps && (forall|j: int|
            0 <= j < i ==> (#[trigger] levels[j]).scancode != k.scancode || levels[j].shift != k.shift
                || levels[j].caps != k.caps) ==> char_of_key(levels, k) == Some(levels[i].ch),
        (forall|j: int|
            0 <= j < levels.len() ==> (#[trigger] levels[j]).scancode != k.scancode
                || levels[j].shift != k.shift || levels[j].caps != k.caps) <==> char_of_key(
            levels,
            k,
        ) is None,
    decreases levels.len(),
{
    if levels.len() > 0 {
        let rest = levels.drop_first();
        law_a_key_gives_the_first_cells_character(rest, k, i - 1);
        assert(forall|j: int| 0 <= j < rest.len() ==> #[trigger] rest[j] == levels[j + 1]);
        if forall|j: int|
            0 <= j < rest.len() ==> (#[trigger] rest[j]).scancode != k.scancode || rest[j].shift
                != k.shift || rest[j].caps != k.caps {
            if levels[0].scancode != k.scancode || levels[0].shift != k.shift || levels[0].caps
                != k.caps {
                assert forall|j: int| 0 <= j < levels.len() implies (#[trigger] levels[j]).scancode
                    != k.scancode || levels[j].shift != k.shift || levels[j].caps != k.caps by {
                    if j > 0 {
                        assert(rest[j - 1] == levels[j]);
                    }
                }
            }
        }
        if 0 < i < levels.len() {
            assert(rest[i - 1] == levels[i]);
        }
    }
}

/// A character is typed with the key of its first row; without a row it
/// cannot be typed.
pub proof fn law_a_character_is_typed_with_its_first_key(chars: Seq<CharKey>, ch: char, i: int)
    ensures
        0 <= i < chars.len() && chars[i].ch == ch && (forall|j: int|
            0 <= j < i ==> (#[trigger] chars[j]).ch != ch) ==> key_of_char(chars, ch) == Some(
            (chars[i].scancode, chars[i].shift),
        ),
        (forall|j: int| 0 <= j < chars.len() ==> (#[trigger] chars[j]).ch != ch) <==> key_of_char(
            chars,
            ch,
        ) is None,
    decreases chars.len(),
{
    if chars.len() > 0 {
        let rest = chars.drop_first();
        law_a_character_is_typed_with_its_first_key(rest, ch, i - 1);
        assert(forall|j: int| 0 <= j < rest.len() ==> #[trigger] rest[j] == chars[j + 1]);
        if forall|j: int| 0 <= j < rest.len() ==> (#[trigger] rest[j]).ch != ch {
            if chars[0].ch != ch {
                assert forall|j: int| 0 <= j < chars.len() implies (#[trigger] chars[j]).ch
                    != ch by {
                    if j > 0 {
                        assert(rest[j - 1] == chars[j]);
                    }
                }
            }
        }
        if 0 < i < chars.len() {
            assert(rest[i - 1] == chars[i]);
        }
    }
}

/// A run of keys is read key by key, in order: a run made of two reads as
/// the one and then the other, and one key as its character or as nothing.
pub proof fn law_keys_are_read_one_by_one(
    levels: Seq<KeyLevel>,
    a: Seq<WordKey>,
    b: Seq<WordKey>,
    k: WordKey,
)
    ensures
        reading(levels, a + b) == reading(levels, a) + reading(levels, b),
        reading(levels, seq![k]) == match char_of_key(levels, k) {
            Some(c) => seq![c],
            None => Seq::empty(),
        },
    decreases b.len(),
{
    assert(seq![k].drop_last() =~= Seq::empty());
    assert(reading(levels, Seq::empty()) =~= Seq::empty());
    assert(seq![k].last() == k);
    if let Some(c) = char_of_key(levels, k) {
        assert(Seq::<char>::empty().push(c) =~= seq![c]);
    }
    if b.len() == 0 {
        assert(a + b =~= a);
        assert(reading(levels, a) + reading(levels, b) =~= reading(levels, a));
    } else {
        law_keys_are_read_one_by_one(levels, a, b.drop_last(), k);
        assert((a + b).drop_last() =~= a + b.drop_last());
        assert((a + b).last() == b.last());
        if let Some(c) = char_of_key(levels, b.last()) {
            assert(reading(levels, a) + reading(levels, b.drop_last()).push(c) =~= (reading(
                levels,
                a,
            ) + reading(levels, b.drop_last())).push(c));
        }
    }
}

/// Of the rows with one name the first counts, and a name without a row
/// reads as nothing.
pub proof fn law_the_first_row_of_a_name_counts(db: LayoutDb, i: int, k: WordKey, other: Seq<char>)
    requires
        0 <= i < db.layouts@.len(),
        forall|j: int| 0 <= j < i ==> (#[trigger] db.layouts@[j]).0@ != db.layouts@[i].0@,
    ensures
        db.known(db.layouts@[i].0@),
        db.renders(db.layouts@[i].0@, k) == char_of_key(db.layouts@[i].1.levels@, k),
        (forall|j: int| 0 <= j < db.layouts@.len() ==> (#[trigger] db.layouts@[j]).0@ != other)
            ==> !db.known(other) && db.renders(other, k) is None,
{
    let ns = row_names(db.layouts@);
    let name = db.layouts@[i].0@;
    assert(ns[i] == name);
    ns.index_of_first_ensures(name);
    let at = ns.index_of_first(name)->0;
    assert(ns[at] == db.layouts@[at].0@);
    if db.known(other) {
        let j = choose|j: int| 0 <= j < ns.len() && ns[j] == other;
        assert(db.layouts@[j].0@ == other);
    }
}

/// A key is a letter somewhere as soon as one layout types a letter with it
/// on that level, Caps Lock off, and nowhere when none does.
pub proof fn law_a_letter_somewhere(db: LayoutDb, scancode: u32, shift: bool, i: int, c: char)
    ensures
        0 <= i < db.layouts@.len() && char_of_key(
            db.layouts@[i].1.levels@,
            plain_key(scancode, shift),
        ) == Some(c) && char_is_alphabetic(c) ==> db.letter_somewhere(scancode, shift),
        (forall|j: int, x: char|
            0 <= j < db.layouts@.len() && #[trigger] char_of_key(
                db.layouts@[j].1.levels@,
                plain_key(scancode, shift),
            ) == Some(x) ==> !#[trigger] char_is_alphabetic(x)) ==> !db.letter_somewhere(
            scancode,
            shift,
        ),
{
    if 0 <= i < db.layouts@.len() {
        let row = db.layouts@[i];
    }
    if db.letter_somewhere(scancode, shift) {
        let j = choose|j: int|
            0 <= j < db.layouts@.len() && (match char_of_key(
                (#[trigger] db.layouts@[j]).1.levels@,
                plain_key(scancode, shift),
            ) {
                Some(x) => char_is_alphabetic(x),
                None => false,
            });
        let x = char_of_key(db.layouts@[j].1.levels@, plain_key(scancode, shift))->0;
        assert(char_is_alphabetic(x));
    }
}

/// Code is read key by key like any text, but for the keys that are letters
/// in some layout and none in this one: those are left out.
pub proof fn law_code_is_read_without_artifacts(
    db: LayoutDb,
    id: Seq<char>,
    keys: Seq<WordKey>,
    k: WordKey,
)
    ensures
        ({
            let before = code_reading(db, id, keys);
            let after = code_reading(db, id, keys.push(k));
            let own = db.reads(id, seq![k]);
            let letter = own.len() == 1 && char_is_alphabetic(own[0]);
            if letter || !db.letter_somewhere(k.scancode, k.shift) {
                after == before + own
            } else {
                after == before
            }
        }),
        code_reading(db, id, Seq::empty()).len() == 0,
{
    let before = code_reading(db, id, keys);
    assert(keys.push(k).drop_last() =~= keys);
    law_keys_are_read_one_by_one(db.levels(id), Seq::empty(), Seq::empty(), k);
    if let Some(c) = db.renders(id, k) {
        assert(before + seq![c] =~= before.push(c));
    } else {
        assert(before + Seq::<char>::empty() =~= before);
    }
}

} // verus!
