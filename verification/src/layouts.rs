//! Keyboard layouts: which character each key gives, and which key gives
//! each character.

use vstd::prelude::*;

use crate::keys::{plain_key, separator_key, WordKey};
use crate::text::{char_is_alphabetic, str_eq};

verus! {

broadcast use vstd::string::group_string_axioms;

/// A layout's name, such as `en-US`.
#[derive(Clone, PartialEq, Eq, Debug, PartialOrd, Ord, Hash)]
pub struct LayoutId {
    pub name: String,
}

impl View for LayoutId {
    type V = Seq<char>;

    open spec fn view(&self) -> Seq<char> {
        self.name@
    }
}

/// The names of a list of layouts, in its order.
pub open spec fn names(ids: Seq<LayoutId>) -> Seq<Seq<char>> {
    ids.map_values(|id: LayoutId| id@)
}

impl LayoutId {
    pub fn from(name: &str) -> (id: LayoutId)
        ensures
            id@ == name@,
    {
        LayoutId { name: name.to_owned() }
    }

    pub fn as_str(&self) -> (s: &str)
        ensures
            s@ == self@,
    {
        self.name.as_str()
    }

    /// A second copy of the same name.
    pub fn copy(&self) -> (id: LayoutId)
        ensures
            id == *self,
            id@ == self@,
    {
        LayoutId { name: self.name.clone() }
    }

    pub fn same(&self, other: &LayoutId) -> (b: bool)
        ensures
            b == (self@ == other@),
    {
        str_eq(self.name.as_str(), other.name.as_str())
    }
}

/// Whether `id` is on the list.
pub fn contains_id(ids: &[LayoutId], id: &LayoutId) -> (b: bool)
    ensures
        b == names(ids@).contains(id@),
{
    let mut i: usize = 0;
    while i < ids.len()
        invariant
            i <= ids.len(),
            forall|j: int| 0 <= j < i ==> (#[trigger] names(ids@)[j]) != id@,
        decreases ids.len() - i,
    {
        if ids[i].same(id) {
            assert(names(ids@)[i as int] == id@);
            return true;
        }
        i += 1;
    }
    false
}

/// One cell of a layout: the character a key gives on one level.
#[derive(Clone, Copy, PartialEq, Eq, Structural, Debug)]
pub struct KeyLevel {
    pub scancode: u32,
    pub shift: bool,
    pub caps: bool,
    pub ch: char,
}

/// The key and level a layout types a character with.
#[derive(Clone, Copy, PartialEq, Eq, Structural, Debug)]
pub struct CharKey {
    pub ch: char,
    pub scancode: u32,
    pub shift: bool,
}

/// A layout as two tables. Where a key or a character has several rows,
/// the first one counts.
#[derive(Clone, Debug)]
pub struct LayoutMapping {
    pub levels: Vec<KeyLevel>,
    pub chars: Vec<CharKey>,
}

pub open spec fn level_matches(l: KeyLevel, k: WordKey) -> bool {
    l.scancode == k.scancode && l.shift == k.shift && l.caps == k.caps
}

/// The character of the first row that matches `k`.
pub open spec fn char_of_key(levels: Seq<KeyLevel>, k: WordKey) -> Option<char>
    decreases levels.len(),
{
    if levels.len() == 0 {
        None
    } else if level_matches(levels[0], k) {
        Some(levels[0].ch)
    } else {
        char_of_key(levels.drop_first(), k)
    }
}

/// The key of the first row for `ch`.
pub open spec fn key_of_char(chars: Seq<CharKey>, ch: char) -> Option<(u32, bool)>
    decreases chars.len(),
{
    if chars.len() == 0 {
        None
    } else if chars[0].ch == ch {
        Some((chars[0].scancode, chars[0].shift))
    } else {
        key_of_char(chars.drop_first(), ch)
    }
}

/// What a run of keys reads as: the character of each key in turn, a key
/// that gives none left out.
pub open spec fn reading(levels: Seq<KeyLevel>, keys: Seq<WordKey>) -> Seq<char>
    decreases keys.len(),
{
    if keys.len() == 0 {
        Seq::empty()
    } else {
        let init = reading(levels, keys.drop_last());
        match char_of_key(levels, keys.last()) {
            Some(c) => init.push(c),
            None => init,
        }
    }
}

/// A layout without cells reads as nothing.
pub proof fn lemma_no_levels_read_as_nothing(keys: Seq<WordKey>)
    ensures
        reading(Seq::empty(), keys) == Seq::<char>::empty(),
    decreases keys.len(),
{
    if keys.len() > 0 {
        lemma_no_levels_read_as_nothing(keys.drop_last());
    }
}

impl LayoutMapping {
    pub fn translate_key(&self, k: WordKey) -> (c: Option<char>)
        ensures
            c == char_of_key(self.levels@, k),
    {
        let mut i: usize = 0;
        assert(self.levels@.skip(0) =~= self.levels@);
        while i < self.levels.len()
            invariant
                i <= self.levels.len(),
                char_of_key(self.levels@, k) == char_of_key(self.levels@.skip(i as int), k),
            decreases self.levels.len() - i,
        {
            let l = self.levels[i];
            if l.scancode == k.scancode && l.shift == k.shift && l.caps == k.caps {
                return Some(l.ch);
            }
            assert(self.levels@.skip(i as int).drop_first() =~= self.levels@.skip(i + 1));
            i += 1;
        }
        None
    }

    pub fn key_for_char(&self, ch: char) -> (key: Option<(u32, bool)>)
        ensures
            key == key_of_char(self.chars@, ch),
    {
        let mut i: usize = 0;
        assert(self.chars@.skip(0) =~= self.chars@);
        while i < self.chars.len()
            invariant
                i <= self.chars.len(),
                key_of_char(self.chars@, ch) == key_of_char(self.chars@.skip(i as int), ch),
            decreases self.chars.len() - i,
        {
            let row = self.chars[i];
            if row.ch == ch {
                return Some((row.scancode, row.shift));
            }
            assert(self.chars@.skip(i as int).drop_first() =~= self.chars@.skip(i + 1));
            i += 1;
        }
        None
    }

    pub fn translate_buffer(&self, keys: &[WordKey]) -> (s: String)
        ensures
            s@ == reading(self.levels@, keys@),
    {
        let mut s = String::new();
        let mut i: usize = 0;
        while i < keys.len()
            invariant
                i <= keys.len(),
                s@ == reading(self.levels@, keys@.take(i as int)),
            decreases keys.len() - i,
        {
            assert(keys@.take(i + 1).drop_last() =~= keys@.take(i as int));
            if let Some(c) = self.translate_key(keys[i]) {
                s.push(c);
            }
            i += 1;
        }
        assert(keys@.take(keys@.len() as int) =~= keys@);
        s
    }
}

/// The layouts the engine knows. Of two rows with one name the first counts.
#[derive(Clone, Debug)]
pub struct LayoutDb {
    pub layouts: Vec<(LayoutId, LayoutMapping)>,
}

/// The names in a table of layouts, in its order.
pub open spec fn row_names(rows: Seq<(LayoutId, LayoutMapping)>) -> Seq<Seq<char>> {
    rows.map_values(|r: (LayoutId, LayoutMapping)| r.0@)
}

/// Where the layout `id` stands in the table, if it does.
pub open spec fn row_index(rows: Seq<(LayoutId, LayoutMapping)>, id: Seq<char>) -> Option<int> {
    if row_names(rows).contains(id) {
        Some(row_names(rows).index_of_first(id)->0)
    } else {
        None
    }
}

impl LayoutDb {
    pub open spec fn known(&self, id: Seq<char>) -> bool {
        row_names(self.layouts@).contains(id)
    }

    /// The cells of the layout `id`; none where the layout is unknown.
    pub open spec fn levels(&self, id: Seq<char>) -> Seq<KeyLevel> {
        match row_index(self.layouts@, id) {
            Some(i) => self.layouts@[i].1.levels@,
            None => Seq::empty(),
        }
    }

    pub open spec fn chars(&self, id: Seq<char>) -> Seq<CharKey> {
        match row_index(self.layouts@, id) {
            Some(i) => self.layouts@[i].1.chars@,
            None => Seq::empty(),
        }
    }

    /// The character a key gives under the layout `id`; none where the
    /// layout is unknown or the key gives nothing in it.
    pub open spec fn renders(&self, id: Seq<char>, k: WordKey) -> Option<char> {
        char_of_key(self.levels(id), k)
    }

    /// What a run of keys reads as under the layout `id`.
    pub open spec fn reads(&self, id: Seq<char>, keys: Seq<WordKey>) -> Seq<char> {
        reading(self.levels(id), keys)
    }

    /// A key that is a letter, on this Shift level, in some layout.
    pub open spec fn letter_somewhere(&self, scancode: u32, shift: bool) -> bool {
        exists|i: int|
            0 <= i < self.layouts@.len() && (match char_of_key(
                (#[trigger] self.layouts@[i]).1.levels@,
                plain_key(scancode, shift),
            ) {
                Some(c) => char_is_alphabetic(c),
                None => false,
            })
    }

    pub fn get(&self, id: &LayoutId) -> (m: Option<&LayoutMapping>)
        ensures
            m is Some == self.known(id@),
            m matches Some(x) ==> x.levels@ == self.levels(id@) && x.chars@ == self.chars(id@),
    {
        let ghost ns = row_names(self.layouts@);
        let mut i: usize = 0;
        while i < self.layouts.len()
            invariant
                i <= self.layouts.len(),
                ns == row_names(self.layouts@),
                forall|j: int| 0 <= j < i ==> (#[trigger] ns[j]) != id@,
            decreases self.layouts.len() - i,
        {
            if self.layouts[i].0.same(id) {
                proof {
                    assert(ns[i as int] == id@);
                    ns.index_of_first_ensures(id@);
                }
                return Some(&self.layouts[i].1);
            }
            i += 1;
        }
        None
    }

    /// What `keys` read as under `id`; nothing where the layout is unknown.
    pub fn translate_under(&self, id: &LayoutId, keys: &[WordKey]) -> (s: String)
        ensures
            s@ == self.reads(id@, keys@),
    {
        match self.get(id) {
            Some(m) => m.translate_buffer(keys),
            None => {
                proof {
                    lemma_no_levels_read_as_nothing(keys@);
                }
                String::new()
            },
        }
    }

    pub fn is_letter_in_any_layout(&self, scancode: u32, shift: bool) -> (b: bool)
        ensures
            b == self.letter_somewhere(scancode, shift),
    {
        let k = separator_key(scancode, shift);
        let mut i: usize = 0;
        while i < self.layouts.len()
            invariant
                i <= self.layouts.len(),
                k == plain_key(scancode, shift),
                forall|j: int|
                    0 <= j < i ==> (match char_of_key((#[trigger] self.layouts@[j]).1.levels@, k) {
                        Some(c) => !char_is_alphabetic(c),
                        None => true,
                    }),
            decreases self.layouts.len() - i,
        {
            if let Some(c) = self.layouts[i].1.translate_key(k) {
                if c.is_alphabetic() {
                    assert(char_of_key(self.layouts@[i as int].1.levels@, k) == Some(c));
                    return true;
                }
            }
            i += 1;
        }
        false
    }
}

} // verus!
