//! Text helpers over strings seen as sequences of characters.

use vstd::prelude::*;
use vstd::string::*;

verus! {

broadcast use vstd::string::group_string_axioms;

// ─── Characters ──────────────────────────────────────────────────────

/// Whether `char::is_lowercase` holds of `c`.
pub uninterp spec fn char_is_lowercase(c: char) -> bool;

/// Whether `char::is_uppercase` holds of `c`.
pub uninterp spec fn char_is_uppercase(c: char) -> bool;

/// Whether `char::is_alphabetic` holds of `c`.
pub uninterp spec fn char_is_alphabetic(c: char) -> bool;

/// The characters `char::to_lowercase` yields for `c`.
pub uninterp spec fn char_to_lowercase(c: char) -> Seq<char>;

/// `char::is_lowercase` reads a fixed Unicode table: its answer is a
/// function of the character.
pub assume_specification[ char::is_lowercase ](c: char) -> (b: bool)
    ensures
        b == char_is_lowercase(c),
;

/// `char::is_uppercase` reads a fixed Unicode table: its answer is a
/// function of the character.
pub assume_specification[ char::is_uppercase ](c: char) -> (b: bool)
    ensures
        b == char_is_uppercase(c),
;

/// `char::is_alphabetic` reads a fixed Unicode table: its answer is a
/// function of the character.
pub assume_specification[ char::is_alphabetic ](c: char) -> (b: bool)
    ensures
        b == char_is_alphabetic(c),
;

/// `char::to_lowercase` reads a fixed Unicode table: the characters it
/// yields, in order, are a function of the character.
#[verifier::external_body]
fn lowercase_of(c: char) -> (lower: Vec<char>)
    ensures
        lower@ == char_to_lowercase(c),
{
    c.to_lowercase().collect()
}

/// What `str::to_lowercase` makes of `s`.
pub uninterp spec fn lowercase(s: Seq<char>) -> Seq<char>;

/// `str::to_lowercase` reads fixed Unicode tables: its result is a function
/// of the text.
#[verifier::external_body]
pub(crate) fn to_lowercase(s: &str) -> (lower: String)
    ensures
        lower@ == lowercase(s@),
{
    s.to_lowercase()
}

/// `String::push` appends one character.
pub assume_specification[ String::push ](s: &mut String, c: char)
    ensures
        final(s)@ == old(s)@.push(c),
;

/// ASCII lower-casing of one character; every other character is kept.
pub open spec fn ascii_lower(c: char) -> char {
    if 'A' <= c && c <= 'Z' {
        (c as u8 + 32) as char
    } else {
        c
    }
}

pub fn to_ascii_lower(c: char) -> (lower: char)
    ensures
        lower == ascii_lower(c),
{
    if 'A' <= c && c <= 'Z' {
        (c as u8 + 32) as char
    } else {
        c
    }
}

/// The characters Unicode gives the property White_Space.
pub open spec fn is_space(c: char) -> bool {
    let n = c as u32;
    ||| 0x09 <= n <= 0x0D
    ||| n == 0x20
    ||| n == 0x85
    ||| n == 0xA0
    ||| n == 0x1680
    ||| 0x2000 <= n <= 0x200A
    ||| n == 0x2028
    ||| n == 0x2029
    ||| n == 0x202F
    ||| n == 0x205F
    ||| n == 0x3000
}

pub fn is_white_space(c: char) -> (b: bool)
    ensures
        b == is_space(c),
{
    let n: u32 = c as u32;
    (0x09 <= n && n <= 0x0D) || n == 0x20 || n == 0x85 || n == 0xA0 || n == 0x1680 || (0x2000 <= n
        && n <= 0x200A) || n == 0x2028 || n == 0x2029 || n == 0x202F || n == 0x205F || n == 0x3000
}

// ─── Strings and character vectors ───────────────────────────────────

/// The characters of `s`, in order.
pub fn chars_of(s: &str) -> (v: Vec<char>)
    ensures
        v@ == s@,
{
    let mut v: Vec<char> = Vec::new();
    for c in it: s.chars()
        invariant
            it.seq() == s@,
            v@ == s@.take(it.index() as int),
    {
        v.push(c);
        assert(s@.take(it.index() as int).push(c) =~= s@.take(it.index() + 1));
    }
    assert(s@.take(s@.len() as int) =~= s@);
    v
}

/// The string made of `v[from..to]`.
pub fn string_of(v: &Vec<char>, from: usize, to: usize) -> (s: String)
    requires
        from <= to <= v.len(),
    ensures
        s@ == v@.subrange(from as int, to as int),
{
    let mut s = String::new();
    let mut i: usize = from;
    while i < to
        invariant
            from <= i <= to <= v.len(),
            s@ == v@.subrange(from as int, i as int),
        decreases to - i,
    {
        s.push(v[i]);
        i += 1;
    }
    s
}

/// Whether two strings hold the same characters.
pub fn str_eq(a: &str, b: &str) -> (same: bool)
    ensures
        same == (a@ == b@),
{
    let va = chars_of(a);
    let vb = chars_of(b);
    if va.len() != vb.len() {
        return false;
    }
    let mut i: usize = 0;
    while i < va.len()
        invariant
            i <= va.len() == vb.len(),
            va@ == a@,
            vb@ == b@,
            va@.take(i as int) == vb@.take(i as int),
        decreases va.len() - i,
    {
        if va[i] != vb[i] {
            return false;
        }
        assert(va@.take(i + 1) =~= va@.take(i as int).push(va@[i as int]));
        assert(vb@.take(i + 1) =~= vb@.take(i as int).push(vb@[i as int]));
        i += 1;
    }
    assert(va@.take(va@.len() as int) =~= va@);
    assert(vb@.take(vb@.len() as int) =~= vb@);
    true
}

// ─── White space ─────────────────────────────────────────────────────

/// Nothing but white space.
pub open spec fn is_blank(s: Seq<char>) -> bool {
    forall|i: int| 0 <= i < s.len() ==> is_space(#[trigger] s[i])
}

pub open spec fn trim_start(s: Seq<char>) -> Seq<char>
    decreases s.len(),
{
    if s.len() > 0 && is_space(s[0]) {
        trim_start(s.drop_first())
    } else {
        s
    }
}

pub open spec fn trim_end(s: Seq<char>) -> Seq<char>
    decreases s.len(),
{
    if s.len() > 0 && is_space(s.last()) {
        trim_end(s.drop_last())
    } else {
        s
    }
}

/// `s` without the white space at its two ends.
pub open spec fn trimmed(s: Seq<char>) -> Seq<char> {
    trim_end(trim_start(s))
}

/// Nothing is left of a text after trimming exactly when it is blank.
pub proof fn lemma_blank_trims_to_nothing(s: Seq<char>)
    ensures
        is_blank(s) == (trimmed(s).len() == 0),
    decreases s.len(),
{
    if s.len() > 0 {
        if is_space(s[0]) {
            lemma_blank_trims_to_nothing(s.drop_first());
            if is_blank(s.drop_first()) {
                assert forall|i: int| 0 <= i < s.len() implies is_space(#[trigger] s[i]) by {
                    if i > 0 {
                        assert(s.drop_first()[i - 1] == s[i]);
                    }
                }
            }
            if is_blank(s) {
                assert forall|i: int| 0 <= i < s.drop_first().len() implies is_space(
                    #[trigger] s.drop_first()[i],
                ) by {
                    assert(s[i + 1] == s.drop_first()[i]);
                }
            }
        } else {
            lemma_trim_end_keeps_the_front(s);
        }
    }
}

proof fn lemma_trim_end_keeps_the_front(s: Seq<char>)
    requires
        s.len() > 0,
        !is_space(s[0]),
    ensures
        trim_end(s).len() > 0,
    decreases s.len(),
{
    if s.len() > 1 && is_space(s.last()) {
        lemma_trim_end_keeps_the_front(s.drop_last());
    }
}

/// `s` without the white space at its two ends.
pub fn trim_ref<'a>(s: &'a str) -> (t: &'a str)
    ensures
        t@ == trimmed(s@),
{
    let v = chars_of(s);
    let mut from: usize = 0;
    assert(v@.skip(0) =~= v@);
    while from < v.len() && is_white_space(v[from])
        invariant
            from <= v.len(),
            trim_start(v@) == trim_start(v@.skip(from as int)),
        decreases v.len() - from,
    {
        assert(v@.skip(from as int).drop_first() =~= v@.skip(from + 1));
        from += 1;
    }
    assert(trim_start(v@) == v@.skip(from as int));
    let mut to: usize = v.len();
    assert(v@.subrange(from as int, to as int) =~= v@.skip(from as int));
    while to > from && is_white_space(v[to - 1])
        invariant
            from <= to <= v.len(),
            trim_end(trim_start(v@)) == trim_end(v@.subrange(from as int, to as int)),
        decreases to,
    {
        assert(v@.subrange(from as int, to as int).drop_last() =~= v@.subrange(
            from as int,
            to - 1,
        ));
        to -= 1;
    }
    s.substring_char(from, to)
}

/// An owned copy of `s` without the white space at its two ends.
pub fn trim(s: &str) -> (t: String)
    ensures
        t@ == trimmed(s@),
{
    trim_ref(s).to_owned()
}

/// Whether `s` is nothing but white space.
pub fn is_blank_text(s: &str) -> (b: bool)
    ensures
        b == is_blank(s@),
{
    let v = chars_of(s);
    let mut i: usize = 0;
    while i < v.len()
        invariant
            i <= v.len(),
            v@ == s@,
            forall|j: int| 0 <= j < i ==> is_space(#[trigger] v@[j]),
        decreases v.len() - i,
    {
        if !is_white_space(v[i]) {
            assert(!is_space(s@[i as int]));
            return false;
        }
        i += 1;
    }
    true
}

// ─── Case ────────────────────────────────────────────────────────────

/// `s` with its ASCII letters in lower case.
pub open spec fn ascii_fold(s: Seq<char>) -> Seq<char> {
    s.map_values(|c: char| ascii_lower(c))
}

/// Equality that takes no notice of the case of ASCII letters.
pub fn eq_ignore_ascii_case(a: &str, b: &str) -> (same: bool)
    ensures
        same == (ascii_fold(a@) == ascii_fold(b@)),
{
    let va = chars_of(a);
    let vb = chars_of(b);
    if va.len() != vb.len() {
        assert(ascii_fold(a@).len() != ascii_fold(b@).len());
        return false;
    }
    let mut i: usize = 0;
    while i < va.len()
        invariant
            i <= va.len() == vb.len(),
            va@ == a@,
            vb@ == b@,
            forall|j: int| 0 <= j < i ==> ascii_lower(#[trigger] va@[j]) == ascii_lower(vb@[j]),
        decreases va.len() - i,
    {
        if to_ascii_lower(va[i]) != to_ascii_lower(vb[i]) {
            assert(ascii_fold(a@)[i as int] != ascii_fold(b@)[i as int]);
            return false;
        }
        i += 1;
    }
    assert(ascii_fold(a@) =~= ascii_fold(b@));
    true
}

/// The letters of `s`, each in its lower-case form, everything else left
/// out: how words are matched against the user's lists.
pub open spec fn letters_lower(s: Seq<char>) -> Seq<char>
    decreases s.len(),
{
    if s.len() == 0 {
        Seq::empty()
    } else if char_is_alphabetic(s.last()) {
        letters_lower(s.drop_last()) + char_to_lowercase(s.last())
    } else {
        letters_lower(s.drop_last())
    }
}

pub fn letters_only_lower(s: &str) -> (t: String)
    ensures
        t@ == letters_lower(s@),
{
    let v = chars_of(s);
    let mut t = String::new();
    let mut i: usize = 0;
    while i < v.len()
        invariant
            i <= v.len(),
            t@ == letters_lower(v@.take(i as int)),
        decreases v.len() - i,
    {
        assert(v@.take(i + 1).drop_last() =~= v@.take(i as int));
        if v[i].is_alphabetic() {
            let lower = lowercase_of(v[i]);
            push_all(&mut t, &lower);
        }
        i += 1;
    }
    assert(v@.take(v@.len() as int) =~= v@);
    t
}

/// Append one character.
pub fn push_char(s: &mut String, c: char)
    ensures
        final(s)@ == old(s)@ + seq![c],
{
    let ghost before = s@;
    s.push(c);
    assert(s@ =~= before + seq![c]);
}

/// Append every character of `v` to `s`.
pub fn push_all(s: &mut String, v: &Vec<char>)
    ensures
        final(s)@ == old(s)@ + v@,
{
    let ghost before = s@;
    let mut i: usize = 0;
    while i < v.len()
        invariant
            i <= v.len(),
            s@ == before + v@.take(i as int),
        decreases v.len() - i,
    {
        s.push(v[i]);
        i += 1;
        assert(s@ =~= before + v@.take(i as int));
    }
    assert(v@.take(v@.len() as int) =~= v@);
}

// ─── Numbers ─────────────────────────────────────────────────────────

/// The digit character of `d`, for `d` below ten.
pub open spec fn digit(d: nat) -> char {
    (48 + d) as char
}

/// `n` written in decimal, without leading zeros.
pub open spec fn decimal(n: nat) -> Seq<char>
    decreases n,
{
    if n < 10 {
        seq![digit(n)]
    } else {
        decimal(n / 10).push(digit(n % 10))
    }
}

fn digit_of(d: u64) -> (c: char)
    requires
        d < 10,
    ensures
        c == digit(d as nat),
{
    (48 + d as u8) as char
}

/// `n` written in decimal, with its sign where it is below zero.
pub open spec fn signed_decimal(n: int) -> Seq<char> {
    if n < 0 {
        "-"@ + decimal((-n) as nat)
    } else {
        decimal(n as nat)
    }
}

/// The decimal form of `n`, with its sign.
pub fn signed_decimal_text(n: i64) -> (s: String)
    ensures
        s@ == signed_decimal(n as int),
{
    if n < 0 {
        let mut s = "-".to_owned();
        let size: u64 = (0 - n as i128) as u64;
        s.append(decimal_text(size).as_str());
        s
    } else {
        decimal_text(n as u64)
    }
}

/// The decimal form of `n`.
pub fn decimal_text(n: u64) -> (s: String)
    ensures
        s@ == decimal(n as nat),
    decreases n,
{
    if n < 10 {
        let mut s = String::new();
        s.push(digit_of(n));
        assert(s@ =~= seq![digit(n as nat)]);
        s
    } else {
        let mut s = decimal_text(n / 10);
        s.push(digit_of(n % 10));
        s
    }
}

/// The number a digit stands for.
pub open spec fn digit_value(c: char) -> int {
    c as int - 48
}

pub open spec fn is_digit(c: char) -> bool {
    '0' <= c && c <= '9'
}

/// Nothing but decimal digits, and at least one.
pub open spec fn all_digits(s: Seq<char>) -> bool {
    s.len() > 0 && forall|i: int| 0 <= i < s.len() ==> is_digit(#[trigger] s[i])
}

/// The number a run of decimal digits stands for.
pub open spec fn digits_value(s: Seq<char>) -> int
    decreases s.len(),
{
    if s.len() == 0 {
        0
    } else {
        digits_value(s.drop_last()) * 10 + digit_value(s.last())
    }
}

/// The integer a text spells: an optional sign, then decimal digits.
pub open spec fn integer(s: Seq<char>, signed: bool) -> Option<int> {
    if all_digits(s) {
        Some(digits_value(s))
    } else if s.len() > 0 && s[0] == '+' && all_digits(s.drop_first()) {
        Some(digits_value(s.drop_first()))
    } else if signed && s.len() > 0 && s[0] == '-' && all_digits(s.drop_first()) {
        Some(-digits_value(s.drop_first()))
    } else {
        None
    }
}

proof fn lemma_digits_are_not_negative(s: Seq<char>)
    requires
        forall|i: int| 0 <= i < s.len() ==> is_digit(#[trigger] s[i]),
    ensures
        digits_value(s) >= 0,
    decreases s.len(),
{
    if s.len() > 0 {
        let init = s.drop_last();
        assert forall|i: int| 0 <= i < init.len() implies is_digit(#[trigger] init[i]) by {
            assert(init[i] == s[i]);
        }
        lemma_digits_are_not_negative(init);
        assert(is_digit(s[s.len() - 1]));
    }
}

/// A text read as a number without a minus sign is never below zero.
pub proof fn lemma_unsigned_integer_is_not_negative(s: Seq<char>)
    ensures
        integer(s, false) matches Some(n) ==> n >= 0,
{
    if all_digits(s) {
        lemma_digits_are_not_negative(s);
    } else if s.len() > 0 && all_digits(s.drop_first()) {
        lemma_digits_are_not_negative(s.drop_first());
    }
}

/// Anything from here on is out of range for every integer that is parsed.
pub const NUMBER_CAP: u128 = 100_000_000_000_000_000_000;

/// The value of the digits `v[from..]`, cut off at the cap; none where
/// something else is among them, or nothing.
fn digits_of(v: &Vec<char>, from: usize) -> (n: Option<u128>)
    requires
        from <= v.len(),
    ensures
        match n {
            Some(x) => {
                &&& all_digits(v@.skip(from as int))
                &&& digits_value(v@.skip(from as int)) < NUMBER_CAP ==> x == digits_value(
                    v@.skip(from as int),
                )
                &&& digits_value(v@.skip(from as int)) >= NUMBER_CAP ==> x == NUMBER_CAP
            },
            None => !all_digits(v@.skip(from as int)),
        },
{
    let ghost s = v@.skip(from as int);
    if from == v.len() {
        return None;
    }
    let mut acc: u128 = 0;
    let mut i: usize = from;
    while i < v.len()
        invariant
            from <= i <= v.len(),
            s == v@.skip(from as int),
            acc <= NUMBER_CAP,
            forall|j: int| 0 <= j < i - from ==> is_digit(#[trigger] s[j]),
            digits_value(s.take(i - from)) >= 0,
            digits_value(s.take(i - from)) < NUMBER_CAP ==> acc == digits_value(s.take(i - from)),
            digits_value(s.take(i - from)) >= NUMBER_CAP ==> acc == NUMBER_CAP,
        decreases v.len() - i,
    {
        let c = v[i];
        assert(s[i - from] == c);
        if !('0' <= c && c <= '9') {
            assert(!is_digit(s[i - from]));
            return None;
        }
        assert(s.take(i - from + 1).drop_last() =~= s.take(i - from));
        assert(s.take(i - from + 1).last() == c);
        if acc < NUMBER_CAP {
            acc = acc * 10 + (c as u8 - 48) as u128;
            if acc > NUMBER_CAP {
                acc = NUMBER_CAP;
            }
        }
        i += 1;
    }
    assert(s.take(s.len() as int) =~= s);
    Some(acc)
}

/// The `i64` a text spells, where it spells one.
pub fn parse_i64(s: &str) -> (n: Option<i64>)
    ensures
        match n {
            Some(x) => integer(s@, true) == Some(x as int),
            None => match integer(s@, true) {
                Some(v) => v < i64::MIN || v > i64::MAX,
                None => true,
            },
        },
{
    let v = chars_of(s);
    if v.len() == 0 {
        return None;
    }
    assert(v@.skip(0) =~= v@);
    assert(v@.skip(1) =~= v@.drop_first());
    let negative = v[0] == '-';
    let from: usize = if v[0] == '-' || v[0] == '+' {
        1
    } else {
        0
    };
    if from == 1 {
        assert(!is_digit(v@[0]));
        assert(!all_digits(v@));
    }
    match digits_of(&v, from) {
        Some(x) => if negative {
            if x <= 9_223_372_036_854_775_808u128 {
                Some((0 - x as i128) as i64)
            } else {
                None
            }
        } else if x <= 9_223_372_036_854_775_807u128 {
            Some(x as i64)
        } else {
            None
        },
        None => None,
    }
}

/// The `u32` a text spells, where it spells one.
pub fn parse_u32(s: &str) -> (n: Option<u32>)
    ensures
        match n {
            Some(x) => integer(s@, false) == Some(x as int),
            None => match integer(s@, false) {
                Some(v) => v > u32::MAX,
                None => true,
            },
        },
{
    let v = chars_of(s);
    if v.len() == 0 {
        return None;
    }
    assert(v@.skip(0) =~= v@);
    assert(v@.skip(1) =~= v@.drop_first());
    let from: usize = if v[0] == '+' {
        1
    } else {
        0
    };
    if from == 1 {
        assert(!is_digit(v@[0]));
        assert(!all_digits(v@));
    }
    match digits_of(&v, from) {
        Some(x) => if x <= 4_294_967_295u128 {
            Some(x as u32)
        } else {
            None
        },
        None => None,
    }
}

// ─── Pieces ──────────────────────────────────────────────────────────

/// The texts of a list of strings.
pub open spec fn texts(v: Seq<String>) -> Seq<Seq<char>> {
    v.map_values(|s: String| s@)
}

/// The pieces of `s` between the separators, empty ones among them.
pub open spec fn split(s: Seq<char>, sep: char) -> Seq<Seq<char>>
    decreases s.len(),
{
    if s.len() == 0 {
        seq![Seq::empty()]
    } else {
        let init = split(s.drop_last(), sep);
        if s.last() == sep {
            init.push(Seq::empty())
        } else {
            init.drop_last().push(init.last().push(s.last()))
        }
    }
}

pub proof fn lemma_split_is_never_empty(s: Seq<char>, sep: char)
    ensures
        split(s, sep).len() > 0,
    decreases s.len(),
{
    if s.len() > 0 {
        lemma_split_is_never_empty(s.drop_last(), sep);
    }
}

/// The pieces of `s` between the separators.
pub fn split_on(s: &str, sep: char) -> (pieces: Vec<String>)
    ensures
        texts(pieces@) == split(s@, sep),
        pieces@.len() > 0,
{
    let v = chars_of(s);
    let mut pieces: Vec<String> = Vec::new();
    let mut current = String::new();
    let mut i: usize = 0;
    assert(texts(pieces@).push(current@) =~= split(v@.take(0), sep));
    while i < v.len()
        invariant
            i <= v.len(),
            texts(pieces@).push(current@) == split(v@.take(i as int), sep),
        decreases v.len() - i,
    {
        let ghost before = texts(pieces@).push(current@);
        let ghost done = texts(pieces@);
        let ghost cur = current@;
        assert(v@.take(i + 1).drop_last() =~= v@.take(i as int));
        assert(before.drop_last() =~= done);
        if v[i] == sep {
            pieces.push(current);
            current = String::new();
            assert(texts(pieces@) =~= done.push(cur));
            assert(texts(pieces@).push(current@) =~= before.push(Seq::empty()));
        } else {
            current.push(v[i]);
        }
        i += 1;
    }
    assert(v@.take(v@.len() as int) =~= v@);
    let ghost done = texts(pieces@);
    let ghost cur = current@;
    pieces.push(current);
    assert(texts(pieces@) =~= done.push(cur));
    pieces
}

/// `needle` stands in `hay` at `i`.
pub open spec fn stands_at(hay: Seq<char>, needle: Seq<char>, i: int) -> bool {
    0 <= i && i + needle.len() <= hay.len() && hay.subrange(i, i + needle.len() as int) == needle
}

pub open spec fn contains_text(hay: Seq<char>, needle: Seq<char>) -> bool {
    exists|i: int| #[trigger] stands_at(hay, needle, i)
}

fn matches_at(hay: &Vec<char>, needle: &Vec<char>, at: usize) -> (b: bool)
    requires
        at + needle.len() <= hay.len(),
    ensures
        b == stands_at(hay@, needle@, at as int),
{
    let ghost part = hay@.subrange(at as int, at + needle@.len() as int);
    let mut j: usize = 0;
    while j < needle.len()
        invariant
            j <= needle.len(),
            at + needle.len() <= hay.len(),
            part == hay@.subrange(at as int, at + needle@.len() as int),
            forall|k: int| 0 <= k < j ==> part[k] == #[trigger] needle@[k],
        decreases needle.len() - j,
    {
        if hay[at + j] != needle[j] {
            assert(part[j as int] != needle@[j as int]);
            return false;
        }
        j += 1;
    }
    assert(part =~= needle@);
    true
}

/// Where `needle` first stands in `hay`.
pub fn find(hay: &Vec<char>, needle: &Vec<char>) -> (at: Option<usize>)
    ensures
        match at {
            Some(i) => stands_at(hay@, needle@, i as int) && forall|j: int|
                0 <= j < i ==> !#[trigger] stands_at(hay@, needle@, j),
            None => !contains_text(hay@, needle@),
        },
{
    if needle.len() > hay.len() {
        return None;
    }
    let last: usize = hay.len() - needle.len();
    let mut i: usize = 0;
    while i <= last
        invariant
            needle.len() <= hay.len(),
            last == hay.len() - needle.len(),
            i <= last + 1,
            forall|j: int| 0 <= j < i ==> !#[trigger] stands_at(hay@, needle@, j),
        decreases last + 1 - i,
    {
        if matches_at(hay, needle, i) {
            return Some(i);
        }
        if i == last {
            return None;
        }
        i += 1;
    }
    None
}

pub fn text_contains(hay: &str, needle: &str) -> (b: bool)
    ensures
        b == contains_text(hay@, needle@),
{
    match find(&chars_of(hay), &chars_of(needle)) {
        Some(_) => true,
        None => false,
    }
}

/// The pieces with `glue` between them.
pub open spec fn joined(pieces: Seq<Seq<char>>, glue: Seq<char>) -> Seq<char>
    decreases pieces.len(),
{
    if pieces.len() == 0 {
        Seq::empty()
    } else if pieces.len() == 1 {
        pieces[0]
    } else {
        joined(pieces.drop_last(), glue) + glue + pieces.last()
    }
}

pub fn join(pieces: &Vec<String>, glue: &str) -> (s: String)
    ensures
        s@ == joined(texts(pieces@), glue@),
{
    let mut s = String::new();
    let mut i: usize = 0;
    while i < pieces.len()
        invariant
            i <= pieces.len(),
            s@ == joined(texts(pieces@).take(i as int), glue@),
        decreases pieces.len() - i,
    {
        let ghost before = s@;
        proof {
            assert(texts(pieces@).take(i + 1).drop_last() =~= texts(pieces@).take(i as int));
            assert(texts(pieces@).take(i + 1).last() == pieces@[i as int]@);
        }
        if i > 0 {
            s.append(glue);
        } else {
            assert(texts(pieces@).take(0) =~= Seq::empty());
        }
        s.append(pieces[i].as_str());
        proof {
            if i == 0 {
                assert(s@ =~= pieces@[0]@);
            }
        }
        i += 1;
    }
    assert(texts(pieces@).take(texts(pieces@).len() as int) =~= texts(pieces@));
    s
}

/// A second copy of a list of strings.
pub fn copy_strings(v: &Vec<String>) -> (out: Vec<String>)
    ensures
        out@ == v@,
{
    let mut out: Vec<String> = Vec::new();
    let mut i: usize = 0;
    while i < v.len()
        invariant
            i <= v.len(),
            out@ == v@.take(i as int),
        decreases v.len() - i,
    {
        out.push(v[i].clone());
        i += 1;
        assert(out@ =~= v@.take(i as int));
    }
    assert(v@.take(v@.len() as int) =~= v@);
    out
}

/// Whether `s` is one of the strings.
pub fn list_contains(v: &Vec<String>, s: &str) -> (b: bool)
    ensures
        b == texts(v@).contains(s@),
{
    let mut i: usize = 0;
    while i < v.len()
        invariant
            i <= v.len(),
            forall|j: int| 0 <= j < i ==> (#[trigger] texts(v@)[j]) != s@,
        decreases v.len() - i,
    {
        if str_eq(v[i].as_str(), s) {
            assert(texts(v@)[i as int] == s@);
            return true;
        }
        i += 1;
    }
    false
}

/// The trimmed pieces, blank ones left out.
pub open spec fn trimmed_pieces(pieces: Seq<Seq<char>>) -> Seq<Seq<char>>
    decreases pieces.len(),
{
    if pieces.len() == 0 {
        Seq::empty()
    } else {
        let init = trimmed_pieces(pieces.drop_last());
        let last = trimmed(pieces.last());
        if last.len() == 0 {
            init
        } else {
            init.push(last)
        }
    }
}

/// The trimmed strings of `v[from..]`, blank ones left out.
pub fn trim_pieces(v: &Vec<String>, from: usize) -> (out: Vec<String>)
    requires
        from <= v.len(),
    ensures
        texts(out@) == trimmed_pieces(texts(v@).skip(from as int)),
{
    let ghost all = texts(v@).skip(from as int);
    let mut out: Vec<String> = Vec::new();
    let mut i: usize = from;
    assert(texts(out@) =~= trimmed_pieces(all.take(0)));
    while i < v.len()
        invariant
            from <= i <= v.len(),
            all == texts(v@).skip(from as int),
            texts(out@) == trimmed_pieces(all.take(i - from)),
        decreases v.len() - i,
    {
        let ghost before = texts(out@);
        proof {
            assert(all.take(i - from + 1).drop_last() =~= all.take(i - from));
            assert(all.take(i - from + 1).last() == v@[i as int]@);
        }
        let t = trim(v[i].as_str());
        let ghost tv = t@;
        if !t.as_str().is_empty() {
            out.push(t);
            assert(texts(out@) =~= before.push(tv));
        }
        i += 1;
    }
    assert(all.take(all.len() as int) =~= all);
    out
}

} // verus!
