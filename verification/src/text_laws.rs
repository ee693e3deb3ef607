//! What holds of every text that is trimmed, split, joined, folded or read
//! as a number.

use vstd::prelude::*;
use vstd::string::*;

use crate::text::{
    all_digits, ascii_fold, ascii_lower, contains_text, decimal, digit, digits_value, integer,
    is_blank, is_digit, is_space, joined, letters_lower, char_is_alphabetic, char_to_lowercase,
    signed_decimal, split, stands_at, trim_end, trim_start, trimmed, trimmed_pieces,
};

verus! {

broadcast use vstd::string::group_string_axioms;

// ─── White space ─────────────────────────────────────────────────────

/// White space is these characters and no other.
pub proof fn law_what_white_space_is(c: char)
    ensures
        is_space(c) <==> seq![
            0x09u32,
            0x0A,
            0x0B,
            0x0C,
            0x0D,
            0x20,
            0x85,
            0xA0,
            0x1680,
            0x2000,
            0x2001,
            0x2002,
            0x2003,
            0x2004,
            0x2005,
            0x2006,
            0x2007,
            0x2008,
            0x2009,
            0x200A,
            0x2028,
            0x2029,
            0x202F,
            0x205F,
            0x3000,
        ].contains(c as u32),
{
    let all = seq![
        0x09u32,
        0x0A,
        0x0B,
        0x0C,
        0x0D,
        0x20,
        0x85,
        0xA0,
        0x1680,
        0x2000,
        0x2001,
        0x2002,
        0x2003,
        0x2004,
        0x2005,
        0x2006,
        0x2007,
        0x2008,
        0x2009,
        0x200A,
        0x2028,
        0x2029,
        0x202F,
        0x205F,
        0x3000,
    ];
    let n = c as u32;
    if is_space(c) {
        let i: int = if n <= 0x0D {
            n - 0x09
        } else if n == 0x20 {
            5
        } else if n == 0x85 {
            6
        } else if n == 0xA0 {
            7
        } else if n == 0x1680 {
            8
        } else if n <= 0x200A {
            9 + n - 0x2000
        } else if n == 0x2028 {
            20
        } else if n == 0x2029 {
            21
        } else if n == 0x202F {
            22
        } else if n == 0x205F {
            23
        } else {
            24
        };
        assert(all[i] == n);
    }
    if all.contains(n) {
        let i = choose|i: int| 0 <= i < all.len() && all[i] == n;
    }
}

proof fn lemma_trim_start(s: Seq<char>) -> (n: int)
    ensures
        0 <= n <= s.len(),
        trim_start(s) == s.skip(n),
        is_blank(s.take(n)),
        n < s.len() ==> !is_space(s[n]),
    decreases s.len(),
{
    if s.len() > 0 && is_space(s[0]) {
        let rest = s.drop_first();
        let m = lemma_trim_start(rest);
        assert(s.skip(m + 1) =~= rest.skip(m));
        assert forall|i: int| 0 <= i < m + 1 implies is_space(#[trigger] s.take(m + 1)[i]) by {
            if i > 0 {
                assert(rest.take(m)[i - 1] == s[i]);
            }
        }
        m + 1
    } else {
        assert(s.skip(0) =~= s);
        0
    }
}

proof fn lemma_trim_end(s: Seq<char>) -> (n: int)
    ensures
        0 <= n <= s.len(),
        trim_end(s) == s.take(n),
        is_blank(s.skip(n)),
        n > 0 ==> !is_space(s[n - 1]),
    decreases s.len(),
{
    if s.len() > 0 && is_space(s.last()) {
        let init = s.drop_last();
        let n = lemma_trim_end(init);
        assert(s.take(n) =~= init.take(n));
        assert forall|i: int| 0 <= i < s.skip(n).len() implies is_space(#[trigger] s.skip(n)[i]) by {
            if i < init.skip(n).len() {
                assert(init.skip(n)[i] == s[n + i]);
            }
        }
        n
    } else {
        assert(s.take(s.len() as int) =~= s);
        s.len() as int
    }
}

/// Trimming takes white space off the two ends, all of it, and nothing else.
pub proof fn law_trimming_takes_the_white_space_off_the_ends(s: Seq<char>)
    ensures
        exists|a: Seq<char>, b: Seq<char>|
            is_blank(a) && is_blank(b) && #[trigger] (a + trimmed(s) + b) == s,
        trimmed(s).len() > 0 ==> !is_space(trimmed(s)[0]) && !is_space(trimmed(s).last()),
{
    let n = lemma_trim_start(s);
    let t = trim_start(s);
    let m = lemma_trim_end(t);
    assert(s.take(n) + trimmed(s) + t.skip(m) =~= s);
    if m > 0 {
        assert(trimmed(s)[0] == s[n]);
    }
}

/// Trimming what is trimmed changes nothing.
pub proof fn law_trimming_twice_changes_nothing(s: Seq<char>)
    ensures
        trimmed(trimmed(s)) == trimmed(s),
{
    law_trimming_takes_the_white_space_off_the_ends(s);
}

// ─── Pieces ──────────────────────────────────────────────────────────

proof fn lemma_joined_push(pieces: Seq<Seq<char>>, glue: Seq<char>, last: Seq<char>)
    requires
        pieces.len() > 0,
    ensures
        joined(pieces.push(last), glue) == joined(pieces, glue) + glue + last,
{
    assert(pieces.push(last).drop_last() =~= pieces);
}

/// A text is its pieces with the separator between them, and no piece holds
/// the separator.
pub proof fn law_the_pieces_make_up_the_text(s: Seq<char>, sep: char)
    ensures
        joined(split(s, sep), seq![sep]) == s,
        forall|i: int| 0 <= i < split(s, sep).len() ==> !(#[trigger] split(s, sep)[i]).contains(sep),
        split(s, sep).len() > 0,
    decreases s.len(),
{
    if s.len() == 0 {
        assert(joined(split(s, sep), seq![sep]) =~= s);
    } else {
        let rest = s.drop_last();
        let init = split(rest, sep);
        law_the_pieces_make_up_the_text(rest, sep);
        let head = init.drop_last();
        if s.last() == sep {
            lemma_joined_push(init, seq![sep], Seq::empty());
            assert(rest + seq![sep] + Seq::<char>::empty() =~= s);
        } else {
            let tail = init.last();
            let longer = tail.push(s.last());
            assert(!init[init.len() - 1].contains(sep));
            assert(!longer.contains(sep)) by {
                if longer.contains(sep) {
                    let k = choose|k: int| 0 <= k < longer.len() && longer[k] == sep;
                    assert(tail[k] == sep);
                }
            }
            assert(init =~= head.push(tail));
            if head.len() > 0 {
                lemma_joined_push(head, seq![sep], tail);
                lemma_joined_push(head, seq![sep], longer);
                assert(joined(head, seq![sep]) + seq![sep] + longer =~= (joined(head, seq![sep])
                    + seq![sep] + tail).push(s.last()));
            } else {
                assert(init.len() == 1);
                assert(head.push(longer).len() == 1);
            }
            assert(rest.push(s.last()) =~= s);
            assert forall|i: int| 0 <= i < split(s, sep).len() implies !(
            #[trigger] split(s, sep)[i]).contains(sep) by {
                if i < head.len() {
                    assert(split(s, sep)[i] == init[i]);
                }
            }
        }
    }
}

proof fn lemma_one_piece(p: Seq<char>, sep: char)
    requires
        !p.contains(sep),
    ensures
        split(p, sep) == seq![p],
    decreases p.len(),
{
    if p.len() == 0 {
        assert(p =~= Seq::empty());
    } else {
        let init = p.drop_last();
        assert(!init.contains(sep)) by {
            if init.contains(sep) {
                let k = choose|k: int| 0 <= k < init.len() && init[k] == sep;
                assert(p[k] == sep);
            }
        }
        lemma_one_piece(init, sep);
        assert(p[p.len() - 1] != sep);
        assert(init.push(p.last()) =~= p);
        assert(split(p, sep) =~= seq![p]);
    }
}

proof fn lemma_one_more_piece(s: Seq<char>, sep: char, p: Seq<char>)
    requires
        !p.contains(sep),
    ensures
        split(s + seq![sep] + p, sep) == split(s, sep).push(p),
    decreases p.len(),
{
    let whole = s + seq![sep] + p;
    if p.len() == 0 {
        assert(whole =~= s.push(sep));
        assert(whole.drop_last() =~= s);
        assert(p =~= Seq::empty());
    } else {
        let init = p.drop_last();
        assert(!init.contains(sep)) by {
            if init.contains(sep) {
                let k = choose|k: int| 0 <= k < init.len() && init[k] == sep;
                assert(p[k] == sep);
            }
        }
        lemma_one_more_piece(s, sep, init);
        assert(whole.drop_last() =~= s + seq![sep] + init);
        assert(whole.last() == p[p.len() - 1]);
        assert(p[p.len() - 1] != sep);
        assert(init.push(p.last()) =~= p);
        assert(split(s, sep).push(init).drop_last() =~= split(s, sep));
    }
}

/// Pieces that hold no separator are found again in the text they were
/// joined to.
pub proof fn law_joined_pieces_are_found_again(pieces: Seq<Seq<char>>, sep: char)
    requires
        pieces.len() > 0,
        forall|i: int| 0 <= i < pieces.len() ==> !(#[trigger] pieces[i]).contains(sep),
    ensures
        split(joined(pieces, seq![sep]), sep) == pieces,
    decreases pieces.len(),
{
    if pieces.len() == 1 {
        lemma_one_piece(pieces[0], sep);
        assert(seq![pieces[0]] =~= pieces);
    } else {
        let init = pieces.drop_last();
        assert forall|i: int| 0 <= i < init.len() implies !(#[trigger] init[i]).contains(sep) by {
            assert(init[i] == pieces[i]);
        }
        law_joined_pieces_are_found_again(init, sep);
        assert(!pieces[pieces.len() - 1].contains(sep));
        lemma_one_more_piece(joined(init, seq![sep]), sep, pieces.last());
        assert(init.push(pieces.last()) =~= pieces);
    }
}

/// Pieces are trimmed one by one, in their order, and blank ones are left
/// out.
pub proof fn law_pieces_are_trimmed_one_by_one(a: Seq<Seq<char>>, b: Seq<Seq<char>>, p: Seq<char>)
    ensures
        trimmed_pieces(a + b) == trimmed_pieces(a) + trimmed_pieces(b),
        is_blank(p) ==> trimmed_pieces(seq![p]) == Seq::<Seq<char>>::empty(),
        !is_blank(p) ==> trimmed_pieces(seq![p]) == seq![trimmed(p)],
    decreases b.len(),
{
    crate::text::lemma_blank_trims_to_nothing(p);
    assert(seq![p].drop_last() =~= Seq::empty());
    assert(trimmed_pieces(Seq::<Seq<char>>::empty()) =~= Seq::empty());
    assert(seq![p].last() == p);
    assert(Seq::<Seq<char>>::empty().push(trimmed(p)) =~= seq![trimmed(p)]);
    if b.len() == 0 {
        assert(a + b =~= a);
        assert(trimmed_pieces(a) + trimmed_pieces(b) =~= trimmed_pieces(a));
    } else {
        law_pieces_are_trimmed_one_by_one(a, b.drop_last(), p);
        assert((a + b).drop_last() =~= a + b.drop_last());
        assert((a + b).last() == b.last());
        let x = trimmed(b.last());
        assert(trimmed_pieces(a) + trimmed_pieces(b.drop_last()).push(x) =~= (trimmed_pieces(a)
            + trimmed_pieces(b.drop_last())).push(x));
    }
}

/// A text contains another when it is that one with something, or nothing,
/// on either side.
pub proof fn law_what_contains_a_text_is_built_round_it(
    hay: Seq<char>,
    needle: Seq<char>,
    a: Seq<char>,
    b: Seq<char>,
)
    ensures
        contains_text(a + needle + b, needle),
        contains_text(hay, needle) ==> exists|x: Seq<char>, y: Seq<char>|
            #[trigger] (x + needle + y) == hay,
{
    let whole = a + needle + b;
    let i = a.len() as int;
    assert(whole.subrange(i, i + needle.len()) =~= needle);
    assert(stands_at(whole, needle, i));
    if contains_text(hay, needle) {
        let k = choose|k: int| #[trigger] stands_at(hay, needle, k);
        let x = hay.take(k);
        let y = hay.skip(k + needle.len());
        assert(x + needle + y =~= hay);
    }
}

// ─── Case ────────────────────────────────────────────────────────────

/// Two characters fold to one exactly when they are the same, or one letter
/// of the ASCII alphabet in its two cases.
pub proof fn law_folding_joins_the_cases_of_a_letter(a: char, b: char)
    ensures
        ascii_lower(a) == ascii_lower(b) <==> {
            ||| a == b
            ||| 'A' <= a && a <= 'Z' && b as u32 == a as u32 + 32
            ||| 'A' <= b && b <= 'Z' && a as u32 == b as u32 + 32
        },
        !('A' <= a && a <= 'Z') ==> ascii_lower(a) == a,
{
    assert(forall|c: char|
        'A' <= c && c <= 'Z' ==> (#[trigger] ascii_lower(c)) as u32 == c as u32 + 32);
    if 'A' <= a && a <= 'Z' {
        assert(ascii_lower(a) as u32 == a as u32 + 32);
    }
    if 'A' <= b && b <= 'Z' {
        assert(ascii_lower(b) as u32 == b as u32 + 32);
    }
}

/// Folding goes character by character and changes nothing the second time.
pub proof fn law_folding_is_settled(s: Seq<char>)
    ensures
        ascii_fold(s).len() == s.len(),
        ascii_fold(ascii_fold(s)) == ascii_fold(s),
{
    assert forall|c: char| ascii_lower(#[trigger] ascii_lower(c)) == ascii_lower(c) by {
        law_folding_joins_the_cases_of_a_letter(c, ascii_lower(c));
        if 'A' <= c && c <= 'Z' {
            assert(ascii_lower(c) as u32 == c as u32 + 32);
        }
    }
    assert(ascii_fold(ascii_fold(s)) =~= ascii_fold(s));
}

/// Words are matched by their letters alone, in order, each in lower case.
pub proof fn law_words_are_matched_by_their_letters(a: Seq<char>, b: Seq<char>, c: char)
    ensures
        letters_lower(a + b) == letters_lower(a) + letters_lower(b),
        char_is_alphabetic(c) ==> letters_lower(seq![c]) == char_to_lowercase(c),
        !char_is_alphabetic(c) ==> letters_lower(seq![c]) == Seq::<char>::empty(),
    decreases b.len(),
{
    assert(seq![c].drop_last() =~= Seq::empty());
    assert(letters_lower(Seq::<char>::empty()) =~= Seq::empty());
    assert(Seq::<char>::empty() + char_to_lowercase(c) =~= char_to_lowercase(c));
    assert(seq![c].last() == c);
    if b.len() == 0 {
        assert(a + b =~= a);
        assert(letters_lower(a) + letters_lower(b) =~= letters_lower(a));
    } else {
        law_words_are_matched_by_their_letters(a, b.drop_last(), c);
        assert((a + b).drop_last() =~= a + b.drop_last());
        assert((a + b).last() == b.last());
        let x = char_to_lowercase(b.last());
        assert(letters_lower(a) + (letters_lower(b.drop_last()) + x) =~= letters_lower(a)
            + letters_lower(b.drop_last()) + x);
    }
}

// ─── Numbers ─────────────────────────────────────────────────────────

proof fn lemma_decimal(n: nat)
    ensures
        all_digits(decimal(n)),
        digits_value(decimal(n)) == n,
        n >= 10 ==> decimal(n)[0] != '0',
        n > 0 ==> decimal(n)[0] != '0',
    decreases n,
{
    let d = digit(n % 10);
    assert(d as int == 48 + n % 10);
    assert(is_digit(d));
    if n < 10 {
        assert(decimal(n) =~= seq![digit(n)]);
        assert(decimal(n).drop_last() =~= Seq::empty());
        assert(digits_value(Seq::empty()) == 0);
        assert(n % 10 == n);
        assert(decimal(n).last() == d);
    } else {
        let init = decimal(n / 10);
        lemma_decimal(n / 10);
        assert(decimal(n).drop_last() =~= init);
        assert forall|i: int| 0 <= i < decimal(n).len() implies is_digit(
            #[trigger] decimal(n)[i],
        ) by {
            if i < init.len() {
                assert(init[i] == decimal(n)[i]);
            }
        }
        assert(decimal(n)[0] == init[0]);
    }
}

/// A number that is written down is read back, sign and all, and is written
/// without leading zeros.
pub proof fn law_a_written_number_is_read_back(n: int)
    ensures
        integer(signed_decimal(n), true) == Some(n),
        n >= 0 ==> integer(signed_decimal(n), false) == Some(n),
        n < 0 ==> integer(signed_decimal(n), false) is None,
        n > 0 ==> signed_decimal(n)[0] != '0',
        n == 0 ==> signed_decimal(n).len() == 1,
{
    reveal_strlit("-");
    if n < 0 {
        let m = (-n) as nat;
        let s = signed_decimal(n);
        lemma_decimal(m);
        assert(s[0] == '-');
        assert(!is_digit(s[0]));
        assert(s.drop_first() =~= decimal(m));
    } else {
        lemma_decimal(n as nat);
    }
}

/// No digit is white space, so trimming leaves a number as it is.
pub proof fn law_trimming_leaves_a_number_alone(n: nat)
    ensures
        trimmed(decimal(n)) == decimal(n),
        decimal(n).len() > 0,
{
    let s = decimal(n);
    lemma_decimal(n);
    assert(is_digit(s[0]));
    assert(is_digit(s[s.len() - 1]));
    assert(!is_space(s[0]) && !is_space(s.last()));
}

/// The same of a number with a sign.
pub proof fn law_trimming_leaves_a_signed_number_alone(n: int)
    ensures
        trimmed(signed_decimal(n)) == signed_decimal(n),
{
    reveal_strlit("-");
    if n < 0 {
        let d = decimal((-n) as nat);
        let s = signed_decimal(n);
        lemma_decimal((-n) as nat);
        assert(is_digit(d[d.len() - 1]));
        assert(s.last() == d.last());
        assert(s[0] == '-');
        assert(!is_space(s[0]) && !is_space(s.last()));
    } else {
        law_trimming_leaves_a_number_alone(n as nat);
    }
}

/// Two numbers that are written alike are the same.
pub proof fn law_numbers_are_told_apart(a: int, b: int)
    requires
        signed_decimal(a) == signed_decimal(b),
    ensures
        a == b,
{
    law_a_written_number_is_read_back(a);
    law_a_written_number_is_read_back(b);
}

/// A leading plus changes nothing, a leading minus turns the number round
/// where a sign may stand, and a text with two signs is no number.
pub proof fn law_signs(s: Seq<char>)
    requires
        all_digits(s),
    ensures
        integer(s, false) is Some,
        integer(s, true) == integer(s, false),
        integer(seq!['+'] + s, false) == integer(s, false),
        integer(seq!['-'] + s, true) == Some(-(integer(s, false)->0)),
        integer(seq!['-'] + s, false) is None,
        integer(seq!['+'] + (seq!['-'] + s), true) is None,
{
    let p = seq!['+'] + s;
    let m = seq!['-'] + s;
    let pm = seq!['+'] + m;
    assert(p[0] == '+' && m[0] == '-' && pm[0] == '+');
    assert(p.drop_first() =~= s);
    assert(m.drop_first() =~= s);
    assert(pm.drop_first() =~= m);
    assert(!is_digit(p[0]) && !is_digit(m[0]) && !is_digit(pm[0]));
}

} // verus!
