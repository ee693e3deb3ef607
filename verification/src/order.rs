//! The order of names: by their characters, a prefix before the longer
//! name.

use vstd::prelude::*;
use vstd::relations::{sorted_by, total_ordering};

use crate::layouts::{names, LayoutId};
use crate::text::chars_of;

verus! {

/// `a` comes no later than `b`.
pub open spec fn lex_le(a: Seq<char>, b: Seq<char>) -> bool
    decreases a.len(),
{
    if a.len() == 0 {
        true
    } else if b.len() == 0 {
        false
    } else if a[0] != b[0] {
        a[0] < b[0]
    } else {
        lex_le(a.drop_first(), b.drop_first())
    }
}

/// [`lex_le`] as a relation.
pub open spec fn by_name() -> spec_fn(Seq<char>, Seq<char>) -> bool {
    |a: Seq<char>, b: Seq<char>| lex_le(a, b)
}

proof fn lemma_lex_reflexive(a: Seq<char>)
    ensures
        lex_le(a, a),
    decreases a.len(),
{
    if a.len() > 0 {
        lemma_lex_reflexive(a.drop_first());
    }
}

proof fn lemma_lex_antisymmetric(a: Seq<char>, b: Seq<char>)
    requires
        lex_le(a, b),
        lex_le(b, a),
    ensures
        a == b,
    decreases a.len(),
{
    if a.len() > 0 && b.len() > 0 {
        let x = a.drop_first();
        let y = b.drop_first();
        assert(a[0] == b[0]);
        lemma_lex_antisymmetric(x, y);
        assert forall|i: int| 0 <= i < a.len() implies a[i] == b[i] by {
            if i > 0 {
                assert(x[i - 1] == a[i] && y[i - 1] == b[i]);
            }
        }
        assert(x.len() == a.len() - 1 && y.len() == b.len() - 1);
        assert(a =~= b);
    } else {
        assert(a =~= b);
    }
}

proof fn lemma_lex_transitive(a: Seq<char>, b: Seq<char>, c: Seq<char>)
    requires
        lex_le(a, b),
        lex_le(b, c),
    ensures
        lex_le(a, c),
    decreases a.len(),
{
    if a.len() > 0 && b.len() > 0 && c.len() > 0 && a[0] == b[0] && b[0] == c[0] {
        lemma_lex_transitive(a.drop_first(), b.drop_first(), c.drop_first());
    }
}

proof fn lemma_lex_total(a: Seq<char>, b: Seq<char>)
    ensures
        lex_le(a, b) || lex_le(b, a),
    decreases a.len(),
{
    if a.len() > 0 && b.len() > 0 && a[0] == b[0] {
        lemma_lex_total(a.drop_first(), b.drop_first());
    }
}

/// The order of names is a total one.
pub proof fn lemma_names_are_ordered()
    ensures
        total_ordering(by_name()),
{
    let r = by_name();
    assert forall|x: Seq<char>| #[trigger] r(x, x) by {
        lemma_lex_reflexive(x);
    }
    assert forall|x: Seq<char>, y: Seq<char>| #[trigger] r(x, y) && #[trigger] r(y, x) implies x
        == y by {
        lemma_lex_antisymmetric(x, y);
    }
    assert forall|x: Seq<char>, y: Seq<char>, z: Seq<char>|
        #[trigger] r(x, y) && #[trigger] r(y, z) implies r(x, z) by {
        lemma_lex_transitive(x, y, z);
    }
    assert forall|x: Seq<char>, y: Seq<char>| #[trigger] r(x, y) || #[trigger] r(y, x) by {
        lemma_lex_total(x, y);
    }
}

fn chars_le(a: &Vec<char>, b: &Vec<char>, from: usize) -> (le: bool)
    requires
        from <= a.len(),
        from <= b.len(),
    ensures
        le == lex_le(a@.skip(from as int), b@.skip(from as int)),
    decreases a.len() - from,
{
    let ghost x = a@.skip(from as int);
    let ghost y = b@.skip(from as int);
    if from == a.len() {
        true
    } else if from == b.len() {
        false
    } else if a[from] != b[from] {
        assert(x[0] == a@[from as int] && y[0] == b@[from as int]);
        a[from] < b[from]
    } else {
        assert(x[0] == a@[from as int] && y[0] == b@[from as int]);
        assert(x.drop_first() =~= a@.skip(from + 1));
        assert(y.drop_first() =~= b@.skip(from + 1));
        chars_le(a, b, from + 1)
    }
}

pub fn name_le(a: &LayoutId, b: &LayoutId) -> (le: bool)
    ensures
        le == lex_le(a@, b@),
{
    let va = chars_of(a.as_str());
    let vb = chars_of(b.as_str());
    assert(va@.skip(0) =~= va@);
    assert(vb@.skip(0) =~= vb@);
    chars_le(&va, &vb, 0)
}

/// Put `id` in its place among names that are in order.
fn insert_in_order(v: &mut Vec<LayoutId>, id: LayoutId)
    requires
        sorted_by(names(old(v)@), by_name()),
    ensures
        sorted_by(names(final(v)@), by_name()),
        names(final(v)@).to_multiset() == names(old(v)@).to_multiset().insert(id@),
        final(v)@.len() == old(v)@.len() + 1,
{
    let ghost before = names(v@);
    let ghost r = by_name();
    let mut j: usize = v.len();
    while j > 0 && !name_le(&v[j - 1], &id)
        invariant
            j <= v.len(),
            before == names(v@),
            r == by_name(),
            sorted_by(before, r),
            forall|k: int| j <= k < v.len() ==> r(id@, #[trigger] before[k]),
        decreases j,
    {
        proof {
            lemma_lex_total(id@, before[j - 1]);
            assert(before[j - 1] == v@[j - 1]@);
        }
        j -= 1;
    }
    proof {
        lemma_names_are_ordered();
        assert(j > 0 ==> r(before[j - 1], id@)) by {
            if j > 0 {
                assert(before[j - 1] == v@[j - 1]@);
            }
        }
    }
    v.insert(j, id);
    proof {
        let after = names(v@);
        assert(after =~= before.insert(j as int, id@));
        vstd::seq_lib::to_multiset_insert(before, j as int, id@);
        assert forall|a: int, b: int| 0 <= a < b < after.len() implies #[trigger] r(
            after[a],
            after[b],
        ) by {
            let ia = if a > j { a - 1 } else { a };
            let ib = if b > j { b - 1 } else { b };
            if a == j as int {
                assert(r(id@, before[ib]));
            } else if b == j as int {
                if a < j - 1 {
                    assert(r(before[a], before[j - 1]));
                    assert(r(before[j - 1], id@));
                }
            } else {
                assert(r(before[ia], before[ib]));
            }
        }
    }
}

/// The names in order.
pub fn sort_ids(ids: &Vec<LayoutId>) -> (v: Vec<LayoutId>)
    ensures
        names(v@) == names(ids@).sort_by(by_name()),
{
    let mut v: Vec<LayoutId> = Vec::new();
    let mut i: usize = 0;
    assert(names(v@) =~= names(ids@.take(0)));
    while i < ids.len()
        invariant
            i <= ids.len(),
            sorted_by(names(v@), by_name()),
            names(v@).to_multiset() == names(ids@.take(i as int)).to_multiset(),
        decreases ids.len() - i,
    {
        let id = ids[i].copy();
        proof {
            let init = names(ids@.take(i as int));
            assert(names(ids@.take(i + 1)) =~= init.push(id@));
            init.to_multiset_ensures();
        }
        insert_in_order(&mut v, id);
        i += 1;
    }
    proof {
        assert(ids@.take(ids@.len() as int) =~= ids@);
        lemma_names_are_ordered();
        names(ids@).lemma_sort_by_ensures(by_name());
        vstd::seq_lib::lemma_sorted_unique(
            names(v@),
            names(ids@).sort_by(by_name()),
            by_name(),
        );
    }
    v
}

/// Names in order do not depend on the order they came in.
pub proof fn law_order_is_the_same_everywhere(a: Seq<Seq<char>>, b: Seq<Seq<char>>)
    requires
        a.to_multiset() == b.to_multiset(),
    ensures
        a.sort_by(by_name()) == b.sort_by(by_name()),
{
    lemma_names_are_ordered();
    a.lemma_sort_by_ensures(by_name());
    b.lemma_sort_by_ensures(by_name());
    vstd::seq_lib::lemma_sorted_unique(a.sort_by(by_name()), b.sort_by(by_name()), by_name());
}

/// Names are ordered as in a dictionary: the first character that differs
/// decides, whatever follows, and a name comes before every longer one that
/// begins with it.
pub proof fn law_the_first_difference_decides(
    front: Seq<char>,
    a: char,
    b: char,
    x: Seq<char>,
    y: Seq<char>,
)
    ensures
        a < b ==> lex_le(front + seq![a] + x, front + seq![b] + y),
        a < b ==> !lex_le(front + seq![b] + y, front + seq![a] + x),
        lex_le(front, front + x),
        x.len() > 0 ==> !lex_le(front + x, front),
    decreases front.len(),
{
    let p = front + seq![a] + x;
    let q = front + seq![b] + y;
    if front.len() == 0 {
        assert(p[0] == a && q[0] == b);
        assert(front + x =~= x);
    } else {
        let rest = front.drop_first();
        law_the_first_difference_decides(rest, a, b, x, y);
        assert(p.drop_first() =~= rest + seq![a] + x);
        assert(q.drop_first() =~= rest + seq![b] + y);
        assert((front + x).drop_first() =~= rest + x);
        assert(p[0] == front[0] && q[0] == front[0] && (front + x)[0] == front[0]);
    }
}

} // verus!
