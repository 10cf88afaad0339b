//! The order of names, and sorting by it.
//!
//! Names are ordered as dictionaries order words, character by character, a
//! character counting by its code point. Date folders are named so that this
//! order is the order of their dates.

use vstd::prelude::*;
use vstd::relations::{sorted_by, total_ordering};
use vstd::seq_lib::lemma_sorted_unique;
use crate::text::rows_of;

verus! {

/// Whether `a` comes before `b`, or is `b`, in the order of names.
pub open spec fn lex_le(a: Seq<char>, b: Seq<char>) -> bool
    decreases a.len(),
{
    if a.len() == 0 {
        true
    } else if b.len() == 0 {
        false
    } else if a[0] != b[0] {
        a[0] < b[0]
    } else {
        lex_le(a.skip(1), b.skip(1))
    }
}

/// The order in which date folders are reported: the later name first.
pub open spec fn latest_first() -> spec_fn(Seq<char>, Seq<char>) -> bool {
    |a: Seq<char>, b: Seq<char>| lex_le(b, a)
}

/// Every name is at its own place in the order.
pub proof fn lemma_lex_le_reflexive(a: Seq<char>)
    ensures
        lex_le(a, a),
    decreases a.len(),
{
    if a.len() > 0 {
        lemma_lex_le_reflexive(a.skip(1));
    }
}

/// Two names that each come before the other are the same name.
pub proof fn lemma_lex_le_antisymmetric(a: Seq<char>, b: Seq<char>)
    requires
        lex_le(a, b),
        lex_le(b, a),
    ensures
        a == b,
    decreases a.len(),
{
    if a.len() > 0 && b.len() > 0 {
        lemma_lex_le_antisymmetric(a.skip(1), b.skip(1));
        assert(a == seq![a[0]] + a.skip(1));
    }
}

/// What comes before a name comes before all that this name comes before.
pub proof fn lemma_lex_le_transitive(a: Seq<char>, b: Seq<char>, c: Seq<char>)
    requires
        lex_le(a, b),
        lex_le(b, c),
    ensures
        lex_le(a, c),
    decreases a.len(),
{
    if a.len() > 0 && b.len() > 0 && c.len() > 0 {
        if a[0] == b[0] && b[0] == c[0] {
            lemma_lex_le_transitive(a.skip(1), b.skip(1), c.skip(1));
        }
    }
}

/// Of two names, one comes before the other.
pub proof fn lemma_lex_le_total(a: Seq<char>, b: Seq<char>)
    ensures
        lex_le(a, b) || lex_le(b, a),
    decreases a.len(),
{
    if a.len() > 0 && b.len() > 0 && a[0] == b[0] {
        lemma_lex_le_total(a.skip(1), b.skip(1));
    }
}

/// The order of names is a total order, and so is its reverse.
pub proof fn lemma_latest_first_is_total_order()
    ensures
        total_ordering(latest_first()),
{
    let leq = latest_first();
    assert forall|x: Seq<char>| #[trigger] leq(x, x) by {
        lemma_lex_le_reflexive(x);
    }
    assert forall|x: Seq<char>, y: Seq<char>| #[trigger] leq(x, y) && #[trigger] leq(y, x) implies x
        == y by {
        lemma_lex_le_antisymmetric(x, y);
    }
    assert forall|x: Seq<char>, y: Seq<char>, z: Seq<char>| #[trigger]
        leq(x, y) && #[trigger] leq(y, z) implies leq(x, z) by {
        lemma_lex_le_transitive(z, y, x);
    }
    assert forall|x: Seq<char>, y: Seq<char>| #[trigger] leq(x, y) || #[trigger] leq(y, x) by {
        lemma_lex_le_total(x, y);
    }
}

/// Tests whether `a` comes before `b`, or is `b`, in the order of names.
pub fn precedes(a: &[char], b: &[char]) -> (r: bool)
    ensures
        r == lex_le(a@, b@),
{
    let mut i: usize = 0;
    assert(a@.skip(0) == a@ && b@.skip(0) == b@);
    while i < a.len() && i < b.len()
        invariant
            i <= a.len(),
            i <= b.len(),
            lex_le(a@, b@) == lex_le(a@.skip(i as int), b@.skip(i as int)),
        decreases a.len() - i,
    {
        if a[i] != b[i] {
            return a[i] < b[i];
        }
        assert(a@.skip(i as int).skip(1) == a@.skip(i + 1));
        assert(b@.skip(i as int).skip(1) == b@.skip(i + 1));
        i += 1;
    }
    i == a.len()
}

/// Sorts `names`, the latest first.
pub fn sort_latest_first(names: Vec<Vec<char>>) -> (r: Vec<Vec<char>>)
    ensures
        rows_of(r@) == rows_of(names@).sort_by(latest_first()),
{
    let ghost all = rows_of(names@);
    let ghost leq = latest_first();
    let mut rest = names;
    let mut out: Vec<Vec<char>> = Vec::new();
    proof {
        lemma_latest_first_is_total_order();
    }
    while rest.len() > 0
        invariant
            leq == latest_first(),
            total_ordering(leq),
            sorted_by(rows_of(out@), leq),
            (rows_of(rest@) + rows_of(out@)).to_multiset() == all.to_multiset(),
        decreases rest.len(),
    {
        let ghost rest_before = rows_of(rest@);
        let ghost out_before = rows_of(out@);
        let name = rest.pop().unwrap();
        assert(rows_of(rest@) == rest_before.drop_last());
        let mut at: usize = 0;
        while at < out.len() && precedes(name.as_slice(), out[at].as_slice())
            invariant
                at <= out.len(),
                out_before == rows_of(out@),
                forall|k: int| 0 <= k < at ==> lex_le(name@, #[trigger] out_before[k]),
            decreases out.len() - at,
        {
            at += 1;
        }
        out.insert(at, name);
        let ghost out_after = rows_of(out@);
        proof {
            assert(out_after == out_before.insert(at as int, name@));
            assert(sorted_by(out_after, leq)) by {
                assert forall|i: int, j: int| 0 <= i < j < out_after.len() implies #[trigger] leq(
                    out_after[i],
                    out_after[j],
                ) by {
                    if i == at {
                        lemma_lex_le_total(name@, out_before[at as int]);
                        if j - 1 > at {
                            assert(leq(out_before[at as int], out_before[j - 1]));
                            lemma_lex_le_transitive(
                                out_before[j - 1],
                                out_before[at as int],
                                name@,
                            );
                        }
                    }
                }
            }
            assert(out_after.remove(at as int) == out_before);
            assert(rest_before == rest_before.drop_last().push(name@));
            vstd::seq_lib::lemma_multiset_commutative(rest_before, out_before);
            vstd::seq_lib::lemma_multiset_commutative(rest_before.drop_last(), out_after);
            assert(out_after.to_multiset() =~= out_before.to_multiset().insert(name@)) by {
                out_after.to_multiset_ensures();
            }
            assert(rest_before.to_multiset() =~= rest_before.drop_last().to_multiset().insert(
                name@,
            )) by {
                rest_before.drop_last().to_multiset_ensures();
            }
        }
    }
    proof {
        all.lemma_sort_by_ensures(leq);
        lemma_sorted_unique(rows_of(out@), all.sort_by(leq), leq);
    }
    out
}

} // verus!
