//! Facts about a key type whose `Ord` behaves as a total order.
use vstd::laws_cmp::obeys_cmp;
use vstd::laws_cmp::obeys_cmp_ord;
use vstd::laws_cmp::obeys_cmp_partial_ord;
use vstd::laws_cmp::obeys_partial_cmp_spec_properties;
use vstd::laws_eq::obeys_eq_spec_properties;
use vstd::prelude::*;
use vstd::std_specs::cmp::{OrdSpec, PartialEqSpec, PartialOrdSpec};
use std::cmp::Ordering;

verus! {

/// `a` orders strictly before `b`.
pub open spec fn key_lt<T: Ord>(a: T, b: T) -> bool {
    a.cmp_spec(&b) == Ordering::Less
}

/// `a` and `b` compare as equal.
pub open spec fn key_eq<T: Ord>(a: T, b: T) -> bool {
    a.cmp_spec(&b) == Ordering::Equal
}

/// `a` orders strictly after `b`.
pub open spec fn key_gt<T: Ord>(a: T, b: T) -> bool {
    a.cmp_spec(&b) == Ordering::Greater
}

/// The entries' keys are strictly ascending: each pair of positions is ordered.
pub open spec fn ascending<T: Ord, V>(s: Seq<(T, V)>) -> bool {
    forall|i: int, j: int| 0 <= i < j < s.len() ==> key_lt(#[trigger] s[i].0, #[trigger] s[j].0)
}

pub proof fn lemma_lt_gt<T: Ord>(a: T, b: T)
    requires
        obeys_cmp::<T>(),
    ensures
        key_lt(a, b) <==> key_gt(b, a),
{
    reveal(obeys_cmp_ord);
    reveal(obeys_partial_cmp_spec_properties);
    assert(a.partial_cmp_spec(&b) == Some(a.cmp_spec(&b)));
    assert(b.partial_cmp_spec(&a) == Some(b.cmp_spec(&a)));
}

pub proof fn lemma_lt_trans<T: Ord>(a: T, b: T, c: T)
    requires
        obeys_cmp::<T>(),
        key_lt(a, b),
        key_lt(b, c),
    ensures
        key_lt(a, c),
{
    reveal(obeys_cmp_ord);
    reveal(obeys_partial_cmp_spec_properties);
    assert(a.partial_cmp_spec(&b) == Some(a.cmp_spec(&b)));
    assert(b.partial_cmp_spec(&c) == Some(b.cmp_spec(&c)));
    assert(a.partial_cmp_spec(&c) == Some(a.cmp_spec(&c)));
}

pub proof fn lemma_eq_trans<T: Ord>(a: T, b: T, c: T)
    requires
        obeys_cmp::<T>(),
        key_eq(a, b),
        key_eq(c, b),
    ensures
        key_eq(a, c),
{
    reveal(obeys_cmp_ord);
    reveal(obeys_cmp_partial_ord);
    reveal(obeys_eq_spec_properties);
    assert(a.partial_cmp_spec(&b) == Some(a.cmp_spec(&b)));
    assert(c.partial_cmp_spec(&b) == Some(c.cmp_spec(&b)));
    assert(a.partial_cmp_spec(&c) == Some(a.cmp_spec(&c)));
    assert(a.eq_spec(&b));
    assert(c.eq_spec(&b));
    assert(b.eq_spec(&c));
    assert(a.eq_spec(&c));
}

} // verus!
