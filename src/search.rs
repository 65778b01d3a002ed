//! Locating a key among a node's sorted entries.
use crate::order::{ascending, key_eq, key_gt, key_lt, lemma_eq_trans, lemma_lt_gt, lemma_lt_trans};
use vstd::laws_cmp::{obeys_cmp, obeys_cmp_ord};
use vstd::prelude::*;
use vstd::std_specs::cmp::OrdSpec;
use std::cmp::Ordering;

verus! {

/// Where a key stands among a node's entries.
#[derive(PartialEq, Eq, Structural, Debug, Clone, Copy)]
pub enum SearchResult {
    /// The entry at this index holds the key.
    Found(usize),
    /// No entry holds the key; it would go at this index (and an internal node
    /// descends into the child at this index).
    Continue(usize),
}

/// What a left-to-right scan of `s` for `key` reports: it passes over every
/// entry whose key is smaller, and stops at the first one that is not.
pub open spec fn scan_outcome<T: Ord, V>(s: Seq<(T, V)>, key: T, r: SearchResult) -> bool {
    match r {
        SearchResult::Found(i) => {
            &&& i < s.len()
            &&& key_eq(s[i as int].0, key)
            &&& forall|j: int| 0 <= j < i ==> key_lt(#[trigger] s[j].0, key)
        },
        SearchResult::Continue(i) => {
            &&& i <= s.len()
            &&& i < s.len() ==> key_gt(s[i as int].0, key)
            &&& forall|j: int| 0 <= j < i ==> key_lt(#[trigger] s[j].0, key)
        },
    }
}

/// Scans `data` in ascending order and reports the first entry whose key is
/// equal to (`Found`) or greater than (`Continue`) `key`; `Continue(data.len())`
/// when every key is smaller.
pub fn search_entries<T: Ord, V>(data: &[(T, V)], key: &T) -> (r: SearchResult)
    requires
        obeys_cmp::<T>(),
    ensures
        scan_outcome(data@, *key, r),
{
    proof {
        reveal(obeys_cmp_ord);
    }
    let mut i: usize = 0;
    while i < data.len()
        invariant
            T::obeys_cmp_spec(),
            i <= data@.len(),
            forall|j: int| 0 <= j < i ==> key_lt(#[trigger] data@[j].0, *key),
        decreases data@.len() - i,
    {
        match data[i].0.cmp(key) {
            Ordering::Less => {},
            Ordering::Equal => {
                return SearchResult::Found(i);
            },
            Ordering::Greater => {
                return SearchResult::Continue(i);
            },
        }
        i = i + 1;
    }
    SearchResult::Continue(i)
}

/// On strictly ascending entries a scan finds `key` exactly where it is stored:
/// `Found(i)` holds the only entry whose key equals `key`, and `Continue(i)`
/// means no entry holds it, every key before `i` is smaller and every key from
/// `i` on is greater (so `Continue(0)` below all keys and `Continue(len)` above).
pub proof fn lemma_search_sorted<T: Ord, V>(s: Seq<(T, V)>, key: T, r: SearchResult)
    requires
        obeys_cmp::<T>(),
        ascending(s),
        scan_outcome(s, key, r),
    ensures
        match r {
            SearchResult::Found(i) => forall|j: int|
                0 <= j < s.len() ==> (key_eq(#[trigger] s[j].0, key) <==> j == i),
            SearchResult::Continue(i) => {
                &&& forall|j: int| 0 <= j < s.len() ==> !key_eq(#[trigger] s[j].0, key)
                &&& forall|j: int| 0 <= j < i ==> key_lt(#[trigger] s[j].0, key)
                &&& forall|j: int| i <= j < s.len() ==> key_gt(#[trigger] s[j].0, key)
            },
        },
{
    match r {
        SearchResult::Found(i) => {
            assert forall|j: int| 0 <= j < s.len() implies (key_eq(#[trigger] s[j].0, key) <==> j
                == i) by {
                if j > i && key_eq(s[j].0, key) {
                    lemma_eq_trans(s[i as int].0, key, s[j].0);
                    assert(key_lt(s[i as int].0, s[j].0));
                }
            }
        },
        SearchResult::Continue(i) => {
            assert forall|j: int| i <= j < s.len() implies key_gt(#[trigger] s[j].0, key) by {
                if j > i {
                    lemma_lt_gt(key, s[i as int].0);
                    lemma_lt_trans(key, s[i as int].0, s[j].0);
                    lemma_lt_gt(key, s[j].0);
                }
            }
        },
    }
}

} // verus!
