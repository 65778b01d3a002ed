//! The shared handle to a node's record and the operations on it.
use crate::order::{ascending, key_lt, lemma_lt_trans};
use crate::record::Inner;
use crate::search::{scan_outcome, search_entries, SearchResult};
use crate::view::{ValueRefChild, ValueRefChildren, ValueRefData, ValueRefPair};
use std::sync::Arc;
use vstd::laws_cmp::{obeys_cmp, obeys_cmp_ord};
use vstd::prelude::*;
use vstd::rwlock::{RwLock, RwLockPredicate};
use vstd::std_specs::cmp::OrdSpec;
use std::cmp::Ordering;

verus! {

/// Why an operation on a node did not go through.
#[derive(PartialEq, Eq, Structural, Debug, Clone, Copy)]
pub enum NodeError {
    /// Another handle still shares the record that the operation must own.
    Shared,
    /// An index past the end of the entries or of the children.
    OutOfBounds,
    /// Entries whose keys are not strictly ascending.
    Unsorted,
    /// Children in a leaf, or more than the node's capacity of them.
    ChildrenMismatch,
}

/// What the lock of a node lets its record be: well formed, and of the kind
/// that the node was made with. It also remembers, as ghost state, the record
/// that the node was made holding.
pub struct Kind<T: Ord, V, const N: usize> {
    pub leaf: bool,
    pub initial: Ghost<Inner<T, V, N>>,
}

impl<T: Ord, V, const N: usize> RwLockPredicate<Inner<T, V, N>> for Kind<T, V, N> {
    open spec fn inv(self, r: Inner<T, V, N>) -> bool {
        r.wf() && r.leaf == self.leaf
    }
}

/// A handle to a node's record. Cloning a handle shares the record; every
/// access goes through the record's reader/writer lock.
#[derive(Clone)]
pub struct Node<T: Ord, V, const N: usize> {
    inner: Arc<RwLock<Inner<T, V, N>, Kind<T, V, N>>>,
}

/// Relies on std's `Arc::try_unwrap`: the shared value when this is the only
/// strong reference to it, else the same `Arc` back.
#[verifier::external_body]
fn arc_try_unwrap<X>(a: Arc<X>) -> (r: Result<X, Arc<X>>)
    ensures
        match r {
            Ok(x) => x == *a,
            Err(b) => b == a,
        },
{
    Arc::try_unwrap(a)
}

/// Whether the entries' keys are strictly ascending, by comparing neighbours.
fn entries_ascending<T: Ord, V>(data: &Vec<(T, V)>) -> (r: bool)
    requires
        obeys_cmp::<T>(),
    ensures
        r == ascending(data@),
{
    proof {
        reveal(obeys_cmp_ord);
    }
    if data.len() == 0 {
        return true;
    }
    let mut i: usize = 1;
    while i < data.len()
        invariant
            obeys_cmp::<T>(),
            T::obeys_cmp_spec(),
            1 <= i <= data@.len(),
            forall|a: int, b: int| 0 <= a < b < i ==> key_lt(#[trigger] data@[a].0, #[trigger] data@[b].0),
        decreases data@.len() - i,
    {
        match data[i - 1].0.cmp(&data[i].0) {
            Ordering::Less => {},
            _ => {
                assert(!key_lt(data@[i - 1].0, data@[i as int].0));
                return false;
            },
        }
        assert forall|a: int, b: int| 0 <= a < b < i + 1 implies key_lt(
            #[trigger] data@[a].0,
            #[trigger] data@[b].0,
        ) by {
            if b == i && a < i - 1 {
                lemma_lt_trans(data@[a].0, data@[i - 1].0, data@[b].0);
            }
        }
        i = i + 1;
    }
    true
}

impl<T: Ord, V, const N: usize> Node<T, V, N> {
    /// The lock that guards this node's record; handles with the same lock
    /// share one record.
    pub closed spec fn lock(&self) -> RwLock<Inner<T, V, N>, Kind<T, V, N>> {
        *self.inner
    }

    /// The kind that the node was made with.
    pub open spec fn leaf(&self) -> bool {
        self.lock().pred().leaf
    }

    /// The record that the node was made holding.
    pub open spec fn initial(&self) -> Inner<T, V, N> {
        self.lock().pred().initial@
    }

    /// `rec` is a record that this node can hold.
    pub open spec fn admits(&self, rec: Inner<T, V, N>) -> bool {
        rec.wf() && rec.leaf == self.leaf()
    }

    /// The children capacity: `N` for an internal node, none for a leaf.
    pub open spec fn capacity_spec(&self) -> nat {
        if self.leaf() {
            0
        } else {
            N as nat
        }
    }

    fn adopt(rec: Inner<T, V, N>) -> (r: Self)
        requires
            rec.wf(),
        ensures
            r.leaf() == rec.leaf,
            r.initial() == rec,
    {
        let leaf = rec.leaf;
        let ghost initial = rec;
        Node { inner: Arc::new(RwLock::new(rec, Ghost(Kind { leaf, initial: Ghost(initial) }))) }
    }

    /// An empty internal node, with room for `N` children.
    pub fn new() -> (r: Self)
        ensures
            !r.leaf(),
            r.initial().data@.len() == 0,
            r.initial().children@.len() == 0,
    {
        let rec = Inner { data: Vec::new(), children: Vec::new(), leaf: false };
        Self::adopt(rec)
    }

    /// An empty leaf, which never has children.
    pub fn new_leaf() -> (r: Self)
        ensures
            r.leaf(),
            r.initial().data@.len() == 0,
            r.initial().children@.len() == 0,
    {
        let rec = Inner { data: Vec::new(), children: Vec::new(), leaf: true };
        Self::adopt(rec)
    }

    /// A node holding `rec`, of the kind that `rec.leaf` says; refused when the
    /// keys are not strictly ascending, or when the children do not fit the kind.
    pub fn from_record(rec: Inner<T, V, N>) -> (r: Result<Self, NodeError>)
        requires
            obeys_cmp::<T>(),
        ensures
            match r {
                Ok(n) => rec.wf() && n.leaf() == rec.leaf && n.initial() == rec,
                Err(NodeError::Unsorted) => !ascending(rec.data@),
                Err(NodeError::ChildrenMismatch) => ascending(rec.data@) && !rec.wf(),
                Err(_) => false,
            },
    {
        if !entries_ascending(&rec.data) {
            return Err(NodeError::Unsorted);
        }
        if (rec.leaf && rec.children.len() > 0) || rec.children.len() > N {
            return Err(NodeError::ChildrenMismatch);
        }
        Ok(Self::adopt(rec))
    }

    /// A read view of the entries, held until it is released.
    pub fn keys(&self) -> (r: ValueRefData<'_, T, V, N>)
        ensures
            r.lock() == self.lock(),
            self.admits(r.view()),
    {
        ValueRefData::hold(self.inner.acquire_read())
    }

    /// A read view of the children, held until it is released.
    pub fn children(&self) -> (r: ValueRefChildren<'_, T, V, N>)
        ensures
            r.lock() == self.lock(),
            self.admits(r.view()),
    {
        ValueRefChildren::hold(self.inner.acquire_read())
    }

    /// A read view of the child at `index`, or `OutOfBounds` when the node has
    /// no child there.
    pub fn get_node_by_index(&self, index: usize) -> (r: Result<ValueRefChild<'_, T, V, N>, NodeError>)
        ensures
            match r {
                Ok(v) => v.lock() == self.lock() && self.admits(v.view()) && v.index() == index,
                Err(e) => e == NodeError::OutOfBounds && exists|rec: Inner<T, V, N>|
                    #[trigger] self.admits(rec) && index >= rec.children@.len(),
            },
    {
        let handle = self.inner.acquire_read();
        let len = handle.borrow().children.len();
        if index < len {
            Ok(ValueRefChild::hold(handle, index))
        } else {
            let ghost rec = handle.view();
            handle.release_read();
            assert(self.admits(rec));
            Err(NodeError::OutOfBounds)
        }
    }

    /// A read view of the entry at `index`, or `OutOfBounds` when the node has
    /// no entry there.
    pub fn get_pair_by_index(&self, index: usize) -> (r: Result<ValueRefPair<'_, T, V, N>, NodeError>)
        ensures
            match r {
                Ok(v) => v.lock() == self.lock() && self.admits(v.view()) && v.index() == index,
                Err(e) => e == NodeError::OutOfBounds && exists|rec: Inner<T, V, N>|
                    #[trigger] self.admits(rec) && index >= rec.data@.len(),
            },
    {
        let handle = self.inner.acquire_read();
        let len = handle.borrow().data.len();
        if index < len {
            Ok(ValueRefPair::hold(handle, index))
        } else {
            let ghost rec = handle.view();
            handle.release_read();
            assert(self.admits(rec));
            Err(NodeError::OutOfBounds)
        }
    }

    /// New handles to this node's children, in order, each sharing its record
    /// with the child it was taken from.
    pub fn clone_children(&self) -> (r: Vec<Self>)
        ensures
            exists|rec: Inner<T, V, N>| #[trigger] self.admits(rec) && r@ == rec.children@,
    {
        let handle = self.inner.acquire_read();
        let ghost rec = handle.view();
        let children = &handle.borrow().children;
        let mut out: Vec<Self> = Vec::new();
        let mut i: usize = 0;
        while i < children.len()
            invariant
                children@ == rec.children@,
                i <= children@.len(),
                out@ == children@.subrange(0, i as int),
            decreases children@.len() - i,
        {
            let child = Node { inner: children[i].inner.clone() };
            out.push(child);
            i = i + 1;
            assert(out@ =~= children@.subrange(0, i as int));
        }
        handle.release_read();
        assert(self.admits(rec));
        assert(out@ =~= rec.children@);
        out
    }

    /// The number of children.
    pub fn size(&self) -> (r: usize)
        ensures
            exists|rec: Inner<T, V, N>| #[trigger] self.admits(rec) && r == rec.children@.len(),
            r <= self.capacity_spec(),
    {
        let handle = self.inner.acquire_read();
        let ghost rec = handle.view();
        let r = handle.borrow().children.len();
        handle.release_read();
        assert(self.admits(rec));
        r
    }

    /// The number of entries.
    pub fn len(&self) -> (r: usize)
        ensures
            exists|rec: Inner<T, V, N>| #[trigger] self.admits(rec) && r == rec.data@.len(),
    {
        let handle = self.inner.acquire_read();
        let ghost rec = handle.view();
        let r = handle.borrow().data.len();
        handle.release_read();
        assert(self.admits(rec));
        r
    }

    /// The children capacity: `N` for an internal node, 0 for a leaf.
    pub fn capacity(&self) -> (r: usize)
        ensures
            r == self.capacity_spec(),
    {
        if self.is_leaf() {
            0
        } else {
            N
        }
    }

    /// Whether the node is a leaf; the same for the node's whole life.
    pub fn is_leaf(&self) -> (r: bool)
        ensures
            r == self.leaf(),
    {
        let handle = self.inner.acquire_read();
        let ghost rec = handle.view();
        let r = handle.borrow().leaf;
        handle.release_read();
        r
    }

    /// Whether the children fill the capacity; always true of a leaf, whose
    /// capacity is 0.
    pub fn is_full(&self) -> (r: bool)
        ensures
            exists|rec: Inner<T, V, N>| #[trigger] self.admits(rec)
                && r == (rec.children@.len() == self.capacity_spec()),
            self.leaf() ==> r,
    {
        let handle = self.inner.acquire_read();
        let ghost snapshot = handle.view();
        let rec = handle.borrow();
        let r = if rec.leaf {
            rec.children.len() == 0
        } else {
            rec.children.len() == N
        };
        handle.release_read();
        assert(self.admits(snapshot));
        r
    }

    /// Whether the entries fill the node: `N` of them or more. This is the
    /// fullness test for a leaf.
    pub fn entries_full(&self) -> (r: bool)
        ensures
            exists|rec: Inner<T, V, N>| #[trigger] self.admits(rec) && r == (rec.data@.len() >= N),
    {
        let handle = self.inner.acquire_read();
        let ghost rec = handle.view();
        let r = handle.borrow().data.len() >= N;
        handle.release_read();
        assert(self.admits(rec));
        r
    }

    /// Puts `other`'s record in place of this node's, when `other` is the only
    /// handle to it; else `Shared`, and this node keeps its record. Either way
    /// `other` is consumed, and this handle keeps its record's lock and kind.
    pub fn replace(&mut self, other: Self) -> (r: Result<(), NodeError>)
        requires
            other.leaf() == old(self).leaf(),
        ensures
            *final(self) == *old(self),
            r matches Err(e) ==> e == NodeError::Shared,
    {
        let rec = match other.take_inner() {
            Ok(rec) => rec,
            Err(e) => {
                return Err(e);
            },
        };
        let (_previous, handle) = self.inner.acquire_write();
        handle.release_write(rec);
        Ok(())
    }

    /// The record, when this is the only handle to it; else `Shared`.
    pub fn take_inner(self) -> (r: Result<Inner<T, V, N>, NodeError>)
        ensures
            match r {
                Ok(rec) => self.admits(rec),
                Err(e) => e == NodeError::Shared,
            },
    {
        match arc_try_unwrap(self.inner) {
            Ok(lock) => Ok(lock.into_inner()),
            Err(_) => Err(NodeError::Shared),
        }
    }

    /// Splits the node, when this is the only handle to it, into two fresh
    /// nodes of its kind made holding the left and right halves of its record
    /// (see `Inner::split`); else `Shared`.
    pub fn split(self) -> (r: Result<(Self, Self), NodeError>)
        ensures
            match r {
                Ok((left, right)) => {
                    &&& left.leaf() == self.leaf()
                    &&& right.leaf() == self.leaf()
                    &&& exists|rec: Inner<T, V, N>| #[trigger] self.admits(rec)
                        && rec.halves(left.initial(), right.initial())
                },
                Err(e) => e == NodeError::Shared,
            },
    {
        let rec = match self.take_inner() {
            Ok(rec) => rec,
            Err(e) => {
                return Err(e);
            },
        };
        let ghost whole = rec;
        let (l, r) = rec.split();
        let left = Self::adopt(l);
        let right = Self::adopt(r);
        assert(self.admits(whole) && whole.halves(left.initial(), right.initial()));
        Ok((left, right))
    }

    /// Scans the entries for `key` (see `search_entries`).
    pub fn search(&self, key: &T) -> (r: SearchResult)
        requires
            obeys_cmp::<T>(),
        ensures
            exists|rec: Inner<T, V, N>| #[trigger] self.admits(rec) && scan_outcome(rec.data@, *key, r),
    {
        let handle = self.inner.acquire_read();
        let ghost rec = handle.view();
        let r = search_entries(handle.borrow().data.as_slice(), key);
        handle.release_read();
        assert(self.admits(rec));
        r
    }
}

/// A node's kind belongs to its record's lock, which no operation changes: every
/// handle that shares the record reports the same kind, for as long as any lives.
pub proof fn lemma_kind_shared<T: Ord, V, const N: usize>(a: Node<T, V, N>, b: Node<T, V, N>)
    requires
        a.lock() == b.lock(),
    ensures
        a.leaf() == b.leaf(),
        a.capacity_spec() == b.capacity_spec(),
{
}

} // verus!
