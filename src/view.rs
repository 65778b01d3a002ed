//! Read views of a node, each holding the node's read lock until released.
//!
//! Any number of views of one node can be held together; a writer waits until
//! all of them are released, so a view sees one record for as long as it is
//! held. Release every view: dropping one keeps the lock held for reading.
use crate::node::{Kind, Node};
use crate::record::Inner;
use vstd::prelude::*;
use vstd::rwlock::{ReadHandle, RwLock};

verus! {

/// A view of a node's entries.
pub struct ValueRefData<'a, T: Ord, V, const N: usize>(
    pub(crate) ReadHandle<'a, Inner<T, V, N>, Kind<T, V, N>>,
);

/// A view of a node's children.
pub struct ValueRefChildren<'a, T: Ord, V, const N: usize>(
    pub(crate) ReadHandle<'a, Inner<T, V, N>, Kind<T, V, N>>,
);

/// A view of one child of a node.
pub struct ValueRefChild<'a, T: Ord, V, const N: usize>(
    pub(crate) ReadHandle<'a, Inner<T, V, N>, Kind<T, V, N>>,
    pub(crate) usize,
);

/// A view of one entry of a node.
pub struct ValueRefPair<'a, T: Ord, V, const N: usize>(
    pub(crate) ReadHandle<'a, Inner<T, V, N>, Kind<T, V, N>>,
    pub(crate) usize,
);

impl<'a, T: Ord, V, const N: usize> ValueRefData<'a, T, V, N> {
    pub(crate) fn hold(handle: ReadHandle<'a, Inner<T, V, N>, Kind<T, V, N>>) -> (r: Self)
        ensures
            r.view() == handle.view(),
            r.lock() == handle.rwlock(),
    {
        ValueRefData(handle)
    }

    /// The record as the view sees it.
    pub closed spec fn view(&self) -> Inner<T, V, N> {
        self.0.view()
    }

    /// The lock that the view holds.
    pub closed spec fn lock(&self) -> RwLock<Inner<T, V, N>, Kind<T, V, N>> {
        self.0.rwlock()
    }

    /// Gives the read lock back.
    pub fn release(self) {
        self.0.release_read();
    }
}

impl<'a, T: Ord, V, const N: usize> ValueRefChildren<'a, T, V, N> {
    pub(crate) fn hold(handle: ReadHandle<'a, Inner<T, V, N>, Kind<T, V, N>>) -> (r: Self)
        ensures
            r.view() == handle.view(),
            r.lock() == handle.rwlock(),
    {
        ValueRefChildren(handle)
    }

    /// The record as the view sees it.
    pub closed spec fn view(&self) -> Inner<T, V, N> {
        self.0.view()
    }

    /// The lock that the view holds.
    pub closed spec fn lock(&self) -> RwLock<Inner<T, V, N>, Kind<T, V, N>> {
        self.0.rwlock()
    }

    /// Gives the read lock back.
    pub fn release(self) {
        self.0.release_read();
    }
}

impl<'a, T: Ord, V, const N: usize> ValueRefChild<'a, T, V, N> {
    pub(crate) fn hold(handle: ReadHandle<'a, Inner<T, V, N>, Kind<T, V, N>>, index: usize) -> (r: Self)
        requires
            index < handle.view().children@.len(),
        ensures
            r.view() == handle.view(),
            r.lock() == handle.rwlock(),
            r.index() == index,
    {
        ValueRefChild(handle, index)
    }

    #[verifier::type_invariant]
    pub(crate) closed spec fn in_range(&self) -> bool {
        self.1 < self.0.view().children@.len()
    }

    /// The record as the view sees it.
    pub closed spec fn view(&self) -> Inner<T, V, N> {
        self.0.view()
    }

    /// The lock that the view holds.
    pub closed spec fn lock(&self) -> RwLock<Inner<T, V, N>, Kind<T, V, N>> {
        self.0.rwlock()
    }

    /// The index of the child in view.
    pub closed spec fn index(&self) -> nat {
        self.1 as nat
    }

    /// Gives the read lock back.
    pub fn release(self) {
        self.0.release_read();
    }
}

impl<'a, T: Ord, V, const N: usize> ValueRefPair<'a, T, V, N> {
    pub(crate) fn hold(handle: ReadHandle<'a, Inner<T, V, N>, Kind<T, V, N>>, index: usize) -> (r: Self)
        requires
            index < handle.view().data@.len(),
        ensures
            r.view() == handle.view(),
            r.lock() == handle.rwlock(),
            r.index() == index,
    {
        ValueRefPair(handle, index)
    }

    #[verifier::type_invariant]
    pub(crate) closed spec fn in_range(&self) -> bool {
        self.1 < self.0.view().data@.len()
    }

    /// The record as the view sees it.
    pub closed spec fn view(&self) -> Inner<T, V, N> {
        self.0.view()
    }

    /// The lock that the view holds.
    pub closed spec fn lock(&self) -> RwLock<Inner<T, V, N>, Kind<T, V, N>> {
        self.0.rwlock()
    }

    /// The index of the entry in view.
    pub closed spec fn index(&self) -> nat {
        self.1 as nat
    }

    /// Gives the read lock back.
    pub fn release(self) {
        self.0.release_read();
    }
}

impl<'a, T: Ord, V, const N: usize> std::ops::Deref for ValueRefData<'a, T, V, N> {
    type Target = [(T, V)];

    fn deref(&self) -> (r: &[(T, V)])
        ensures
            r@ == self.view().data@,
    {
        self.0.borrow().data.as_slice()
    }
}

impl<'a, T: Ord, V, const N: usize> std::ops::Deref for ValueRefChildren<'a, T, V, N> {
    type Target = [Node<T, V, N>];

    fn deref(&self) -> (r: &[Node<T, V, N>])
        ensures
            r@ == self.view().children@,
    {
        self.0.borrow().children.as_slice()
    }
}

impl<'a, T: Ord, V, const N: usize> std::ops::Deref for ValueRefChild<'a, T, V, N> {
    type Target = Node<T, V, N>;

    fn deref(&self) -> (r: &Node<T, V, N>)
        ensures
            *r == self.view().children@[self.index() as int],
    {
        proof {
            use_type_invariant(self);
        }
        &self.0.borrow().children[self.1]
    }
}

impl<'a, T: Ord, V, const N: usize> std::ops::Deref for ValueRefPair<'a, T, V, N> {
    type Target = (T, V);

    fn deref(&self) -> (r: &(T, V))
        ensures
            *r == self.view().data@[self.index() as int],
    {
        proof {
            use_type_invariant(self);
        }
        &self.0.borrow().data[self.1]
    }
}

/// Two views of the same record held at once see the same record: readers
/// never observe a write half done, nor two different states of one node.
pub fn readers_agree<'a, 'b, T: Ord, V, const N: usize>(
    a: &ValueRefData<'a, T, V, N>,
    b: &ValueRefData<'b, T, V, N>,
)
    requires
        a.lock() == b.lock(),
    ensures
        a.view() == b.view(),
{
    proof {
        ReadHandle::lemma_readers_match(&a.0, &b.0);
    }
}

} // verus!
