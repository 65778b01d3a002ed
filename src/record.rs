//! The plain record behind a node: its entries, its children and its kind.
use crate::node::Node;
use crate::order::{ascending, key_lt};
use vstd::prelude::*;

verus! {

/// The contents of one node.
pub struct Inner<T: Ord, V, const N: usize> {
    /// Key/value entries, strictly ascending by key.
    pub data: Vec<(T, V)>,
    /// Child handles, in order; always empty for a leaf.
    pub children: Vec<Node<T, V, N>>,
    /// Whether the node is a leaf, fixed when the node is made.
    pub leaf: bool,
}

/// Where a split cuts a run of `len` entries: after `len / 2 + 1` of them,
/// so an odd count leaves the extra entry on the left, and never past the end.
pub open spec fn split_point(len: nat) -> nat {
    if len / 2 + 1 <= len {
        len / 2 + 1
    } else {
        len
    }
}

impl<T: Ord, V, const N: usize> Inner<T, V, N> {
    /// The record may stand in a node: ascending keys, no children in a leaf,
    /// and at most `N` children.
    pub open spec fn wf(&self) -> bool {
        &&& ascending(self.data@)
        &&& self.leaf ==> self.children@.len() == 0
        &&& self.children@.len() <= N
    }

    /// Where the entries are cut.
    pub open spec fn data_cut(&self) -> int {
        split_point(self.data@.len()) as int
    }

    /// Where the children are cut: at the same index, within their own length.
    pub open spec fn children_cut(&self) -> int {
        if self.data_cut() <= self.children@.len() {
            self.data_cut()
        } else {
            self.children@.len() as int
        }
    }

    /// The left half's record is the prefix before the cuts, the right half's
    /// record the rest; both keep the kind.
    pub open spec fn halves(&self, left: Inner<T, V, N>, right: Inner<T, V, N>) -> bool {
        &&& left.data@ == self.data@.subrange(0, self.data_cut())
        &&& right.data@ == self.data@.subrange(self.data_cut(), self.data@.len() as int)
        &&& left.children@ == self.children@.subrange(0, self.children_cut())
        &&& right.children@ == self.children@.subrange(
            self.children_cut(),
            self.children@.len() as int,
        )
        &&& left.leaf == self.leaf
        &&& right.leaf == self.leaf
    }

    /// Partitions the record at `data.len() / 2 + 1` into a left and a right
    /// record of the same kind; the children are cut at the same index.
    pub fn split(self) -> (r: (Inner<T, V, N>, Inner<T, V, N>))
        ensures
            self.halves(r.0, r.1),
            self.wf() ==> r.0.wf() && r.1.wf(),
    {
        let Inner { mut data, mut children, leaf } = self;
        let len = data.len();
        let mut mid = len / 2 + 1;
        if mid > len {
            mid = len;
        }
        let right_data = data.split_off(mid);
        let mut cut = mid;
        if cut > children.len() {
            cut = children.len();
        }
        let right_children = children.split_off(cut);
        let left = Inner { data, children, leaf };
        let right = Inner { data: right_data, children: right_children, leaf };
        proof {
            if self.wf() {
                assert forall|i: int, j: int|
                    0 <= i < j < left.data@.len() implies key_lt(
                    #[trigger] left.data@[i].0,
                    #[trigger] left.data@[j].0,
                ) by {
                    assert(left.data@[i] == self.data@[i]);
                    assert(left.data@[j] == self.data@[j]);
                }
                assert forall|i: int, j: int|
                    0 <= i < j < right.data@.len() implies key_lt(
                    #[trigger] right.data@[i].0,
                    #[trigger] right.data@[j].0,
                ) by {
                    assert(right.data@[i] == self.data@[i + mid]);
                    assert(right.data@[j] == self.data@[j + mid]);
                }
            }
        }
        (left, right)
    }
}

/// A split loses and adds nothing and keeps the order: the two halves hold
/// `s` entries between them, concatenated they give back the entries and the
/// children, and every key on the left is smaller than every key on the right.
pub proof fn lemma_split_partitions<T: Ord, V, const N: usize>(
    rec: Inner<T, V, N>,
    left: Inner<T, V, N>,
    right: Inner<T, V, N>,
)
    requires
        rec.wf(),
        rec.halves(left, right),
    ensures
        left.data@.len() + right.data@.len() == rec.data@.len(),
        left.data@ + right.data@ == rec.data@,
        left.children@.len() + right.children@.len() == rec.children@.len(),
        left.children@ + right.children@ == rec.children@,
        forall|i: int, j: int|
            0 <= i < left.data@.len() && 0 <= j < right.data@.len() ==> key_lt(
                #[trigger] left.data@[i].0,
                #[trigger] right.data@[j].0,
            ),
{
    assert(left.data@ + right.data@ =~= rec.data@);
    assert(left.children@ + right.children@ =~= rec.children@);
    assert forall|i: int, j: int|
        0 <= i < left.data@.len() && 0 <= j < right.data@.len() implies key_lt(
        #[trigger] left.data@[i].0,
        #[trigger] right.data@[j].0,
    ) by {
        assert(left.data@[i] == rec.data@[i]);
        assert(right.data@[j] == rec.data@[j + rec.data_cut()]);
    }
}

} // verus!
