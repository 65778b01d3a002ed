//! One node of a concurrent ordered index: a sorted run of key/value entries and,
//! for an internal node, its children, shared between handles under a
//! reader/writer lock.
pub mod node;
pub mod order;
pub mod record;
pub mod search;
pub mod view;

pub use node::{Kind, Node, NodeError};
pub use record::Inner;
pub use search::{search_entries, SearchResult};
pub use view::{readers_agree, ValueRefChild, ValueRefChildren, ValueRefData, ValueRefPair};
