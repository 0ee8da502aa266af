//! A tree kept in two parallel arrays: the elements in insertion order, and
//! beside each element the index of its parent.
//!
//! [`ApterTree`] is the container. Its contracts are stated over
//! [`TreeView`], the pair of sequences that a tree stands for.

pub mod access;
pub mod laws;
pub mod model;
pub mod query;
pub mod removal;
pub mod tree;
pub mod walk;

pub use model::TreeView;
pub use model::ROOT;
pub use tree::ApterTree;
