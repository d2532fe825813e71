//! The arena-backed directory tree and its nodes.

pub mod arena;
pub mod model;
pub mod removal;
pub mod walks;
pub mod node;
pub mod prefix;

pub use arena::DiskTree;
pub use node::{NodeId, NodeKind, NodeView, Timestamp, TreeNode};
