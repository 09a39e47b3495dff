//! Documents as trees: how a document is first built from its model, how
//! its state is read, and how its access lists are cleared.

pub mod acl;
pub mod blueprint;
pub mod write;
pub mod model_tree;
pub mod tree;
