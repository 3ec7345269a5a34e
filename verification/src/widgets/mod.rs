//! Widget states that the engine keeps for its front end.

pub mod tree_list;
