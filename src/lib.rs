//! Turns directory snapshots of package roots into a tree of uniquely
//! identified modules, ready to hand to a compiler.

pub mod snapshot;
pub mod tree;
pub mod laws;
