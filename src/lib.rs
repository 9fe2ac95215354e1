//! Disk-usage trees: a generic size abstraction, a tree whose nodes carry
//! aggregate sizes, a builder that assembles such a tree from an info source,
//! and an engine that prunes a tree for display.
pub mod data_tree;
pub mod size;
pub mod tree_builder;
