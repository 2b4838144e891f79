//! A configuration tree: named, typed nodes with fixed attribute tables,
//! children created on demand by their parent's data, and handles that go
//! stale, never dangling, when their subtree is removed.
pub mod base_utils;
pub mod common;
pub mod data_structure;
pub mod error;
pub mod laws;
pub mod misc_device;
pub mod registry;
pub mod sample;
pub mod schema;
pub mod storage;
pub mod tree;
