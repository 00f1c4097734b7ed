//! Multi-crate item indexer and `use`-path resolver.
//!
//! The library models module paths, `use` paths and the items declared in a
//! crate's source files, builds one item tree per item kind and resolves every
//! `use` declaration against those trees.
pub mod cfg;
pub mod discover;
pub mod extract;
pub mod index;
pub mod item;
pub mod package;
pub mod path;
pub mod resolve;
pub mod source;
pub mod text;
pub mod tree;
pub mod use_path;
