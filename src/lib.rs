//! A rule-driven rewriter for qualified names in source trees.
//!
//! Paths are sequences of segments joined by `::`. Five rule tables decide how
//! call targets, import trees and other paths are renamed, with a fixed
//! precedence and a longest-prefix search.
pub mod path;
pub mod rules;
pub mod resolve;
pub mod replacer;
pub mod use_tree;
pub mod path_tree;
pub mod harvest;
pub mod args;
pub mod laws;
