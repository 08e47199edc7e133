//! Order-preserving deep merge of YAML mappings.
//!
//! A [`MergeYamlHash`] starts empty and takes YAML documents one after the
//! other. Where a key is new, its entry is added behind those that are
//! there; where the key is present and both values are mappings, the two
//! are merged in the same way, at any depth; otherwise the later value
//! replaces the earlier one, and the entry keeps its place.
//!
//! - [`node`]: what a document is as a value, and what merging means on
//!   such values.
//! - [`laws`]: what follows from that definition.
//! - [`yaml`]: the calls into `yaml_rust2` and `hashlink`, with what is
//!   taken on trust of each.
//! - [`merge`]: the merge of two maps.
//! - [`accumulator`]: the hash, its merges and its text.
//! - [`text`]: the line that starts a document, and its removal.

pub mod accumulator;
pub mod laws;
pub mod merge;
pub mod node;
pub mod text;
pub mod yaml;

pub use accumulator::{MergeYamlHash, ParseError};
pub use merge::merge_hashes;
pub use yaml_rust2::Yaml;
