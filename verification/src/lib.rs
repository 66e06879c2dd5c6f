//! Decoder core for a self-describing binary container format: an
//! object-graph serialization layer carrying typed property sets,
//! cross-references, and blob attachments.
//!
//! The crate turns a flat table of raw decoded binary fragments (keyed by
//! identifier and logical channel) into strongly-typed, cross-linked graph
//! nodes. It is built on variable-length primitive codecs, identity
//! primitives, a per-node cross-reference mapping table, a node resolver,
//! and an object-space / page traversal.

pub mod assoc;
pub mod binary_item;
pub mod compact_u64;
pub mod errors;
pub mod exguid;
pub mod fragment;
pub mod jcid;
pub mod mapping_table;
pub mod object;
pub mod object_prop_set;
pub mod page_series;
pub mod reader;
pub mod store;
