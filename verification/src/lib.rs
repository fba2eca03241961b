//! Decoder for OSM (OpenStreetMap) XML extracts.
//!
//! The decoder consumes a flat stream of lexical XML events and rebuilds
//! the nested OSM element structure: nodes, ways and relations, each
//! carrying a set of key/value tags.  The schema-aware decoding logic is
//! verified against a specification-level decoder; the lexical XML
//! tokenizer is an outside collaborator reached through the small trusted
//! boundary in [`source`].

use vstd::prelude::*;

pub mod attrs;
pub mod decoder;
pub mod errors;
pub mod events;
pub mod floats;
pub mod laws;
pub mod model;
pub mod scan;
pub mod source;
pub mod tags;

verus! {

pub use attrs::find_attribute;
pub use attrs::parse_bool;
pub use attrs::parse_i64;
pub use attrs::parse_int_attr;
pub use decoder::parse_node;
pub use decoder::parse_relation;
pub use decoder::parse_start_element;
pub use decoder::parse_way;
pub use errors::ErrorModel;
pub use errors::OsmParseError;
pub use events::Attr;
pub use events::Event;
pub use floats::is_float_text;
pub use model::ElementModel;
pub use model::Osm;
pub use model::OsmElement;
pub use scan::parse_member;
pub use scan::parse_nd;
pub use scan::parse_tag;
pub use scan::scan_leaf;
pub use scan::sub_scan;
pub use scan::ElementKind;
pub use tags::Tags;

} // verus!
