//! Converts a stream of parsed YAML documents into JSON value trees.
//!
//! The conversion is total and pure: every YAML node has exactly one JSON
//! counterpart. Non-string mapping keys fall back to a documented
//! structural rendering, and node kinds that JSON cannot express become
//! JSON null.

use vstd::prelude::*;

pub mod node;
pub mod render;
pub mod convert;
pub mod pipeline;
pub mod laws;

verus! {

pub use crate::convert::convert;
pub use crate::convert::convert_documents;
pub use crate::node::JsonNode;
pub use crate::node::JsonVal;
pub use crate::node::YamlNode;
pub use crate::node::YamlVal;
pub use crate::pipeline::ParseError;
pub use crate::pipeline::parse_documents;
pub use crate::pipeline::yaml_to_json;
pub use crate::render::render_key;

} // verus!
