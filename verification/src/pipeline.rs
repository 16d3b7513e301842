//! The document pipeline: YAML text in, one JSON tree per document out.
//!
//! Parsing is delegated to the `serde_yaml` crate. A parse failure in any
//! document is fatal for the whole stream: no partial list of documents is
//! returned. Conversion itself is total and never fails.

use vstd::prelude::*;

use crate::convert::convert_documents;
use crate::convert::convert_val;
use crate::node::JsonNode;
use crate::node::YamlNode;
use crate::node::YamlVal;
use crate::node::yaml_vals_of;

verus! {

use serde_yaml::Value;

#[verifier::external_type_specification]
#[verifier::external_body]
pub struct ExYamlValue(Value);

/// The node that a parsed `serde_yaml` tree stands for in this library's
/// model: the translation that `node_of_value` performs.
pub uninterp spec fn yaml_model(v: Value) -> YamlVal;

/// What the YAML text parses into: one model value per `---`-separated
/// document, in input order, or `None` when some document is malformed.
pub uninterp spec fn yaml_docs_of(s: Seq<char>) -> Option<Seq<YamlVal>>;

/// The error for an input whose text cannot be parsed as YAML.
#[derive(Debug)]
pub struct ParseError {
    pub message: String,
}

/// Relies on serde_yaml::Deserializer::from_str and Value::deserialize:
/// the iterator yields one document per `---` separator, in input order,
/// and deserializing a document fails exactly when its text is malformed.
#[verifier::external_body]
fn docs_from_str(input: &str) -> (r: Result<Vec<Value>, String>)
    ensures
        match r {
            Ok(vs) => yaml_docs_of(input@) == Some(
                Seq::new(vs@.len(), |i: int| yaml_model(vs@[i])),
            ),
            Err(_) => yaml_docs_of(input@) is None,
        },
{
    let mut out = Vec::new();
    for doc in serde_yaml::Deserializer::from_str(input) {
        match <Value as serde::Deserialize>::deserialize(doc) {
            Ok(v) => out.push(v),
            Err(e) => return Err(e.to_string()),
        }
    }
    Ok(out)
}

/// Relies on serde_yaml::Value: one arm per node kind, fields moved
/// across. Numbers are resolved the way the parser reports them, through
/// Number::as_i64 and Number::as_f64; tagged values and numbers the
/// parser can state neither way have no representation here.
#[verifier::external_body]
fn node_of_value(v: &Value) -> (n: YamlNode)
    ensures
        n@ == yaml_model(*v),
{
    match v {
        Value::Null => YamlNode::Null,
        Value::Bool(b) => YamlNode::Bool(*b),
        Value::Number(x) => match (x.as_i64(), x.as_f64()) {
            (Some(i), _) => YamlNode::Int(i),
            (None, Some(f)) => YamlNode::Float(f.to_bits()),
            (None, None) => YamlNode::Other,
        },
        Value::String(s) => YamlNode::Str(s.clone()),
        Value::Sequence(xs) => YamlNode::Sequence(xs.iter().map(node_of_value).collect()),
        Value::Mapping(m) => YamlNode::Mapping(m.iter().map(|(k, w)| (node_of_value(k), node_of_value(w))).collect()),
        _ => YamlNode::Other,
    }
}

/// Parses YAML text into one node tree per document, in input order.
/// A parse failure in any document fails the whole stream.
pub fn parse_documents(input: &str) -> (r: Result<Vec<YamlNode>, ParseError>)
    ensures
        match r {
            Ok(docs) => yaml_docs_of(input@) == Some(yaml_vals_of(docs@)),
            Err(_) => yaml_docs_of(input@) is None,
        },
{
    match docs_from_str(input) {
        Ok(vs) => {
            let mut docs: Vec<YamlNode> = Vec::new();
            let mut idx: usize = 0;
            while idx < vs.len()
                invariant
                    idx <= vs@.len(),
                    docs@.len() == idx,
                    forall|i: int| 0 <= i < idx ==> docs@[i]@ == yaml_model(vs@[i]),
                decreases vs@.len() - idx,
            {
                let n = node_of_value(&vs[idx]);
                docs.push(n);
                idx = idx + 1;
            }
            proof {
                assert(yaml_vals_of(docs@) =~= Seq::new(vs@.len(), |i: int| yaml_model(vs@[i])));
            }
            Ok(docs)
        },
        Err(message) => Err(ParseError { message }),
    }
}

/// Parses YAML text and converts every document, in input order: with N
/// well-formed documents the result holds exactly N JSON trees; with any
/// malformed document the whole run fails.
pub fn yaml_to_json(input: &str) -> (r: Result<Vec<JsonNode>, ParseError>)
    ensures
        match r {
            Ok(out) => yaml_docs_of(input@) matches Some(ds) && out@.len() == ds.len()
                && forall|i: int| 0 <= i < ds.len() ==> out@[i]@ == convert_val(ds[i]),
            Err(_) => yaml_docs_of(input@) is None,
        },
{
    match parse_documents(input) {
        Ok(docs) => {
            let out = convert_documents(&docs);
            proof {
                let ds = yaml_docs_of(input@)->Some_0;
                assert(forall|i: int| 0 <= i < ds.len() ==> ds[i] == docs@[i]@);
            }
            Ok(out)
        },
        Err(e) => Err(e),
    }
}

} // verus!
