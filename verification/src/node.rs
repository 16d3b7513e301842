use vstd::prelude::*;

verus! {

/// Mathematical model of one parsed YAML document node.
pub ghost enum YamlVal {
    Null,
    Bool(bool),
    Int(i64),
    Float(u64),
    Str(Seq<char>),
    Sequence(Seq<YamlVal>),
    Mapping(Seq<(YamlVal, YamlVal)>),
    Other,
}

/// Mathematical model of one JSON value.
pub ghost enum JsonVal {
    Null,
    Bool(bool),
    Int(i64),
    Float(u64),
    Str(Seq<char>),
    Array(Seq<JsonVal>),
    Object(Seq<(Seq<char>, JsonVal)>),
}

/// A parsed YAML document node, as the parsing collaborator reports it.
///
/// Numbers arrive already resolved by the parser: `Int` when the value is
/// exactly representable as a 64-bit signed integer, otherwise `Float`
/// carrying the bit pattern of the value's 64-bit floating-point form.
/// Node kinds with no representation here (tagged values, numbers the
/// parser can state neither way) arrive as `Other`.
#[derive(Debug, PartialEq, Eq)]
pub enum YamlNode {
    Null,
    Bool(bool),
    Int(i64),
    Float(u64),
    Str(String),
    Sequence(Vec<YamlNode>),
    Mapping(Vec<(YamlNode, YamlNode)>),
    Other,
}

/// One JSON value. `Float` carries the bit pattern of a 64-bit
/// floating-point number; the conversion only ever produces finite
/// patterns, since a JSON number is always finite, and the sink
/// collaborator turns the pattern back into a numeric literal when the
/// tree is serialized. Object entries keep insertion order and hold
/// pairwise distinct keys.
#[derive(Debug, PartialEq, Eq)]
pub enum JsonNode {
    Null,
    Bool(bool),
    Int(i64),
    Float(u64),
    Str(String),
    Array(Vec<JsonNode>),
    Object(Vec<(String, JsonNode)>),
}

pub open spec fn yaml_val_of(n: YamlNode) -> YamlVal
    decreases n,
{
    match n {
        YamlNode::Null => YamlVal::Null,
        YamlNode::Bool(b) => YamlVal::Bool(b),
        YamlNode::Int(i) => YamlVal::Int(i),
        YamlNode::Float(bits) => YamlVal::Float(bits),
        YamlNode::Str(s) => YamlVal::Str(s@),
        YamlNode::Sequence(elems) => {
            proof {
                assert(decreases_to!(n => elems));
                assert(decreases_to!(elems => elems@));
            }
            YamlVal::Sequence(yaml_vals_of(elems@))
        },
        YamlNode::Mapping(pairs) => {
            proof {
                assert(decreases_to!(n => pairs));
                assert(decreases_to!(pairs => pairs@));
            }
            YamlVal::Mapping(yaml_pair_vals_of(pairs@))
        },
        YamlNode::Other => YamlVal::Other,
    }
}

// In the sequence-valued view functions below, the range guard keeps the
// recursive call on in-range elements only, where the element is provably
// smaller than the sequence.
pub open spec fn yaml_vals_of(s: Seq<YamlNode>) -> Seq<YamlVal>
    decreases s,
{
    Seq::new(s.len(), |i: int| if 0 <= i < s.len() { yaml_val_of(s[i]) } else { YamlVal::Null })
}

pub open spec fn yaml_pair_vals_of(s: Seq<(YamlNode, YamlNode)>) -> Seq<(YamlVal, YamlVal)>
    decreases s,
{
    Seq::new(s.len(), |i: int| if 0 <= i < s.len() { yaml_pair_val_of(s[i]) } else { (YamlVal::Null, YamlVal::Null) })
}

pub open spec fn yaml_pair_val_of(p: (YamlNode, YamlNode)) -> (YamlVal, YamlVal)
    decreases p,
{
    (yaml_val_of(p.0), yaml_val_of(p.1))
}

pub open spec fn json_val_of(n: JsonNode) -> JsonVal
    decreases n,
{
    match n {
        JsonNode::Null => JsonVal::Null,
        JsonNode::Bool(b) => JsonVal::Bool(b),
        JsonNode::Int(i) => JsonVal::Int(i),
        JsonNode::Float(bits) => JsonVal::Float(bits),
        JsonNode::Str(s) => JsonVal::Str(s@),
        JsonNode::Array(elems) => {
            proof {
                assert(decreases_to!(n => elems));
                assert(decreases_to!(elems => elems@));
            }
            JsonVal::Array(json_vals_of(elems@))
        },
        JsonNode::Object(entries) => {
            proof {
                assert(decreases_to!(n => entries));
                assert(decreases_to!(entries => entries@));
            }
            JsonVal::Object(json_entry_vals_of(entries@))
        },
    }
}

pub open spec fn json_vals_of(s: Seq<JsonNode>) -> Seq<JsonVal>
    decreases s,
{
    Seq::new(s.len(), |i: int| if 0 <= i < s.len() { json_val_of(s[i]) } else { JsonVal::Null })
}

pub open spec fn json_entry_vals_of(s: Seq<(String, JsonNode)>) -> Seq<(Seq<char>, JsonVal)>
    decreases s,
{
    Seq::new(s.len(), |i: int| if 0 <= i < s.len() { json_entry_val_of(s[i]) } else { (Seq::empty(), JsonVal::Null) })
}

pub open spec fn json_entry_val_of(e: (String, JsonNode)) -> (Seq<char>, JsonVal)
    decreases e,
{
    (e.0@, json_val_of(e.1))
}

/// The YAML value that a JSON tree denotes when it is read back:
/// JSON is a subset of YAML.
pub open spec fn yaml_of_json(j: JsonVal) -> YamlVal
    decreases j,
{
    match j {
        JsonVal::Null => YamlVal::Null,
        JsonVal::Bool(b) => YamlVal::Bool(b),
        JsonVal::Int(i) => YamlVal::Int(i),
        JsonVal::Float(bits) => YamlVal::Float(bits),
        JsonVal::Str(s) => YamlVal::Str(s),
        JsonVal::Array(elems) => {
            proof {
                assert(decreases_to!(j => elems));
            }
            YamlVal::Sequence(yaml_of_json_elems(elems))
        },
        JsonVal::Object(entries) => {
            proof {
                assert(decreases_to!(j => entries));
            }
            YamlVal::Mapping(yaml_of_json_entries(entries))
        },
    }
}

pub open spec fn yaml_of_json_elems(elems: Seq<JsonVal>) -> Seq<YamlVal>
    decreases elems,
{
    Seq::new(
        elems.len(),
        |i: int| if 0 <= i < elems.len() { yaml_of_json(elems[i]) } else { YamlVal::Null },
    )
}

pub open spec fn yaml_of_json_entries(entries: Seq<(Seq<char>, JsonVal)>) -> Seq<(YamlVal, YamlVal)>
    decreases entries,
{
    Seq::new(
        entries.len(),
        |i: int|
            if 0 <= i < entries.len() {
                yaml_of_json_entry(entries[i])
            } else {
                (YamlVal::Null, YamlVal::Null)
            },
    )
}

pub open spec fn yaml_of_json_entry(e: (Seq<char>, JsonVal)) -> (YamlVal, YamlVal)
    decreases e,
{
    (YamlVal::Str(e.0), yaml_of_json(e.1))
}

impl View for YamlNode {
    type V = YamlVal;

    open spec fn view(&self) -> YamlVal {
        yaml_val_of(*self)
    }
}

impl View for JsonNode {
    type V = JsonVal;

    open spec fn view(&self) -> JsonVal {
        json_val_of(*self)
    }
}

} // verus!
