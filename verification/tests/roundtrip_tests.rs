use yaml2json::convert;
use yaml2json::yaml_to_json;
use yaml2json::JsonNode;
use yaml2json::YamlNode;

fn to_json_value(n: &JsonNode) -> serde_json::Value {
    match n {
        JsonNode::Null => serde_json::Value::Null,
        JsonNode::Bool(b) => serde_json::Value::Bool(*b),
        JsonNode::Int(i) => serde_json::Value::Number(serde_json::Number::from(*i)),
        JsonNode::Float(bits) => serde_json::Number::from_f64(f64::from_bits(*bits))
            .map(serde_json::Value::Number)
            .unwrap_or(serde_json::Value::Null),
        JsonNode::Str(s) => serde_json::Value::String(s.clone()),
        JsonNode::Array(elems) => {
            serde_json::Value::Array(elems.iter().map(to_json_value).collect())
        }
        JsonNode::Object(entries) => {
            let mut m = serde_json::Map::new();
            for (k, v) in entries {
                m.insert(k.clone(), to_json_value(v));
            }
            serde_json::Value::Object(m)
        }
    }
}

fn from_json_value(v: &serde_json::Value) -> JsonNode {
    match v {
        serde_json::Value::Null => JsonNode::Null,
        serde_json::Value::Bool(b) => JsonNode::Bool(*b),
        serde_json::Value::Number(x) => match x.as_i64() {
            Some(i) => JsonNode::Int(i),
            None => JsonNode::Float(x.as_f64().unwrap().to_bits()),
        },
        serde_json::Value::String(s) => JsonNode::Str(s.clone()),
        serde_json::Value::Array(elems) => {
            JsonNode::Array(elems.iter().map(from_json_value).collect())
        }
        serde_json::Value::Object(m) => {
            let mut entries = Vec::new();
            for (k, v) in m {
                entries.push((k.clone(), from_json_value(v)));
            }
            JsonNode::Object(entries)
        }
    }
}

#[test]
fn reserialization_round_trip_is_structural_identity() {
    let doc = YamlNode::Mapping(vec![
        (YamlNode::Str(String::from("z")), YamlNode::Int(-4)),
        (
            YamlNode::Str(String::from("a")),
            YamlNode::Sequence(vec![
                YamlNode::Bool(false),
                YamlNode::Null,
                YamlNode::Float((0.25f64).to_bits()),
                YamlNode::Str(String::from("tail")),
            ]),
        ),
        (YamlNode::Int(7), YamlNode::Mapping(vec![])),
    ]);
    let converted = convert(&doc);
    let text = serde_json::to_string(&to_json_value(&converted)).unwrap();
    let reparsed: serde_json::Value = serde_json::from_str(&text).unwrap();
    assert_eq!(from_json_value(&reparsed), converted);
}

#[test]
fn scenario_document_serializes_to_expected_json() {
    let out = yaml_to_json("a: 1\nb:\n  - true\n  - null\n  - x\n").unwrap();
    assert_eq!(out.len(), 1);
    let text = serde_json::to_string(&to_json_value(&out[0])).unwrap();
    assert_eq!(text, "{\"a\":1,\"b\":[true,null,\"x\"]}");
}

#[test]
fn two_documents_in_array_mode() {
    let out = yaml_to_json("a: 1\n---\nb: 2\n").unwrap();
    let arr = serde_json::Value::Array(out.iter().map(to_json_value).collect());
    assert_eq!(
        serde_json::to_string(&arr).unwrap(),
        "[{\"a\":1},{\"b\":2}]"
    );
}

#[test]
fn zero_documents_in_array_mode_is_the_empty_array() {
    let out = yaml2json::convert_documents(&vec![]);
    let arr = serde_json::Value::Array(out.iter().map(to_json_value).collect());
    assert_eq!(serde_json::to_string(&arr).unwrap(), "[]");
}

#[test]
fn non_string_key_scenario_yields_a_string_key() {
    let out = yaml_to_json("42: v\n").unwrap();
    let text = serde_json::to_string(&to_json_value(&out[0])).unwrap();
    assert_eq!(text, "{\"42\":\"v\"}");
}
