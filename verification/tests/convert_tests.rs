use yaml2json::convert;
use yaml2json::convert_documents;
use yaml2json::render_key;
use yaml2json::JsonNode;
use yaml2json::YamlNode;

#[test]
fn scalar_null_is_identity() {
    assert_eq!(convert(&YamlNode::Null), JsonNode::Null);
}

#[test]
fn scalar_bool_is_identity() {
    assert_eq!(convert(&YamlNode::Bool(true)), JsonNode::Bool(true));
    assert_eq!(convert(&YamlNode::Bool(false)), JsonNode::Bool(false));
}

#[test]
fn scalar_string_is_identity() {
    assert_eq!(
        convert(&YamlNode::Str(String::from("hello"))),
        JsonNode::Str(String::from("hello"))
    );
    assert_eq!(
        convert(&YamlNode::Str(String::new())),
        JsonNode::Str(String::new())
    );
}

#[test]
fn integer_stays_integer() {
    assert_eq!(convert(&YamlNode::Int(0)), JsonNode::Int(0));
    assert_eq!(convert(&YamlNode::Int(-7)), JsonNode::Int(-7));
    assert_eq!(convert(&YamlNode::Int(i64::MAX)), JsonNode::Int(i64::MAX));
    assert_eq!(convert(&YamlNode::Int(i64::MIN)), JsonNode::Int(i64::MIN));
}

#[test]
fn float_keeps_its_bit_pattern() {
    let bits = (1.5f64).to_bits();
    assert_eq!(convert(&YamlNode::Float(bits)), JsonNode::Float(bits));
}

#[test]
fn non_finite_float_becomes_null() {
    assert_eq!(convert(&YamlNode::Float(f64::NAN.to_bits())), JsonNode::Null);
    assert_eq!(
        convert(&YamlNode::Float(f64::INFINITY.to_bits())),
        JsonNode::Null
    );
    assert_eq!(
        convert(&YamlNode::Float(f64::NEG_INFINITY.to_bits())),
        JsonNode::Null
    );
}

#[test]
fn unrepresentable_kind_becomes_null() {
    assert_eq!(convert(&YamlNode::Other), JsonNode::Null);
}

#[test]
fn sequence_converts_element_wise_in_order() {
    let node = YamlNode::Sequence(vec![
        YamlNode::Int(1),
        YamlNode::Bool(true),
        YamlNode::Null,
        YamlNode::Str(String::from("x")),
    ]);
    assert_eq!(
        convert(&node),
        JsonNode::Array(vec![
            JsonNode::Int(1),
            JsonNode::Bool(true),
            JsonNode::Null,
            JsonNode::Str(String::from("x")),
        ])
    );
}

#[test]
fn empty_sequence_converts_to_empty_array() {
    assert_eq!(convert(&YamlNode::Sequence(vec![])), JsonNode::Array(vec![]));
}

#[test]
fn mapping_with_string_keys_keeps_key_set_and_order() {
    let node = YamlNode::Mapping(vec![
        (YamlNode::Str(String::from("b")), YamlNode::Int(2)),
        (YamlNode::Str(String::from("a")), YamlNode::Int(1)),
    ]);
    assert_eq!(
        convert(&node),
        JsonNode::Object(vec![
            (String::from("b"), JsonNode::Int(2)),
            (String::from("a"), JsonNode::Int(1)),
        ])
    );
}

#[test]
fn empty_mapping_converts_to_empty_object() {
    assert_eq!(convert(&YamlNode::Mapping(vec![])), JsonNode::Object(vec![]));
}

#[test]
fn non_string_key_falls_back_to_rendering() {
    let node = YamlNode::Mapping(vec![(YamlNode::Int(42), YamlNode::Bool(true))]);
    assert_eq!(
        convert(&node),
        JsonNode::Object(vec![(String::from("42"), JsonNode::Bool(true))])
    );
}

#[test]
fn rendered_keys_cover_every_node_kind() {
    assert_eq!(render_key(&YamlNode::Null), "null");
    assert_eq!(render_key(&YamlNode::Bool(true)), "true");
    assert_eq!(render_key(&YamlNode::Bool(false)), "false");
    assert_eq!(render_key(&YamlNode::Int(-205)), "-205");
    assert_eq!(render_key(&YamlNode::Int(i64::MIN)), "-9223372036854775808");
    assert_eq!(
        render_key(&YamlNode::Float((1.5f64).to_bits())),
        format!("float({})", (1.5f64).to_bits())
    );
    assert_eq!(render_key(&YamlNode::Str(String::from("k"))), "k");
    assert_eq!(render_key(&YamlNode::Other), "other");
    assert_eq!(
        render_key(&YamlNode::Sequence(vec![YamlNode::Int(1), YamlNode::Int(2)])),
        "[1,2]"
    );
    assert_eq!(
        render_key(&YamlNode::Mapping(vec![(
            YamlNode::Str(String::from("a")),
            YamlNode::Int(1),
        )])),
        "{\"a\":1}"
    );
}

#[test]
fn decimal_key_rendering_handles_digit_boundaries() {
    assert_eq!(render_key(&YamlNode::Int(0)), "0");
    assert_eq!(render_key(&YamlNode::Int(9)), "9");
    assert_eq!(render_key(&YamlNode::Int(10)), "10");
    assert_eq!(render_key(&YamlNode::Int(-1)), "-1");
    assert_eq!(render_key(&YamlNode::Int(i64::MAX)), "9223372036854775807");
    assert_eq!(render_key(&YamlNode::Float(0)), "float(0)");
    assert_eq!(render_key(&YamlNode::Sequence(vec![])), "[]");
    assert_eq!(render_key(&YamlNode::Mapping(vec![])), "{}");
}

#[test]
fn later_duplicate_key_overwrites_earlier_in_place() {
    let node = YamlNode::Mapping(vec![
        (YamlNode::Str(String::from("k")), YamlNode::Int(1)),
        (YamlNode::Str(String::from("other")), YamlNode::Int(5)),
        (YamlNode::Str(String::from("k")), YamlNode::Int(2)),
    ]);
    assert_eq!(
        convert(&node),
        JsonNode::Object(vec![
            (String::from("k"), JsonNode::Int(2)),
            (String::from("other"), JsonNode::Int(5)),
        ])
    );
}

#[test]
fn distinct_keys_colliding_after_rendering_overwrite() {
    let node = YamlNode::Mapping(vec![
        (YamlNode::Int(42), YamlNode::Str(String::from("first"))),
        (YamlNode::Str(String::from("42")), YamlNode::Str(String::from("second"))),
    ]);
    assert_eq!(
        convert(&node),
        JsonNode::Object(vec![(
            String::from("42"),
            JsonNode::Str(String::from("second")),
        )])
    );
}

#[test]
fn nested_trees_convert_recursively() {
    let node = YamlNode::Mapping(vec![(
        YamlNode::Str(String::from("outer")),
        YamlNode::Sequence(vec![YamlNode::Mapping(vec![(
            YamlNode::Str(String::from("inner")),
            YamlNode::Other,
        )])]),
    )]);
    assert_eq!(
        convert(&node),
        JsonNode::Object(vec![(
            String::from("outer"),
            JsonNode::Array(vec![JsonNode::Object(vec![(
                String::from("inner"),
                JsonNode::Null,
            )])]),
        )])
    );
}

#[test]
fn document_list_converts_pointwise() {
    let docs = vec![YamlNode::Int(1), YamlNode::Bool(false), YamlNode::Null];
    let out = convert_documents(&docs);
    assert_eq!(
        out,
        vec![JsonNode::Int(1), JsonNode::Bool(false), JsonNode::Null]
    );
}
