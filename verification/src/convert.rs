//! The value converter: a pure, total mapping from YAML nodes to JSON nodes.
//!
//! Scalars keep their value and only change representation tag. Numbers
//! stay integers when the parser resolved them to a 64-bit signed integer
//! and stay floating-point otherwise; a number whose only reading is a
//! non-finite float (not-a-number, the infinities) becomes JSON null,
//! since a JSON number is always finite. Sequences become arrays element-wise,
//! in order. Mappings become objects: string keys are used verbatim, any
//! other key falls back to the structural rendering of
//! [`crate::render::key_string`], and when two pairs produce the same key
//! the later pair overwrites the earlier one while the entry keeps its
//! original position. Unrepresentable node kinds become JSON null.

use vstd::prelude::*;

use crate::node::JsonNode;
use crate::node::JsonVal;
use crate::node::YamlNode;
use crate::node::YamlVal;
use crate::node::json_entry_vals_of;
use crate::node::json_vals_of;
use crate::node::yaml_pair_vals_of;
use crate::node::yaml_vals_of;
use crate::render::key_string;
use crate::render::render_key;

verus! {

/// Mapping-insertion semantics on object entries: when the key is already
/// present, the value is overwritten at the key's original position;
/// otherwise the pair is appended.
pub open spec fn obj_insert(
    obj: Seq<(Seq<char>, JsonVal)>,
    k: Seq<char>,
    v: JsonVal,
) -> Seq<(Seq<char>, JsonVal)>
    decreases obj.len(),
{
    if obj.len() == 0 {
        seq![(k, v)]
    } else if obj[0].0 == k {
        seq![(k, v)] + obj.subrange(1, obj.len() as int)
    } else {
        seq![obj[0]] + obj_insert(obj.subrange(1, obj.len() as int), k, v)
    }
}

/// The object built by inserting the given (key, value) pairs in order,
/// each with mapping-insertion semantics.
pub open spec fn object_of(entries: Seq<(Seq<char>, JsonVal)>) -> Seq<(Seq<char>, JsonVal)>
    decreases entries.len(),
{
    if entries.len() == 0 {
        Seq::empty()
    } else {
        obj_insert(object_of(entries.drop_last()), entries.last().0, entries.last().1)
    }
}

/// Whether a 64-bit float bit pattern denotes a finite number: finite
/// patterns are exactly those whose exponent bits are not all ones (the
/// all-ones patterns are the infinities and not-a-number).
pub open spec fn float_bits_finite(bits: u64) -> bool {
    (bits >> 52) & 0x7ff != 0x7ff
}

/// The conversion function: the JSON value that stands for a YAML value.
pub open spec fn convert_val(v: YamlVal) -> JsonVal
    decreases v,
{
    match v {
        YamlVal::Null => JsonVal::Null,
        YamlVal::Bool(b) => JsonVal::Bool(b),
        YamlVal::Int(i) => JsonVal::Int(i),
        YamlVal::Float(bits) => if float_bits_finite(bits) {
            JsonVal::Float(bits)
        } else {
            JsonVal::Null
        },
        YamlVal::Str(s) => JsonVal::Str(s),
        YamlVal::Sequence(elems) => {
            proof {
                assert(decreases_to!(v => elems));
            }
            JsonVal::Array(converted_elems(elems))
        },
        YamlVal::Mapping(pairs) => {
            proof {
                assert(decreases_to!(v => pairs));
            }
            JsonVal::Object(object_of(converted_entries(pairs)))
        },
        YamlVal::Other => JsonVal::Null,
    }
}

pub open spec fn converted_elems(elems: Seq<YamlVal>) -> Seq<JsonVal>
    decreases elems,
{
    Seq::new(
        elems.len(),
        |i: int|
            if 0 <= i < elems.len() {
                convert_val(elems[i])
            } else {
                JsonVal::Null
            },
    )
}

pub open spec fn converted_entries(pairs: Seq<(YamlVal, YamlVal)>) -> Seq<(Seq<char>, JsonVal)>
    decreases pairs,
{
    Seq::new(
        pairs.len(),
        |i: int|
            if 0 <= i < pairs.len() {
                converted_entry(pairs[i])
            } else {
                (Seq::empty(), JsonVal::Null)
            },
    )
}

pub open spec fn converted_entry(p: (YamlVal, YamlVal)) -> (Seq<char>, JsonVal)
    decreases p,
{
    (key_string(p.0), convert_val(p.1))
}

proof fn lemma_obj_insert_found(obj: Seq<(Seq<char>, JsonVal)>, k: Seq<char>, v: JsonVal, i: int)
    requires
        0 <= i < obj.len(),
        obj[i].0 == k,
        forall|j: int| 0 <= j < i ==> obj[j].0 != k,
    ensures
        obj_insert(obj, k, v) == obj.update(i, (k, v)),
    decreases i,
{
    if i == 0 {
        assert(seq![(k, v)] + obj.subrange(1, obj.len() as int) =~= obj.update(0, (k, v)));
    } else {
        let rest = obj.subrange(1, obj.len() as int);
        assert(rest[i - 1].0 == k);
        lemma_obj_insert_found(rest, k, v, i - 1);
        assert(seq![obj[0]] + rest.update(i - 1, (k, v)) =~= obj.update(i, (k, v)));
    }
}

pub(crate) proof fn lemma_obj_insert_missing(obj: Seq<(Seq<char>, JsonVal)>, k: Seq<char>, v: JsonVal)
    requires
        forall|j: int| 0 <= j < obj.len() ==> obj[j].0 != k,
    ensures
        obj_insert(obj, k, v) == obj.push((k, v)),
    decreases obj.len(),
{
    if obj.len() == 0 {
        assert(seq![(k, v)] =~= obj.push((k, v)));
    } else {
        let rest = obj.subrange(1, obj.len() as int);
        lemma_obj_insert_missing(rest, k, v);
        assert(seq![obj[0]] + rest.push((k, v)) =~= obj.push((k, v)));
    }
}

/// The position of `key` among the entries, if present.
fn find_key(entries: &Vec<(String, JsonNode)>, key: &String) -> (r: Option<usize>)
    ensures
        match r {
            Some(i) => 0 <= i < entries@.len() && entries@[i as int].0@ == key@ && forall|j: int|
                0 <= j < i ==> entries@[j].0@ != key@,
            None => forall|j: int| 0 <= j < entries@.len() ==> entries@[j].0@ != key@,
        },
{
    let mut idx: usize = 0;
    while idx < entries.len()
        invariant
            idx <= entries@.len(),
            forall|j: int| 0 <= j < idx ==> entries@[j].0@ != key@,
        decreases entries@.len() - idx,
    {
        if entries[idx].0 == *key {
            return Some(idx);
        }
        idx = idx + 1;
    }
    None
}

/// Inserts one (key, value) pair into the entries of an object under
/// construction, with mapping-insertion semantics.
pub fn obj_insert_entry(entries: &mut Vec<(String, JsonNode)>, key: String, value: JsonNode)
    ensures
        json_entry_vals_of(final(entries)@) == obj_insert(
            json_entry_vals_of(old(entries)@),
            key@,
            value@,
        ),
{
    let ghost obj = json_entry_vals_of(entries@);
    match find_key(entries, &key) {
        Some(i) => {
            proof {
                assert(obj[i as int].0 == key@);
                assert(forall|j: int| 0 <= j < i ==> obj[j].0 != key@);
                lemma_obj_insert_found(obj, key@, value@, i as int);
            }
            entries[i] = (key, value);
            proof {
                assert(json_entry_vals_of(entries@) =~= obj.update(i as int, (key@, value@)));
            }
        },
        None => {
            proof {
                assert(forall|j: int| 0 <= j < obj.len() ==> obj[j].0 != key@);
                lemma_obj_insert_missing(obj, key@, value@);
            }
            entries.push((key, value));
            proof {
                assert(json_entry_vals_of(entries@) =~= obj.push((key@, value@)));
            }
        },
    }
}

/// Converts one YAML document tree into its JSON counterpart.
#[verifier::loop_isolation(false)]
pub fn convert(node: &YamlNode) -> (r: JsonNode)
    ensures
        r@ == convert_val(node@),
    decreases node,
{
    match node {
        YamlNode::Null => JsonNode::Null,
        YamlNode::Bool(b) => JsonNode::Bool(*b),
        YamlNode::Int(i) => JsonNode::Int(*i),
        YamlNode::Float(bits) => if (*bits >> 52) & 0x7ff != 0x7ff {
            JsonNode::Float(*bits)
        } else {
            JsonNode::Null
        },
        YamlNode::Str(s) => JsonNode::Str(s.clone()),
        YamlNode::Sequence(elems) => {
            let ghost vs = yaml_vals_of(elems@);
            let ghost ces = converted_elems(vs);
            let mut out: Vec<JsonNode> = Vec::new();
            let mut idx: usize = 0;
            while idx < elems.len()
                invariant
                    idx <= elems@.len(),
                    out@.len() == idx,
                    json_vals_of(out@) == ces.take(idx as int),
                decreases elems@.len() - idx,
            {
                proof {
                    assert(decreases_to!(*node => *elems));
                    assert(decreases_to!(*elems => elems@));
                    assert(decreases_to!(elems@ => elems@[idx as int]));
                }
                let c = convert(&elems[idx]);
                out.push(c);
                proof {
                    assert(vs[idx as int] == crate::node::yaml_val_of(elems@[idx as int]));
                    assert(json_vals_of(out@) =~= ces.take(idx as int + 1));
                }
                idx = idx + 1;
            }
            proof {
                assert(ces.take(elems@.len() as int) =~= ces);
            }
            JsonNode::Array(out)
        },
        YamlNode::Mapping(pairs) => {
            let ghost ps = yaml_pair_vals_of(pairs@);
            let ghost ces = converted_entries(ps);
            let mut out: Vec<(String, JsonNode)> = Vec::new();
            let mut idx: usize = 0;
            while idx < pairs.len()
                invariant
                    idx <= pairs@.len(),
                    json_entry_vals_of(out@) == object_of(ces.take(idx as int)),
                decreases pairs@.len() - idx,
            {
                proof {
                    assert(decreases_to!(*node => *pairs));
                    assert(decreases_to!(*pairs => pairs@));
                    assert(decreases_to!(pairs@ => pairs@[idx as int]));
                    assert(decreases_to!(pairs@[idx as int] => pairs@[idx as int].1));
                    assert(ps[idx as int] == crate::node::yaml_pair_val_of(pairs@[idx as int]));
                }
                let key = render_key(&pairs[idx].0);
                let value = convert(&pairs[idx].1);
                proof {
                    assert(key@ == key_string(ps[idx as int].0));
                    assert(value@ == convert_val(ps[idx as int].1));
                    assert(ces[idx as int] == (key@, value@));
                }
                obj_insert_entry(&mut out, key, value);
                proof {
                    assert(ces.take(idx as int + 1).drop_last() =~= ces.take(idx as int));
                    assert(ces.take(idx as int + 1).last() == ces[idx as int]);
                    assert(object_of(ces.take(idx as int + 1)) == obj_insert(
                        object_of(ces.take(idx as int)),
                        ces[idx as int].0,
                        ces[idx as int].1,
                    ));
                }
                idx = idx + 1;
            }
            proof {
                assert(ces.take(pairs@.len() as int) =~= ces);
            }
            JsonNode::Object(out)
        },
        YamlNode::Other => JsonNode::Null,
    }
}

/// Converts a stream of parsed documents, one at a time, in input order.
pub fn convert_documents(docs: &Vec<YamlNode>) -> (r: Vec<JsonNode>)
    ensures
        r@.len() == docs@.len(),
        forall|i: int| 0 <= i < docs@.len() ==> r@[i]@ == convert_val(docs@[i]@),
{
    let mut out: Vec<JsonNode> = Vec::new();
    let mut idx: usize = 0;
    while idx < docs.len()
        invariant
            idx <= docs@.len(),
            out@.len() == idx,
            forall|i: int| 0 <= i < idx ==> out@[i]@ == convert_val(docs@[i]@),
        decreases docs@.len() - idx,
    {
        let c = convert(&docs[idx]);
        out.push(c);
        idx = idx + 1;
    }
    out
}

} // verus!
