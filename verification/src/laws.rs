//! The conversion laws: what `convert_val` guarantees for whole classes of
//! inputs, proved once and for all.

use vstd::prelude::*;

use crate::convert::convert_val;
use crate::convert::float_bits_finite;
use crate::convert::converted_entries;
use crate::convert::converted_elems;
use crate::convert::obj_insert;
use crate::convert::object_of;
use crate::convert::lemma_obj_insert_missing;
use crate::node::JsonVal;
use crate::node::YamlVal;
use crate::node::yaml_of_json;
use crate::node::yaml_of_json_elems;
use crate::node::yaml_of_json_entries;
use crate::render::key_string;

verus! {

/// Converting a scalar node (null, boolean or string) is the identity on
/// the value: only the representation tag changes.
pub proof fn lemma_convert_scalar_identity(v: YamlVal)
    requires
        v is Null || v is Bool || v is Str,
    ensures
        v is Null ==> convert_val(v) == JsonVal::Null,
        v matches YamlVal::Bool(b) ==> convert_val(v) == JsonVal::Bool(b),
        v matches YamlVal::Str(s) ==> convert_val(v) == JsonVal::Str(s),
{
}

/// A number the parser resolved to a 64-bit signed integer converts to a
/// JSON integer with the same value; one resolved to a finite 64-bit
/// float converts to a JSON float with the same bit pattern, hence
/// numerically equal within that representation; one with no finite
/// reading (not-a-number, the infinities) converts to JSON null, since a
/// JSON number is always finite.
pub proof fn lemma_convert_number(v: YamlVal)
    requires
        v is Int || v is Float,
    ensures
        v matches YamlVal::Int(i) ==> convert_val(v) == JsonVal::Int(i),
        v matches YamlVal::Float(bits) ==> convert_val(v) == (if float_bits_finite(bits) {
            JsonVal::Float(bits)
        } else {
            JsonVal::Null
        }),
{
}

/// Converting a sequence gives an array of the same length, with the
/// conversion applied element-wise in the same order.
pub proof fn lemma_convert_sequence(elems: Seq<YamlVal>)
    ensures
        convert_val(YamlVal::Sequence(elems)) matches JsonVal::Array(out) && out.len()
            == elems.len() && (forall|i: int|
            0 <= i < elems.len() ==> out[i] == convert_val(elems[i])),
{
    assert(convert_val(YamlVal::Sequence(elems)) == JsonVal::Array(converted_elems(elems)));
}

/// Converting a mapping whose keys are all strings and pairwise distinct
/// gives an object with the same keys, in the same order, and the
/// conversion applied to each value.
pub proof fn lemma_convert_mapping_unique_string_keys(pairs: Seq<(YamlVal, YamlVal)>)
    requires
        forall|i: int| 0 <= i < pairs.len() ==> pairs[i].0 is Str,
        forall|i: int, j: int| 0 <= i < j < pairs.len() ==> pairs[i].0 != pairs[j].0,
    ensures
        convert_val(YamlVal::Mapping(pairs)) matches JsonVal::Object(obj) && obj.len()
            == pairs.len() && (forall|i: int|
            0 <= i < pairs.len() ==> obj[i] == (
                pairs[i].0->Str_0,
                convert_val(pairs[i].1),
            )),
{
    let ces = converted_entries(pairs);
    assert forall|i: int| 0 <= i < pairs.len() implies ces[i] == (
        pairs[i].0->Str_0,
        convert_val(pairs[i].1),
    ) by {
        assert(key_string(pairs[i].0) == pairs[i].0->Str_0);
    }
    assert forall|i: int, j: int| 0 <= i < j < pairs.len() implies ces[i].0 != ces[j].0 by {
        assert(pairs[i].0 matches YamlVal::Str(s) && pairs[j].0 matches YamlVal::Str(t)
            ==> (s == t ==> pairs[i].0 == pairs[j].0));
    }
    lemma_object_of_distinct_identity(ces);
}

/// On entries whose keys are pairwise distinct, building the object by
/// repeated mapping-insertion changes nothing: the entries are the object.
pub proof fn lemma_object_of_distinct_identity(entries: Seq<(Seq<char>, JsonVal)>)
    requires
        forall|i: int, j: int| 0 <= i < j < entries.len() ==> entries[i].0 != entries[j].0,
    ensures
        object_of(entries) == entries,
    decreases entries.len(),
{
    if entries.len() == 0 {
        assert(object_of(entries) =~= entries);
    } else {
        let front = entries.drop_last();
        lemma_object_of_distinct_identity(front);
        lemma_obj_insert_missing(front, entries.last().0, entries.last().1);
        assert(front.push(entries.last()) =~= entries);
    }
}

/// Mapping-insertion keeps object keys pairwise distinct, so every object
/// the conversion builds has pairwise distinct keys.
pub proof fn lemma_obj_insert_distinct_keys(obj: Seq<(Seq<char>, JsonVal)>, k: Seq<char>, v: JsonVal)
    requires
        forall|i: int, j: int| 0 <= i < j < obj.len() ==> obj[i].0 != obj[j].0,
    ensures
        forall|i: int, j: int|
            0 <= i < j < obj_insert(obj, k, v).len() ==> obj_insert(obj, k, v)[i].0 != obj_insert(
                obj,
                k,
                v,
            )[j].0,
        forall|i: int|
            0 <= i < obj_insert(obj, k, v).len() ==> (obj_insert(obj, k, v)[i].0 == k || exists|
                j: int,
            |
                0 <= j < obj.len() && obj[j].0 == obj_insert(obj, k, v)[i].0),
    decreases obj.len(),
{
    let res = obj_insert(obj, k, v);
    if obj.len() == 0 {
    } else if obj[0].0 == k {
        let rest = obj.subrange(1, obj.len() as int);
        assert forall|i: int| 0 <= i < res.len() implies (res[i].0 == k || exists|j: int|
            0 <= j < obj.len() && obj[j].0 == res[i].0) by {
            if i > 0 {
                assert(obj[i].0 == res[i].0);
            }
        }
    } else {
        let rest = obj.subrange(1, obj.len() as int);
        lemma_obj_insert_distinct_keys(rest, k, v);
        let sub = obj_insert(rest, k, v);
        assert(res =~= seq![obj[0]] + sub);
        assert forall|i: int, j: int| 0 <= i < j < res.len() implies res[i].0 != res[j].0 by {
            if i == 0 {
                assert(res[0].0 == obj[0].0);
                assert(sub[j - 1].0 == k || exists|m: int|
                    0 <= m < rest.len() && rest[m].0 == sub[j - 1].0);
            }
        }
        assert forall|i: int| 0 <= i < res.len() implies (res[i].0 == k || exists|j: int|
            0 <= j < obj.len() && obj[j].0 == res[i].0) by {
            if i > 0 {
                if sub[i - 1].0 != k {
                    let m = choose|m: int| 0 <= m < rest.len() && rest[m].0 == sub[i - 1].0;
                    assert(obj[m + 1].0 == res[i].0);
                }
            }
        }
    }
}

/// The object built from any entry list has pairwise distinct keys: the
/// JSON data model's object invariant.
pub proof fn lemma_object_of_distinct_keys(entries: Seq<(Seq<char>, JsonVal)>)
    ensures
        forall|i: int, j: int|
            0 <= i < j < object_of(entries).len() ==> object_of(entries)[i].0 != object_of(
                entries,
            )[j].0,
    decreases entries.len(),
{
    if entries.len() > 0 {
        lemma_object_of_distinct_keys(entries.drop_last());
        lemma_obj_insert_distinct_keys(
            object_of(entries.drop_last()),
            entries.last().0,
            entries.last().1,
        );
    }
}

proof fn lemma_obj_insert_members(obj: Seq<(Seq<char>, JsonVal)>, k: Seq<char>, v: JsonVal)
    ensures
        forall|m: int|
            0 <= m < obj_insert(obj, k, v).len() ==> (#[trigger] obj_insert(obj, k, v)[m]) == (
                k,
                v,
            ) || exists|n: int| 0 <= n < obj.len() && obj[n] == obj_insert(obj, k, v)[m],
    decreases obj.len(),
{
    let res = obj_insert(obj, k, v);
    if obj.len() == 0 {
    } else if obj[0].0 == k {
        assert forall|m: int| 0 <= m < res.len() implies (#[trigger] res[m]) == (k, v) || exists|
            n: int,
        | 0 <= n < obj.len() && obj[n] == res[m] by {
            if m > 0 {
                assert(obj[m] == res[m]);
            }
        }
    } else {
        let rest = obj.subrange(1, obj.len() as int);
        lemma_obj_insert_members(rest, k, v);
        let sub = obj_insert(rest, k, v);
        assert forall|m: int| 0 <= m < res.len() implies (#[trigger] res[m]) == (k, v) || exists|
            n: int,
        | 0 <= n < obj.len() && obj[n] == res[m] by {
            if m == 0 {
                assert(obj[0] == res[0]);
            } else {
                assert(res[m] == sub[m - 1]);
                if sub[m - 1] != (k, v) {
                    let n = choose|n: int| 0 <= n < rest.len() && rest[n] == sub[m - 1];
                    assert(obj[n + 1] == res[m]);
                }
            }
        }
    }
}

proof fn lemma_object_of_members(entries: Seq<(Seq<char>, JsonVal)>)
    ensures
        forall|m: int|
            0 <= m < object_of(entries).len() ==> exists|n: int|
                0 <= n < entries.len() && entries[n] == #[trigger] object_of(entries)[m],
    decreases entries.len(),
{
    if entries.len() > 0 {
        let front = entries.drop_last();
        let last = entries.last();
        lemma_object_of_members(front);
        lemma_obj_insert_members(object_of(front), last.0, last.1);
        let res = object_of(entries);
        assert forall|m: int| 0 <= m < res.len() implies exists|n: int|
            0 <= n < entries.len() && entries[n] == #[trigger] res[m] by {
            if res[m] == (last.0, last.1) {
                assert(entries[entries.len() - 1] == res[m]);
            } else {
                let n0 = choose|n0: int|
                    0 <= n0 < object_of(front).len() && object_of(front)[n0] == res[m];
                let n = choose|n: int| 0 <= n < front.len() && front[n] == object_of(front)[n0];
                assert(entries[n] == res[m]);
            }
        }
    }
}

/// Re-serialization is idempotent at the value level: the JSON tree a
/// document converts to, re-read as the YAML value it denotes, converts
/// to the very same tree.
pub proof fn lemma_reserialize_round_trip(v: YamlVal)
    ensures
        convert_val(yaml_of_json(convert_val(v))) == convert_val(v),
    decreases v,
{
    match v {
        YamlVal::Sequence(elems) => {
            let ce = converted_elems(elems);
            let ys = yaml_of_json_elems(ce);
            assert forall|i: int| 0 <= i < elems.len() implies converted_elems(ys)[i] == ce[i] by {
                assert(decreases_to!(v => elems));
                assert(decreases_to!(elems => elems[i]));
                lemma_reserialize_round_trip(elems[i]);
            }
            assert(converted_elems(ys) =~= ce);
        },
        YamlVal::Mapping(pairs) => {
            let ces = converted_entries(pairs);
            let obj = object_of(ces);
            lemma_object_of_members(ces);
            lemma_object_of_distinct_keys(ces);
            let ps = yaml_of_json_entries(obj);
            assert forall|m: int| 0 <= m < obj.len() implies converted_entries(ps)[m]
                == obj[m] by {
                let n = choose|n: int| 0 <= n < ces.len() && ces[n] == obj[m];
                assert(ces[n].1 == convert_val(pairs[n].1));
                assert(decreases_to!(v => pairs));
                assert(decreases_to!(pairs => pairs[n]));
                assert(decreases_to!(pairs[n] => pairs[n].1));
                lemma_reserialize_round_trip(pairs[n].1);
                assert(key_string(YamlVal::Str(obj[m].0)) == obj[m].0);
                assert((obj[m].0, obj[m].1) == obj[m]);
            }
            assert(converted_entries(ps) =~= obj);
            lemma_object_of_distinct_identity(obj);
        },
        _ => {},
    }
}

} // verus!
