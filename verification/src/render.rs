//! Fallback stringification for YAML mapping keys that are not strings.
//!
//! JSON object keys must be strings, so a non-string key is replaced by a
//! canonical structural rendering of the key node. The rendering is stable
//! and deterministic: `null`, `true`/`false`, decimal integers, a float as
//! `float(B)` with `B` the decimal value of its 64-bit bit pattern, strings
//! in double quotes (verbatim, no escaping), sequences as `[a,b]`, mappings
//! as `{k:v}`, and `other` for unrepresentable node kinds.

use vstd::prelude::*;

use crate::node::YamlNode;
use crate::node::YamlVal;

verus! {

/// The decimal rendering of one digit value.
pub open spec fn digit_seq(d: nat) -> Seq<char> {
    if d == 0 {
        "0"@
    } else if d == 1 {
        "1"@
    } else if d == 2 {
        "2"@
    } else if d == 3 {
        "3"@
    } else if d == 4 {
        "4"@
    } else if d == 5 {
        "5"@
    } else if d == 6 {
        "6"@
    } else if d == 7 {
        "7"@
    } else if d == 8 {
        "8"@
    } else {
        "9"@
    }
}

/// The decimal rendering of a natural number, most significant digit first.
pub open spec fn dec_digits(n: nat) -> Seq<char>
    decreases n,
{
    if n < 10 {
        digit_seq(n)
    } else {
        dec_digits(n / 10) + digit_seq(n % 10)
    }
}

/// The decimal rendering of an integer, with a leading minus sign when negative.
pub open spec fn render_int(i: int) -> Seq<char> {
    if i < 0 {
        "-"@ + dec_digits((-i) as nat)
    } else {
        dec_digits(i as nat)
    }
}

/// Joins already-rendered parts with commas.
pub open spec fn join_comma(parts: Seq<Seq<char>>) -> Seq<char>
    decreases parts.len(),
{
    if parts.len() == 0 {
        Seq::empty()
    } else if parts.len() == 1 {
        parts[0]
    } else {
        join_comma(parts.drop_last()) + ","@ + parts.last()
    }
}

/// The canonical structural rendering of a YAML node.
pub open spec fn render_val(v: YamlVal) -> Seq<char>
    decreases v,
{
    match v {
        YamlVal::Null => "null"@,
        YamlVal::Bool(b) => if b {
            "true"@
        } else {
            "false"@
        },
        YamlVal::Int(i) => render_int(i as int),
        YamlVal::Float(bits) => "float("@ + dec_digits(bits as nat) + ")"@,
        YamlVal::Str(s) => "\""@ + s + "\""@,
        YamlVal::Sequence(elems) => {
            proof {
                assert(decreases_to!(v => elems));
            }
            "["@ + join_comma(rendered_elems(elems)) + "]"@
        },
        YamlVal::Mapping(pairs) => {
            proof {
                assert(decreases_to!(v => pairs));
            }
            "{"@ + join_comma(rendered_pairs(pairs)) + "}"@
        },
        YamlVal::Other => "other"@,
    }
}

pub open spec fn rendered_elems(elems: Seq<YamlVal>) -> Seq<Seq<char>>
    decreases elems,
{
    Seq::new(
        elems.len(),
        |i: int|
            if 0 <= i < elems.len() {
                render_val(elems[i])
            } else {
                Seq::empty()
            },
    )
}

pub open spec fn rendered_pairs(pairs: Seq<(YamlVal, YamlVal)>) -> Seq<Seq<char>>
    decreases pairs,
{
    Seq::new(
        pairs.len(),
        |i: int|
            if 0 <= i < pairs.len() {
                rendered_pair(pairs[i])
            } else {
                Seq::empty()
            },
    )
}

pub open spec fn rendered_pair(p: (YamlVal, YamlVal)) -> Seq<char>
    decreases p,
{
    render_val(p.0) + ":"@ + render_val(p.1)
}

/// The JSON object key that stands for a YAML mapping key: a string key is
/// used verbatim, every other key falls back to the structural rendering.
pub open spec fn key_string(k: YamlVal) -> Seq<char> {
    match k {
        YamlVal::Str(s) => s,
        _ => render_val(k),
    }
}

/// One decimal digit as a string slice.
fn digit_str(d: u64) -> (r: &'static str)
    requires
        d < 10,
    ensures
        r@ == digit_seq(d as nat),
{
    if d == 0 {
        "0"
    } else if d == 1 {
        "1"
    } else if d == 2 {
        "2"
    } else if d == 3 {
        "3"
    } else if d == 4 {
        "4"
    } else if d == 5 {
        "5"
    } else if d == 6 {
        "6"
    } else if d == 7 {
        "7"
    } else if d == 8 {
        "8"
    } else {
        "9"
    }
}

/// Appends the decimal rendering of `n` to `out`.
fn push_dec_digits(n: u64, out: &mut String)
    ensures
        final(out)@ == old(out)@ + dec_digits(n as nat),
    decreases n,
{
    if n < 10 {
        out.append(digit_str(n));
    } else {
        push_dec_digits(n / 10, out);
        out.append(digit_str(n % 10));
        proof {
            assert(old(out)@ + dec_digits((n / 10) as nat) + digit_seq((n % 10) as nat)
                =~= old(out)@ + (dec_digits((n / 10) as nat) + digit_seq((n % 10) as nat)));
            assert(dec_digits(n as nat) == dec_digits(n as nat / 10) + digit_seq(n as nat % 10));
        }
    }
}

/// Appends the decimal rendering of `i` to `out`.
fn push_int(i: i64, out: &mut String)
    ensures
        final(out)@ == old(out)@ + render_int(i as int),
{
    if i >= 0 {
        push_dec_digits(i as u64, out);
    } else {
        out.append("-");
        let m: u64 = ((-(i + 1)) as u64) + 1;
        push_dec_digits(m, out);
        proof {
            assert(m as nat == (-(i as int)) as nat);
            assert(old(out)@ + "-"@ + dec_digits(m as nat)
                =~= old(out)@ + ("-"@ + dec_digits(m as nat)));
        }
    }
}

/// Appends the structural rendering of `node` to `out`.
#[verifier::loop_isolation(false)]
#[verifier::rlimit(50)]
pub fn push_rendered(node: &YamlNode, out: &mut String)
    ensures
        final(out)@ == old(out)@ + render_val(node@),
    decreases node,
{
    match node {
        YamlNode::Null => out.append("null"),
        YamlNode::Bool(b) => if *b {
            out.append("true")
        } else {
            out.append("false")
        },
        YamlNode::Int(i) => push_int(*i, out),
        YamlNode::Float(bits) => {
            out.append("float(");
            push_dec_digits(*bits, out);
            out.append(")");
            proof {
                assert(final(out)@ =~= old(out)@ + ("float("@ + dec_digits(*bits as nat)
                    + ")"@));
            }
        },
        YamlNode::Str(s) => {
            out.append("\"");
            out.append(s.as_str());
            out.append("\"");
            proof {
                assert(final(out)@ =~= old(out)@ + ("\""@ + s@ + "\""@));
            }
        },
        YamlNode::Sequence(elems) => {
            let ghost parts = rendered_elems(crate::node::yaml_vals_of(elems@));
            out.append("[");
            let mut idx: usize = 0;
            while idx < elems.len()
                invariant
                    idx <= elems.len(),
                    parts == rendered_elems(crate::node::yaml_vals_of(elems@)),
                    parts.len() == elems.len(),
                    out@ == old(out)@ + "["@ + join_comma(parts.take(idx as int)),
                decreases elems.len() - idx,
            {
                if idx > 0 {
                    out.append(",");
                }
                proof {
                    assert(decreases_to!(*node => *elems));
                    assert(decreases_to!(*elems => elems@));
                    assert(decreases_to!(elems@ => elems@[idx as int]));
                }
                push_rendered(&elems[idx], out);
                proof {
                    lemma_join_comma_step(parts, idx as int);
                    assert(parts[idx as int] == render_val(elems@[idx as int]@));
                    if idx > 0 {
                        assert(out@ =~= old(out)@ + "["@ + (join_comma(parts.take(idx as int))
                            + ","@ + parts[idx as int]));
                    } else {
                        assert(out@ =~= old(out)@ + "["@ + parts[0]);
                    }
                }
                idx = idx + 1;
            }
            out.append("]");
            proof {
                assert(parts.take(elems.len() as int) =~= parts);
                assert(final(out)@ =~= old(out)@ + ("["@ + join_comma(parts) + "]"@));
            }
        },
        YamlNode::Mapping(pairs) => {
            let ghost parts = rendered_pairs(crate::node::yaml_pair_vals_of(pairs@));
            out.append("{");
            let mut idx: usize = 0;
            while idx < pairs.len()
                invariant
                    idx <= pairs.len(),
                    parts == rendered_pairs(crate::node::yaml_pair_vals_of(pairs@)),
                    parts.len() == pairs.len(),
                    out@ == old(out)@ + "{"@ + join_comma(parts.take(idx as int)),
                decreases pairs.len() - idx,
            {
                if idx > 0 {
                    out.append(",");
                }
                let ghost mid0 = out@;
                proof {
                    assert(decreases_to!(*node => *pairs));
                    assert(decreases_to!(*pairs => pairs@));
                    assert(decreases_to!(pairs@ => pairs@[idx as int]));
                    assert(decreases_to!(pairs@[idx as int] => pairs@[idx as int].0));
                    assert(decreases_to!(pairs@[idx as int] => pairs@[idx as int].1));
                }
                push_rendered(&pairs[idx].0, out);
                out.append(":");
                push_rendered(&pairs[idx].1, out);
                proof {
                    lemma_join_comma_step(parts, idx as int);
                    assert(parts[idx as int] == rendered_pair(
                        crate::node::yaml_pair_val_of(pairs@[idx as int]),
                    ));
                    assert(out@ =~= mid0 + (render_val(pairs@[idx as int].0@) + ":"@
                        + render_val(pairs@[idx as int].1@)));
                    if idx > 0 {
                        assert(out@ =~= old(out)@ + "{"@ + (join_comma(parts.take(idx as int))
                            + ","@ + parts[idx as int]));
                    } else {
                        assert(out@ =~= old(out)@ + "{"@ + parts[0]);
                    }
                }
                idx = idx + 1;
            }
            out.append("}");
            proof {
                assert(parts.take(pairs.len() as int) =~= parts);
                assert(final(out)@ =~= old(out)@ + ("{"@ + join_comma(parts) + "}"@));
            }
        },
        YamlNode::Other => out.append("other"),
    }
}

/// The JSON object key standing for the mapping key `node`.
pub fn render_key(node: &YamlNode) -> (r: String)
    ensures
        r@ == key_string(node@),
{
    match node {
        YamlNode::Str(s) => s.clone(),
        _ => {
            let mut out = String::new();
            push_rendered(node, &mut out);
            out
        },
    }
}

proof fn lemma_join_comma_step(parts: Seq<Seq<char>>, i: int)
    requires
        0 <= i < parts.len(),
    ensures
        join_comma(parts.take(i + 1)) == if i == 0 {
            parts[0]
        } else {
            join_comma(parts.take(i)) + ","@ + parts[i]
        },
{
    let t = parts.take(i + 1);
    assert(t.drop_last() =~= parts.take(i));
    assert(t.last() == parts[i]);
    if i == 0 {
        assert(join_comma(t) == t[0]);
    }
}

} // verus!
