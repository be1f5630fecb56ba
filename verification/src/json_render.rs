//! The executable JSON writer: it produces exactly the canonical rendering
//! [`render_json`] of a document.

use vstd::prelude::*;

use crate::json::{
    esc_char, escape_string, jv_member_views, jv_view, jv_views, lemma_jv_member_views_index,
    lemma_jv_views_index, render_elems, render_json, render_members, Json, JsonValue,
};
use crate::text::hex_digit_char_of;

verus! {

broadcast use vstd::utf8::char_is_scalar;

/// Appends the characters of `t`.
fn push_all(out: &mut Vec<char>, t: &[char])
    ensures
        final(out)@ == old(out)@ + t@,
{
    let ghost base = old(out)@;
    let mut idx: usize = 0;
    while idx < t.len()
        invariant
            0 <= idx <= t@.len(),
            out@ == base + t@.take(idx as int),
        decreases t@.len() - idx,
    {
        let c = t[idx];
        out.push(c);
        proof {
            assert(base + t@.take(idx as int) + seq![t@[idx as int]] =~= base + t@.take(
                idx + 1 as int,
            ));
        }
        idx = idx + 1;
    }
    proof {
        assert(t@.take(t@.len() as int) =~= t@);
    }
}

/// Appends one character in its escaped form.
fn esc_push(out: &mut Vec<char>, c: char)
    ensures
        final(out)@ == old(out)@ + esc_char(c),
{
    if c == '"' {
        out.push('\\');
        out.push('"');
        proof {
            assert(out@ =~= old(out)@ + esc_char(c));
        }
    } else if c == '\\' {
        out.push('\\');
        out.push('\\');
        proof {
            assert(out@ =~= old(out)@ + esc_char(c));
        }
    } else if c == '\u{8}' {
        out.push('\\');
        out.push('b');
        proof {
            assert(out@ =~= old(out)@ + esc_char(c));
        }
    } else if c == '\t' {
        out.push('\\');
        out.push('t');
        proof {
            assert(out@ =~= old(out)@ + esc_char(c));
        }
    } else if c == '\n' {
        out.push('\\');
        out.push('n');
        proof {
            assert(out@ =~= old(out)@ + esc_char(c));
        }
    } else if c == '\u{c}' {
        out.push('\\');
        out.push('f');
        proof {
            assert(out@ =~= old(out)@ + esc_char(c));
        }
    } else if c == '\r' {
        out.push('\\');
        out.push('r');
        proof {
            assert(out@ =~= old(out)@ + esc_char(c));
        }
    } else if (c as u32) < 0x20 {
        out.push('\\');
        out.push('u');
        out.push('0');
        out.push('0');
        out.push(hex_digit_char_of((c as u32) / 16));
        out.push(hex_digit_char_of((c as u32) % 16));
        proof {
            assert(out@ =~= old(out)@ + esc_char(c));
        }
    } else {
        out.push(c);
        proof {
            assert(out@ =~= old(out)@ + esc_char(c));
        }
    }
}

/// Appends the escaped form of a whole text.
fn escape_into(out: &mut Vec<char>, t: &[char])
    ensures
        final(out)@ == old(out)@ + escape_string(t@),
{
    let ghost base = old(out)@;
    let mut idx: usize = 0;
    proof {
        assert(t@.skip(0) =~= t@);
    }
    while idx < t.len()
        invariant
            0 <= idx <= t@.len(),
            out@ + escape_string(t@.skip(idx as int)) == base + escape_string(t@),
        decreases t@.len() - idx,
    {
        let c = t[idx];
        let ghost pre = out@;
        esc_push(out, c);
        proof {
            let rest = t@.skip(idx as int);
            assert(rest[0] == t@[idx as int]);
            assert(rest.drop_first() =~= t@.skip(idx + 1 as int));
            assert(escape_string(rest) == esc_char(c) + escape_string(t@.skip(idx + 1 as int)));
            assert(pre + esc_char(c) + escape_string(t@.skip(idx + 1 as int)) =~= pre
                + escape_string(rest));
        }
        idx = idx + 1;
    }
    proof {
        assert(t@.skip(t@.len() as int) =~= Seq::<char>::empty());
        assert(out@ + Seq::<char>::empty() =~= out@);
    }
}

/// Appends the canonical rendering of a document.
fn render_into(v: &JsonValue, out: &mut Vec<char>)
    ensures
        final(out)@ == old(out)@ + render_json(v@),
    decreases v@,
{
    let ghost base = old(out)@;
    match v {
        JsonValue::Null => {
            out.push('n');
            out.push('u');
            out.push('l');
            out.push('l');
            proof {
                assert(out@ =~= base + render_json(v@));
            }
        },
        JsonValue::Bool(b) => {
            if *b {
                out.push('t');
                out.push('r');
                out.push('u');
                out.push('e');
            } else {
                out.push('f');
                out.push('a');
                out.push('l');
                out.push('s');
                out.push('e');
            }
            proof {
                assert(out@ =~= base + render_json(v@));
            }
        },
        JsonValue::Num(t) => {
            push_all(out, t.as_slice());
        },
        JsonValue::Str(t) => {
            out.push('"');
            escape_into(out, t.as_slice());
            out.push('"');
            proof {
                assert(out@ =~= base + render_json(v@));
            }
        },
        JsonValue::Arr(es) => {
            let ghost vs = jv_views(es@, 0);
            proof {
                lemma_jv_views_index(es@, 0);
            }
            out.push('[');
            if es.len() == 0 {
                out.push(']');
                proof {
                    assert(out@ =~= base + render_json(v@));
                }
            } else {
                let mut idx: usize = 0;
                proof {
                    assert(out@ + render_elems(vs, 0) =~= base + seq!['['] + render_elems(vs, 0));
                }
                while idx < es.len()
                    invariant
                        0 <= idx <= es@.len(),
                        0 < es@.len(),
                        v@ == Json::Arr(vs),
                        vs == jv_views(es@, 0),
                        vs.len() == es@.len(),
                        forall|k: int| 0 <= k < es@.len() ==> vs[k] == jv_view(es@[k]),
                        out@ + render_elems(vs, idx as int) == base + seq!['['] + render_elems(
                            vs,
                            0,
                        ),
                    decreases es@.len() - idx,
                {
                    let ghost pre = out@;
                    if idx > 0 {
                        out.push(',');
                    }
                    proof {
                        assert(v@ == Json::Arr(vs));
                        assert(decreases_to!(v@ => v@->Arr_0));
                        assert(decreases_to!(vs => vs[idx as int]));
                        assert(decreases_to!(v@ => vs[idx as int]));
                        assert(es@[idx as int]@ == vs[idx as int]);
                    }
                    render_into(&es[idx], out);
                    proof {
                        let sep: Seq<char> = if idx > 0 {
                            seq![',']
                        } else {
                            Seq::empty()
                        };
                        assert(render_elems(vs, idx as int) == sep + render_json(vs[idx as int])
                            + render_elems(vs, idx + 1 as int));
                        assert(out@ =~= pre + sep + render_json(vs[idx as int]));
                        assert(out@ + render_elems(vs, idx + 1 as int) =~= pre + render_elems(
                            vs,
                            idx as int,
                        ));
                    }
                    idx = idx + 1;
                }
                proof {
                    assert(render_elems(vs, es@.len() as int) =~= Seq::<char>::empty());
                    assert(out@ + Seq::<char>::empty() =~= out@);
                }
                out.push(']');
                proof {
                    assert(render_json(v@) == seq!['['] + render_elems(vs, 0) + seq![']']);
                    assert(out@ =~= base + render_json(v@));
                }
            }
        },
        JsonValue::Obj(ms) => {
            let ghost vs = jv_member_views(ms@, 0);
            proof {
                lemma_jv_member_views_index(ms@, 0);
            }
            out.push('{');
            if ms.len() == 0 {
                out.push('}');
                proof {
                    assert(out@ =~= base + render_json(v@));
                }
            } else {
                let mut idx: usize = 0;
                proof {
                    assert(out@ + render_members(vs, 0) =~= base + seq!['{'] + render_members(
                        vs,
                        0,
                    ));
                }
                while idx < ms.len()
                    invariant
                        0 <= idx <= ms@.len(),
                        0 < ms@.len(),
                        v@ == Json::Obj(vs),
                        vs == jv_member_views(ms@, 0),
                        vs.len() == ms@.len(),
                        forall|k: int|
                            0 <= k < ms@.len() ==> vs[k] == (ms@[k].0@, jv_view(ms@[k].1)),
                        out@ + render_members(vs, idx as int) == base + seq!['{'] + render_members(
                            vs,
                            0,
                        ),
                    decreases ms@.len() - idx,
                {
                    let ghost pre = out@;
                    if idx > 0 {
                        out.push(',');
                    }
                    out.push('"');
                    escape_into(out, ms[idx].0.as_slice());
                    out.push('"');
                    out.push(':');
                    proof {
                        assert(v@ == Json::Obj(vs));
                        assert(decreases_to!(v@ => v@->Obj_0));
                        assert(decreases_to!(vs => vs[idx as int]));
                        assert(decreases_to!(vs[idx as int] => vs[idx as int].1));
                        assert(decreases_to!(v@ => vs[idx as int].1));
                        assert(ms@[idx as int].1@ == vs[idx as int].1);
                    }
                    render_into(&ms[idx].1, out);
                    proof {
                        let sep: Seq<char> = if idx > 0 {
                            seq![',']
                        } else {
                            Seq::empty()
                        };
                        assert(render_members(vs, idx as int) == sep + seq!['"'] + escape_string(
                            vs[idx as int].0,
                        ) + seq!['"', ':'] + render_json(vs[idx as int].1) + render_members(
                            vs,
                            idx + 1 as int,
                        ));
                        assert(out@ =~= pre + sep + seq!['"'] + escape_string(vs[idx as int].0)
                            + seq!['"', ':'] + render_json(vs[idx as int].1));
                        assert(out@ + render_members(vs, idx + 1 as int) =~= pre + render_members(
                            vs,
                            idx as int,
                        ));
                    }
                    idx = idx + 1;
                }
                proof {
                    assert(render_members(vs, ms@.len() as int) =~= Seq::<char>::empty());
                    assert(out@ + Seq::<char>::empty() =~= out@);
                }
                out.push('}');
                proof {
                    assert(render_json(v@) == seq!['{'] + render_members(vs, 0) + seq!['}']);
                    assert(out@ =~= base + render_json(v@));
                }
            }
        },
    }
}

/// The canonical rendering of a document, as characters.
pub fn render_json_chars(v: &JsonValue) -> (r: Vec<char>)
    ensures
        r@ == render_json(v@),
{
    let mut out: Vec<char> = Vec::new();
    render_into(v, &mut out);
    proof {
        assert(Seq::<char>::empty() + render_json(v@) =~= render_json(v@));
    }
    out
}

} // verus!
