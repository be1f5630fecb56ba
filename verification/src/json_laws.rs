//! The codec law: parsing the canonical rendering of a well-formed document
//! gives back exactly that document.

use vstd::prelude::*;

use crate::json::{
    digits_end, esc_char, escape_string, is_number_text, lit_at, num_exp_end, num_frac_end,
    num_int_end, p_elems, p_members, p_number, p_str_body, p_string, p_value, parse_fuel,
    parse_json, render_elems, render_json, render_members, skip_ws, wf_elems, wf_json, wf_members,
    Json,
};
use crate::text::{hex_val, hex_digit_of, is_digit_char, is_hex_char, is_ws_char};

verus! {

broadcast use vstd::utf8::char_is_scalar;

/// A character that could extend a number token if it followed one.
pub open spec fn is_num_cont(c: char) -> bool {
    is_digit_char(c) || c == '.' || c == 'e' || c == 'E' || c == '+' || c == '-'
}

/// The lower-case hexadecimal digits read back as their values.
proof fn lemma_hex_digit_roundtrip(d: int)
    requires
        0 <= d < 16,
    ensures
        is_hex_char(hex_digit_of(d)),
        hex_val(hex_digit_of(d)) == d,
{
}

/// Whitespace skipping stops at once on a non-whitespace character.
pub proof fn lemma_skip_ws_stop(s: Seq<char>, i: int)
    requires
        0 <= i,
        i < s.len() ==> !is_ws_char(s[i]),
    ensures
        skip_ws(s, i) == i,
{
}

/// Whitespace skipping runs to the end of an all-whitespace tail.
pub proof fn lemma_skip_ws_all(s: Seq<char>, i: int)
    requires
        0 <= i <= s.len(),
        forall|k: int| i <= k < s.len() ==> is_ws_char(s[k]),
    ensures
        skip_ws(s, i) == s.len(),
    decreases s.len() - i,
{
    if i < s.len() {
        lemma_skip_ws_all(s, i + 1);
    }
}

/// Digit scanning stops exactly at `e` when digits run from `i` to `e` and
/// no digit follows.
pub proof fn lemma_digits_end_char(s: Seq<char>, i: int, e: int)
    requires
        0 <= i <= e <= s.len(),
        forall|k: int| i <= k < e ==> is_digit_char(s[k]),
        e == s.len() || !is_digit_char(s[e]),
    ensures
        digits_end(s, i) == e,
    decreases e - i,
{
    if i < e {
        lemma_digits_end_char(s, i + 1, e);
    }
}

/// What holds of the digit run that `digits_end` found.
pub proof fn lemma_digits_end_props(s: Seq<char>, i: int)
    requires
        0 <= i <= s.len(),
    ensures
        i <= digits_end(s, i) <= s.len(),
        forall|k: int| i <= k < digits_end(s, i) ==> is_digit_char(s[k]),
        digits_end(s, i) == s.len() || !is_digit_char(s[digits_end(s, i)]),
    decreases s.len() - i,
{
    if i < s.len() && is_digit_char(s[i]) {
        lemma_digits_end_props(s, i + 1);
    }
}

/// Reading an escaped text followed by a closing quote gives back the text.
proof fn lemma_p_str_body_render(s: Seq<char>, i: int, t: Seq<char>)
    requires
        0 <= i,
        i + escape_string(t).len() + 1 <= s.len(),
        s.subrange(i, i + escape_string(t).len() + 1) == escape_string(t) + seq!['"'],
    ensures
        p_str_body(s, i) == Some((t, i + escape_string(t).len() + 1)),
    decreases t.len(),
{
    let e = escape_string(t).len() as int;
    if t.len() == 0 {
        assert(s[i] == (escape_string(t) + seq!['"'])[0]);
        assert(s[i] == '"');
    } else {
        let c = t[0];
        let t1 = t.drop_first();
        let w = esc_char(c);
        let l = w.len() as int;
        assert(escape_string(t) == w + escape_string(t1));
        assert forall|k: int| 0 <= k < l implies s[i + k] == w[k] by {
            assert(s[i + k] == (escape_string(t) + seq!['"'])[k]);
        }
        assert(s.subrange(i + l, i + l + escape_string(t1).len() + 1) =~= escape_string(t1)
            + seq!['"']) by {
            assert forall|k: int| 0 <= k < escape_string(t1).len() + 1 implies s[i + l + k] == (
            escape_string(t1) + seq!['"'])[k] by {
                assert(s[i + l + k] == (escape_string(t) + seq!['"'])[l + k]);
            }
        }
        lemma_p_str_body_render(s, i + l, t1);
        assert(seq![c] + t1 =~= t);
        if c == '"' {
            assert(s[i] == '\\' && s[i + 1] == '"');
        } else if c == '\\' {
            assert(s[i] == '\\' && s[i + 1] == '\\');
        } else if c == '\u{8}' {
            assert(s[i] == '\\' && s[i + 1] == 'b');
        } else if c == '\t' {
            assert(s[i] == '\\' && s[i + 1] == 't');
        } else if c == '\n' {
            assert(s[i] == '\\' && s[i + 1] == 'n');
        } else if c == '\u{c}' {
            assert(s[i] == '\\' && s[i + 1] == 'f');
        } else if c == '\r' {
            assert(s[i] == '\\' && s[i + 1] == 'r');
        } else if (c as u32) < 0x20 {
            assert(s[i] == '\\' && s[i + 1] == 'u' && s[i + 2] == '0' && s[i + 3] == '0');
            assert(s[i + 4] == hex_digit_of(((c as u32) / 16) as int));
            assert(s[i + 5] == hex_digit_of(((c as u32) % 16) as int));
            lemma_hex_digit_roundtrip(((c as u32) / 16) as int);
            lemma_hex_digit_roundtrip(((c as u32) % 16) as int);
            let v = crate::json::hex4_val(s, i + 2);
            assert(hex_val('0') == 0);
            assert(v == ((c as u32) / 16) * 16 + ((c as u32) % 16));
            assert(v == c as u32);
            assert((v as char) == c) by {
                vstd::utf8::char_u32_cast(c, c as u32);
                assert(v as u32 == c as u32);
            }
        } else {
            assert(s[i] == c);
            assert(c != '"' && c != '\\' && !((c as u32) < 0x20));
        }
    }
}

/// Reading a rendered string literal gives back its text.
proof fn lemma_p_string_render(s: Seq<char>, i: int, t: Seq<char>)
    requires
        0 <= i,
        i + render_json(Json::Str(t)).len() <= s.len(),
        s.subrange(i, i + render_json(Json::Str(t)).len()) == render_json(Json::Str(t)),
    ensures
        p_string(s, i) == Some((t, i + render_json(Json::Str(t)).len())),
{
    let r = render_json(Json::Str(t));
    let e = escape_string(t).len() as int;
    assert(r == seq!['"'] + escape_string(t) + seq!['"']);
    assert(s[i] == r[0]);
    assert(s[i] == '"');
    assert(s.subrange(i + 1, i + 1 + e + 1) =~= escape_string(t) + seq!['"']) by {
        assert forall|k: int| 0 <= k < e + 1 implies s[i + 1 + k] == (escape_string(t)
            + seq!['"'])[k] by {
            assert(s[i + 1 + k] == r[1 + k]);
            if k < e {
                assert(r[1 + k] == escape_string(t)[k]);
            } else {
                assert(r[1 + k] == '"');
            }
        }
    }
    lemma_p_str_body_render(s, i + 1, t);
}

/// A well-formed number token is read back from wherever it stands, as long
/// as the character after it (if any) could not extend it.
proof fn lemma_p_number_at(s: Seq<char>, i: int, t: Seq<char>)
    requires
        is_number_text(t),
        0 <= i,
        i + t.len() <= s.len(),
        s.subrange(i, i + t.len()) == t,
        i + t.len() == s.len() || !is_num_cont(s[i + t.len()]),
    ensures
        p_number(s, i) == Some((t, i + t.len())),
{
    let n = t.len() as int;
    assert forall|k: int| 0 <= k < n implies s[i + k] == t[k] by {
        assert(s[i + k] == s.subrange(i, i + n)[k]);
    }
    assert(num_int_end(t, 0) is Some);
    let ie0 = num_int_end(t, 0)->0;
    assert(num_frac_end(t, ie0) is Some);
    let fe0 = num_frac_end(t, ie0)->0;
    assert(num_exp_end(t, fe0) is Some);
    let ee0 = num_exp_end(t, fe0)->0;
    assert(ee0 == n) by {
        assert(p_number(t, 0) == Some((t.subrange(0, ee0), ee0)));
    }
    let ms0: int = if t[0] == '-' {
        1
    } else {
        0
    };
    assert(0 <= ms0 < n && is_digit_char(t[ms0]));
    // the integer part
    assert(num_int_end(s, i) == Some(i + ie0) && ms0 < ie0 <= n) by {
        assert(s[i + 0] == t[0]);
        assert(s[i + ms0] == t[ms0]);
        if t[ms0] == '0' {
            assert(ie0 == ms0 + 1);
        } else {
            assert(ie0 == digits_end(t, ms0));
            lemma_digits_end_props(t, ms0);
            crate::json::lemma_digits_end_bounds(t, ms0 + 1);
            assert forall|k: int| i + ms0 <= k < i + ie0 implies is_digit_char(s[k]) by {
                assert(s[i + (k - i)] == t[k - i]);
            }
            if ie0 < n {
                assert(s[i + ie0] == t[ie0]);
            }
            lemma_digits_end_char(s, i + ms0, i + ie0);
        }
    }
    // the fraction part
    assert(num_frac_end(s, i + ie0) == Some(i + fe0) && ie0 <= fe0 <= n) by {
        if ie0 < n && t[ie0] == '.' {
            assert(ie0 + 1 < n && is_digit_char(t[ie0 + 1]));
            assert(fe0 == digits_end(t, ie0 + 1));
            lemma_digits_end_props(t, ie0 + 1);
            assert(s[i + ie0] == t[ie0]);
            assert(s[i + (ie0 + 1)] == t[ie0 + 1]);
            assert forall|k: int| i + ie0 + 1 <= k < i + fe0 implies is_digit_char(s[k]) by {
                assert(s[i + (k - i)] == t[k - i]);
            }
            if fe0 < n {
                assert(s[i + fe0] == t[fe0]);
            }
            lemma_digits_end_char(s, i + ie0 + 1, i + fe0);
        } else {
            assert(fe0 == ie0);
            if ie0 < n {
                assert(s[i + ie0] == t[ie0]);
            }
        }
    }
    // the exponent part
    assert(num_exp_end(s, i + fe0) == Some(i + n)) by {
        if fe0 < n && (t[fe0] == 'e' || t[fe0] == 'E') {
            assert(s[i + fe0] == t[fe0]);
            let es0: int = if fe0 + 1 < n && (t[fe0 + 1] == '+' || t[fe0 + 1] == '-') {
                fe0 + 2
            } else {
                fe0 + 1
            };
            assert(es0 < n && is_digit_char(t[es0]));
            assert(ee0 == digits_end(t, es0));
            lemma_digits_end_props(t, es0);
            if fe0 + 1 < n {
                assert(s[i + (fe0 + 1)] == t[fe0 + 1]);
            }
            assert(s[i + es0] == t[es0]);
            assert forall|k: int| i + es0 <= k < i + n implies is_digit_char(s[k]) by {
                assert(s[i + (k - i)] == t[k - i]);
            }
            lemma_digits_end_char(s, i + es0, i + n);
        } else {
            assert(fe0 == ee0);
            if fe0 < n {
                assert(s[i + fe0] == t[fe0]);
            }
        }
    }
    assert(s.subrange(i, i + n) == t);
}

/// The first character of a rendered document: never whitespace, never a
/// separator, never a closing bracket.
proof fn lemma_render_first(v: Json)
    requires
        wf_json(v),
    ensures
        render_json(v).len() >= 1,
        ({
            let c = render_json(v)[0];
            c == 'n' || c == 't' || c == 'f' || c == '"' || c == '[' || c == '{' || c == '-'
                || is_digit_char(c)
        }),
{
    match v {
        Json::Num(t) => {
            assert(num_int_end(t, 0) is Some);
            let ms0: int = if 0 < t.len() && t[0] == '-' {
                1
            } else {
                0
            };
            assert(0 <= ms0 < t.len() && is_digit_char(t[ms0]));
            assert(p_number(t, 0) == Some((t, t.len() as int)));
        },
        Json::Str(t) => {
            assert(render_json(v)[0] == '"');
        },
        Json::Arr(es) => {
            if es.len() == 0 {
                assert(render_json(v)[0] == '[');
            } else {
                assert(render_json(v)[0] == '[');
            }
        },
        Json::Obj(ms) => {
            if ms.len() == 0 {
                assert(render_json(v)[0] == '{');
            } else {
                assert(render_json(v)[0] == '{');
            }
        },
        _ => {},
    }
}

/// The elements of `es` from `idx` on, rendered with their separators and
/// the closing bracket.
pub open spec fn tail_elems(es: Seq<Json>, idx: int) -> Seq<char>
    decreases es.len() - idx,
{
    if 0 <= idx < es.len() {
        render_json(es[idx]) + (if idx + 1 < es.len() {
            seq![','] + tail_elems(es, idx + 1)
        } else {
            seq![']']
        })
    } else {
        seq![']']
    }
}

/// The members of `ms` from `idx` on, rendered with their separators and the
/// closing brace.
pub open spec fn tail_members(ms: Seq<(Seq<char>, Json)>, idx: int) -> Seq<char>
    decreases ms.len() - idx,
{
    if 0 <= idx < ms.len() {
        render_json(Json::Str(ms[idx].0)) + seq![':'] + render_json(ms[idx].1) + (if idx + 1
            < ms.len() {
            seq![','] + tail_members(ms, idx + 1)
        } else {
            seq!['}']
        })
    } else {
        seq!['}']
    }
}

proof fn lemma_tail_elems_rel(es: Seq<Json>, idx: int)
    requires
        0 <= idx < es.len(),
    ensures
        (if idx > 0 {
            seq![',']
        } else {
            Seq::<char>::empty()
        }) + tail_elems(es, idx) == render_elems(es, idx) + seq![']'],
    decreases es.len() - idx,
{
    let sep: Seq<char> = if idx > 0 {
        seq![',']
    } else {
        Seq::empty()
    };
    if idx + 1 < es.len() {
        lemma_tail_elems_rel(es, idx + 1);
        assert(seq![','] + tail_elems(es, idx + 1) == render_elems(es, idx + 1) + seq![']']);
        assert(sep + tail_elems(es, idx) =~= render_elems(es, idx) + seq![']']);
    } else {
        assert(render_elems(es, idx + 1) =~= Seq::<char>::empty());
        assert(sep + tail_elems(es, idx) =~= render_elems(es, idx) + seq![']']);
    }
}

/// Parsing the canonical rendering of a well-formed document, wherever it
/// stands, gives back exactly that document and stops right after it.
pub proof fn lemma_parse_render(s: Seq<char>, i: int, v: Json, fuel: nat)
    requires
        wf_json(v),
        0 <= i,
        i + render_json(v).len() <= s.len(),
        s.subrange(i, i + render_json(v).len()) == render_json(v),
        fuel >= render_json(v).len(),
        v is Num ==> (i + render_json(v).len() == s.len() || !is_num_cont(
            s[i + render_json(v).len()],
        )),
    ensures
        p_value(s, i, fuel) == Some((v, i + render_json(v).len())),
    decreases v, 0int, 0int,
{
    let r = render_json(v);
    let n = r.len() as int;
    assert forall|k: int| 0 <= k < n implies s[i + k] == r[k] by {
        assert(s[i + k] == s.subrange(i, i + n)[k]);
    }
    lemma_render_first(v);
    assert(s[i] == r[0]);
    lemma_skip_ws_stop(s, i);
    match v {
        Json::Null => {
            assert(lit_at(s, i, seq!['n', 'u', 'l', 'l'])) by {
                assert(s.subrange(i, i + 4) =~= seq!['n', 'u', 'l', 'l']);
            }
        },
        Json::Bool(b) => {
            if b {
                assert(lit_at(s, i, seq!['t', 'r', 'u', 'e'])) by {
                    assert(s.subrange(i, i + 4) =~= seq!['t', 'r', 'u', 'e']);
                }
            } else {
                assert(lit_at(s, i, seq!['f', 'a', 'l', 's', 'e'])) by {
                    assert(s.subrange(i, i + 5) =~= seq!['f', 'a', 'l', 's', 'e']);
                }
            }
        },
        Json::Num(t) => {
            lemma_p_number_at(s, i, t);
        },
        Json::Str(t) => {
            lemma_p_string_render(s, i, t);
        },
        Json::Arr(es) => {
            if es.len() == 0 {
                assert(s[i + 1] == r[1]);
                assert(s[i + 1] == ']');
                lemma_skip_ws_stop(s, i + 1);
                assert(es =~= Seq::<Json>::empty());
            } else {
                let tl = tail_elems(es, 0);
                lemma_tail_elems_rel(es, 0);
                assert(Seq::<char>::empty() + tl =~= tl);
                assert(tl == render_elems(es, 0) + seq![']']);
                assert(r == seq!['['] + render_elems(es, 0) + seq![']']);
                assert(tl.len() == n - 1);
                assert forall|k: int| 0 <= k < tl.len() implies s[i + 1 + k] == tl[k] by {
                    assert(s[i + (1 + k)] == r[1 + k]);
                    if k < render_elems(es, 0).len() {
                        assert(r[1 + k] == render_elems(es, 0)[k]);
                        assert(tl[k] == render_elems(es, 0)[k]);
                    } else {
                        assert(r[1 + k] == ']');
                        assert(tl[k] == ']');
                    }
                }
                assert(s.subrange(i + 1, i + 1 + tl.len()) =~= tl);
                assert(wf_elems(es, 0));
                assert(wf_json(es[0]));
                lemma_render_first(es[0]);
                assert(tl[0] == render_json(es[0])[0]);
                assert(s[i + 1] == render_json(es[0])[0]);
                lemma_skip_ws_stop(s, i + 1);
                assert(s[i + 1] != ']');
                lemma_parse_tail_elems(s, i + 1, es, 0, (fuel - 1) as nat);
                assert(es.skip(0) =~= es);
            }
        },
        Json::Obj(ms) => {
            if ms.len() == 0 {
                assert(s[i + 1] == r[1]);
                assert(s[i + 1] == '}');
                lemma_skip_ws_stop(s, i + 1);
                assert(ms =~= Seq::<(Seq<char>, Json)>::empty());
            } else {
                let tl = tail_members(ms, 0);
                lemma_tail_members_rel(ms, 0);
                assert(Seq::<char>::empty() + tl =~= tl);
                assert(tl == render_members(ms, 0) + seq!['}']);
                assert(r == seq!['{'] + render_members(ms, 0) + seq!['}']);
                assert(tl.len() == n - 1);
                assert forall|k: int| 0 <= k < tl.len() implies s[i + 1 + k] == tl[k] by {
                    assert(s[i + (1 + k)] == r[1 + k]);
                    if k < render_members(ms, 0).len() {
                        assert(r[1 + k] == render_members(ms, 0)[k]);
                        assert(tl[k] == render_members(ms, 0)[k]);
                    } else {
                        assert(r[1 + k] == '}');
                        assert(tl[k] == '}');
                    }
                }
                assert(s.subrange(i + 1, i + 1 + tl.len()) =~= tl);
                assert(wf_members(ms, 0));
                assert(tl[0] == render_json(Json::Str(ms[0].0))[0]);
                assert(render_json(Json::Str(ms[0].0))[0] == '"');
                assert(s[i + 1] == '"');
                lemma_skip_ws_stop(s, i + 1);
                lemma_parse_tail_members(s, i + 1, ms, 0, (fuel - 1) as nat);
                assert(ms.skip(0) =~= ms);
            }
        },
    }
}

/// Parsing the rendered tail of an element list gives back those elements.
proof fn lemma_parse_tail_elems(s: Seq<char>, i: int, es: Seq<Json>, idx: int, fuel: nat)
    requires
        wf_elems(es, idx),
        0 <= idx < es.len(),
        0 <= i,
        i + tail_elems(es, idx).len() <= s.len(),
        s.subrange(i, i + tail_elems(es, idx).len()) == tail_elems(es, idx),
        fuel >= tail_elems(es, idx).len(),
    ensures
        p_elems(s, i, fuel) == Some((es.skip(idx), i + tail_elems(es, idx).len())),
    decreases es, 1int, es.len() - idx,
{
    let tl = tail_elems(es, idx);
    let n = tl.len() as int;
    assert forall|k: int| 0 <= k < n implies s[i + k] == tl[k] by {
        assert(s[i + k] == s.subrange(i, i + n)[k]);
    }
    assert(wf_json(es[idx]));
    let rv = render_json(es[idx]);
    let m = rv.len() as int;
    lemma_render_first(es[idx]);
    assert(s.subrange(i, i + m) =~= rv) by {
        assert forall|k: int| 0 <= k < m implies s[i + k] == rv[k] by {
            assert(tl[k] == rv[k]);
        }
    }
    let sep: char = if idx + 1 < es.len() {
        ','
    } else {
        ']'
    };
    assert(tl[m] == sep);
    assert(s[i + m] == sep);
    lemma_parse_render(s, i, es[idx], (fuel - 1) as nat);
    let k0 = i + m;
    lemma_skip_ws_stop(s, k0);
    if idx + 1 < es.len() {
        let tl1 = tail_elems(es, idx + 1);
        assert(tl == rv + seq![','] + tl1) by {
            assert(rv + (seq![','] + tl1) =~= rv + seq![','] + tl1);
        }
        assert forall|k: int| 0 <= k < tl1.len() implies s[k0 + 1 + k] == tl1[k] by {
            assert(s[i + (m + 1 + k)] == tl[m + 1 + k]);
            assert(tl[m + 1 + k] == tl1[k]);
        }
        assert(s.subrange(k0 + 1, k0 + 1 + tl1.len()) =~= tl1);
        assert(wf_elems(es, idx + 1));
        lemma_parse_tail_elems(s, k0 + 1, es, idx + 1, (fuel - 1) as nat);
        assert(seq![es[idx]] + es.skip(idx + 1) =~= es.skip(idx));
    } else {
        assert(seq![es[idx]] =~= es.skip(idx));
    }
}

/// Parsing the rendered tail of a member list gives back those members.
proof fn lemma_parse_tail_members(s: Seq<char>, i: int, ms: Seq<(Seq<char>, Json)>, idx: int, fuel: nat)
    requires
        wf_members(ms, idx),
        0 <= idx < ms.len(),
        0 <= i,
        i + tail_members(ms, idx).len() <= s.len(),
        s.subrange(i, i + tail_members(ms, idx).len()) == tail_members(ms, idx),
        fuel >= tail_members(ms, idx).len(),
    ensures
        p_members(s, i, fuel) == Some((ms.skip(idx), i + tail_members(ms, idx).len())),
    decreases ms, 1int, ms.len() - idx,
{
    let tl = tail_members(ms, idx);
    let n = tl.len() as int;
    assert forall|k: int| 0 <= k < n implies s[i + k] == tl[k] by {
        assert(s[i + k] == s.subrange(i, i + n)[k]);
    }
    assert(wf_json(ms[idx].1));
    let key = ms[idx].0;
    let rk = render_json(Json::Str(key));
    let mk = rk.len() as int;
    let rv = render_json(ms[idx].1);
    let m = rv.len() as int;
    lemma_render_first(ms[idx].1);
    assert(tl[0] == rk[0]);
    assert(rk[0] == '"');
    assert(s[i] == '"');
    lemma_skip_ws_stop(s, i);
    assert(s.subrange(i, i + mk) =~= rk) by {
        assert forall|k: int| 0 <= k < mk implies s[i + k] == rk[k] by {
            assert(tl[k] == rk[k]);
        }
    }
    lemma_p_string_render(s, i, key);
    assert(tl[mk] == ':');
    assert(s[i + mk] == ':');
    lemma_skip_ws_stop(s, i + mk);
    assert(s.subrange(i + mk + 1, i + mk + 1 + m) =~= rv) by {
        assert forall|k: int| 0 <= k < m implies s[i + mk + 1 + k] == rv[k] by {
            assert(s[i + (mk + 1 + k)] == tl[mk + 1 + k]);
            assert(tl[mk + 1 + k] == rv[k]);
        }
    }
    let sep: char = if idx + 1 < ms.len() {
        ','
    } else {
        '}'
    };
    assert(tl[mk + 1 + m] == sep);
    assert(s[i + mk + 1 + m] == sep);
    lemma_parse_render(s, i + mk + 1, ms[idx].1, (fuel - 1) as nat);
    let k2 = i + mk + 1 + m;
    lemma_skip_ws_stop(s, k2);
    if idx + 1 < ms.len() {
        let tl1 = tail_members(ms, idx + 1);
        assert forall|k: int| 0 <= k < tl1.len() implies s[k2 + 1 + k] == tl1[k] by {
            assert(s[i + (mk + 1 + m + 1 + k)] == tl[mk + 1 + m + 1 + k]);
            assert(tl[mk + 1 + m + 1 + k] == tl1[k]);
        }
        assert(s.subrange(k2 + 1, k2 + 1 + tl1.len()) =~= tl1);
        assert(wf_members(ms, idx + 1));
        lemma_parse_tail_members(s, k2 + 1, ms, idx + 1, (fuel - 1) as nat);
        assert((ms[idx].0, ms[idx].1) == ms[idx]);
        assert(seq![ms[idx]] + ms.skip(idx + 1) =~= ms.skip(idx));
    } else {
        assert((ms[idx].0, ms[idx].1) == ms[idx]);
        assert(seq![ms[idx]] =~= ms.skip(idx));
    }
}

/// The codec round trip: a well-formed document, rendered canonically and
/// followed by nothing but whitespace, parses back to exactly itself.
pub proof fn lemma_parse_render_json(v: Json, rest: Seq<char>)
    requires
        wf_json(v),
        forall|k: int| 0 <= k < rest.len() ==> is_ws_char(rest[k]),
    ensures
        parse_json(render_json(v) + rest) == Some(v),
{
    let r = render_json(v);
    let s = r + rest;
    let n = r.len() as int;
    assert(s.subrange(0, n) =~= r) by {
        assert forall|k: int| 0 <= k < n implies s.subrange(0, n)[k] == r[k] by {
            assert(s[k] == r[k]);
        }
    }
    if v is Num && n < s.len() {
        assert(s[n] == rest[n - r.len()]);
        assert(is_ws_char(s[n]));
    }
    lemma_parse_render(s, 0, v, parse_fuel(s));
    assert forall|k: int| n <= k < s.len() implies is_ws_char(s[k]) by {
        assert(s[k] == rest[k - n]);
    }
    lemma_skip_ws_all(s, n);
}

proof fn lemma_tail_members_rel(ms: Seq<(Seq<char>, Json)>, idx: int)
    requires
        0 <= idx < ms.len(),
    ensures
        (if idx > 0 {
            seq![',']
        } else {
            Seq::<char>::empty()
        }) + tail_members(ms, idx) == render_members(ms, idx) + seq!['}'],
    decreases ms.len() - idx,
{
    let sep: Seq<char> = if idx > 0 {
        seq![',']
    } else {
        Seq::empty()
    };
    if idx + 1 < ms.len() {
        lemma_tail_members_rel(ms, idx + 1);
        assert(seq![','] + tail_members(ms, idx + 1) == render_members(ms, idx + 1) + seq!['}']);
        assert(sep + tail_members(ms, idx) =~= render_members(ms, idx) + seq!['}']);
    } else {
        assert(render_members(ms, idx + 1) =~= Seq::<char>::empty());
        assert(sep + tail_members(ms, idx) =~= render_members(ms, idx) + seq!['}']);
    }
}

} // verus!
