//! The executable JSON reader. Every function mirrors one function of the
//! specification parser in [`crate::json`] and is proved to return exactly
//! what that function says.

use vstd::prelude::*;

use crate::json::{
    cons_char, digits_end, hex4_at, hex4_val, is_high_surrogate, is_low_surrogate, jv_member_views,
    jv_view, jv_views, lit_at, num_exp_end, num_frac_end, num_int_end, p_elems, p_members,
    p_number, p_str_body, p_string, p_value, parse_fuel, parse_json, skip_ws, surrogate_scalar,
    Json, JsonValue,
};
use crate::text::{digit_char, hex_char, hex_value, ws_char};

verus! {

broadcast use vstd::utf8::char_is_scalar;

/// Relies on `char::from_u32`: it returns the character with the given
/// scalar value, and `None` exactly for surrogates and values above
/// `char::MAX`.
#[verifier::external_body]
fn char_from_u32(u: u32) -> (r: Option<char>)
    ensures
        r matches Some(c) ==> c as u32 == u,
        r is Some <==> (u < 0xD800 || (0xE000 <= u && u <= 0x10FFFF)),
{
    char::from_u32(u)
}

/// A successful partial parse, shifted under `a` characters already read.
pub open spec fn prepend_chars(a: Seq<char>, r: Option<(Seq<char>, int)>) -> Option<
    (Seq<char>, int),
> {
    match r {
        Option::Some((t, k)) => Some((a + t, k)),
        Option::None => None,
    }
}

proof fn lemma_prepend_push(a: Seq<char>, c: char, r: Option<(Seq<char>, int)>)
    ensures
        prepend_chars(a, cons_char(c, r)) == prepend_chars(a.push(c), r),
{
    match r {
        Option::Some((t, k)) => {
            assert(a + (seq![c] + t) =~= a.push(c) + t);
        },
        Option::None => {},
    }
}

proof fn lemma_prepend_empty(r: Option<(Seq<char>, int)>)
    ensures
        prepend_chars(Seq::empty(), r) == r,
{
    match r {
        Option::Some((t, k)) => {
            assert(Seq::empty() + t =~= t);
        },
        Option::None => {},
    }
}

/// Executable mirror of [`skip_ws`].
pub fn skip_ws_exec(s: &[char], i: usize) -> (r: usize)
    requires
        i <= s@.len(),
    ensures
        r == skip_ws(s@, i as int),
        i <= r <= s@.len(),
{
    let mut j = i;
    while j < s.len() && ws_char(s[j])
        invariant
            i <= j <= s@.len(),
            skip_ws(s@, i as int) == skip_ws(s@, j as int),
        decreases s@.len() - j,
    {
        j = j + 1;
    }
    j
}

/// Executable mirror of [`digits_end`].
pub fn digits_end_exec(s: &[char], i: usize) -> (r: usize)
    requires
        i <= s@.len(),
    ensures
        r == digits_end(s@, i as int),
        i <= r <= s@.len(),
{
    let mut j = i;
    while j < s.len() && digit_char(s[j])
        invariant
            i <= j <= s@.len(),
            digits_end(s@, i as int) == digits_end(s@, j as int),
        decreases s@.len() - j,
    {
        j = j + 1;
    }
    j
}

/// The characters of `s` from `a` up to `b`.
pub fn copy_range(s: &[char], a: usize, b: usize) -> (r: Vec<char>)
    requires
        a <= b <= s@.len(),
    ensures
        r@ == s@.subrange(a as int, b as int),
{
    let mut r: Vec<char> = Vec::new();
    let mut j = a;
    while j < b
        invariant
            a <= j <= b <= s@.len(),
            r@ == s@.subrange(a as int, j as int),
        decreases b - j,
    {
        let c = s[j];
        r.push(c);
        proof {
            assert(r@ =~= s@.subrange(a as int, j + 1 as int));
        }
        j = j + 1;
    }
    r
}

/// Whether two character slices hold the same text.
pub fn chars_eq(a: &[char], b: &[char]) -> (r: bool)
    ensures
        r == (a@ == b@),
{
    if a.len() != b.len() {
        return false;
    }
    let mut j: usize = 0;
    while j < a.len()
        invariant
            0 <= j <= a@.len(),
            a@.len() == b@.len(),
            forall|k: int| 0 <= k < j ==> a@[k] == b@[k],
        decreases a@.len() - j,
    {
        if a[j] != b[j] {
            return false;
        }
        j = j + 1;
    }
    proof {
        assert(a@ =~= b@);
    }
    true
}

/// Executable mirror of [`p_number`]: the position after one number token
/// starting exactly at `i`.
pub fn p_number_exec(s: &[char], i: usize) -> (r: Option<usize>)
    requires
        i <= s@.len(),
    ensures
        match r {
            Some(ee) => p_number(s@, i as int) == Some(
                (s@.subrange(i as int, ee as int), ee as int),
            ) && i < ee <= s@.len(),
            None => p_number(s@, i as int) is None,
        },
{
    let ms = if i < s.len() && s[i] == '-' {
        i + 1
    } else {
        i
    };
    if !(ms < s.len() && digit_char(s[ms])) {
        proof {
            assert(num_int_end(s@, i as int) is None);
        }
        return None;
    }
    let ie = if s[ms] == '0' {
        ms + 1
    } else {
        digits_end_exec(s, ms)
    };
    proof {
        crate::json::lemma_digits_end_bounds(s@, ms + 1 as int);
        assert(num_int_end(s@, i as int) == Some(ie as int));
        assert(ie > ms);
    }
    let fe = if ie < s.len() && s[ie] == '.' {
        if ie + 1 < s.len() && digit_char(s[ie + 1]) {
            digits_end_exec(s, ie + 1)
        } else {
            proof {
                assert(num_frac_end(s@, ie as int) is None);
            }
            return None;
        }
    } else {
        ie
    };
    proof {
        assert(num_frac_end(s@, ie as int) == Some(fe as int));
    }
    let ee = if fe < s.len() && (s[fe] == 'e' || s[fe] == 'E') {
        let es = if fe + 1 < s.len() && (s[fe + 1] == '+' || s[fe + 1] == '-') {
            fe + 2
        } else {
            fe + 1
        };
        if es < s.len() && digit_char(s[es]) {
            digits_end_exec(s, es)
        } else {
            proof {
                assert(num_exp_end(s@, fe as int) is None);
            }
            return None;
        }
    } else {
        fe
    };
    proof {
        assert(num_exp_end(s@, fe as int) == Some(ee as int));
    }
    Some(ee)
}

/// Executable mirror of [`p_string`]: the decoded text and the position
/// after the closing quote.
#[verifier::rlimit(100)]
pub fn p_string_exec(s: &[char], i: usize) -> (r: Option<(Vec<char>, usize)>)
    requires
        i <= s@.len(),
    ensures
        match r {
            Some(p) => p_string(s@, i as int) == Some((p.0@, p.1 as int)) && i + 2 <= p.1
                <= s@.len(),
            None => p_string(s@, i as int) is None,
        },
{
    if !(i < s.len() && s[i] == '"') {
        return None;
    }
    let mut acc: Vec<char> = Vec::new();
    let mut j: usize = i + 1;
    proof {
        lemma_prepend_empty(p_str_body(s@, j as int));
        assert(acc@ =~= Seq::<char>::empty());
    }
    loop
        invariant
            i < s@.len(),
            s@[i as int] == '"',
            i + 1 <= j <= s@.len(),
            p_str_body(s@, i + 1 as int) == prepend_chars(acc@, p_str_body(s@, j as int)),
        decreases s@.len() - j,
    {
        if j >= s.len() {
            return None;
        }
        let c = s[j];
        if c == '"' {
            proof {
                assert(p_str_body(s@, j as int) == Some((Seq::<char>::empty(), j + 1 as int)));
                assert(acc@ + Seq::<char>::empty() =~= acc@);
                assert(p_str_body(s@, i + 1 as int) == Some((acc@, j + 1 as int)));
                assert(p_string(s@, i as int) == Some((acc@, j + 1 as int)));
                assert(i + 2 <= j + 1);
            }
            return Some((acc, j + 1));
        } else if c == '\\' {
            if j + 1 >= s.len() {
                return None;
            }
            let e = s[j + 1];
            if e == '"' || e == '\\' || e == '/' || e == 'b' || e == 'f' || e == 'n' || e == 'r'
                || e == 't' {
                let d = if e == '"' {
                    '"'
                } else if e == '\\' {
                    '\\'
                } else if e == '/' {
                    '/'
                } else if e == 'b' {
                    '\u{8}'
                } else if e == 'f' {
                    '\u{c}'
                } else if e == 'n' {
                    '\n'
                } else if e == 'r' {
                    '\r'
                } else {
                    '\t'
                };
                proof {
                    assert(p_str_body(s@, j as int) == cons_char(d, p_str_body(s@, j + 2 as int)));
                    lemma_prepend_push(acc@, d, p_str_body(s@, j + 2 as int));
                }
                acc.push(d);
                j = j + 2;
            } else if e == 'u' {
                if s.len() - j < 6 || !(hex_char(s[j + 2]) && hex_char(s[j + 3]) && hex_char(
                    s[j + 4],
                ) && hex_char(s[j + 5])) {
                    proof {
                        assert(!hex4_at(s@, j + 2 as int));
                    }
                    return None;
                }
                let v: u32 = hex_value(s[j + 2]) * 4096 + hex_value(s[j + 3]) * 256 + hex_value(
                    s[j + 4],
                ) * 16 + hex_value(s[j + 5]);
                proof {
                    assert(hex4_at(s@, j + 2 as int));
                    assert(v == hex4_val(s@, j + 2 as int));
                }
                if 0xD800 <= v && v <= 0xDBFF {
                    if s.len() - j >= 12 && s[j + 6] == '\\' && s[j + 7] == 'u' && hex_char(
                        s[j + 8],
                    ) && hex_char(s[j + 9]) && hex_char(s[j + 10]) && hex_char(s[j + 11]) {
                        let w: u32 = hex_value(s[j + 8]) * 4096 + hex_value(s[j + 9]) * 256
                            + hex_value(s[j + 10]) * 16 + hex_value(s[j + 11]);
                        proof {
                            assert(hex4_at(s@, j + 8 as int));
                            assert(w == hex4_val(s@, j + 8 as int));
                        }
                        if !(0xDC00 <= w && w <= 0xDFFF) {
                            return None;
                        }
                        let cp: u32 = 0x10000 + (v - 0xD800) * 0x400 + (w - 0xDC00);
                        proof {
                            assert(cp == surrogate_scalar(v as int, w as int));
                        }
                        let d = match char_from_u32(cp) {
                            Some(d) => d,
                            None => {
                                proof {
                                    assert(false);
                                }
                                '?'
                            },
                        };
                        proof {
                            vstd::utf8::char_u32_cast(d, cp);
                            assert(p_str_body(s@, j as int) == cons_char(
                                surrogate_scalar(v as int, w as int) as char,
                                p_str_body(s@, j + 12 as int),
                            ));
                            lemma_prepend_push(acc@, d, p_str_body(s@, j + 12 as int));
                        }
                        acc.push(d);
                        j = j + 12;
                    } else {
                        return None;
                    }
                } else if 0xDC00 <= v && v <= 0xDFFF {
                    return None;
                } else {
                    let d = match char_from_u32(v) {
                        Some(d) => d,
                        None => {
                            proof {
                                assert(false);
                            }
                            '?'
                        },
                    };
                    proof {
                        vstd::utf8::char_u32_cast(d, v);
                        assert(p_str_body(s@, j as int) == cons_char(
                            hex4_val(s@, j + 2 as int) as char,
                            p_str_body(s@, j + 6 as int),
                        ));
                        lemma_prepend_push(acc@, d, p_str_body(s@, j + 6 as int));
                    }
                    acc.push(d);
                    j = j + 6;
                }
            } else {
                return None;
            }
        } else if (c as u32) < 0x20 {
            return None;
        } else {
            proof {
                assert(p_str_body(s@, j as int) == cons_char(c, p_str_body(s@, j + 1 as int)));
                lemma_prepend_push(acc@, c, p_str_body(s@, j + 1 as int));
            }
            acc.push(c);
            j = j + 1;
        }
    }
}

proof fn lemma_jv_views_cons(v: JsonValue, r: Seq<JsonValue>, i: int)
    requires
        0 <= i <= r.len(),
    ensures
        jv_views(seq![v] + r, i + 1) == jv_views(r, i),
    decreases r.len() - i,
{
    let e = seq![v] + r;
    if i < r.len() {
        lemma_jv_views_cons(v, r, i + 1);
        assert(e[i + 1] == r[i]);
    }
}

proof fn lemma_jv_member_views_cons(m: (Vec<char>, JsonValue), r: Seq<(Vec<char>, JsonValue)>, i: int)
    requires
        0 <= i <= r.len(),
    ensures
        jv_member_views(seq![m] + r, i + 1) == jv_member_views(r, i),
    decreases r.len() - i,
{
    let e = seq![m] + r;
    if i < r.len() {
        lemma_jv_member_views_cons(m, r, i + 1);
        assert(e[i + 1] == r[i]);
    }
}

/// Executable mirror of [`p_value`].
pub fn p_value_exec(s: &[char], i: usize, Ghost(fuel): Ghost<nat>) -> (r: Option<
    (JsonValue, usize),
>)
    requires
        i <= s@.len(),
        fuel >= 2 * (s@.len() - i) + 1,
    ensures
        match r {
            Some(p) => p_value(s@, i as int, fuel) == Some((p.0@, p.1 as int)) && i < p.1
                <= s@.len(),
            None => p_value(s@, i as int, fuel) is None,
        },
    decreases s@.len() - i, 0int,
{
    let j = skip_ws_exec(s, i);
    if j >= s.len() {
        return None;
    }
    let c = s[j];
    if c == '"' {
        match p_string_exec(s, j) {
            Some((t, k)) => Some((JsonValue::Str(t), k)),
            None => None,
        }
    } else if c == '[' {
        let j2 = skip_ws_exec(s, j + 1);
        if j2 < s.len() && s[j2] == ']' {
            let es: Vec<JsonValue> = Vec::new();
            proof {
                assert(jv_view(JsonValue::Arr(es)) == Json::Arr(jv_views(es@, 0)));
                assert(jv_views(es@, 0) =~= Seq::<Json>::empty());
            }
            Some((JsonValue::Arr(es), j2 + 1))
        } else {
            proof {
                assert(fuel - 1 >= 2 * (s@.len() - (j + 1)) + 2);
            }
            match p_elems_exec(s, j + 1, Ghost((fuel - 1) as nat)) {
                Some((es, k)) => Some((JsonValue::Arr(es), k)),
                None => None,
            }
        }
    } else if c == '{' {
        let j2 = skip_ws_exec(s, j + 1);
        if j2 < s.len() && s[j2] == '}' {
            let ms: Vec<(Vec<char>, JsonValue)> = Vec::new();
            proof {
                assert(jv_member_views(ms@, 0) =~= Seq::<(Seq<char>, Json)>::empty());
            }
            Some((JsonValue::Obj(ms), j2 + 1))
        } else {
            proof {
                assert(fuel - 1 >= 2 * (s@.len() - (j + 1)) + 2);
            }
            match p_members_exec(s, j + 1, Ghost((fuel - 1) as nat)) {
                Some((ms, k)) => Some((JsonValue::Obj(ms), k)),
                None => None,
            }
        }
    } else if c == 'n' {
        if s.len() - j >= 4 && s[j + 1] == 'u' && s[j + 2] == 'l' && s[j + 3] == 'l' {
            proof {
                assert(s@.subrange(j as int, j + 4 as int) =~= seq!['n', 'u', 'l', 'l']);
            }
            Some((JsonValue::Null, j + 4))
        } else {
            proof {
                let w = seq!['n', 'u', 'l', 'l'];
                if lit_at(s@, j as int, w) {
                    assert(s@[j + 1 as int] == s@.subrange(j as int, j + 4 as int)[1]);
                    assert(s@[j + 2 as int] == s@.subrange(j as int, j + 4 as int)[2]);
                    assert(s@[j + 3 as int] == s@.subrange(j as int, j + 4 as int)[3]);
                }
            }
            None
        }
    } else if c == 't' {
        if s.len() - j >= 4 && s[j + 1] == 'r' && s[j + 2] == 'u' && s[j + 3] == 'e' {
            proof {
                assert(s@.subrange(j as int, j + 4 as int) =~= seq!['t', 'r', 'u', 'e']);
            }
            Some((JsonValue::Bool(true), j + 4))
        } else {
            proof {
                let w = seq!['t', 'r', 'u', 'e'];
                if lit_at(s@, j as int, w) {
                    assert(s@[j + 1 as int] == s@.subrange(j as int, j + 4 as int)[1]);
                    assert(s@[j + 2 as int] == s@.subrange(j as int, j + 4 as int)[2]);
                    assert(s@[j + 3 as int] == s@.subrange(j as int, j + 4 as int)[3]);
                }
            }
            None
        }
    } else if c == 'f' {
        if s.len() - j >= 5 && s[j + 1] == 'a' && s[j + 2] == 'l' && s[j + 3] == 's' && s[j + 4]
            == 'e' {
            proof {
                assert(s@.subrange(j as int, j + 5 as int) =~= seq!['f', 'a', 'l', 's', 'e']);
            }
            Some((JsonValue::Bool(false), j + 5))
        } else {
            proof {
                let w = seq!['f', 'a', 'l', 's', 'e'];
                if lit_at(s@, j as int, w) {
                    assert(s@[j + 1 as int] == s@.subrange(j as int, j + 5 as int)[1]);
                    assert(s@[j + 2 as int] == s@.subrange(j as int, j + 5 as int)[2]);
                    assert(s@[j + 3 as int] == s@.subrange(j as int, j + 5 as int)[3]);
                    assert(s@[j + 4 as int] == s@.subrange(j as int, j + 5 as int)[4]);
                }
            }
            None
        }
    } else if c == '-' || digit_char(c) {
        match p_number_exec(s, j) {
            Some(ee) => {
                let t = copy_range(s, j, ee);
                Some((JsonValue::Num(t), ee))
            },
            None => None,
        }
    } else {
        None
    }
}

/// Executable mirror of [`p_elems`].
pub fn p_elems_exec(s: &[char], i: usize, Ghost(fuel): Ghost<nat>) -> (r: Option<
    (Vec<JsonValue>, usize),
>)
    requires
        i <= s@.len(),
        fuel >= 2 * (s@.len() - i) + 2,
    ensures
        match r {
            Some(p) => p_elems(s@, i as int, fuel) == Some((jv_views(p.0@, 0), p.1 as int)) && i
                < p.1 <= s@.len(),
            None => p_elems(s@, i as int, fuel) is None,
        },
    decreases s@.len() - i, 1int,
{
    match p_value_exec(s, i, Ghost((fuel - 1) as nat)) {
        None => None,
        Some((v, k)) => {
            let j = skip_ws_exec(s, k);
            if j < s.len() && s[j] == ',' {
                proof {
                    assert(fuel - 1 >= 2 * (s@.len() - (j + 1)) + 2);
                }
                match p_elems_exec(s, j + 1, Ghost((fuel - 1) as nat)) {
                    Some((es0, k2)) => {
                        let ghost rest = es0@;
                        let mut es = es0;
                        es.insert(0, v);
                        proof {
                            assert(es@ =~= seq![v] + rest);
                            lemma_jv_views_cons(v, rest, 0);
                            assert(jv_views(es@, 0) =~= seq![jv_view(v)] + jv_views(rest, 0));
                        }
                        Some((es, k2))
                    },
                    None => None,
                }
            } else if j < s.len() && s[j] == ']' {
                let mut es: Vec<JsonValue> = Vec::new();
                es.push(v);
                proof {
                    assert(es@ =~= seq![v]);
                    assert(jv_views(es@, 1) =~= Seq::<Json>::empty());
                    assert(jv_views(es@, 0) =~= seq![jv_view(v)]);
                }
                Some((es, j + 1))
            } else {
                None
            }
        },
    }
}

/// Executable mirror of [`p_members`].
pub fn p_members_exec(s: &[char], i: usize, Ghost(fuel): Ghost<nat>) -> (r: Option<
    (Vec<(Vec<char>, JsonValue)>, usize),
>)
    requires
        i <= s@.len(),
        fuel >= 2 * (s@.len() - i) + 2,
    ensures
        match r {
            Some(p) => p_members(s@, i as int, fuel) == Some(
                (jv_member_views(p.0@, 0), p.1 as int),
            ) && i < p.1 <= s@.len(),
            None => p_members(s@, i as int, fuel) is None,
        },
    decreases s@.len() - i, 1int,
{
    let j0 = skip_ws_exec(s, i);
    match p_string_exec(s, j0) {
        None => None,
        Some((key, k)) => {
            let j2 = skip_ws_exec(s, k);
            if j2 < s.len() && s[j2] == ':' {
                match p_value_exec(s, j2 + 1, Ghost((fuel - 1) as nat)) {
                    None => None,
                    Some((v, k2)) => {
                        let j3 = skip_ws_exec(s, k2);
                        if j3 < s.len() && s[j3] == ',' {
                            proof {
                                assert(fuel - 1 >= 2 * (s@.len() - (j3 + 1)) + 2);
                            }
                            match p_members_exec(s, j3 + 1, Ghost((fuel - 1) as nat)) {
                                Some((ms0, k3)) => {
                                    let ghost rest = ms0@;
                                    let ghost kv = (key@, jv_view(v));
                                    let mut ms = ms0;
                                    ms.insert(0, (key, v));
                                    proof {
                                        assert(ms@ =~= seq![(ms@[0].0, ms@[0].1)] + rest);
                                        lemma_jv_member_views_cons(ms@[0], rest, 0);
                                        assert(jv_member_views(ms@, 0) =~= seq![kv]
                                            + jv_member_views(rest, 0));
                                    }
                                    Some((ms, k3))
                                },
                                None => None,
                            }
                        } else if j3 < s.len() && s[j3] == '}' {
                            let mut ms: Vec<(Vec<char>, JsonValue)> = Vec::new();
                            ms.push((key, v));
                            proof {
                                assert(jv_member_views(ms@, 1) =~= Seq::<
                                    (Seq<char>, Json),
                                >::empty());
                                assert(jv_member_views(ms@, 0) =~= seq![(ms@[0].0@, jv_view(ms@[0].1))]);
                            }
                            Some((ms, j3 + 1))
                        } else {
                            None
                        }
                    },
                }
            } else {
                None
            }
        },
    }
}

/// Reads a whole character sequence as one JSON document, as
/// [`parse_json`] describes.
pub fn parse_json_chars(s: &[char]) -> (r: Option<JsonValue>)
    ensures
        match r {
            Some(jv) => parse_json(s@) == Some(jv@),
            None => parse_json(s@) is None,
        },
{
    match p_value_exec(s, 0, Ghost(parse_fuel(s@))) {
        Some((jv, k)) => {
            let j = skip_ws_exec(s, k);
            if j == s.len() {
                Some(jv)
            } else {
                None
            }
        },
        None => None,
    }
}

} // verus!
