//! The mathematical model of the wire format: a JSON document tree, its
//! canonical rendering, and a deterministic specification-level parser.
//!
//! The parser takes the whole input, a position, and a fuel bound (needed
//! only to justify termination); [`parse_json`] instantiates the fuel with a
//! value large enough for every input of that length.

use vstd::prelude::*;

use crate::text::{
    digit_val, hex_digit_of, hex_val, is_digit_char, is_hex_char, is_ws_char,
};

verus! {

/// A JSON document: the model every contract of the codec speaks of.
/// Numbers keep their exact wire text; strings hold their decoded
/// characters.
pub enum Json {
    Null,
    Bool(bool),
    Num(Seq<char>),
    Str(Seq<char>),
    Arr(Seq<Json>),
    Obj(Seq<(Seq<char>, Json)>),
}

/// An owned JSON document, as executable code builds and inspects it.
pub enum JsonValue {
    Null,
    Bool(bool),
    Num(Vec<char>),
    Str(Vec<char>),
    Arr(Vec<JsonValue>),
    Obj(Vec<(Vec<char>, JsonValue)>),
}

/// The model of an executable JSON document.
pub open spec fn jv_view(v: JsonValue) -> Json
    decreases v, 0int, 0int,
{
    match v {
        JsonValue::Null => Json::Null,
        JsonValue::Bool(b) => Json::Bool(b),
        JsonValue::Num(t) => Json::Num(t@),
        JsonValue::Str(t) => Json::Str(t@),
        JsonValue::Arr(es) => Json::Arr(jv_views(es@, 0)),
        JsonValue::Obj(ms) => Json::Obj(jv_member_views(ms@, 0)),
    }
}

/// The models of the elements of `es` from index `i` on.
pub open spec fn jv_views(es: Seq<JsonValue>, i: int) -> Seq<Json>
    decreases es, 1int, es.len() - i,
{
    if 0 <= i < es.len() {
        seq![jv_view(es[i])] + jv_views(es, i + 1)
    } else {
        Seq::empty()
    }
}

/// The models of the members of `ms` from index `i` on.
pub open spec fn jv_member_views(ms: Seq<(Vec<char>, JsonValue)>, i: int) -> Seq<
    (Seq<char>, Json),
>
    decreases ms, 1int, ms.len() - i,
{
    if 0 <= i < ms.len() {
        seq![(ms[i].0@, jv_view(ms[i].1))] + jv_member_views(ms, i + 1)
    } else {
        Seq::empty()
    }
}

/// The element views are the views of the elements, position by position.
pub proof fn lemma_jv_views_index(es: Seq<JsonValue>, i: int)
    requires
        0 <= i <= es.len(),
    ensures
        jv_views(es, i).len() == es.len() - i,
        forall|k: int| 0 <= k < es.len() - i ==> jv_views(es, i)[k] == jv_view(es[i + k]),
    decreases es.len() - i,
{
    if i < es.len() {
        lemma_jv_views_index(es, i + 1);
    }
}

/// The member views are the views of the members, position by position.
pub proof fn lemma_jv_member_views_index(ms: Seq<(Vec<char>, JsonValue)>, i: int)
    requires
        0 <= i <= ms.len(),
    ensures
        jv_member_views(ms, i).len() == ms.len() - i,
        forall|k: int|
            0 <= k < ms.len() - i ==> jv_member_views(ms, i)[k] == (
            ms[i + k].0@,
            jv_view(ms[i + k].1),
            ),
    decreases ms.len() - i,
{
    if i < ms.len() {
        lemma_jv_member_views_index(ms, i + 1);
    }
}

impl View for JsonValue {
    type V = Json;

    open spec fn view(&self) -> Json {
        jv_view(*self)
    }
}

// ---------------------------------------------------------------------------
// Canonical rendering
// ---------------------------------------------------------------------------
/// How one character appears inside a rendered string literal: quote,
/// backslash and control characters are escaped, everything else stands for
/// itself.
pub open spec fn esc_char(c: char) -> Seq<char> {
    if c == '"' {
        seq!['\\', '"']
    } else if c == '\\' {
        seq!['\\', '\\']
    } else if c == '\u{8}' {
        seq!['\\', 'b']
    } else if c == '\t' {
        seq!['\\', 't']
    } else if c == '\n' {
        seq!['\\', 'n']
    } else if c == '\u{c}' {
        seq!['\\', 'f']
    } else if c == '\r' {
        seq!['\\', 'r']
    } else if (c as u32) < 0x20 {
        seq!['\\', 'u', '0', '0', hex_digit_of(((c as u32) / 16) as int), hex_digit_of(((c as u32) % 16) as int)]
    } else {
        seq![c]
    }
}

/// A rendered string body: each character escaped as needed.
pub open spec fn escape_string(t: Seq<char>) -> Seq<char>
    decreases t.len(),
{
    if t.len() == 0 {
        Seq::empty()
    } else {
        esc_char(t[0]) + escape_string(t.drop_first())
    }
}

/// The canonical text of a document: no whitespace, members and elements in
/// order, strings escaped by [`escape_string`].
pub open spec fn render_json(v: Json) -> Seq<char>
    decreases v, 0int, 0int,
{
    match v {
        Json::Null => seq!['n', 'u', 'l', 'l'],
        Json::Bool(b) => if b {
            seq!['t', 'r', 'u', 'e']
        } else {
            seq!['f', 'a', 'l', 's', 'e']
        },
        Json::Num(t) => t,
        Json::Str(t) => seq!['"'] + escape_string(t) + seq!['"'],
        Json::Arr(es) => if es.len() == 0 {
            seq!['[', ']']
        } else {
            seq!['['] + render_elems(es, 0) + seq![']']
        },
        Json::Obj(ms) => if ms.len() == 0 {
            seq!['{', '}']
        } else {
            seq!['{'] + render_members(ms, 0) + seq!['}']
        },
    }
}

/// The rendered elements of `es` from index `i` on, comma-separated.
pub open spec fn render_elems(es: Seq<Json>, i: int) -> Seq<char>
    decreases es, 1int, es.len() - i,
{
    if 0 <= i < es.len() {
        (if i > 0 {
            seq![',']
        } else {
            Seq::empty()
        }) + render_json(es[i]) + render_elems(es, i + 1)
    } else {
        Seq::empty()
    }
}

/// The rendered members of `ms` from index `i` on, comma-separated.
pub open spec fn render_members(ms: Seq<(Seq<char>, Json)>, i: int) -> Seq<char>
    decreases ms, 1int, ms.len() - i,
{
    if 0 <= i < ms.len() {
        (if i > 0 {
            seq![',']
        } else {
            Seq::empty()
        }) + seq!['"'] + escape_string(ms[i].0) + seq!['"', ':'] + render_json(ms[i].1)
            + render_members(ms, i + 1)
    } else {
        Seq::empty()
    }
}

// ---------------------------------------------------------------------------
// The specification parser
// ---------------------------------------------------------------------------
/// The first position at or after `i` holding no whitespace.
pub open spec fn skip_ws(s: Seq<char>, i: int) -> int
    decreases s.len() - i,
{
    if 0 <= i < s.len() && is_ws_char(s[i]) {
        skip_ws(s, i + 1)
    } else {
        i
    }
}

/// The first position at or after `i` holding no decimal digit.
pub open spec fn digits_end(s: Seq<char>, i: int) -> int
    decreases s.len() - i,
{
    if 0 <= i < s.len() && is_digit_char(s[i]) {
        digits_end(s, i + 1)
    } else {
        i
    }
}

/// Scanning digits never moves backwards nor past the end.
pub proof fn lemma_digits_end_bounds(s: Seq<char>, i: int)
    requires
        0 <= i <= s.len(),
    ensures
        i <= digits_end(s, i) <= s.len(),
    decreases s.len() - i,
{
    if i < s.len() && is_digit_char(s[i]) {
        lemma_digits_end_bounds(s, i + 1);
    }
}

/// Where the integer part of a number starting at `i` ends: an optional
/// minus sign, then either a single zero or a nonzero digit run.
pub open spec fn num_int_end(s: Seq<char>, i: int) -> Option<int> {
    let ms = if 0 <= i < s.len() && s[i] == '-' {
        i + 1
    } else {
        i
    };
    if 0 <= ms < s.len() && is_digit_char(s[ms]) {
        if s[ms] == '0' {
            Some(ms + 1)
        } else {
            Some(digits_end(s, ms))
        }
    } else {
        None
    }
}

/// Where the optional fraction part beginning at `ie` ends.
pub open spec fn num_frac_end(s: Seq<char>, ie: int) -> Option<int> {
    if 0 <= ie < s.len() && s[ie] == '.' {
        if ie + 1 < s.len() && is_digit_char(s[ie + 1]) {
            Some(digits_end(s, ie + 1))
        } else {
            None
        }
    } else {
        Some(ie)
    }
}

/// Where the optional exponent part beginning at `fe` ends.
pub open spec fn num_exp_end(s: Seq<char>, fe: int) -> Option<int> {
    if 0 <= fe < s.len() && (s[fe] == 'e' || s[fe] == 'E') {
        let es = if fe + 1 < s.len() && (s[fe + 1] == '+' || s[fe + 1] == '-') {
            fe + 2
        } else {
            fe + 1
        };
        if 0 <= es < s.len() && is_digit_char(s[es]) {
            Some(digits_end(s, es))
        } else {
            None
        }
    } else {
        Some(fe)
    }
}

/// Reads one number token starting exactly at `i`: its text and the position
/// after it.
pub open spec fn p_number(s: Seq<char>, i: int) -> Option<(Seq<char>, int)> {
    match num_int_end(s, i) {
        Option::None => None,
        Option::Some(ie) => match num_frac_end(s, ie) {
            Option::None => None,
            Option::Some(fe) => match num_exp_end(s, fe) {
                Option::None => None,
                Option::Some(ee) => Some((s.subrange(i, ee), ee)),
            },
        },
    }
}

/// Whether `t` is exactly one well-formed number token.
pub open spec fn is_number_text(t: Seq<char>) -> bool {
    p_number(t, 0) == Some((t, t.len() as int))
}

/// Prepends a character to the text of a successful string-body parse.
pub open spec fn cons_char(c: char, r: Option<(Seq<char>, int)>) -> Option<(Seq<char>, int)> {
    match r {
        Option::Some((t, k)) => Some((seq![c] + t, k)),
        Option::None => None,
    }
}

/// A UTF-16 high surrogate, the first half of an escaped supplementary
/// character.
pub open spec fn is_high_surrogate(v: int) -> bool {
    0xD800 <= v <= 0xDBFF
}

/// A UTF-16 low surrogate, the second half of an escaped supplementary
/// character.
pub open spec fn is_low_surrogate(v: int) -> bool {
    0xDC00 <= v <= 0xDFFF
}

/// Four hexadecimal digits stand at `i`.
pub open spec fn hex4_at(s: Seq<char>, i: int) -> bool {
    &&& 0 <= i
    &&& i + 4 <= s.len()
    &&& is_hex_char(s[i])
    &&& is_hex_char(s[i + 1])
    &&& is_hex_char(s[i + 2])
    &&& is_hex_char(s[i + 3])
}

/// The value of the four hexadecimal digits at `i`.
pub open spec fn hex4_val(s: Seq<char>, i: int) -> int {
    hex_val(s[i]) * 4096 + hex_val(s[i + 1]) * 256 + hex_val(s[i + 2]) * 16 + hex_val(s[i + 3])
}

/// The scalar value written by a surrogate pair.
pub open spec fn surrogate_scalar(hi: int, lo: int) -> int {
    0x10000 + (hi - 0xD800) * 0x400 + (lo - 0xDC00)
}

/// Reads a string body (after the opening quote) up to and over its closing
/// quote: the decoded characters and the position after the quote. Fails on
/// raw control characters, bad escapes, and unpaired surrogates.
pub open spec fn p_str_body(s: Seq<char>, i: int) -> Option<(Seq<char>, int)>
    decreases s.len() - i,
{
    if i < 0 || i >= s.len() {
        None
    } else if s[i] == '"' {
        Some((Seq::empty(), i + 1))
    } else if s[i] == '\\' {
        if i + 1 >= s.len() {
            None
        } else {
            let e = s[i + 1];
            if e == '"' {
                cons_char('"', p_str_body(s, i + 2))
            } else if e == '\\' {
                cons_char('\\', p_str_body(s, i + 2))
            } else if e == '/' {
                cons_char('/', p_str_body(s, i + 2))
            } else if e == 'b' {
                cons_char('\u{8}', p_str_body(s, i + 2))
            } else if e == 'f' {
                cons_char('\u{c}', p_str_body(s, i + 2))
            } else if e == 'n' {
                cons_char('\n', p_str_body(s, i + 2))
            } else if e == 'r' {
                cons_char('\r', p_str_body(s, i + 2))
            } else if e == 't' {
                cons_char('\t', p_str_body(s, i + 2))
            } else if e == 'u' {
                if !hex4_at(s, i + 2) {
                    None
                } else {
                    let v = hex4_val(s, i + 2);
                    if is_high_surrogate(v) {
                        if i + 12 <= s.len() && s[i + 6] == '\\' && s[i + 7] == 'u' && hex4_at(
                            s,
                            i + 8,
                        ) && is_low_surrogate(hex4_val(s, i + 8)) {
                            cons_char(
                                surrogate_scalar(v, hex4_val(s, i + 8)) as char,
                                p_str_body(s, i + 12),
                            )
                        } else {
                            None
                        }
                    } else if is_low_surrogate(v) {
                        None
                    } else {
                        cons_char(v as char, p_str_body(s, i + 6))
                    }
                }
            } else {
                None
            }
        }
    } else if (s[i] as u32) < 0x20 {
        None
    } else {
        cons_char(s[i], p_str_body(s, i + 1))
    }
}

/// Reads one string literal starting exactly at `i`.
pub open spec fn p_string(s: Seq<char>, i: int) -> Option<(Seq<char>, int)> {
    if 0 <= i < s.len() && s[i] == '"' {
        p_str_body(s, i + 1)
    } else {
        None
    }
}

/// The word `w` stands at `i`.
pub open spec fn lit_at(s: Seq<char>, i: int, w: Seq<char>) -> bool {
    0 <= i && i + w.len() <= s.len() && s.subrange(i, i + w.len()) == w
}

/// Reads one value: leading whitespace, then a literal, number, string,
/// array or object. `fuel` bounds the nesting the parse may descend into.
pub open spec fn p_value(s: Seq<char>, i: int, fuel: nat) -> Option<(Json, int)>
    decreases fuel,
{
    if fuel == 0 {
        None
    } else {
        let j = skip_ws(s, i);
        if j >= s.len() {
            None
        } else if s[j] == '"' {
            match p_string(s, j) {
                Option::Some((t, k)) => Some((Json::Str(t), k)),
                Option::None => None,
            }
        } else if s[j] == '[' {
            let j2 = skip_ws(s, j + 1);
            if j2 < s.len() && s[j2] == ']' {
                Some((Json::Arr(Seq::empty()), j2 + 1))
            } else {
                match p_elems(s, j + 1, (fuel - 1) as nat) {
                    Option::Some((es, k)) => Some((Json::Arr(es), k)),
                    Option::None => None,
                }
            }
        } else if s[j] == '{' {
            let j2 = skip_ws(s, j + 1);
            if j2 < s.len() && s[j2] == '}' {
                Some((Json::Obj(Seq::empty()), j2 + 1))
            } else {
                match p_members(s, j + 1, (fuel - 1) as nat) {
                    Option::Some((ms, k)) => Some((Json::Obj(ms), k)),
                    Option::None => None,
                }
            }
        } else if s[j] == 'n' {
            if lit_at(s, j, seq!['n', 'u', 'l', 'l']) {
                Some((Json::Null, j + 4))
            } else {
                None
            }
        } else if s[j] == 't' {
            if lit_at(s, j, seq!['t', 'r', 'u', 'e']) {
                Some((Json::Bool(true), j + 4))
            } else {
                None
            }
        } else if s[j] == 'f' {
            if lit_at(s, j, seq!['f', 'a', 'l', 's', 'e']) {
                Some((Json::Bool(false), j + 5))
            } else {
                None
            }
        } else if s[j] == '-' || is_digit_char(s[j]) {
            match p_number(s, j) {
                Option::Some((t, k)) => Some((Json::Num(t), k)),
                Option::None => None,
            }
        } else {
            None
        }
    }
}

/// Reads one or more comma-separated elements and the closing bracket.
pub open spec fn p_elems(s: Seq<char>, i: int, fuel: nat) -> Option<(Seq<Json>, int)>
    decreases fuel,
{
    if fuel == 0 {
        None
    } else {
        match p_value(s, i, (fuel - 1) as nat) {
            Option::None => None,
            Option::Some((v, k)) => {
                let j = skip_ws(s, k);
                if j < s.len() && s[j] == ',' {
                    match p_elems(s, j + 1, (fuel - 1) as nat) {
                        Option::Some((es, k2)) => Some((seq![v] + es, k2)),
                        Option::None => None,
                    }
                } else if j < s.len() && s[j] == ']' {
                    Some((seq![v], j + 1))
                } else {
                    None
                }
            },
        }
    }
}

/// Reads one or more comma-separated members and the closing brace.
pub open spec fn p_members(s: Seq<char>, i: int, fuel: nat) -> Option<
    (Seq<(Seq<char>, Json)>, int),
>
    decreases fuel,
{
    if fuel == 0 {
        None
    } else {
        let j = skip_ws(s, i);
        match p_string(s, j) {
            Option::None => None,
            Option::Some((key, k)) => {
                let j2 = skip_ws(s, k);
                if j2 < s.len() && s[j2] == ':' {
                    match p_value(s, j2 + 1, (fuel - 1) as nat) {
                        Option::None => None,
                        Option::Some((v, k2)) => {
                            let j3 = skip_ws(s, k2);
                            if j3 < s.len() && s[j3] == ',' {
                                match p_members(s, j3 + 1, (fuel - 1) as nat) {
                                    Option::Some((ms, k3)) => Some((seq![(key, v)] + ms, k3)),
                                    Option::None => None,
                                }
                            } else if j3 < s.len() && s[j3] == '}' {
                                Some((seq![(key, v)], j3 + 1))
                            } else {
                                None
                            }
                        },
                    }
                } else {
                    None
                }
            },
        }
    }
}

/// Fuel that suffices for any document of this length.
pub open spec fn parse_fuel(s: Seq<char>) -> nat {
    (2 * s.len() + 2) as nat
}

/// Reads a whole input as one document: one value, with nothing but
/// whitespace after it.
pub open spec fn parse_json(s: Seq<char>) -> Option<Json> {
    match p_value(s, 0, parse_fuel(s)) {
        Option::Some((v, k)) => if skip_ws(s, k) == s.len() {
            Some(v)
        } else {
            None
        },
        Option::None => None,
    }
}

// ---------------------------------------------------------------------------
// Well-formedness
// ---------------------------------------------------------------------------
/// A document the canonical rendering round-trips: every number text is one
/// well-formed number token.
pub open spec fn wf_json(v: Json) -> bool
    decreases v, 0int, 0int,
{
    match v {
        Json::Null => true,
        Json::Bool(_) => true,
        Json::Num(t) => is_number_text(t),
        Json::Str(_) => true,
        Json::Arr(es) => wf_elems(es, 0),
        Json::Obj(ms) => wf_members(ms, 0),
    }
}

/// All elements from index `i` on are well-formed.
pub open spec fn wf_elems(es: Seq<Json>, i: int) -> bool
    decreases es, 1int, es.len() - i,
{
    if 0 <= i < es.len() {
        wf_json(es[i]) && wf_elems(es, i + 1)
    } else {
        true
    }
}

/// All member values from index `i` on are well-formed.
pub open spec fn wf_members(ms: Seq<(Seq<char>, Json)>, i: int) -> bool
    decreases ms, 1int, ms.len() - i,
{
    if 0 <= i < ms.len() {
        wf_json(ms[i].1) && wf_members(ms, i + 1)
    } else {
        true
    }
}

} // verus!
