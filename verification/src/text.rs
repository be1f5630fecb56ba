//! Character-level helpers shared by the wire codec: character classes,
//! decimal text for unsigned integers, hexadecimal digits, and conversions
//! between `str`/`String` and character vectors.

use vstd::prelude::*;
use vstd::std_specs::iter::IteratorSpec;

verus! {

/// The four whitespace characters that the wire format allows between tokens.
pub open spec fn is_ws_char(c: char) -> bool {
    c == ' ' || c == '\t' || c == '\n' || c == '\r'
}

/// Executable mirror of [`is_ws_char`].
pub fn ws_char(c: char) -> (r: bool)
    ensures
        r == is_ws_char(c),
{
    c == ' ' || c == '\t' || c == '\n' || c == '\r'
}

/// A decimal digit.
pub open spec fn is_digit_char(c: char) -> bool {
    c == '0' || c == '1' || c == '2' || c == '3' || c == '4' || c == '5' || c == '6' || c == '7'
        || c == '8' || c == '9'
}

/// Executable mirror of [`is_digit_char`].
pub fn digit_char(c: char) -> (r: bool)
    ensures
        r == is_digit_char(c),
{
    c == '0' || c == '1' || c == '2' || c == '3' || c == '4' || c == '5' || c == '6' || c == '7'
        || c == '8' || c == '9'
}

/// The numeric value of a decimal digit.
pub open spec fn digit_val(c: char) -> int {
    if c == '0' {
        0
    } else if c == '1' {
        1
    } else if c == '2' {
        2
    } else if c == '3' {
        3
    } else if c == '4' {
        4
    } else if c == '5' {
        5
    } else if c == '6' {
        6
    } else if c == '7' {
        7
    } else if c == '8' {
        8
    } else {
        9
    }
}

/// Executable mirror of [`digit_val`].
pub fn digit_value(c: char) -> (r: u64)
    requires
        is_digit_char(c),
    ensures
        r == digit_val(c),
{
    if c == '0' {
        0
    } else if c == '1' {
        1
    } else if c == '2' {
        2
    } else if c == '3' {
        3
    } else if c == '4' {
        4
    } else if c == '5' {
        5
    } else if c == '6' {
        6
    } else if c == '7' {
        7
    } else if c == '8' {
        8
    } else {
        9
    }
}

/// The decimal digit for a value below ten.
pub open spec fn digit_of(d: int) -> char {
    if d == 0 {
        '0'
    } else if d == 1 {
        '1'
    } else if d == 2 {
        '2'
    } else if d == 3 {
        '3'
    } else if d == 4 {
        '4'
    } else if d == 5 {
        '5'
    } else if d == 6 {
        '6'
    } else if d == 7 {
        '7'
    } else if d == 8 {
        '8'
    } else {
        '9'
    }
}

/// Executable mirror of [`digit_of`].
pub fn digit_char_of(d: u64) -> (r: char)
    requires
        d < 10,
    ensures
        r == digit_of(d as int),
{
    if d == 0 {
        '0'
    } else if d == 1 {
        '1'
    } else if d == 2 {
        '2'
    } else if d == 3 {
        '3'
    } else if d == 4 {
        '4'
    } else if d == 5 {
        '5'
    } else if d == 6 {
        '6'
    } else if d == 7 {
        '7'
    } else if d == 8 {
        '8'
    } else {
        '9'
    }
}

/// A hexadecimal digit, upper or lower case.
pub open spec fn is_hex_char(c: char) -> bool {
    is_digit_char(c) || c == 'a' || c == 'b' || c == 'c' || c == 'd' || c == 'e' || c == 'f'
        || c == 'A' || c == 'B' || c == 'C' || c == 'D' || c == 'E' || c == 'F'
}

/// Executable mirror of [`is_hex_char`].
pub fn hex_char(c: char) -> (r: bool)
    ensures
        r == is_hex_char(c),
{
    digit_char(c) || c == 'a' || c == 'b' || c == 'c' || c == 'd' || c == 'e' || c == 'f'
        || c == 'A' || c == 'B' || c == 'C' || c == 'D' || c == 'E' || c == 'F'
}

/// The numeric value of a hexadecimal digit.
pub open spec fn hex_val(c: char) -> int {
    if is_digit_char(c) {
        digit_val(c)
    } else if c == 'a' || c == 'A' {
        10
    } else if c == 'b' || c == 'B' {
        11
    } else if c == 'c' || c == 'C' {
        12
    } else if c == 'd' || c == 'D' {
        13
    } else if c == 'e' || c == 'E' {
        14
    } else {
        15
    }
}

/// Executable mirror of [`hex_val`].
pub fn hex_value(c: char) -> (r: u32)
    requires
        is_hex_char(c),
    ensures
        r == hex_val(c),
{
    if digit_char(c) {
        digit_value(c) as u32
    } else if c == 'a' || c == 'A' {
        10
    } else if c == 'b' || c == 'B' {
        11
    } else if c == 'c' || c == 'C' {
        12
    } else if c == 'd' || c == 'D' {
        13
    } else if c == 'e' || c == 'E' {
        14
    } else {
        15
    }
}

/// The lower-case hexadecimal digit for a value below sixteen.
pub open spec fn hex_digit_of(d: int) -> char {
    if d < 10 {
        digit_of(d)
    } else if d == 10 {
        'a'
    } else if d == 11 {
        'b'
    } else if d == 12 {
        'c'
    } else if d == 13 {
        'd'
    } else if d == 14 {
        'e'
    } else {
        'f'
    }
}

/// Executable mirror of [`hex_digit_of`].
pub fn hex_digit_char_of(d: u32) -> (r: char)
    requires
        d < 16,
    ensures
        r == hex_digit_of(d as int),
{
    if d < 10 {
        digit_char_of(d as u64)
    } else if d == 10 {
        'a'
    } else if d == 11 {
        'b'
    } else if d == 12 {
        'c'
    } else if d == 13 {
        'd'
    } else if d == 14 {
        'e'
    } else {
        'f'
    }
}

/// A run of decimal digits, at least one.
pub open spec fn all_digits(s: Seq<char>) -> bool {
    forall|i: int| 0 <= i < s.len() ==> is_digit_char(s[i])
}

/// The numeric value of a run of decimal digits, most significant first.
pub open spec fn dec_val(s: Seq<char>) -> int
    decreases s.len(),
{
    if s.len() == 0 {
        0
    } else {
        dec_val(s.drop_last()) * 10 + digit_val(s.last())
    }
}

/// The canonical decimal text of an unsigned number: no leading zero except
/// for zero itself.
pub open spec fn dec_str(n: nat) -> Seq<char>
    decreases n,
{
    if n < 10 {
        seq![digit_of(n as int)]
    } else {
        dec_str(n / 10).push(digit_of((n % 10) as int))
    }
}

/// The value of a run of digits is never negative.
pub proof fn lemma_dec_val_nonneg(s: Seq<char>)
    ensures
        dec_val(s) >= 0,
    decreases s.len(),
{
    if s.len() > 0 {
        lemma_dec_val_nonneg(s.drop_last());
    }
}

/// Reading back the canonical decimal text gives the number it was made from.
pub proof fn lemma_dec_str_val(n: nat)
    ensures
        dec_str(n).len() >= 1,
        all_digits(dec_str(n)),
        dec_val(dec_str(n)) == n,
        dec_str(n)[0] != '0' || n < 10,
    decreases n,
{
    if n < 10 {
        assert(dec_str(n) =~= seq![digit_of(n as int)]);
        assert(dec_val(dec_str(n)) == dec_val(seq![digit_of(n as int)].drop_last()) * 10
            + digit_val(digit_of(n as int)));
        assert(seq![digit_of(n as int)].drop_last() =~= Seq::<char>::empty());
    } else {
        lemma_dec_str_val(n / 10);
        let s = dec_str(n);
        assert(s == dec_str(n / 10).push(digit_of((n % 10) as int)));
        assert(s.drop_last() =~= dec_str(n / 10));
        assert(s.last() == digit_of((n % 10) as int));
        assert(dec_val(s) == dec_val(dec_str(n / 10)) * 10 + digit_val(digit_of((n % 10) as int)));
        assert(dec_val(s) == (n / 10) * 10 + n % 10);
        assert((n / 10) * 10 + n % 10 == n) by (nonlinear_arith);
        assert forall|i: int| 0 <= i < s.len() implies is_digit_char(s[i]) by {
            if i < s.len() - 1 {
                assert(s[i] == dec_str(n / 10)[i]);
            }
        }
        assert(s[0] == dec_str(n / 10)[0]);
        assert(n / 10 >= 10 || (1 <= n / 10 < 10));
        if n / 10 < 10 {
            assert(dec_str(n / 10) == seq![digit_of((n / 10) as int)]);
            assert(s[0] == digit_of((n / 10) as int));
            assert(n / 10 >= 1);
            assert(s[0] != '0');
        }
    }
}

/// A digit run's value only grows when more digits follow.
pub proof fn lemma_dec_val_prefix(s: Seq<char>, j: int)
    requires
        0 <= j <= s.len(),
    ensures
        dec_val(s.take(j)) <= dec_val(s),
    decreases s.len() - j,
{
    if j < s.len() {
        lemma_dec_val_prefix(s, j + 1);
        let t = s.take(j + 1);
        assert(t.drop_last() =~= s.take(j));
        assert(dec_val(t) == dec_val(s.take(j)) * 10 + digit_val(t.last()));
        lemma_dec_val_nonneg(s.take(j));
    } else {
        assert(s.take(j) =~= s);
    }
}

/// The canonical decimal text of `n`, as characters.
pub fn u64_to_dec(n: u64) -> (r: Vec<char>)
    ensures
        r@ == dec_str(n as nat),
    decreases n,
{
    if n < 10 {
        let mut r: Vec<char> = Vec::new();
        r.push(digit_char_of(n));
        proof {
            assert(r@ =~= seq![digit_of(n as int)]);
        }
        r
    } else {
        let mut r = u64_to_dec(n / 10);
        r.push(digit_char_of(n % 10));
        r
    }
}

/// Reads a run of decimal digits as a `u64`. Returns `None` when some
/// character is not a digit, when the run is empty, or when the value does
/// not fit in 64 bits.
pub fn dec_to_u64(t: &[char]) -> (r: Option<u64>)
    ensures
        r is Some <==> t@.len() > 0 && all_digits(t@) && dec_val(t@) <= u64::MAX,
        r matches Some(v) ==> v == dec_val(t@),
{
    if t.len() == 0 {
        return None;
    }
    let mut acc: u64 = 0;
    let mut i: usize = 0;
    while i < t.len()
        invariant
            0 <= i <= t@.len(),
            acc == dec_val(t@.take(i as int)),
            all_digits(t@.take(i as int)),
        decreases t@.len() - i,
    {
        let c = t[i];
        if !digit_char(c) {
            proof {
                assert(t@[i as int] == c);
            }
            return None;
        }
        let d = digit_value(c);
        proof {
            lemma_dec_val_nonneg(t@.take(i as int));
        }
        let shifted = match acc.checked_mul(10) {
            Some(s) => s,
            None => {
                proof {
                    assert(dec_val(t@.take(i + 1 as int)) > u64::MAX) by {
                        assert(t@.take(i + 1 as int).drop_last() =~= t@.take(i as int));
                        assert(dec_val(t@.take(i + 1 as int)) == acc * 10 + digit_val(c));
                    };
                    lemma_dec_val_prefix(t@, i + 1 as int);
                }
                return None;
            },
        };
        let next = match shifted.checked_add(d) {
            Some(s) => s,
            None => {
                proof {
                    assert(dec_val(t@.take(i + 1 as int)) > u64::MAX) by {
                        assert(t@.take(i + 1 as int).drop_last() =~= t@.take(i as int));
                        assert(dec_val(t@.take(i + 1 as int)) == acc * 10 + digit_val(c));
                    };
                    lemma_dec_val_prefix(t@, i + 1 as int);
                }
                return None;
            },
        };
        proof {
            assert(t@.take(i + 1 as int).drop_last() =~= t@.take(i as int));
            assert(t@.take(i + 1 as int).last() == c);
        }
        acc = next;
        i = i + 1;
    }
    proof {
        assert(t@.take(t@.len() as int) =~= t@);
    }
    Some(acc)
}

/// The characters of a string slice, in order.
pub fn str_to_chars(s: &str) -> (r: Vec<char>)
    ensures
        r@ == s@,
{
    broadcast use vstd::string::group_string_axioms;

    let mut it = s.chars();
    let mut r: Vec<char> = Vec::new();
    loop
        invariant
            it.obeys_prophetic_iter_laws(),
            it.decrease() is Some,
            r@ + it.remaining() == s@,
        decreases it.decrease()->0,
    {
        match it.next() {
            Some(c) => {
                r.push(c);
            },
            None => {
                proof {
                    assert(r@ =~= s@);
                }
                return r;
            },
        }
    }
}

/// Relies on `String`'s `FromIterator` implementation over `char`:
/// collecting characters yields the string made of exactly those characters.
#[verifier::external_body]
pub fn chars_to_string(v: &Vec<char>) -> (r: String)
    ensures
        r@ == v@,
{
    v.iter().collect()
}

} // verus!
