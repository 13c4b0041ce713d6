use vstd::prelude::*;
use crate::errors::ParserError;
use crate::lexer::{chars_of, copy_range, is_ascii_digit, string_from_chars};
use crate::token::{clone_token, value_type, NotNan, Token, Type, TypeDiscriminants, Value};

verus! {

/// Whether every character of `s` is an ASCII digit.
pub open spec fn all_digits(s: Seq<char>) -> bool {
    forall|i: int| 0 <= i < s.len() ==> is_ascii_digit(#[trigger] s[i])
}

/// The value of the decimal numeral `s`.
pub open spec fn digits_value(s: Seq<char>) -> int
    decreases s.len(),
{
    if s.len() == 0 {
        0
    } else {
        digits_value(s.drop_last()) * 10 + (s.last() as int - '0' as int)
    }
}

/// The value `str::parse` reads for an integer type from `s`, before the
/// type's range is checked: an optional `+` (or, for signed types, `-`)
/// followed by at least one ASCII digit, and nothing else.
pub open spec fn integer_text_value(s: Seq<char>, signed: bool) -> Option<int> {
    let neg = signed && s.len() > 0 && s[0] == '-';
    let d = if s.len() > 0 && (s[0] == '+' || neg) {
        s.drop_first()
    } else {
        s
    };
    if d.len() > 0 && all_digits(d) {
        Some(
            if neg {
                -digits_value(d)
            } else {
                digits_value(d)
            },
        )
    } else {
        None
    }
}

/// The value `str::parse` gives for an integer type whose values range over
/// `lo..=hi`, or `None` where it fails.
pub open spec fn parse_integer(s: Seq<char>, signed: bool, lo: int, hi: int) -> Option<int> {
    match integer_text_value(s, signed) {
        Some(v) => if lo <= v && v <= hi {
            Some(v)
        } else {
            None
        },
        None => None,
    }
}

proof fn lemma_digits_value_step(s: Seq<char>, i: int)
    requires
        0 <= i < s.len(),
    ensures
        digits_value(s.take(i + 1)) == digits_value(s.take(i)) * 10 + (s[i] as int - '0' as int),
{
    assert(s.take(i + 1).drop_last() =~= s.take(i));
}

/// A numeral is worth at least as much as any of its prefixes.
proof fn lemma_digits_value_prefix(s: Seq<char>, i: int)
    requires
        0 <= i <= s.len(),
        all_digits(s),
    ensures
        0 <= digits_value(s.take(i)) <= digits_value(s),
    decreases s.len() - i,
{
    if i < s.len() {
        lemma_digits_value_prefix(s, i + 1);
        lemma_digits_value_step(s, i);
        lemma_digits_value_nonneg(s.take(i));
        assert(is_ascii_digit(s[i]));
    } else {
        assert(s.take(i) =~= s);
        lemma_digits_value_nonneg(s);
    }
}

proof fn lemma_digits_value_nonneg(s: Seq<char>)
    requires
        all_digits(s),
    ensures
        digits_value(s) >= 0,
    decreases s.len(),
{
    if s.len() > 0 {
        assert(all_digits(s.drop_last())) by {
            assert forall|i: int| 0 <= i < s.drop_last().len() implies is_ascii_digit(#[trigger] s.drop_last()[i]) by {
                assert(s.drop_last()[i] == s[i]);
            }
        }
        lemma_digits_value_nonneg(s.drop_last());
        assert(is_ascii_digit(s[s.len() - 1]));
    }
}

/// `s` read as an integer whose values range over `-lo_abs..=hi`; see
/// `parse_integer`.
fn parse_integer_chars(s: &[char], signed: bool, lo_abs: u64, hi: u64) -> (r: Option<i128>)
    ensures
        match parse_integer(s@, signed, -(lo_abs as int), hi as int) {
            Some(v) => r == Some(v as i128),
            None => r is None,
        },
{
    let len = s.len();
    let mut start: usize = 0;
    let mut neg = false;
    if len > 0 && s[0] == '+' {
        start = 1;
    } else if signed && len > 0 && s[0] == '-' {
        neg = true;
        start = 1;
    }
    let ghost d = s@.skip(start as int);
    assert(d =~= (if len > 0 && (s@[0] == '+' || (signed && s@[0] == '-')) {
        s@.drop_first()
    } else {
        s@
    }));
    if start >= len {
        return None;
    }
    let cap: u128 = if neg {
        lo_abs as u128
    } else {
        hi as u128
    };
    let mut acc: u128 = 0;
    let mut i: usize = start;
    assert(d.take(0) =~= Seq::<char>::empty());
    while i < len
        invariant
            start <= i <= len,
            len == s@.len(),
            d == s@.skip(start as int),
            d == (if s@.len() > 0 && (s@[0] == '+' || (signed && s@[0] == '-')) {
                s@.drop_first()
            } else {
                s@
            }),
            neg == (signed && s@.len() > 0 && s@[0] == '-'),
            cap == (if neg {
                lo_abs as u128
            } else {
                hi as u128
            }),
            cap <= u64::MAX,
            acc <= cap,
            acc == digits_value(d.take(i - start)),
            all_digits(d.take(i - start)),
        decreases len - i,
    {
        let c = s[i];
        proof {
            lemma_digits_value_step(d, (i - start) as int);
            assert(d[(i - start) as int] == c);
        }
        if !('0' <= c && c <= '9') {
            assert(!all_digits(d)) by {
                assert(!is_ascii_digit(d[(i - start) as int]));
            }
            return None;
        }
        let digit = ((c as u32) - ('0' as u32)) as u128;
        assert(acc * 10 + digit <= u64::MAX * 10 + 9) by (nonlinear_arith)
            requires
                acc <= u64::MAX,
                digit <= 9,
        ;
        let next = acc * 10 + digit;
        assert(all_digits(d.take(i - start + 1))) by {
            assert forall|k: int| 0 <= k < d.take(i - start + 1).len() implies is_ascii_digit(#[trigger] d.take(i - start + 1)[k]) by {
                if k < i - start {
                    assert(d.take(i - start + 1)[k] == d.take(i - start)[k]);
                }
            }
        }
        if next > cap {
            proof {
                if all_digits(d) {
                    lemma_digits_value_prefix(d, i - start + 1);
                }
            }
            return None;
        }
        acc = next;
        i = i + 1;
    }
    assert(d.take(len - start) =~= d);
    if neg {
        Some(-(acc as i128))
    } else {
        Some(acc as i128)
    }
}

/// The suffixes that give a number literal its type, in the order they are
/// tried.
pub open spec fn numeric_suffix() -> Seq<(Seq<char>, TypeDiscriminants)> {
    seq![
        (seq!['u', 'i', 'n', 't', 's', 'm', 'a', 'l', 'l'], TypeDiscriminants::U8),
        (seq!['u', 'i', 'n', 't', 'h', 'a', 'l', 'f'], TypeDiscriminants::U16),
        (seq!['u', 'i', 'n', 't'], TypeDiscriminants::U32),
        (seq!['u', 'i', 'n', 't', 'l', 'o', 'n', 'g'], TypeDiscriminants::U64),
        (seq!['i', 'n', 't', 'h', 'a', 'l', 'f'], TypeDiscriminants::I16),
        (seq!['i', 'n', 't'], TypeDiscriminants::I32),
        (seq!['i', 'n', 't', 'l', 'o', 'n', 'g'], TypeDiscriminants::I64),
        (seq!['f', 'l', 'o', 'a', 't', 'h', 'a', 'l', 'f'], TypeDiscriminants::F16),
        (seq!['f', 'l', 'o', 'a', 't'], TypeDiscriminants::F32),
        (seq!['f', 'l', 'o', 'a', 't', 'l', 'o', 'n', 'g'], TypeDiscriminants::F64),
    ]
}

/// Whether `s` ends with `suffix`.
pub open spec fn ends_with(s: Seq<char>, suffix: Seq<char>) -> bool {
    suffix.len() <= s.len() && s.subrange(s.len() - suffix.len(), s.len() as int) == suffix
}

/// The first suffix of the table, from entry `k` on, that `s` ends with:
/// `s` without it, and the type it gives.
pub open spec fn suffix_match(s: Seq<char>, table: Seq<(Seq<char>, TypeDiscriminants)>) -> Option<
    (Seq<char>, TypeDiscriminants),
>
    decreases table.len(),
{
    if table.len() == 0 {
        None
    } else if ends_with(s, table[0].0) {
        Some((s.take(s.len() - table[0].0.len()), table[0].1))
    } else {
        suffix_match(s, table.drop_first())
    }
}

/// Whether `s` ends with the given suffix.
fn ends_with_chars(s: &[char], suffix: &[char]) -> (r: bool)
    ensures
        r == ends_with(s@, suffix@),
{
    let n = s.len();
    let m = suffix.len();
    if m > n {
        return false;
    }
    let mut i: usize = 0;
    while i < m
        invariant
            0 <= i <= m,
            m <= n,
            n == s@.len(),
            m == suffix@.len(),
            forall|k: int| 0 <= k < i ==> s@[n - m + k] == suffix@[k],
        decreases m - i,
    {
        if s[n - m + i] != suffix[i] {
            assert(s@.subrange(n - m, n as int)[i as int] != suffix@[i as int]);
            return false;
        }
        i = i + 1;
    }
    assert(s@.subrange(n - m, n as int) =~= suffix@);
    true
}

/// The number literal without its type suffix, and the type the suffix
/// gives, for the first suffix of `numeric_suffix` it ends with.
pub fn try_match_suffix(str: &str) -> (r: Option<(String, TypeDiscriminants)>)
    ensures
        match suffix_match(str@, numeric_suffix()) {
            Some((lit, ty)) => r matches Some((l, t)) && l@ == lit && t == ty,
            None => r is None,
        },
{
    let chars = chars_of(str);
    let s = chars.as_slice();
    let table: [(&[char], TypeDiscriminants); 10] = [
        (&['u', 'i', 'n', 't', 's', 'm', 'a', 'l', 'l'], TypeDiscriminants::U8),
        (&['u', 'i', 'n', 't', 'h', 'a', 'l', 'f'], TypeDiscriminants::U16),
        (&['u', 'i', 'n', 't'], TypeDiscriminants::U32),
        (&['u', 'i', 'n', 't', 'l', 'o', 'n', 'g'], TypeDiscriminants::U64),
        (&['i', 'n', 't', 'h', 'a', 'l', 'f'], TypeDiscriminants::I16),
        (&['i', 'n', 't'], TypeDiscriminants::I32),
        (&['i', 'n', 't', 'l', 'o', 'n', 'g'], TypeDiscriminants::I64),
        (&['f', 'l', 'o', 'a', 't', 'h', 'a', 'l', 'f'], TypeDiscriminants::F16),
        (&['f', 'l', 'o', 'a', 't'], TypeDiscriminants::F32),
        (&['f', 'l', 'o', 'a', 't', 'l', 'o', 'n', 'g'], TypeDiscriminants::F64),
    ];
    proof {
        assert(table@[0].0@ =~= numeric_suffix()[0].0);
        assert(table@[1].0@ =~= numeric_suffix()[1].0);
        assert(table@[2].0@ =~= numeric_suffix()[2].0);
        assert(table@[3].0@ =~= numeric_suffix()[3].0);
        assert(table@[4].0@ =~= numeric_suffix()[4].0);
        assert(table@[5].0@ =~= numeric_suffix()[5].0);
        assert(table@[6].0@ =~= numeric_suffix()[6].0);
        assert(table@[7].0@ =~= numeric_suffix()[7].0);
        assert(table@[8].0@ =~= numeric_suffix()[8].0);
        assert(table@[9].0@ =~= numeric_suffix()[9].0);
        assert(numeric_suffix().skip(0) =~= numeric_suffix());
    }
    let mut k: usize = 0;
    while k < 10
        invariant
            0 <= k <= 10,
            s@ == str@,
            forall|j: int| 0 <= j < 10 ==> (#[trigger] table@[j]).0@ == numeric_suffix()[j].0 && table@[j].1
                == numeric_suffix()[j].1,
            suffix_match(str@, numeric_suffix()) == suffix_match(str@, numeric_suffix().skip(k as int)),
        decreases 10 - k,
    {
        let (suf, ty) = table[k];
        let ghost rest = numeric_suffix().skip(k as int);
        assert(rest[0] == numeric_suffix()[k as int]);
        if ends_with_chars(s, suf) {
            let lit = copy_range(s, 0, s.len() - suf.len());
            assert(s@.subrange(0, s@.len() - suf@.len()) =~= s@.take(s@.len() - suf@.len()));
            return Some((string_from_chars(lit.as_slice()), ty));
        }
        assert(rest.drop_first() =~= numeric_suffix().skip(k + 1));
        k = k + 1;
    }
    None
}

/// The narrowest unsigned value holding `n`.
pub open spec fn unsigned_value(n: int) -> Value {
    if n <= u8::MAX {
        Value::U8(n as u8)
    } else if n <= u16::MAX {
        Value::U16(n as u16)
    } else if n <= u32::MAX {
        Value::U32(n as u32)
    } else {
        Value::U64(n as u64)
    }
}

/// The narrowest signed value holding `n`; the smallest is 16 bits wide.
pub open spec fn signed_value(n: int) -> Value {
    if i16::MIN <= n && n <= i16::MAX {
        Value::I16(n as i16)
    } else if i32::MIN <= n && n <= i32::MAX {
        Value::I32(n as i32)
    } else {
        Value::I64(n as i64)
    }
}

/// The literal as the narrowest unsigned integer that holds it; a literal
/// that is not a `u64` is out of range.
pub fn fit_unsigned(digits: &str) -> (r: Result<Value, ParserError>)
    ensures
        match parse_integer(digits@, false, 0, u64::MAX as int) {
            Some(n) => r == Ok::<Value, ParserError>(unsigned_value(n)),
            None => r matches Err(ParserError::LiteralOutOfRange(s)) && s@ == digits@,
        },
{
    let chars = chars_of(digits);
    match parse_integer_chars(chars.as_slice(), false, 0, u64::MAX) {
        Some(n) => {
            if n <= u8::MAX as i128 {
                Ok(Value::U8(n as u8))
            } else if n <= u16::MAX as i128 {
                Ok(Value::U16(n as u16))
            } else if n <= u32::MAX as i128 {
                Ok(Value::U32(n as u32))
            } else {
                Ok(Value::U64(n as u64))
            }
        },
        None => Err(ParserError::LiteralOutOfRange(string_from_chars(chars.as_slice()))),
    }
}

/// The literal as the narrowest signed integer (of at least 16 bits) that
/// holds it; a literal that is not an `i64` is out of range.
pub fn fit_signed(digits: &str) -> (r: Result<Value, ParserError>)
    ensures
        match parse_integer(digits@, true, i64::MIN as int, i64::MAX as int) {
            Some(n) => r == Ok::<Value, ParserError>(signed_value(n)),
            None => r matches Err(ParserError::LiteralOutOfRange(s)) && s@ == digits@,
        },
{
    let chars = chars_of(digits);
    match parse_integer_chars(chars.as_slice(), true, 0x8000_0000_0000_0000u64, i64::MAX as u64) {
        Some(n) => {
            if i16::MIN as i128 <= n && n <= i16::MAX as i128 {
                Ok(Value::I16(n as i16))
            } else if i32::MIN as i128 <= n && n <= i32::MAX as i128 {
                Ok(Value::I32(n as i32))
            } else {
                Ok(Value::I64(n as i64))
            }
        },
        None => Err(ParserError::LiteralOutOfRange(string_from_chars(chars.as_slice()))),
    }
}


/// Whether `s` holds `c`.
pub(crate) fn contains_char(s: &[char], c: char) -> (r: bool)
    ensures
        r == s@.contains(c),
{
    let mut i: usize = 0;
    while i < s.len()
        invariant
            0 <= i <= s@.len(),
            forall|k: int| 0 <= k < i ==> s@[k] != c,
        decreases s@.len() - i,
    {
        if s[i] == c {
            assert(s@[i as int] == c);
            return true;
        }
        i = i + 1;
    }
    false
}

/// Whether the characters are exactly `w`.
fn is_word(s: &[char], w: &[char]) -> (r: bool)
    ensures
        r == (s@ == w@),
{
    if s.len() != w.len() {
        return false;
    }
    let mut i: usize = 0;
    while i < s.len()
        invariant
            0 <= i <= s@.len(),
            s@.len() == w@.len(),
            forall|k: int| 0 <= k < i ==> s@[k] == w@[k],
        decreases s@.len() - i,
    {
        if s[i] != w[i] {
            return false;
        }
        i = i + 1;
    }
    assert(s@ =~= w@);
    true
}

/// `str::parse::<bool>`: exactly `true` or `false`.
pub open spec fn parse_bool(s: Seq<char>) -> Option<bool> {
    if s == seq!['t', 'r', 'u', 'e'] {
        Some(true)
    } else if s == seq!['f', 'a', 'l', 's', 'e'] {
        Some(false)
    } else {
        None
    }
}

/// Whether a literal with no destination type can be read: `true`, `false`,
/// a float (when it holds a `.`), a negative `i64` (when it starts with
/// `-`) or else a `u64`. `float_bits` is the literal read as an `f64`.
pub open spec fn untyped_literal_parses(raw: Seq<char>, float_bits: Option<u64>) -> bool {
    if parse_bool(raw) is Some {
        true
    } else if raw.contains('.') {
        float_bits is Some
    } else if raw.len() > 0 && raw[0] == '-' {
        parse_integer(raw, true, i64::MIN as int, i64::MAX as int) is Some
    } else {
        parse_integer(raw, false, 0, u64::MAX as int) is Some
    }
}

/// Converts a literal to a value of the destination type; with no
/// destination, the type is guessed.
///
/// Integers, booleans and pointer addresses are read from `raw_string` as
/// `str::parse` reads them. Floats are read outside this library:
/// `float_bits` is the bit pattern of `raw_string` read as the float type the
/// destination asks for (`f64` when there is none), widened to 64 bits, or
/// `None` when it is not one; a NaN is kept. Strings and arrays cannot be
/// built from a literal. Without a destination, a literal that cannot be read
/// has no error to report it with: such a literal is left out by `requires`.
pub fn unparsed_const_to_typed_literal_unsafe(
    raw_string: &str,
    dest_type: Option<Type>,
    float_bits: Option<u64>,
) -> (r: Result<Value, ParserError>)
    requires
        dest_type is Some || untyped_literal_parses(raw_string@, float_bits),
    ensures
        dest_type matches Some(t) ==> (r matches Ok(v) ==> value_type(v) == t),
        dest_type is None ==> (r matches Ok(v) ==> (value_type(v) is Boolean || value_type(v) is F64
            || value_type(v) is I64 || value_type(v) is U64)),
        dest_type is None ==> r is Ok,
        match dest_type {
            Some(Type::Void) => r == Ok::<Value, ParserError>(Value::Void),
            Some(t) => {
                let raw = raw_string@;
                let ok = match t {
                    Type::I64 => parse_integer(raw, true, i64::MIN as int, i64::MAX as int) matches Some(
                        n,
                    ) && r == Ok::<Value, ParserError>(Value::I64(n as i64)),
                    Type::U64 => parse_integer(raw, false, 0, u64::MAX as int) matches Some(n) && r
                        == Ok::<Value, ParserError>(Value::U64(n as u64)),
                    Type::I32 => parse_integer(raw, true, i32::MIN as int, i32::MAX as int) matches Some(
                        n,
                    ) && r == Ok::<Value, ParserError>(Value::I32(n as i32)),
                    Type::U32 => parse_integer(raw, false, 0, u32::MAX as int) matches Some(n) && r
                        == Ok::<Value, ParserError>(Value::U32(n as u32)),
                    Type::I16 => parse_integer(raw, true, i16::MIN as int, i16::MAX as int) matches Some(
                        n,
                    ) && r == Ok::<Value, ParserError>(Value::I16(n as i16)),
                    Type::U16 => parse_integer(raw, false, 0, u16::MAX as int) matches Some(n) && r
                        == Ok::<Value, ParserError>(Value::U16(n as u16)),
                    Type::U8 => parse_integer(raw, false, 0, u8::MAX as int) matches Some(n) && r
                        == Ok::<Value, ParserError>(Value::U8(n as u8)),
                    Type::F64 => float_bits matches Some(b) && r matches Ok(Value::F64(f)) && f.spec_bits()
                        == b,
                    Type::F32 => float_bits matches Some(b) && r matches Ok(Value::F32(f)) && f.spec_bits()
                        == b as u32,
                    Type::F16 => float_bits matches Some(b) && r matches Ok(Value::F16(f)) && f.spec_bits()
                        == b as u16,
                    Type::Boolean => parse_bool(raw) matches Some(b) && r == Ok::<Value, ParserError>(
                        Value::Boolean(b),
                    ),
                    Type::Pointer(p) => parse_integer(raw, false, 0, usize::MAX as int) matches Some(n)
                        && r == Ok::<Value, ParserError>(Value::Pointer((n as usize, p))),
                    _ => false,
                };
                ok || (r matches Err(ParserError::InvalidTypeCast(s, d)) && s@ == raw && d == t && !(
                match t {
                    Type::I64 => parse_integer(raw, true, i64::MIN as int, i64::MAX as int) is Some,
                    Type::U64 => parse_integer(raw, false, 0, u64::MAX as int) is Some,
                    Type::I32 => parse_integer(raw, true, i32::MIN as int, i32::MAX as int) is Some,
                    Type::U32 => parse_integer(raw, false, 0, u32::MAX as int) is Some,
                    Type::I16 => parse_integer(raw, true, i16::MIN as int, i16::MAX as int) is Some,
                    Type::U16 => parse_integer(raw, false, 0, u16::MAX as int) is Some,
                    Type::U8 => parse_integer(raw, false, 0, u8::MAX as int) is Some,
                    Type::F64 | Type::F32 | Type::F16 => float_bits is Some,
                    Type::Boolean => parse_bool(raw) is Some,
                    Type::Pointer(_) => parse_integer(raw, false, 0, usize::MAX as int) is Some,
                    _ => false,
                }))
            },
            None => {
                let raw = raw_string@;
                if parse_bool(raw) is Some {
                    r == Ok::<Value, ParserError>(Value::Boolean(parse_bool(raw)->0))
                } else if raw.contains('.') {
                    r matches Ok(Value::F64(f)) && float_bits == Some(f.spec_bits())
                } else if raw.len() > 0 && raw[0] == '-' {
                    parse_integer(raw, true, i64::MIN as int, i64::MAX as int) matches Some(n) && r
                        == Ok::<Value, ParserError>(Value::I64(n as i64))
                } else {
                    parse_integer(raw, false, 0, u64::MAX as int) matches Some(n) && r == Ok::<
                        Value,
                        ParserError,
                    >(Value::U64(n as u64))
                }
            },
        },
{
    let chars = chars_of(raw_string);
    let s = chars.as_slice();
    match dest_type {
        Some(t) => {
            let parsed: Option<Value> = match &t {
                Type::I64 => match parse_integer_chars(s, true, 0x8000_0000_0000_0000u64, i64::MAX as u64) {
                    Some(n) => Some(Value::I64(n as i64)),
                    None => None,
                },
                Type::U64 => match parse_integer_chars(s, false, 0, u64::MAX) {
                    Some(n) => Some(Value::U64(n as u64)),
                    None => None,
                },
                Type::I32 => match parse_integer_chars(s, true, 0x8000_0000u64, i32::MAX as u64) {
                    Some(n) => Some(Value::I32(n as i32)),
                    None => None,
                },
                Type::U32 => match parse_integer_chars(s, false, 0, u32::MAX as u64) {
                    Some(n) => Some(Value::U32(n as u32)),
                    None => None,
                },
                Type::I16 => match parse_integer_chars(s, true, 0x8000u64, i16::MAX as u64) {
                    Some(n) => Some(Value::I16(n as i16)),
                    None => None,
                },
                Type::U16 => match parse_integer_chars(s, false, 0, u16::MAX as u64) {
                    Some(n) => Some(Value::U16(n as u16)),
                    None => None,
                },
                Type::U8 => match parse_integer_chars(s, false, 0, u8::MAX as u64) {
                    Some(n) => Some(Value::U8(n as u8)),
                    None => None,
                },
                Type::F64 => match float_bits {
                    Some(b) => Some(Value::F64(NotNan::new_unchecked(b))),
                    None => None,
                },
                Type::F32 => match float_bits {
                    Some(b) => Some(Value::F32(NotNan::new_unchecked(b as u32))),
                    None => None,
                },
                Type::F16 => match float_bits {
                    Some(b) => Some(Value::F16(NotNan::new_unchecked(b as u16))),
                    None => None,
                },
                Type::Boolean => if is_word(s, &['t', 'r', 'u', 'e']) {
                    Some(Value::Boolean(true))
                } else if is_word(s, &['f', 'a', 'l', 's', 'e']) {
                    Some(Value::Boolean(false))
                } else {
                    None
                },
                Type::Void => Some(Value::Void),
                Type::Pointer(p) => match parse_integer_chars(s, false, 0, usize::MAX as u64) {
                    Some(n) => Some(Value::Pointer((n as usize, clone_pointee_of(p)))),
                    None => None,
                },
                Type::String | Type::Array(_) | Type::Unresolved(_) => None,
            };
            match parsed {
                Some(v) => Ok(v),
                None => Err(ParserError::InvalidTypeCast(string_from_chars(s), t)),
            }
        },
        None => {
            if is_word(s, &['t', 'r', 'u', 'e']) {
                Ok(Value::Boolean(true))
            } else if is_word(s, &['f', 'a', 'l', 's', 'e']) {
                Ok(Value::Boolean(false))
            } else if contains_char(s, '.') {
                Ok(Value::F64(NotNan::new_unchecked(float_bits.unwrap())))
            } else if s.len() > 0 && s[0] == '-' {
                let n = parse_integer_chars(s, true, 0x8000_0000_0000_0000u64, i64::MAX as u64).unwrap();
                Ok(Value::I64(n as i64))
            } else {
                let n = parse_integer_chars(s, false, 0, u64::MAX).unwrap();
                Ok(Value::U64(n as u64))
            }
        },
    }
}

/// A copy of a pointer's target type.
fn clone_pointee_of(p: &Option<Box<Token>>) -> (r: Option<Box<Token>>)
    ensures
        r == *p,
{
    match p {
        Some(t) => Some(Box::new(clone_token(t))),
        None => None,
    }
}

proof fn lemma_ends_with_own_suffix(lit: Seq<char>, w: Seq<char>)
    ensures
        ends_with(lit + w, w),
{
    assert((lit + w).subrange((lit + w).len() - w.len(), (lit + w).len() as int) =~= w);
}

proof fn lemma_not_ends_with(s: Seq<char>, suffix: Seq<char>, k: int)
    requires
        0 <= k < suffix.len(),
        suffix.len() <= s.len() ==> s[s.len() - suffix.len() + k] != suffix[k],
    ensures
        !ends_with(s, suffix),
{
    if ends_with(s, suffix) {
        assert(s.subrange(s.len() - suffix.len(), s.len() as int)[k] == suffix[k]);
    }
}

/// The suffix words for integer widths: `small` is 8 bits, `half` 16, none
/// 32 and `long` 64; `u` makes it unsigned.
pub open spec fn word_uintsmall() -> Seq<char> { seq!['u', 'i', 'n', 't', 's', 'm', 'a', 'l', 'l'] }
pub open spec fn word_uinthalf() -> Seq<char> { seq!['u', 'i', 'n', 't', 'h', 'a', 'l', 'f'] }
pub open spec fn word_uint() -> Seq<char> { seq!['u', 'i', 'n', 't'] }
pub open spec fn word_uintlong() -> Seq<char> { seq!['u', 'i', 'n', 't', 'l', 'o', 'n', 'g'] }
pub open spec fn word_inthalf() -> Seq<char> { seq!['i', 'n', 't', 'h', 'a', 'l', 'f'] }
pub open spec fn word_int() -> Seq<char> { seq!['i', 'n', 't'] }
pub open spec fn word_intlong() -> Seq<char> { seq!['i', 'n', 't', 'l', 'o', 'n', 'g'] }
/// The suffix words for float widths: `half` is 16 bits, none 32 and
/// `long` 64.
pub open spec fn word_floathalf() -> Seq<char> { seq!['f', 'l', 'o', 'a', 't', 'h', 'a', 'l', 'f'] }
pub open spec fn word_float() -> Seq<char> { seq!['f', 'l', 'o', 'a', 't'] }
pub open spec fn word_floatlong() -> Seq<char> { seq!['f', 'l', 'o', 'a', 't', 'l', 'o', 'n', 'g'] }

/// A number literal's suffix gives the type of its width and signedness,
/// whatever comes before it: `uintsmall` an unsigned 8-bit integer,
/// `uinthalf`, `uint` and `uintlong` unsigned 16, 32 and 64 bits, `inthalf`,
/// `int` and `intlong` signed 16, 32 and 64 bits (unless a `u` before them
/// makes the longer unsigned suffix), `floathalf`, `float` and `floatlong`
/// floats of 16, 32 and 64 bits; what is left is the literal.
pub proof fn law_numeric_suffixes(lit: Seq<char>)
    ensures
        suffix_match(lit + word_uintsmall(), numeric_suffix()) == Some((lit, TypeDiscriminants::U8)),
        suffix_match(lit + word_uinthalf(), numeric_suffix()) == Some((lit, TypeDiscriminants::U16)),
        suffix_match(lit + word_uint(), numeric_suffix()) == Some((lit, TypeDiscriminants::U32)),
        suffix_match(lit + word_uintlong(), numeric_suffix()) == Some((lit, TypeDiscriminants::U64)),
        !ends_with(lit, seq!['u']) ==> suffix_match(lit + word_inthalf(), numeric_suffix()) == Some((lit, TypeDiscriminants::I16)),
        !ends_with(lit, seq!['u']) ==> suffix_match(lit + word_int(), numeric_suffix()) == Some((lit, TypeDiscriminants::I32)),
        !ends_with(lit, seq!['u']) ==> suffix_match(lit + word_intlong(), numeric_suffix()) == Some((lit, TypeDiscriminants::I64)),
        suffix_match(lit + word_floathalf(), numeric_suffix()) == Some((lit, TypeDiscriminants::F16)),
        suffix_match(lit + word_float(), numeric_suffix()) == Some((lit, TypeDiscriminants::F32)),
        suffix_match(lit + word_floatlong(), numeric_suffix()) == Some((lit, TypeDiscriminants::F64)),
{
    reveal_with_fuel(suffix_match, 11);
    let t = numeric_suffix();
    assert(t[0].0 == word_uintsmall() && t[1].0 == word_uinthalf() && t[2].0 == word_uint() && t[3].0 == word_uintlong());
    assert(t[4].0 == word_inthalf() && t[5].0 == word_int() && t[6].0 == word_intlong());
    assert(t[7].0 == word_floathalf() && t[8].0 == word_float() && t[9].0 == word_floatlong());
    let n = lit.len() as int;
    // Each word against the words before it in the table: a character
    // where they differ, counted from the end.
    let s = lit + word_uintsmall();
    lemma_ends_with_own_suffix(lit, word_uintsmall());
    assert(s.take(s.len() - 9) =~= lit);

    let s = lit + word_uinthalf();
    lemma_ends_with_own_suffix(lit, word_uinthalf());
    lemma_not_ends_with(s, word_uintsmall(), 8);
    assert(s.take(s.len() - 8) =~= lit);

    let s = lit + word_uint();
    lemma_ends_with_own_suffix(lit, word_uint());
    lemma_not_ends_with(s, word_uintsmall(), 8);
    lemma_not_ends_with(s, word_uinthalf(), 7);
    assert(s.take(s.len() - 4) =~= lit);

    let s = lit + word_uintlong();
    lemma_ends_with_own_suffix(lit, word_uintlong());
    lemma_not_ends_with(s, word_uintsmall(), 8);
    lemma_not_ends_with(s, word_uinthalf(), 7);
    lemma_not_ends_with(s, word_uint(), 3);
    assert(s.take(s.len() - 8) =~= lit);

    let s = lit + word_inthalf();
    lemma_ends_with_own_suffix(lit, word_inthalf());
    lemma_not_ends_with(s, word_uintsmall(), 8);
    if !ends_with(lit, seq!['u']) {
        if n >= 1 {
            assert(lit.subrange(n - 1, n) =~= seq![lit[n - 1]]);
        }
        lemma_not_ends_with(s, word_uinthalf(), 0);
    }
    lemma_not_ends_with(s, word_uint(), 3);
    lemma_not_ends_with(s, word_uintlong(), 7);
    assert(s.take(s.len() - 7) =~= lit);

    let s = lit + word_int();
    lemma_ends_with_own_suffix(lit, word_int());
    lemma_not_ends_with(s, word_uintsmall(), 8);
    lemma_not_ends_with(s, word_uinthalf(), 7);
    if !ends_with(lit, seq!['u']) {
        if n >= 1 {
            assert(lit.subrange(n - 1, n) =~= seq![lit[n - 1]]);
        }
        lemma_not_ends_with(s, word_uint(), 0);
    }
    lemma_not_ends_with(s, word_uintlong(), 7);
    lemma_not_ends_with(s, word_inthalf(), 6);
    assert(s.take(s.len() - 3) =~= lit);

    let s = lit + word_intlong();
    lemma_ends_with_own_suffix(lit, word_intlong());
    lemma_not_ends_with(s, word_uintsmall(), 8);
    lemma_not_ends_with(s, word_uinthalf(), 7);
    lemma_not_ends_with(s, word_uint(), 3);
    if !ends_with(lit, seq!['u']) {
        if n >= 1 {
            assert(lit.subrange(n - 1, n) =~= seq![lit[n - 1]]);
        }
        lemma_not_ends_with(s, word_uintlong(), 0);
    }
    lemma_not_ends_with(s, word_inthalf(), 6);
    lemma_not_ends_with(s, word_int(), 2);
    assert(s.take(s.len() - 7) =~= lit);

    let s = lit + word_floathalf();
    lemma_ends_with_own_suffix(lit, word_floathalf());
    lemma_not_ends_with(s, word_uintsmall(), 8);
    lemma_not_ends_with(s, word_uinthalf(), 0);
    lemma_not_ends_with(s, word_uint(), 3);
    lemma_not_ends_with(s, word_uintlong(), 7);
    lemma_not_ends_with(s, word_inthalf(), 0);
    lemma_not_ends_with(s, word_int(), 2);
    lemma_not_ends_with(s, word_intlong(), 6);
    assert(s.take(s.len() - 9) =~= lit);

    let s = lit + word_float();
    lemma_ends_with_own_suffix(lit, word_float());
    lemma_not_ends_with(s, word_uintsmall(), 8);
    lemma_not_ends_with(s, word_uinthalf(), 7);
    lemma_not_ends_with(s, word_uint(), 0);
    lemma_not_ends_with(s, word_uintlong(), 7);
    lemma_not_ends_with(s, word_inthalf(), 6);
    lemma_not_ends_with(s, word_int(), 0);
    lemma_not_ends_with(s, word_intlong(), 6);
    lemma_not_ends_with(s, word_floathalf(), 8);
    assert(s.take(s.len() - 5) =~= lit);

    let s = lit + word_floatlong();
    lemma_ends_with_own_suffix(lit, word_floatlong());
    lemma_not_ends_with(s, word_uintsmall(), 8);
    lemma_not_ends_with(s, word_uinthalf(), 7);
    lemma_not_ends_with(s, word_uint(), 3);
    lemma_not_ends_with(s, word_uintlong(), 0);
    lemma_not_ends_with(s, word_inthalf(), 6);
    lemma_not_ends_with(s, word_int(), 2);
    lemma_not_ends_with(s, word_intlong(), 0);
    lemma_not_ends_with(s, word_floathalf(), 8);
    lemma_not_ends_with(s, word_float(), 4);
    assert(s.take(s.len() - 9) =~= lit);
}

/// The number an integer value holds.
pub open spec fn int_of(v: Value) -> Option<int> {
    match v {
        Value::U8(x) => Some(x as int),
        Value::U16(x) => Some(x as int),
        Value::U32(x) => Some(x as int),
        Value::U64(x) => Some(x as int),
        Value::I16(x) => Some(x as int),
        Value::I32(x) => Some(x as int),
        Value::I64(x) => Some(x as int),
        _ => None,
    }
}

/// A literal without a suffix keeps its number in the narrowest type that
/// holds it: an unsigned one in `u8`, `u16`, `u32` or `u64`, a negative one
/// in `i16`, `i32` or `i64`.
pub proof fn law_narrowest_fit(n: int)
    ensures
        0 <= n <= u64::MAX ==> {
            &&& int_of(unsigned_value(n)) == Some(n)
            &&& (n <= u8::MAX <==> unsigned_value(n) is U8)
            &&& (u8::MAX < n <= u16::MAX <==> unsigned_value(n) is U16)
            &&& (u16::MAX < n <= u32::MAX <==> unsigned_value(n) is U32)
            &&& (u32::MAX < n <==> unsigned_value(n) is U64)
        },
        i64::MIN <= n <= i64::MAX ==> {
            &&& int_of(signed_value(n)) == Some(n)
            &&& (i16::MIN <= n <= i16::MAX <==> signed_value(n) is I16)
            &&& (!(i16::MIN <= n <= i16::MAX) && i32::MIN <= n <= i32::MAX <==> signed_value(n) is I32)
            &&& (!(i32::MIN <= n <= i32::MAX) <==> signed_value(n) is I64)
        },
{
}

} // verus!
