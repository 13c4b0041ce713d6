use vstd::prelude::*;
use crate::lexer::{is_ascii_digit, string_from_chars};
use crate::numeric::{all_digits, digits_value};

verus! {

/// How a function call argument is given: by name or by position.
#[derive(Debug, Clone, PartialEq, Eq, Hash)]
pub enum FunctionArgumentIdentifier<IDENT, IDX> {
    Identifier(IDENT),
    Index(IDX),
}

/// The character of a decimal digit.
pub open spec fn digit_char(d: nat) -> char {
    if d == 0 {
        '0'
    } else if d == 1 {
        '1'
    } else if d == 2 {
        '2'
    } else if d == 3 {
        '3'
    } else if d == 4 {
        '4'
    } else if d == 5 {
        '5'
    } else if d == 6 {
        '6'
    } else if d == 7 {
        '7'
    } else if d == 8 {
        '8'
    } else {
        '9'
    }
}

/// `n` written in decimal.
pub open spec fn decimal(n: nat) -> Seq<char>
    decreases n,
{
    if n < 10 {
        seq![digit_char(n)]
    } else {
        decimal(n / 10).push(digit_char(n % 10))
    }
}

fn digit_to_char(d: usize) -> (c: char)
    requires
        d < 10,
    ensures
        c == digit_char(d as nat),
{
    if d == 0 {
        '0'
    } else if d == 1 {
        '1'
    } else if d == 2 {
        '2'
    } else if d == 3 {
        '3'
    } else if d == 4 {
        '4'
    } else if d == 5 {
        '5'
    } else if d == 6 {
        '6'
    } else if d == 7 {
        '7'
    } else if d == 8 {
        '8'
    } else {
        '9'
    }
}

/// Appends `n` written in decimal.
fn push_decimal(out: &mut Vec<char>, n: usize)
    ensures
        final(out)@ == old(out)@ + decimal(n as nat),
    decreases n,
{
    if n >= 10 {
        push_decimal(out, n / 10);
    }
    out.push(digit_to_char(n % 10));
    proof {
        if n >= 10 {
            assert(old(out)@ + decimal(n as nat) =~= old(out)@ + decimal((n / 10) as nat) + seq![digit_char((n % 10) as nat)]);
        } else {
            assert(old(out)@ + decimal(n as nat) =~= old(out)@.push(digit_char(n as nat)));
        }
    }
}

/// Appends the characters of `s`.
fn push_str(out: &mut Vec<char>, s: &str)
    ensures
        final(out)@ == old(out)@ + s@,
{
    for c in it: s.chars()
        invariant
            out@ == old(out)@ + it.seq().take(it.index() as int),
            it.seq() == s@,
    {
        out.push(c);
        proof {
            assert(it.seq().take(it.index() + 1) =~= it.seq().take(it.index() as int).push(c));
        }
    }
    proof {
        assert(s@.take(s@.len() as int) =~= s@);
    }
}

/// The name of a function argument in the generated code: a named argument
/// keeps its name; the argument at position `idx` of function `fn_name` is
/// named `{fn_name}_idx_{idx}_arg`.
pub fn fn_arg_to_string(fn_name: &str, fn_arg: &FunctionArgumentIdentifier<String, usize>) -> (r: String)
    ensures
        match fn_arg {
            FunctionArgumentIdentifier::Identifier(ident) => r@ == ident@,
            FunctionArgumentIdentifier::Index(idx) => r@ == fn_name@ + seq!['_', 'i', 'd', 'x', '_']
                + decimal(*idx as nat) + seq!['_', 'a', 'r', 'g'],
        },
{
    match fn_arg {
        FunctionArgumentIdentifier::Identifier(ident) => ident.clone(),
        FunctionArgumentIdentifier::Index(idx) => {
            let mut out: Vec<char> = Vec::new();
            push_str(&mut out, fn_name);
            out.push('_');
            out.push('i');
            out.push('d');
            out.push('x');
            out.push('_');
            push_decimal(&mut out, *idx);
            out.push('_');
            out.push('a');
            out.push('r');
            out.push('g');
            proof {
                assert(out@ =~= fn_name@ + seq!['_', 'i', 'd', 'x', '_'] + decimal(*idx as nat) + seq![
                    '_',
                    'a',
                    'r',
                    'g',
                ]);
            }
            string_from_chars(out.as_slice())
        },
    }
}

/// The bytes a string literal is allocated with in the generated code: its
/// UTF-8 bytes, followed by a NUL byte unless the last byte already is one.
/// An empty string stays empty.
pub fn allocate_string(string_buffer: String) -> (r: Vec<u8>)
    ensures
        ({
            let bytes = vstd::utf8::encode_utf8(string_buffer@);
            r@ == if bytes.len() > 0 && bytes.last() != 0 {
                bytes.push(0)
            } else {
                bytes
            }
        }),
{
    let mut string_bytes = vstd::slice::slice_to_vec(string_buffer.as_str().as_bytes());
    let n = string_bytes.len();
    if n > 0 && string_bytes[n - 1] != 0 {
        string_bytes.push(0);
    }
    string_bytes
}

proof fn lemma_digit_char_value(d: nat)
    requires
        d < 10,
    ensures
        is_ascii_digit(digit_char(d)),
        digit_char(d) as int - '0' as int == d,
{
}

/// A number written by `decimal` reads back as that number: it is a
/// non-empty run of ASCII digits whose value is `n`.
pub proof fn law_decimal_reads_back(n: nat)
    ensures
        decimal(n).len() > 0,
        all_digits(decimal(n)),
        digits_value(decimal(n)) == n,
    decreases n,
{
    if n < 10 {
        lemma_digit_char_value(n);
        assert(decimal(n).drop_last() =~= Seq::<char>::empty());
        assert(digits_value(Seq::<char>::empty()) == 0);
    } else {
        law_decimal_reads_back(n / 10);
        lemma_digit_char_value(n % 10);
        let s = decimal(n);
        assert(s.drop_last() =~= decimal(n / 10));
        assert(s.last() == digit_char(n % 10));
        assert(digits_value(s) == digits_value(decimal(n / 10)) * 10 + (digit_char(n % 10) as int - '0' as int));
        assert((n / 10) * 10 + n % 10 == n) by (nonlinear_arith);
        assert forall|i: int| 0 <= i < s.len() implies is_ascii_digit(#[trigger] s[i]) by {
            if i < s.len() - 1 {
                assert(s[i] == decimal(n / 10)[i]);
            }
        }
    }
}

/// Two positional arguments of one function get different names exactly
/// when their positions differ.
pub proof fn law_index_names_distinct(fn_name: Seq<char>, a: nat, b: nat)
    ensures
        (fn_name + seq!['_', 'i', 'd', 'x', '_'] + decimal(a) + seq!['_', 'a', 'r', 'g'] == fn_name
            + seq!['_', 'i', 'd', 'x', '_'] + decimal(b) + seq!['_', 'a', 'r', 'g']) <==> a == b,
{
    let pre = fn_name + seq!['_', 'i', 'd', 'x', '_'];
    let x = pre + decimal(a) + seq!['_', 'a', 'r', 'g'];
    let y = pre + decimal(b) + seq!['_', 'a', 'r', 'g'];
    if x == y {
        assert(x.len() == pre.len() + decimal(a).len() + 4);
        assert(y.len() == pre.len() + decimal(b).len() + 4);
        assert(decimal(a).len() == decimal(b).len());
        assert(x.subrange(pre.len() as int, (pre.len() + decimal(a).len()) as int) =~= decimal(a));
        assert(y.subrange(pre.len() as int, (pre.len() + decimal(b).len()) as int) =~= decimal(b));
        law_decimal_reads_back(a);
        law_decimal_reads_back(b);
    }
}

} // verus!
