use vstd::prelude::*;
use crate::span::{CharPosition, SpanInfo, Spanned};
use crate::errors::ParserError;
use crate::token::{
    CompilerInstructionDiscriminants, ItemVisibility, LogicalOperator, MathematicalSymbol, Order,
    Token, TypeToken, Value,
};

verus! {

// ---------------------------------------------------------------------------
// Characters
// ---------------------------------------------------------------------------

/// Unicode `White_Space`, the characters `char::is_whitespace` accepts.
pub open spec fn is_whitespace(c: char) -> bool {
    let u = c as u32;
    u == 0x20 || (0x09 <= u && u <= 0x0d) || u == 0x85 || u == 0xa0 || u == 0x1680 || (0x2000
        <= u && u <= 0x200a) || u == 0x2028 || u == 0x2029 || u == 0x202f || u == 0x205f || u
        == 0x3000
}

fn char_is_whitespace(c: char) -> (r: bool)
    ensures
        r == is_whitespace(c),
{
    let u = c as u32;
    u == 0x20 || (0x09 <= u && u <= 0x0d) || u == 0x85 || u == 0xa0 || u == 0x1680 || (0x2000
        <= u && u <= 0x200a) || u == 0x2028 || u == 0x2029 || u == 0x202f || u == 0x205f || u
        == 0x3000
}

/// The whitespace `trim_ascii` removes: space, tab, line feed, form feed and
/// carriage return.
pub open spec fn is_ascii_whitespace(c: char) -> bool {
    c == ' ' || c == '\t' || c == '\n' || c == '\x0C' || c == '\r'
}

pub open spec fn is_ascii_digit(c: char) -> bool {
    '0' <= c && c <= '9'
}

pub open spec fn is_ascii_alphanumeric(c: char) -> bool {
    ('0' <= c && c <= '9') || ('a' <= c && c <= 'z') || ('A' <= c && c <= 'Z')
}

/// The number of bytes of the UTF-8 encoding of `c`.
pub open spec fn utf8_len(c: char) -> nat {
    let u = c as u32;
    if u < 0x80 {
        1
    } else if u < 0x800 {
        2
    } else if u < 0x10000 {
        3
    } else {
        4
    }
}

/// The number of bytes of the UTF-8 encoding of `s`.
pub open spec fn byte_len(s: Seq<char>) -> nat
    decreases s.len(),
{
    if s.len() == 0 {
        0
    } else {
        byte_len(s.drop_last()) + utf8_len(s.last())
    }
}

pub proof fn lemma_byte_len_concat(a: Seq<char>, b: Seq<char>)
    ensures
        byte_len(a + b) == byte_len(a) + byte_len(b),
    decreases b.len(),
{
    if b.len() > 0 {
        lemma_byte_len_concat(a, b.drop_last());
        assert((a + b).drop_last() =~= a + b.drop_last());
    } else {
        assert(a + b =~= a);
    }
}

pub proof fn lemma_byte_len_prefix(s: Seq<char>, i: int, j: int)
    requires
        0 <= i <= j <= s.len(),
    ensures
        byte_len(s.take(j)) == byte_len(s.take(i)) + byte_len(s.subrange(i, j)),
        byte_len(s.take(i)) <= byte_len(s.take(j)),
        byte_len(s.subrange(i, j)) >= j - i,
{
    lemma_byte_len_concat(s.take(i), s.subrange(i, j));
    assert(s.take(j) =~= s.take(i) + s.subrange(i, j));
    lemma_byte_len_at_least_len(s.subrange(i, j));
}

pub proof fn lemma_byte_len_at_least_len(s: Seq<char>)
    ensures
        byte_len(s) >= s.len(),
    decreases s.len(),
{
    if s.len() > 0 {
        lemma_byte_len_at_least_len(s.drop_last());
    }
}

/// The bytes of a string are its UTF-8 encoding, so their number is `byte_len`.
pub proof fn lemma_encode_utf8_len(s: Seq<char>)
    ensures
        vstd::utf8::encode_utf8(s).len() == byte_len(s),
    decreases s.len(),
{
    if s.len() > 0 {
        lemma_encode_utf8_len(s.drop_first());
        lemma_byte_len_concat(seq![s[0]], s.drop_first());
        assert(seq![s[0]] + s.drop_first() =~= s);
        let c = s[0];
        assert(seq![c].drop_last() =~= Seq::<char>::empty());
        assert(byte_len(Seq::<char>::empty()) == 0);
        assert(byte_len(seq![c]) == utf8_len(c));
        assert(vstd::utf8::encode_scalar(c as u32).len() == utf8_len(c)) by {
            vstd::utf8::char_is_scalar(c);
        }
        assert(vstd::utf8::encode_utf8(s) == vstd::utf8::encode_scalar(c as u32)
            + vstd::utf8::encode_utf8(s.drop_first()));
    } else {
        assert(vstd::utf8::encode_utf8(s).len() == 0);
    }
}

/// The number of bytes of `s[start..end]`, computed.
pub(crate) fn byte_len_of(s: &[char], start: usize, end: usize) -> (r: usize)
    requires
        start <= end <= s@.len(),
        byte_len(s@.subrange(start as int, end as int)) <= usize::MAX,
    ensures
        r == byte_len(s@.subrange(start as int, end as int)),
{
    let mut n: usize = 0;
    let mut i: usize = start;
    while i < end
        invariant
            start <= i <= end <= s@.len(),
            byte_len(s@.subrange(start as int, end as int)) <= usize::MAX,
            n == byte_len(s@.subrange(start as int, i as int)),
        decreases end - i,
    {
        proof {
            let t = s@.subrange(start as int, end as int);
            lemma_byte_len_prefix(t, (i - start) as int, (i + 1 - start) as int);
            lemma_byte_len_prefix(t, (i + 1 - start) as int, t.len() as int);
            assert(t.take((i - start) as int) =~= s@.subrange(start as int, i as int));
            assert(t.take((i + 1 - start) as int) =~= s@.subrange(start as int, i + 1));
            assert(t.take(t.len() as int) =~= t);
            assert(s@.subrange(start as int, i + 1).drop_last() =~= s@.subrange(start as int, i as int));
        }
        let c = s[i];
        let u = c as u32;
        let w: usize = if u < 0x80 {
            1
        } else if u < 0x800 {
            2
        } else if u < 0x10000 {
            3
        } else {
            4
        };
        n = n + w;
        i = i + 1;
    }
    n
}

/// A copy of `s[start..end]`.
pub(crate) fn copy_range(s: &[char], start: usize, end: usize) -> (r: Vec<char>)
    requires
        start <= end <= s@.len(),
    ensures
        r@ == s@.subrange(start as int, end as int),
{
    let mut v: Vec<char> = Vec::new();
    let mut i: usize = start;
    while i < end
        invariant
            start <= i <= end <= s@.len(),
            v@ == s@.subrange(start as int, i as int),
        decreases end - i,
    {
        v.push(s[i]);
        i = i + 1;
    }
    v
}

/// Appends `s[start..end]` to `v`.
fn append_range(v: &mut Vec<char>, s: &[char], start: usize, end: usize)
    requires
        start <= end <= s@.len(),
    ensures
        final(v)@ == old(v)@ + s@.subrange(start as int, end as int),
{
    let mut i: usize = start;
    while i < end
        invariant
            start <= i <= end <= s@.len(),
            v@ == old(v)@ + s@.subrange(start as int, i as int),
        decreases end - i,
    {
        v.push(s[i]);
        i = i + 1;
    }
}

/// The string made of the given characters.
///
/// Trusted: `impl FromIterator<char> for String` collects the characters in order.
#[verifier::external_body]
pub(crate) fn string_from_chars(chars: &[char]) -> (r: String)
    ensures
        r@ == chars@,
{
    chars.iter().collect()
}

/// The characters of a string, in order.
pub(crate) fn chars_of(s: &str) -> (v: Vec<char>)
    ensures
        v@ == s@,
{
    let mut v: Vec<char> = Vec::new();
    for c in it: s.chars()
        invariant
            v@ == it.seq().take(it.index() as int),
            it.seq() == s@,
    {
        v.push(c);
    }
    v
}

// ---------------------------------------------------------------------------
// Keywords and symbols
// ---------------------------------------------------------------------------

/// The token spelled by the 1 character, if any.
pub open spec fn keyword_1(a: char) -> Option<Token> {
    if a == '+' {
        Some(Token::MathSym(MathematicalSymbol::Addition))
    } else if a == '-' {
        Some(Token::MathSym(MathematicalSymbol::Subtraction))
    } else if a == '*' {
        Some(Token::MathSym(MathematicalSymbol::Multiplication))
    } else if a == '/' {
        Some(Token::MathSym(MathematicalSymbol::Division))
    } else if a == '%' {
        Some(Token::MathSym(MathematicalSymbol::Modulo))
    } else if a == '}' {
        Some(Token::CloseBraces)
    } else if a == '>' {
        Some(Token::CloseAngledBrackets)
    } else if a == ')' {
        Some(Token::CloseParentheses)
    } else if a == ']' {
        Some(Token::CloseSquareBrackets)
    } else if a == '{' {
        Some(Token::OpenBraces)
    } else if a == '<' {
        Some(Token::OpenAngledBrackets)
    } else if a == '(' {
        Some(Token::OpenParentheses)
    } else if a == '[' {
        Some(Token::OpenSquareBrackets)
    } else if a == ',' {
        Some(Token::Comma)
    } else if a == '.' {
        Some(Token::Dot)
    } else if a == ':' {
        Some(Token::Colon)
    } else if a == '=' {
        Some(Token::SetValue)
    } else if a == '|' {
        Some(Token::BitOr)
    } else if a == '&' {
        Some(Token::BitAnd)
    } else if a == '@' {
        Some(Token::CompilerHintSymbol)
    } else if a == ';' {
        Some(Token::SemiColon)
    } else {
        None
    }
}

fn match_keyword_1(a: char) -> (r: Option<Token>)
    ensures
        r == keyword_1(a),
{
    if a == '+' {
        Some(Token::MathSym(MathematicalSymbol::Addition))
    } else if a == '-' {
        Some(Token::MathSym(MathematicalSymbol::Subtraction))
    } else if a == '*' {
        Some(Token::MathSym(MathematicalSymbol::Multiplication))
    } else if a == '/' {
        Some(Token::MathSym(MathematicalSymbol::Division))
    } else if a == '%' {
        Some(Token::MathSym(MathematicalSymbol::Modulo))
    } else if a == '}' {
        Some(Token::CloseBraces)
    } else if a == '>' {
        Some(Token::CloseAngledBrackets)
    } else if a == ')' {
        Some(Token::CloseParentheses)
    } else if a == ']' {
        Some(Token::CloseSquareBrackets)
    } else if a == '{' {
        Some(Token::OpenBraces)
    } else if a == '<' {
        Some(Token::OpenAngledBrackets)
    } else if a == '(' {
        Some(Token::OpenParentheses)
    } else if a == '[' {
        Some(Token::OpenSquareBrackets)
    } else if a == ',' {
        Some(Token::Comma)
    } else if a == '.' {
        Some(Token::Dot)
    } else if a == ':' {
        Some(Token::Colon)
    } else if a == '=' {
        Some(Token::SetValue)
    } else if a == '|' {
        Some(Token::BitOr)
    } else if a == '&' {
        Some(Token::BitAnd)
    } else if a == '@' {
        Some(Token::CompilerHintSymbol)
    } else if a == ';' {
        Some(Token::SemiColon)
    } else {
        None
    }
}

/// The token spelled by the 2 characters, if any.
pub open spec fn keyword_2(a: char, b: char) -> Option<Token> {
    if a == '=' && b == '=' {
        Some(Token::Comparison(Order::Equal))
    } else if a == '!' && b == '=' {
        Some(Token::Comparison(Order::NotEqual))
    } else if a == '>' && b == '=' {
        Some(Token::Comparison(Order::EqBigger))
    } else if a == '<' && b == '=' {
        Some(Token::Comparison(Order::EqSmaller))
    } else if a == '&' && b == '&' {
        Some(Token::LogicalOperator(LogicalOperator::And))
    } else if a == '|' && b == '|' {
        Some(Token::LogicalOperator(LogicalOperator::Or))
    } else if a == '=' && b == '+' {
        Some(Token::SetValueMathSym(MathematicalSymbol::Addition))
    } else if a == '=' && b == '-' {
        Some(Token::SetValueMathSym(MathematicalSymbol::Subtraction))
    } else if a == '=' && b == '*' {
        Some(Token::SetValueMathSym(MathematicalSymbol::Multiplication))
    } else if a == '=' && b == '/' {
        Some(Token::SetValueMathSym(MathematicalSymbol::Division))
    } else if a == '%' && b == '=' {
        Some(Token::SetValueMathSym(MathematicalSymbol::Modulo))
    } else if a == 'a' && b == 's' {
        Some(Token::As)
    } else if a == 'i' && b == 'f' {
        Some(Token::If)
    } else if a == ':' && b == ':' {
        Some(Token::DoubleColon)
    } else if a == '<' && b == '-' {
        Some(Token::LeftArrow)
    } else if a == '-' && b == '>' {
        Some(Token::RightArrow)
    } else {
        None
    }
}

fn match_keyword_2(a: char, b: char) -> (r: Option<Token>)
    ensures
        r == keyword_2(a, b),
{
    if a == '=' && b == '=' {
        Some(Token::Comparison(Order::Equal))
    } else if a == '!' && b == '=' {
        Some(Token::Comparison(Order::NotEqual))
    } else if a == '>' && b == '=' {
        Some(Token::Comparison(Order::EqBigger))
    } else if a == '<' && b == '=' {
        Some(Token::Comparison(Order::EqSmaller))
    } else if a == '&' && b == '&' {
        Some(Token::LogicalOperator(LogicalOperator::And))
    } else if a == '|' && b == '|' {
        Some(Token::LogicalOperator(LogicalOperator::Or))
    } else if a == '=' && b == '+' {
        Some(Token::SetValueMathSym(MathematicalSymbol::Addition))
    } else if a == '=' && b == '-' {
        Some(Token::SetValueMathSym(MathematicalSymbol::Subtraction))
    } else if a == '=' && b == '*' {
        Some(Token::SetValueMathSym(MathematicalSymbol::Multiplication))
    } else if a == '=' && b == '/' {
        Some(Token::SetValueMathSym(MathematicalSymbol::Division))
    } else if a == '%' && b == '=' {
        Some(Token::SetValueMathSym(MathematicalSymbol::Modulo))
    } else if a == 'a' && b == 's' {
        Some(Token::As)
    } else if a == 'i' && b == 'f' {
        Some(Token::If)
    } else if a == ':' && b == ':' {
        Some(Token::DoubleColon)
    } else if a == '<' && b == '-' {
        Some(Token::LeftArrow)
    } else if a == '-' && b == '>' {
        Some(Token::RightArrow)
    } else {
        None
    }
}

/// The token spelled by the 3 characters, if any.
pub open spec fn keyword_3(a: char, b: char, c: char) -> Option<Token> {
    if a == '.' && b == '.' && c == '.' {
        Some(Token::Ellipsis)
    } else if a == 'i' && b == 'n' && c == 't' {
        Some(Token::TypeDefinition(TypeToken::I32))
    } else if a == 'p' && b == 't' && c == 'r' {
        Some(Token::TypeDefinition(TypeToken::Pointer))
    } else if a == 'r' && b == 'e' && c == 'f' {
        Some(Token::Reference)
    } else if a == 'f' && b == 'o' && c == 'r' {
        Some(Token::For)
    } else if a == 'p' && b == 'u' && c == 'b' {
        Some(Token::ItemVisibility(ItemVisibility::Public))
    } else if a == 'e' && b == 'x' && c == 'p' {
        Some(Token::Export)
    } else if a == 'b' && b == '>' && c == '>' {
        Some(Token::BitRight)
    } else if a == 'b' && b == '<' && c == '<' {
        Some(Token::BitLeft)
    } else if a == 'v' && b == 'a' && c == 'r' {
        Some(Token::Variable)
    } else {
        None
    }
}

fn match_keyword_3(a: char, b: char, c: char) -> (r: Option<Token>)
    ensures
        r == keyword_3(a, b, c),
{
    if a == '.' && b == '.' && c == '.' {
        Some(Token::Ellipsis)
    } else if a == 'i' && b == 'n' && c == 't' {
        Some(Token::TypeDefinition(TypeToken::I32))
    } else if a == 'p' && b == 't' && c == 'r' {
        Some(Token::TypeDefinition(TypeToken::Pointer))
    } else if a == 'r' && b == 'e' && c == 'f' {
        Some(Token::Reference)
    } else if a == 'f' && b == 'o' && c == 'r' {
        Some(Token::For)
    } else if a == 'p' && b == 'u' && c == 'b' {
        Some(Token::ItemVisibility(ItemVisibility::Public))
    } else if a == 'e' && b == 'x' && c == 'p' {
        Some(Token::Export)
    } else if a == 'b' && b == '>' && c == '>' {
        Some(Token::BitRight)
    } else if a == 'b' && b == '<' && c == '<' {
        Some(Token::BitLeft)
    } else if a == 'v' && b == 'a' && c == 'r' {
        Some(Token::Variable)
    } else {
        None
    }
}

/// The token spelled by the 4 characters, if any.
pub open spec fn keyword_4(a: char, b: char, c: char, d: char) -> Option<Token> {
    if a == 'u' && b == 'i' && c == 'n' && d == 't' {
        Some(Token::TypeDefinition(TypeToken::U32))
    } else if a == 'b' && b == 'o' && c == 'o' && d == 'l' {
        Some(Token::TypeDefinition(TypeToken::Boolean))
    } else if a == 'v' && b == 'o' && c == 'i' && d == 'd' {
        Some(Token::TypeDefinition(TypeToken::Void))
    } else if a == 'e' && b == 'n' && c == 'u' && d == 'm' {
        Some(Token::TypeDefinition(TypeToken::Enum))
    } else if a == 't' && b == 'r' && c == 'u' && d == 'e' {
        Some(Token::Literal(Value::Boolean(true)))
    } else if a == 'e' && b == 'l' && c == 's' && d == 'e' {
        Some(Token::Else)
    } else if a == 'l' && b == 'o' && c == 'o' && d == 'p' {
        Some(Token::Loop)
    } else if a == 'p' && b == 'r' && c == 'i' && d == 'v' {
        Some(Token::ItemVisibility(ItemVisibility::Private))
    } else if a == 'c' && b == 'o' && c == 'l' && d == 'd' {
        Some(Token::CompilerInstruction(CompilerInstructionDiscriminants::Cold))
    } else {
        None
    }
}

fn match_keyword_4(a: char, b: char, c: char, d: char) -> (r: Option<Token>)
    ensures
        r == keyword_4(a, b, c, d),
{
    if a == 'u' && b == 'i' && c == 'n' && d == 't' {
        Some(Token::TypeDefinition(TypeToken::U32))
    } else if a == 'b' && b == 'o' && c == 'o' && d == 'l' {
        Some(Token::TypeDefinition(TypeToken::Boolean))
    } else if a == 'v' && b == 'o' && c == 'i' && d == 'd' {
        Some(Token::TypeDefinition(TypeToken::Void))
    } else if a == 'e' && b == 'n' && c == 'u' && d == 'm' {
        Some(Token::TypeDefinition(TypeToken::Enum))
    } else if a == 't' && b == 'r' && c == 'u' && d == 'e' {
        Some(Token::Literal(Value::Boolean(true)))
    } else if a == 'e' && b == 'l' && c == 's' && d == 'e' {
        Some(Token::Else)
    } else if a == 'l' && b == 'o' && c == 'o' && d == 'p' {
        Some(Token::Loop)
    } else if a == 'p' && b == 'r' && c == 'i' && d == 'v' {
        Some(Token::ItemVisibility(ItemVisibility::Private))
    } else if a == 'c' && b == 'o' && c == 'l' && d == 'd' {
        Some(Token::CompilerInstruction(CompilerInstructionDiscriminants::Cold))
    } else {
        None
    }
}

/// The token spelled by the 5 characters, if any.
pub open spec fn keyword_5(a: char, b: char, c: char, d: char, e: char) -> Option<Token> {
    if a == 'f' && b == 'l' && c == 'o' && d == 'a' && e == 't' {
        Some(Token::TypeDefinition(TypeToken::F32))
    } else if a == 'a' && b == 'r' && c == 'r' && d == 'a' && e == 'y' {
        Some(Token::TypeDefinition(TypeToken::Array))
    } else if a == 'd' && b == 'e' && c == 'r' && d == 'e' && e == 'f' {
        Some(Token::Dereference)
    } else if a == 'f' && b == 'a' && c == 'l' && d == 's' && e == 'e' {
        Some(Token::Literal(Value::Boolean(false)))
    } else if a == 'w' && b == 'h' && c == 'i' && d == 'l' && e == 'e' {
        Some(Token::While)
    } else if a == 'b' && b == 'r' && c == 'e' && d == 'a' && e == 'k' {
        Some(Token::Break)
    } else if a == 'c' && b == 'o' && c == 'n' && d == 's' && e == 't' {
        Some(Token::Const)
    } else {
        None
    }
}

fn match_keyword_5(a: char, b: char, c: char, d: char, e: char) -> (r: Option<Token>)
    ensures
        r == keyword_5(a, b, c, d, e),
{
    if a == 'f' && b == 'l' && c == 'o' && d == 'a' && e == 't' {
        Some(Token::TypeDefinition(TypeToken::F32))
    } else if a == 'a' && b == 'r' && c == 'r' && d == 'a' && e == 'y' {
        Some(Token::TypeDefinition(TypeToken::Array))
    } else if a == 'd' && b == 'e' && c == 'r' && d == 'e' && e == 'f' {
        Some(Token::Dereference)
    } else if a == 'f' && b == 'a' && c == 'l' && d == 's' && e == 'e' {
        Some(Token::Literal(Value::Boolean(false)))
    } else if a == 'w' && b == 'h' && c == 'i' && d == 'l' && e == 'e' {
        Some(Token::While)
    } else if a == 'b' && b == 'r' && c == 'e' && d == 'a' && e == 'k' {
        Some(Token::Break)
    } else if a == 'c' && b == 'o' && c == 'n' && d == 's' && e == 't' {
        Some(Token::Const)
    } else {
        None
    }
}

/// The token spelled by the 6 characters, if any.
pub open spec fn keyword_6(a: char, b: char, c: char, d: char, e: char, f: char) -> Option<Token> {
    if a == 's' && b == 't' && c == 'r' && d == 'i' && e == 'n' && f == 'g' {
        Some(Token::TypeDefinition(TypeToken::String))
    } else if a == 's' && b == 't' && c == 'r' && d == 'u' && e == 'c' && f == 't' {
        Some(Token::TypeDefinition(TypeToken::Struct))
    } else if a == 'i' && b == 'm' && c == 'p' && d == 'o' && e == 'r' && f == 't' {
        Some(Token::Import)
    } else if a == 'r' && b == 'e' && c == 't' && d == 'u' && e == 'r' && f == 'n' {
        Some(Token::Return)
    } else if a == 'e' && b == 'l' && c == 's' && d == 'e' && e == 'i' && f == 'f' {
        Some(Token::ElseIf)
    } else if a == 'p' && b == 'u' && c == 'b' && d == 'l' && e == 'i' && f == 'b' {
        Some(Token::ItemVisibility(ItemVisibility::PublicLibrary))
    } else if a == 'n' && b == 'o' && c == 'f' && d == 'r' && e == 'e' && f == 'e' {
        Some(Token::CompilerInstruction(CompilerInstructionDiscriminants::NoFree))
    } else if a == 'i' && b == 'n' && c == 'l' && d == 'i' && e == 'n' && f == 'e' {
        Some(Token::CompilerInstruction(CompilerInstructionDiscriminants::Inline))
    } else if a == 's' && b == 't' && c == 'a' && d == 't' && e == 'i' && f == 'c' {
        Some(Token::Static)
    } else {
        None
    }
}

fn match_keyword_6(a: char, b: char, c: char, d: char, e: char, f: char) -> (r: Option<Token>)
    ensures
        r == keyword_6(a, b, c, d, e, f),
{
    if a == 's' && b == 't' && c == 'r' && d == 'i' && e == 'n' && f == 'g' {
        Some(Token::TypeDefinition(TypeToken::String))
    } else if a == 's' && b == 't' && c == 'r' && d == 'u' && e == 'c' && f == 't' {
        Some(Token::TypeDefinition(TypeToken::Struct))
    } else if a == 'i' && b == 'm' && c == 'p' && d == 'o' && e == 'r' && f == 't' {
        Some(Token::Import)
    } else if a == 'r' && b == 'e' && c == 't' && d == 'u' && e == 'r' && f == 'n' {
        Some(Token::Return)
    } else if a == 'e' && b == 'l' && c == 's' && d == 'e' && e == 'i' && f == 'f' {
        Some(Token::ElseIf)
    } else if a == 'p' && b == 'u' && c == 'b' && d == 'l' && e == 'i' && f == 'b' {
        Some(Token::ItemVisibility(ItemVisibility::PublicLibrary))
    } else if a == 'n' && b == 'o' && c == 'f' && d == 'r' && e == 'e' && f == 'e' {
        Some(Token::CompilerInstruction(CompilerInstructionDiscriminants::NoFree))
    } else if a == 'i' && b == 'n' && c == 'l' && d == 'i' && e == 'n' && f == 'e' {
        Some(Token::CompilerInstruction(CompilerInstructionDiscriminants::Inline))
    } else if a == 's' && b == 't' && c == 'a' && d == 't' && e == 'i' && f == 'c' {
        Some(Token::Static)
    } else {
        None
    }
}

/// The token spelled by the 7 characters, if any.
pub open spec fn keyword_7(a: char, b: char, c: char, d: char, e: char, f: char, g: char) -> Option<Token> {
    if a == 'i' && b == 'n' && c == 't' && d == 'h' && e == 'a' && f == 'l' && g == 'f' {
        Some(Token::TypeDefinition(TypeToken::I16))
    } else if a == 'i' && b == 'n' && c == 't' && d == 'l' && e == 'o' && f == 'n' && g == 'g' {
        Some(Token::TypeDefinition(TypeToken::I64))
    } else if a == 'f' && b == 'e' && c == 'a' && d == 't' && e == 'u' && f == 'r' && g == 'e' {
        Some(Token::CompilerInstruction(CompilerInstructionDiscriminants::Feature))
    } else {
        None
    }
}

fn match_keyword_7(a: char, b: char, c: char, d: char, e: char, f: char, g: char) -> (r: Option<Token>)
    ensures
        r == keyword_7(a, b, c, d, e, f, g),
{
    if a == 'i' && b == 'n' && c == 't' && d == 'h' && e == 'a' && f == 'l' && g == 'f' {
        Some(Token::TypeDefinition(TypeToken::I16))
    } else if a == 'i' && b == 'n' && c == 't' && d == 'l' && e == 'o' && f == 'n' && g == 'g' {
        Some(Token::TypeDefinition(TypeToken::I64))
    } else if a == 'f' && b == 'e' && c == 'a' && d == 't' && e == 'u' && f == 'r' && g == 'e' {
        Some(Token::CompilerInstruction(CompilerInstructionDiscriminants::Feature))
    } else {
        None
    }
}

/// The token spelled by the 8 characters, if any.
pub open spec fn keyword_8(a: char, b: char, c: char, d: char, e: char, f: char, g: char, h: char) -> Option<Token> {
    if a == 'u' && b == 'i' && c == 'n' && d == 't' && e == 'h' && f == 'a' && g == 'l' && h == 'f' {
        Some(Token::TypeDefinition(TypeToken::U16))
    } else if a == 'u' && b == 'i' && c == 'n' && d == 't' && e == 'l' && f == 'o' && g == 'n' && h == 'g' {
        Some(Token::TypeDefinition(TypeToken::U64))
    } else if a == 'e' && b == 'x' && c == 't' && d == 'e' && e == 'r' && f == 'n' && g == 'a' && h == 'l' {
        Some(Token::External)
    } else if a == 'f' && b == 'u' && c == 'n' && d == 'c' && e == 't' && f == 'i' && g == 'o' && h == 'n' {
        Some(Token::TypeDefinition(TypeToken::Function))
    } else if a == 'c' && b == 'o' && c == 'n' && d == 't' && e == 'i' && f == 'n' && g == 'u' && h == 'e' {
        Some(Token::Continue)
    } else if a == 'n' && b == 'o' && c == 'u' && d == 'n' && e == 'w' && f == 'i' && g == 'n' && h == 'd' {
        Some(Token::CompilerInstruction(CompilerInstructionDiscriminants::NoUnWind))
    } else {
        None
    }
}

fn match_keyword_8(a: char, b: char, c: char, d: char, e: char, f: char, g: char, h: char) -> (r: Option<Token>)
    ensures
        r == keyword_8(a, b, c, d, e, f, g, h),
{
    if a == 'u' && b == 'i' && c == 'n' && d == 't' && e == 'h' && f == 'a' && g == 'l' && h == 'f' {
        Some(Token::TypeDefinition(TypeToken::U16))
    } else if a == 'u' && b == 'i' && c == 'n' && d == 't' && e == 'l' && f == 'o' && g == 'n' && h == 'g' {
        Some(Token::TypeDefinition(TypeToken::U64))
    } else if a == 'e' && b == 'x' && c == 't' && d == 'e' && e == 'r' && f == 'n' && g == 'a' && h == 'l' {
        Some(Token::External)
    } else if a == 'f' && b == 'u' && c == 'n' && d == 'c' && e == 't' && f == 'i' && g == 'o' && h == 'n' {
        Some(Token::TypeDefinition(TypeToken::Function))
    } else if a == 'c' && b == 'o' && c == 'n' && d == 't' && e == 'i' && f == 'n' && g == 'u' && h == 'e' {
        Some(Token::Continue)
    } else if a == 'n' && b == 'o' && c == 'u' && d == 'n' && e == 'w' && f == 'i' && g == 'n' && h == 'd' {
        Some(Token::CompilerInstruction(CompilerInstructionDiscriminants::NoUnWind))
    } else {
        None
    }
}

/// The token spelled by the 9 characters, if any.
pub open spec fn keyword_9(a: char, b: char, c: char, d: char, e: char, f: char, g: char, h: char, i: char) -> Option<Token> {
    if a == 'f' && b == 'l' && c == 'o' && d == 'a' && e == 't' && f == 'h' && g == 'a' && h == 'l' && i == 'f' {
        Some(Token::TypeDefinition(TypeToken::F16))
    } else if a == 'f' && b == 'l' && c == 'o' && d == 'a' && e == 't' && f == 'l' && g == 'o' && h == 'n' && i == 'g' {
        Some(Token::TypeDefinition(TypeToken::F64))
    } else if a == 'u' && b == 'i' && c == 'n' && d == 't' && e == 's' && f == 'm' && g == 'a' && h == 'l' && i == 'l' {
        Some(Token::TypeDefinition(TypeToken::U8))
    } else if a == 'n' && b == 'a' && c == 'm' && d == 'e' && e == 's' && f == 'p' && g == 'a' && h == 'c' && i == 'e' {
        Some(Token::Namespace)
    } else {
        None
    }
}

fn match_keyword_9(a: char, b: char, c: char, d: char, e: char, f: char, g: char, h: char, i: char) -> (r: Option<Token>)
    ensures
        r == keyword_9(a, b, c, d, e, f, g, h, i),
{
    if a == 'f' && b == 'l' && c == 'o' && d == 'a' && e == 't' && f == 'h' && g == 'a' && h == 'l' && i == 'f' {
        Some(Token::TypeDefinition(TypeToken::F16))
    } else if a == 'f' && b == 'l' && c == 'o' && d == 'a' && e == 't' && f == 'l' && g == 'o' && h == 'n' && i == 'g' {
        Some(Token::TypeDefinition(TypeToken::F64))
    } else if a == 'u' && b == 'i' && c == 'n' && d == 't' && e == 's' && f == 'm' && g == 'a' && h == 'l' && i == 'l' {
        Some(Token::TypeDefinition(TypeToken::U8))
    } else if a == 'n' && b == 'a' && c == 'm' && d == 'e' && e == 's' && f == 'p' && g == 'a' && h == 'c' && i == 'e' {
        Some(Token::Namespace)
    } else {
        None
    }
}

/// The token a word spells, if it is one of the language's symbols and keywords.
#[verifier::opaque]
pub open spec fn keyword(w: Seq<char>) -> Option<Token> {
    if w.len() == 1 {
        keyword_1(w[0])
    } else if w.len() == 2 {
        keyword_2(w[0], w[1])
    } else if w.len() == 3 {
        keyword_3(w[0], w[1], w[2])
    } else if w.len() == 4 {
        keyword_4(w[0], w[1], w[2], w[3])
    } else if w.len() == 5 {
        keyword_5(w[0], w[1], w[2], w[3], w[4])
    } else if w.len() == 6 {
        keyword_6(w[0], w[1], w[2], w[3], w[4], w[5])
    } else if w.len() == 7 {
        keyword_7(w[0], w[1], w[2], w[3], w[4], w[5], w[6])
    } else if w.len() == 8 {
        keyword_8(w[0], w[1], w[2], w[3], w[4], w[5], w[6], w[7])
    } else if w.len() == 9 {
        keyword_9(w[0], w[1], w[2], w[3], w[4], w[5], w[6], w[7], w[8])
    } else {
        None
    }
}

/// The token the word spells, if any; see `keyword`.
fn try_match_token(w: &[char]) -> (r: Option<Token>)
    ensures
        r == keyword(w@),
{
    reveal(keyword);
    if w.len() == 1 {
        match_keyword_1(w[0])
    } else if w.len() == 2 {
        match_keyword_2(w[0], w[1])
    } else if w.len() == 3 {
        match_keyword_3(w[0], w[1], w[2])
    } else if w.len() == 4 {
        match_keyword_4(w[0], w[1], w[2], w[3])
    } else if w.len() == 5 {
        match_keyword_5(w[0], w[1], w[2], w[3], w[4])
    } else if w.len() == 6 {
        match_keyword_6(w[0], w[1], w[2], w[3], w[4], w[5])
    } else if w.len() == 7 {
        match_keyword_7(w[0], w[1], w[2], w[3], w[4], w[5], w[6])
    } else if w.len() == 8 {
        match_keyword_8(w[0], w[1], w[2], w[3], w[4], w[5], w[6], w[7])
    } else if w.len() == 9 {
        match_keyword_9(w[0], w[1], w[2], w[3], w[4], w[5], w[6], w[7], w[8])
    } else {
        None
    }
}

// ---------------------------------------------------------------------------
// Trimming and scanning
// ---------------------------------------------------------------------------

/// Which characters count as whitespace when trimming.
#[derive(Clone, Copy)]
pub enum WsKind {
    /// `char::is_whitespace`, as `str::trim` uses it.
    Unicode,
    /// The ASCII whitespace `trim_ascii` removes.
    Ascii,
}

pub open spec fn is_ws(kind: WsKind, c: char) -> bool {
    match kind {
        WsKind::Unicode => is_whitespace(c),
        WsKind::Ascii => is_ascii_whitespace(c),
    }
}

fn char_is_ws(kind: WsKind, c: char) -> (r: bool)
    ensures
        r == is_ws(kind, c),
{
    match kind {
        WsKind::Unicode => char_is_whitespace(c),
        WsKind::Ascii => c == ' ' || c == '\t' || c == '\n' || c == '\x0C' || c == '\r',
    }
}

/// The number of whitespace characters `s` starts with.
pub open spec fn leading_ws(s: Seq<char>, kind: WsKind) -> nat
    decreases s.len(),
{
    if s.len() > 0 && is_ws(kind, s[0]) {
        1 + leading_ws(s.drop_first(), kind)
    } else {
        0
    }
}

/// The number of whitespace characters `s` ends with.
pub open spec fn trailing_ws(s: Seq<char>, kind: WsKind) -> nat
    decreases s.len(),
{
    if s.len() > 0 && is_ws(kind, s.last()) {
        1 + trailing_ws(s.drop_last(), kind)
    } else {
        0
    }
}

pub proof fn lemma_leading_ws_bound(s: Seq<char>, kind: WsKind)
    ensures
        leading_ws(s, kind) <= s.len(),
    decreases s.len(),
{
    if s.len() > 0 {
        lemma_leading_ws_bound(s.drop_first(), kind);
    }
}

pub proof fn lemma_trailing_ws_bound(s: Seq<char>, kind: WsKind)
    ensures
        trailing_ws(s, kind) <= s.len(),
    decreases s.len(),
{
    if s.len() > 0 {
        lemma_trailing_ws_bound(s.drop_last(), kind);
    }
}

/// `s` without its leading and trailing whitespace.
pub open spec fn trim_with(s: Seq<char>, kind: WsKind) -> Seq<char> {
    let t = s.skip(leading_ws(s, kind) as int);
    t.take(t.len() - trailing_ws(t, kind))
}

/// `str::trim`.
pub open spec fn trim(s: Seq<char>) -> Seq<char> {
    trim_with(s, WsKind::Unicode)
}

/// `trim_ascii`.
pub open spec fn trim_ascii(s: Seq<char>) -> Seq<char> {
    trim_with(s, WsKind::Ascii)
}

/// The bounds of `s[start..end]` trimmed.
fn trim_bounds(s: &[char], start: usize, end: usize, kind: WsKind) -> (r: (usize, usize))
    requires
        start <= end <= s@.len(),
    ensures
        start <= r.0 <= r.1 <= end,
        s@.subrange(r.0 as int, r.1 as int) == trim_with(s@.subrange(start as int, end as int), kind),
        r.0 == start + leading_ws(s@.subrange(start as int, end as int), kind),
        r.1 == end - trailing_ws(s@.subrange(r.0 as int, end as int), kind),
{
    let ghost whole = s@.subrange(start as int, end as int);
    let mut a: usize = start;
    while a < end && char_is_ws(kind, s[a])
        invariant
            start <= a <= end <= s@.len(),
            leading_ws(whole, kind) == (a - start) + leading_ws(s@.subrange(a as int, end as int), kind),
        decreases end - a,
    {
        assert(s@.subrange(a as int, end as int).drop_first() =~= s@.subrange(a + 1, end as int));
        a = a + 1;
    }
    let ghost t = s@.subrange(a as int, end as int);
    assert(leading_ws(t, kind) == 0);
    assert(whole.skip(a - start) =~= t);
    let mut e: usize = end;
    while e > a && char_is_ws(kind, s[e - 1])
        invariant
            start <= a <= e <= end <= s@.len(),
            t == s@.subrange(a as int, end as int),
            trailing_ws(t, kind) == (end - e) + trailing_ws(s@.subrange(a as int, e as int), kind),
        decreases e - a,
    {
        assert(s@.subrange(a as int, e as int).drop_last() =~= s@.subrange(a as int, e - 1));
        e = e - 1;
    }
    assert(trailing_ws(s@.subrange(a as int, e as int), kind) == 0);
    assert(t.take(t.len() - trailing_ws(t, kind)) =~= s@.subrange(a as int, e as int));
    (a, e)
}

/// The end of the run of ASCII digits starting at `i`.
pub open spec fn digits_end(text: Seq<char>, i: int) -> int
    decreases text.len() - i,
{
    if 0 <= i < text.len() && is_ascii_digit(text[i]) {
        digits_end(text, i + 1)
    } else {
        i
    }
}

/// The first position at or after `i` that holds `c`, or the end of the text.
pub open spec fn find_from(text: Seq<char>, c: char, i: int) -> int
    decreases text.len() - i,
{
    if 0 <= i < text.len() && text[i] != c {
        find_from(text, c, i + 1)
    } else if i < text.len() {
        i
    } else {
        text.len() as int
    }
}

/// The end of an identifier starting at `i`: the first position at or after
/// `i` holding a one-character symbol, or the end of the text.
pub open spec fn word_end(text: Seq<char>, i: int) -> int
    decreases text.len() - i,
{
    if 0 <= i < text.len() && keyword_1(text[i]) is None {
        word_end(text, i + 1)
    } else {
        i
    }
}

pub proof fn lemma_scan_ends(text: Seq<char>, i: int)
    requires
        0 <= i <= text.len(),
    ensures
        i <= digits_end(text, i) <= text.len(),
        i <= find_from(text, '"', i) <= text.len(),
        i <= word_end(text, i) <= text.len(),
    decreases text.len() - i,
{
    if i < text.len() {
        lemma_scan_ends(text, i + 1);
    }
}

/// Where a number starting at `i` ends: its digits, then a dot and more
/// digits when the dot is followed by a digit, by a character that is not
/// ASCII alphanumeric, or by nothing.
pub open spec fn number_end(text: Seq<char>, i: int) -> int {
    let j = digits_end(text, i);
    if 0 <= j < text.len() && text[j] == '.' && (j + 1 >= text.len() || is_ascii_digit(text[j + 1])
        || !is_ascii_alphanumeric(text[j + 1])) {
        digits_end(text, j + 1)
    } else {
        j
    }
}

/// The longest symbol, of at most three characters, that `rest` starts with.
pub open spec fn longest_symbol(rest: Seq<char>) -> Option<(Token, int)> {
    if rest.len() >= 3 && keyword(rest.take(3)) is Some {
        Some((keyword(rest.take(3))->0, 3))
    } else if rest.len() >= 2 && keyword(rest.take(2)) is Some {
        Some((keyword(rest.take(2))->0, 2))
    } else if rest.len() >= 1 && keyword(rest.take(1)) is Some {
        Some((keyword(rest.take(1))->0, 1))
    } else {
        None
    }
}

/// The longest symbol `rest` starts with and its length; see `longest_symbol`.
fn match_longest_token(rest: &[char]) -> (r: Option<(Token, usize)>)
    ensures
        match longest_symbol(rest@) {
            Some((t, n)) => r == Some((t, n as usize)),
            None => r is None,
        },
{
    let len = rest.len();
    if len >= 3 {
        let w = vstd::slice::slice_subrange(rest, 0, 3);
        assert(w@ =~= rest@.take(3));
        if let Some(t) = try_match_token(w) {
            return Some((t, 3));
        }
    }
    if len >= 2 {
        let w = vstd::slice::slice_subrange(rest, 0, 2);
        assert(w@ =~= rest@.take(2));
        if let Some(t) = try_match_token(w) {
            return Some((t, 2));
        }
    }
    if len >= 1 {
        let w = vstd::slice::slice_subrange(rest, 0, 1);
        assert(w@ =~= rest@.take(1));
        if let Some(t) = try_match_token(w) {
            return Some((t, 1));
        }
    }
    None
}

// ---------------------------------------------------------------------------
// Words
// ---------------------------------------------------------------------------

/// What the tokenizer makes of a piece of source text.
pub enum Lexeme {
    /// A symbol, keyword or boolean literal.
    Fixed(Token),
    /// A number, as written.
    Number(Seq<char>),
    /// An identifier.
    Word(Seq<char>),
    /// The contents of a string literal.
    Text(Seq<char>),
}

/// Whether `t` is the token of the lexeme.
pub open spec fn token_of(t: Token, l: Lexeme) -> bool {
    match l {
        Lexeme::Fixed(k) => t == k,
        Lexeme::Number(s) => t matches Token::UnparsedLiteral(u) && u@ == s,
        Lexeme::Word(s) => t matches Token::Identifier(u) && u@ == s,
        Lexeme::Text(s) => t matches Token::Literal(Value::String(u)) && u@ == s,
    }
}

/// Whether `out` holds the tokens of `lexemes`, with their spans, in order.
pub open spec fn emits(out: Seq<Spanned<Token>>, lexemes: Seq<(Lexeme, SpanInfo)>) -> bool {
    &&& out.len() == lexemes.len()
    &&& forall|k: int|
        0 <= k < out.len() ==> token_of(#[trigger] out[k].spec_inner(), lexemes[k].0)
            && out[k].spec_span() == lexemes[k].1
}

/// The span of bytes `start..end` of a line, whose text begins at byte
/// `offset` of the line.
pub open spec fn span_on_line(line: usize, offset: int, start: int, end: int) -> SpanInfo {
    SpanInfo {
        char_start: CharPosition { line, column: (offset + start) as usize },
        char_end: CharPosition { line, column: (offset + end) as usize },
    }
}

/// The span of bytes `start..end` of line `line`, given the byte offset of
/// the text they are counted in.
fn create_span_info(line: usize, offset: usize, start: usize, end: usize) -> (r: SpanInfo)
    requires
        offset + start <= usize::MAX,
        offset + end <= usize::MAX,
    ensures
        r == span_on_line(line, offset as int, start as int, end as int),
{
    SpanInfo {
        char_start: CharPosition { line, column: offset + start },
        char_end: CharPosition { line, column: offset + end },
    }
}

/// A string literal that has not been closed by the end of its word.
pub struct CaptureString {
    pub span_start: CharPosition,
    pub string_buffer: Vec<char>,
}

/// The lexemes of a word from position `i` on, and the string literal left
/// open at its end, if any.
///
/// At each position the first rule that applies is taken:
/// - an ASCII digit starts a number (see `number_end`);
/// - if the rest of the word, ASCII-trimmed, is a keyword or symbol, it is
///   that token and the word ends;
/// - a one-character symbol starts the longest symbol of at most three
///   characters;
/// - a `"` starts a string literal up to the next `"`; without one, the rest
///   of the word is the start of a string that goes on in the next words;
/// - anything else is read up to the next one-character symbol, and is a
///   keyword if it spells one, an identifier if not.
///
/// Spans count bytes, from `offset`.
#[verifier::opaque]
pub open spec fn scan_word(text: Seq<char>, i: int, line: usize, offset: int) -> (
    Seq<(Lexeme, SpanInfo)>,
    Option<(CharPosition, Seq<char>)>,
)
    decreases text.len() - i,
{
    if i < 0 || i >= text.len() {
        (seq![], None)
    } else {
        proof {
            lemma_scan_ends(text, i);
            lemma_scan_ends(text, i + 1);
        }
        let c = text[i];
        let b = byte_len(text.take(i)) as int;
        if is_ascii_digit(c) {
            let j = number_end(text, i);
            proof {
                if digits_end(text, i) < text.len() {
                    lemma_scan_ends(text, digits_end(text, i) + 1);
                }
            }
            let rest = scan_word(text, j, line, offset);
            (
                seq![(Lexeme::Number(text.subrange(i, j)), span_on_line(line, offset, b, byte_len(text.take(j)) as int))]
                    + rest.0,
                rest.1,
            )
        } else if keyword(trim_ascii(text.skip(i))) is Some {
            let w = trim_ascii(text.skip(i));
            (
                seq![(Lexeme::Fixed(keyword(w)->0), span_on_line(line, offset, b, b + byte_len(w)))],
                None,
            )
        } else if keyword_1(c) is Some {
            let n = match longest_symbol(text.skip(i)) {
                Some((_, n)) => n,
                None => 1,
            };
            let t = match longest_symbol(text.skip(i)) {
                Some((t, _)) => t,
                None => Token::Dot,
            };
            let rest = scan_word(text, i + n, line, offset);
            (seq![(Lexeme::Fixed(t), span_on_line(line, offset, b, b + n))] + rest.0, rest.1)
        } else if c == '"' {
            let q = find_from(text, '"', i + 1);
            if q < text.len() {
                let rest = scan_word(text, q + 1, line, offset);
                (
                    seq![(Lexeme::Text(text.subrange(i + 1, q)), span_on_line(line, offset, b, byte_len(text.take(q + 1)) as int))]
                        + rest.0,
                    rest.1,
                )
            } else {
                (
                    seq![],
                    Some(
                        (
                            CharPosition { line, column: (offset + b) as usize },
                            text.subrange(i + 1, text.len() as int),
                        ),
                    ),
                )
            }
        } else {
            let j = word_end(text, i);
            let w = text.subrange(i, j);
            let lexeme = match keyword(w) {
                Some(t) => Lexeme::Fixed(t),
                None => Lexeme::Word(w),
            };
            let rest = scan_word(text, j, line, offset);
            (seq![(lexeme, span_on_line(line, offset, b, byte_len(text.take(j)) as int))] + rest.0, rest.1)
        }
    }
}

/// Pushing the token of one more lexeme keeps `emits`.
proof fn lemma_emits_push(
    out: Seq<Spanned<Token>>,
    old_len: int,
    seen: Seq<(Lexeme, SpanInfo)>,
    tok: Spanned<Token>,
    x: (Lexeme, SpanInfo),
)
    requires
        0 <= old_len <= out.len(),
        out.len() == old_len + seen.len(),
        emits(out.skip(old_len), seen),
        token_of(tok.spec_inner(), x.0),
        tok.spec_span() == x.1,
    ensures
        emits(out.push(tok).skip(old_len), seen.push(x)),
        out.push(tok).take(old_len) == out.take(old_len),
{
    let o2 = out.push(tok).skip(old_len);
    assert forall|k: int| 0 <= k < o2.len() implies token_of(#[trigger] o2[k].spec_inner(), seen.push(x)[k].0)
        && o2[k].spec_span() == seen.push(x)[k].1 by {
        if k < seen.len() {
            assert(o2[k] == out.skip(old_len)[k]);
        }
    }
    assert(out.push(tok).take(old_len) =~= out.take(old_len));
}

proof fn lemma_scan_word_number(t: Seq<char>, i: int, line: usize, off: int)
    requires
        0 <= i < t.len(),
        is_ascii_digit(t[i]),
    ensures
        i < number_end(t, i) <= t.len(),
        scan_word(t, i, line, off) == ({
            let j = number_end(t, i);
            let rest = scan_word(t, j, line, off);
            (
                seq![(Lexeme::Number(t.subrange(i, j)), span_on_line(line, off, byte_len(t.take(i)) as int, byte_len(t.take(j)) as int))]
                    + rest.0,
                rest.1,
            )
        }),
{
    reveal(scan_word);
    lemma_scan_ends(t, i);
    lemma_scan_ends(t, i + 1);
    if digits_end(t, i) < t.len() {
        lemma_scan_ends(t, digits_end(t, i) + 1);
    }
}

proof fn lemma_scan_word_keyword(t: Seq<char>, i: int, line: usize, off: int)
    requires
        0 <= i < t.len(),
        !is_ascii_digit(t[i]),
        keyword(trim_ascii(t.skip(i))) is Some,
    ensures
        scan_word(t, i, line, off) == ({
            let w = trim_ascii(t.skip(i));
            let b = byte_len(t.take(i)) as int;
            (
                seq![(Lexeme::Fixed(keyword(w)->0), span_on_line(line, off, b, b + byte_len(w)))],
                None::<(CharPosition, Seq<char>)>,
            )
        }),
{
    reveal(scan_word);
}

proof fn lemma_scan_word_symbol(t: Seq<char>, i: int, line: usize, off: int)
    requires
        0 <= i < t.len(),
        !is_ascii_digit(t[i]),
        keyword(trim_ascii(t.skip(i))) is None,
        keyword_1(t[i]) is Some,
    ensures
        longest_symbol(t.skip(i)) is Some,
        ({
            let (tk, n) = longest_symbol(t.skip(i))->0;
            &&& 1 <= n <= 3
            &&& i + n <= t.len()
            &&& scan_word(t, i, line, off) == ({
                let b = byte_len(t.take(i)) as int;
                let rest = scan_word(t, i + n, line, off);
                (seq![(Lexeme::Fixed(tk), span_on_line(line, off, b, b + n))] + rest.0, rest.1)
            })
        }),
{
    reveal(scan_word);
    reveal(keyword);
    assert(t.skip(i).take(1) =~= seq![t[i]]);
}

proof fn lemma_scan_word_string(t: Seq<char>, i: int, line: usize, off: int)
    requires
        0 <= i < t.len(),
        !is_ascii_digit(t[i]),
        keyword(trim_ascii(t.skip(i))) is None,
        keyword_1(t[i]) is None,
        t[i] == '"',
    ensures
        i + 1 <= find_from(t, '"', i + 1) <= t.len(),
        scan_word(t, i, line, off) == ({
            let q = find_from(t, '"', i + 1);
            let b = byte_len(t.take(i)) as int;
            if q < t.len() {
                let rest = scan_word(t, q + 1, line, off);
                (
                    seq![(Lexeme::Text(t.subrange(i + 1, q)), span_on_line(line, off, b, byte_len(t.take(q + 1)) as int))]
                        + rest.0,
                    rest.1,
                )
            } else {
                (
                    Seq::<(Lexeme, SpanInfo)>::empty(),
                    Some(
                        (
                            CharPosition { line, column: (off + b) as usize },
                            t.subrange(i + 1, t.len() as int),
                        ),
                    ),
                )
            }
        }),
{
    reveal(scan_word);
    lemma_scan_ends(t, i);
    lemma_scan_ends(t, i + 1);
}

proof fn lemma_scan_word_ident(t: Seq<char>, i: int, line: usize, off: int)
    requires
        0 <= i < t.len(),
        !is_ascii_digit(t[i]),
        keyword(trim_ascii(t.skip(i))) is None,
        keyword_1(t[i]) is None,
        t[i] != '"',
    ensures
        i < word_end(t, i) <= t.len(),
        scan_word(t, i, line, off) == ({
            let j = word_end(t, i);
            let w = t.subrange(i, j);
            let lexeme = match keyword(w) {
                Some(k) => Lexeme::Fixed(k),
                None => Lexeme::Word(w),
            };
            let rest = scan_word(t, j, line, off);
            (
                seq![(lexeme, span_on_line(line, off, byte_len(t.take(i)) as int, byte_len(t.take(j)) as int))]
                    + rest.0,
                rest.1,
            )
        }),
{
    reveal(scan_word);
    lemma_scan_ends(t, i);
    lemma_scan_ends(t, i + 1);
}


/// Where the number starting at `idx` ends; see `number_end`.
fn scan_number_end(text: &[char], idx: usize) -> (j: usize)
    requires
        idx < text@.len(),
        is_ascii_digit(text@[idx as int]),
    ensures
        j == number_end(text@, idx as int),
{
    let ghost t = text@;
    let len = text.len();
    proof {
        lemma_scan_ends(t, idx as int);
    }
    let mut j = idx;
    while j < len && '0' <= text[j] && text[j] <= '9'
        invariant
            idx <= j <= len,
            len == t.len(),
            t == text@,
            digits_end(t, j as int) == digits_end(t, idx as int),
        decreases len - j,
    {
        j = j + 1;
    }
    if j < len && text[j] == '.' {
        let after = j + 1;
        let next_is_digit_or_end = after >= len || ('0' <= text[after] && text[after] <= '9')
            || !(('0' <= text[after] && text[after] <= '9') || ('a' <= text[after] && text[after]
            <= 'z') || ('A' <= text[after] && text[after] <= 'Z'));
        if next_is_digit_or_end {
            j = after;
            while j < len && '0' <= text[j] && text[j] <= '9'
                invariant
                    after <= j <= len,
                    len == t.len(),
                    t == text@,
                    digits_end(t, j as int) == digits_end(t, after as int),
                decreases len - j,
            {
                j = j + 1;
            }
        }
    }
    j
}

/// Where the identifier starting at `idx` ends; see `word_end`.
fn scan_word_end(text: &[char], idx: usize) -> (j: usize)
    requires
        idx <= text@.len(),
    ensures
        j == word_end(text@, idx as int),
{
    let ghost t = text@;
    let len = text.len();
    let mut j = idx;
    while j < len && match_keyword_1(text[j]).is_none()
        invariant
            idx <= j <= len,
            len == t.len(),
            t == text@,
            word_end(t, j as int) == word_end(t, idx as int),
        decreases len - j,
    {
        j = j + 1;
    }
    j
}

/// The first `"` at or after `from`, or the end of the text.
fn scan_quote(text: &[char], from: usize) -> (q: usize)
    requires
        from <= text@.len(),
    ensures
        q == find_from(text@, '"', from as int),
{
    let ghost t = text@;
    let len = text.len();
    let mut q = from;
    while q < len && text[q] != '"'
        invariant
            from <= q <= len,
            len == t.len(),
            t == text@,
            find_from(t, '"', q as int) == find_from(t, '"', from as int),
        decreases len - q,
    {
        q = q + 1;
    }
    q
}

/// Whether the lexemes of `t` from `i` on are `x` followed by those from `j` on.
pub open spec fn steps_to(t: Seq<char>, i: int, j: int, line: usize, off: int, x: (Lexeme, SpanInfo)) -> bool {
    scan_word(t, i, line, off) == (
        seq![x] + scan_word(t, j, line, off).0,
        scan_word(t, j, line, off).1,
    )
}

/// Whether `st` is the token and span of the lexeme.
pub open spec fn spanned_token_of(st: Spanned<Token>, x: (Lexeme, SpanInfo)) -> bool {
    token_of(st.spec_inner(), x.0) && st.spec_span() == x.1
}

/// The number starting at `idx`, and where the scan goes on (in characters
/// and in bytes).
fn lex_number(text: &[char], line_number: usize, span_offset: usize, idx: usize, b: usize) -> (r: (
    Spanned<Token>,
    usize,
    usize,
))
    requires
        idx < text@.len(),
        is_ascii_digit(text@[idx as int]),
        b == byte_len(text@.take(idx as int)),
        span_offset + byte_len(text@) <= usize::MAX,
    ensures
        idx < r.1 <= text@.len(),
        r.2 == byte_len(text@.take(r.1 as int)),
        steps_to(text@, idx as int, r.1 as int, line_number, span_offset as int, scan_word(text@, idx as int, line_number, span_offset as int).0[0]),
        spanned_token_of(r.0, scan_word(text@, idx as int, line_number, span_offset as int).0[0]),
{
    let ghost t = text@;
    let len = text.len();
    proof {
        lemma_scan_word_number(t, idx as int, line_number, span_offset as int);
    }
    let j = scan_number_end(text, idx);
    proof {
        lemma_byte_len_prefix(t, idx as int, j as int);
        lemma_byte_len_prefix(t, j as int, len as int);
        assert(t.take(len as int) =~= t);
    }
    let nb = b + byte_len_of(text, idx, j);
    let word = copy_range(text, idx, j);
    let tok = Token::UnparsedLiteral(string_from_chars(word.as_slice()));
    let span = create_span_info(line_number, span_offset, b, nb);
    (Spanned::new(tok, span), j, nb)
}

/// If the rest of the word from `idx`, ASCII-trimmed, is a keyword or
/// symbol: its token, which ends the word.
fn lex_keyword_rest(text: &[char], line_number: usize, span_offset: usize, idx: usize, b: usize) -> (r:
    Option<Spanned<Token>>)
    requires
        idx < text@.len(),
        !is_ascii_digit(text@[idx as int]),
        b == byte_len(text@.take(idx as int)),
        span_offset + byte_len(text@) <= usize::MAX,
    ensures
        r is Some <==> keyword(trim_ascii(text@.skip(idx as int))) is Some,
        r matches Some(st) ==> scan_word(text@, idx as int, line_number, span_offset as int).1 is None
            && scan_word(text@, idx as int, line_number, span_offset as int).0.len() == 1
            && spanned_token_of(st, scan_word(text@, idx as int, line_number, span_offset as int).0[0]),
{
    let ghost t = text@;
    let len = text.len();
    let rest = vstd::slice::slice_subrange(text, idx, len);
    assert(rest@ =~= t.skip(idx as int));
    let (ta, te) = trim_bounds(rest, 0, len - idx, WsKind::Ascii);
    assert(rest@.subrange(0, (len - idx) as int) =~= rest@);
    let trimmed = vstd::slice::slice_subrange(rest, ta, te);
    let kw = try_match_token(trimmed);
    match kw {
        Some(tok) => {
            proof {
                lemma_scan_word_keyword(t, idx as int, line_number, span_offset as int);
                lemma_byte_len_prefix(rest@, ta as int, te as int);
                lemma_byte_len_prefix(rest@, te as int, rest@.len() as int);
                lemma_byte_len_prefix(rest@, 0, ta as int);
                lemma_byte_len_prefix(t, idx as int, len as int);
                assert(rest@.take(rest@.len() as int) =~= rest@);
                assert(t.take(len as int) =~= t);
                assert(t.subrange(idx as int, len as int) =~= rest@);
            }
            let wb = byte_len_of(rest, ta, te);
            let span = create_span_info(line_number, span_offset, b, b + wb);
            Some(Spanned::new(tok, span))
        },
        None => None,
    }
}

/// The longest symbol starting at `idx`, and where the scan goes on.
fn lex_symbol(text: &[char], line_number: usize, span_offset: usize, idx: usize, b: usize) -> (r: (
    Spanned<Token>,
    usize,
    usize,
))
    requires
        idx < text@.len(),
        !is_ascii_digit(text@[idx as int]),
        keyword(trim_ascii(text@.skip(idx as int))) is None,
        keyword_1(text@[idx as int]) is Some,
        b == byte_len(text@.take(idx as int)),
        span_offset + byte_len(text@) <= usize::MAX,
    ensures
        idx < r.1 <= text@.len(),
        r.2 == byte_len(text@.take(r.1 as int)),
        steps_to(text@, idx as int, r.1 as int, line_number, span_offset as int, scan_word(text@, idx as int, line_number, span_offset as int).0[0]),
        spanned_token_of(r.0, scan_word(text@, idx as int, line_number, span_offset as int).0[0]),
{
    let ghost t = text@;
    let len = text.len();
    proof {
        lemma_scan_word_symbol(t, idx as int, line_number, span_offset as int);
        lemma_byte_len_prefix(t, idx as int, len as int);
        assert(t.take(len as int) =~= t);
    }
    let rest = vstd::slice::slice_subrange(text, idx, len);
    assert(rest@ =~= t.skip(idx as int));
    let m = match_longest_token(rest);
    let (tok, n) = match m {
        Some(p) => p,
        None => (Token::Dot, 1),
    };
    proof {
        lemma_byte_len_prefix(t, idx as int, idx + n);
        lemma_byte_len_prefix(t, idx + n, len as int);
        lemma_keyword_ascii(rest@.take(n as int));
        assert(t.subrange(idx as int, idx + n) =~= rest@.take(n as int));
        lemma_ascii_byte_len(t.subrange(idx as int, idx + n));
    }
    let span = create_span_info(line_number, span_offset, b, b + n);
    (Spanned::new(tok, span), idx + n, b + n)
}

/// The string literal starting at `idx` and where the scan goes on, or, when
/// it is not closed in this word, the literal left open.
fn lex_string(text: &[char], line_number: usize, span_offset: usize, idx: usize, b: usize) -> (r: Result<
    (Spanned<Token>, usize, usize),
    CaptureString,
>)
    requires
        idx < text@.len(),
        !is_ascii_digit(text@[idx as int]),
        keyword(trim_ascii(text@.skip(idx as int))) is None,
        keyword_1(text@[idx as int]) is None,
        text@[idx as int] == '"',
        b == byte_len(text@.take(idx as int)),
        span_offset + byte_len(text@) <= usize::MAX,
    ensures
        match r {
            Ok((st, j, nb)) => idx < j <= text@.len() && nb == byte_len(text@.take(j as int))
                && steps_to(text@, idx as int, j as int, line_number, span_offset as int, scan_word(text@, idx as int, line_number, span_offset as int).0[0])
                && spanned_token_of(st, scan_word(text@, idx as int, line_number, span_offset as int).0[0]),
            Err(c) => scan_word(text@, idx as int, line_number, span_offset as int).0.len() == 0
                && scan_word(text@, idx as int, line_number, span_offset as int).1 == Some(
                (c.span_start, c.string_buffer@)),
        },
{
    let ghost t = text@;
    let len = text.len();
    proof {
        lemma_scan_word_string(t, idx as int, line_number, span_offset as int);
        lemma_byte_len_prefix(t, idx as int, len as int);
        assert(t.take(len as int) =~= t);
    }
    let q = scan_quote(text, idx + 1);
    let contents = copy_range(text, idx + 1, q);
    if q < len {
        proof {
            lemma_byte_len_prefix(t, idx as int, q + 1);
            lemma_byte_len_prefix(t, q + 1, len as int);
        }
        let nb = b + byte_len_of(text, idx, q + 1);
        let tok = Token::Literal(Value::String(string_from_chars(contents.as_slice())));
        let span = create_span_info(line_number, span_offset, b, nb);
        Ok((Spanned::new(tok, span), q + 1, nb))
    } else {
        Err(
            CaptureString {
                span_start: CharPosition::new(line_number, span_offset + b),
                string_buffer: contents,
            },
        )
    }
}

/// The identifier or keyword starting at `idx`, and where the scan goes on.
fn lex_ident(text: &[char], line_number: usize, span_offset: usize, idx: usize, b: usize) -> (r: (
    Spanned<Token>,
    usize,
    usize,
))
    requires
        idx < text@.len(),
        !is_ascii_digit(text@[idx as int]),
        keyword(trim_ascii(text@.skip(idx as int))) is None,
        keyword_1(text@[idx as int]) is None,
        text@[idx as int] != '"',
        b == byte_len(text@.take(idx as int)),
        span_offset + byte_len(text@) <= usize::MAX,
    ensures
        idx < r.1 <= text@.len(),
        r.2 == byte_len(text@.take(r.1 as int)),
        steps_to(text@, idx as int, r.1 as int, line_number, span_offset as int, scan_word(text@, idx as int, line_number, span_offset as int).0[0]),
        spanned_token_of(r.0, scan_word(text@, idx as int, line_number, span_offset as int).0[0]),
{
    let ghost t = text@;
    let len = text.len();
    proof {
        lemma_scan_word_ident(t, idx as int, line_number, span_offset as int);
        lemma_byte_len_prefix(t, idx as int, len as int);
        assert(t.take(len as int) =~= t);
    }
    let j = scan_word_end(text, idx);
    proof {
        lemma_byte_len_prefix(t, idx as int, j as int);
        lemma_byte_len_prefix(t, j as int, len as int);
    }
    let nb = b + byte_len_of(text, idx, j);
    let word = copy_range(text, idx, j);
    let tok = match try_match_token(word.as_slice()) {
        Some(k) => k,
        None => Token::Identifier(string_from_chars(word.as_slice())),
    };
    let span = create_span_info(line_number, span_offset, b, nb);
    (Spanned::new(tok, span), j, nb)
}

/// Tokenizes one word of a line (text without whitespace), appending its
/// tokens to `token_list`. A string literal left open at the end of the word
/// is recorded in `capture_string`; otherwise `capture_string` is left as it
/// is.
fn parse_single_text(
    token_list: &mut Vec<Spanned<Token>>,
    line_number: usize,
    raw_text: &[char],
    span_offset: usize,
    capture_string: &mut Option<CaptureString>,
)
    requires
        span_offset + byte_len(raw_text@) <= usize::MAX,
    ensures
        final(token_list)@.len() >= old(token_list)@.len(),
        final(token_list)@.take(old(token_list)@.len() as int) == old(token_list)@,
        emits(
            final(token_list)@.skip(old(token_list)@.len() as int),
            scan_word(raw_text@, 0, line_number, span_offset as int).0,
        ),
        match scan_word(raw_text@, 0, line_number, span_offset as int).1 {
            Some((pos, s)) => *final(capture_string) matches Some(c) && c.span_start == pos
                && c.string_buffer@ == s,
            None => *final(capture_string) == *old(capture_string),
        },
{
    let text = raw_text;
    let ghost t = text@;
    let ghost line = line_number;
    let ghost off = span_offset as int;
    let ghost old_len = token_list@.len() as int;
    let ghost whole = scan_word(t, 0, line, off);
    let ghost mut seen: Seq<(Lexeme, SpanInfo)> = seq![];
    let len = text.len();
    let mut idx: usize = 0;
    let mut b: usize = 0;
    proof {
        assert(t.take(0) =~= Seq::<char>::empty());
        assert(seen + whole.0 =~= whole.0);
        assert(token_list@.skip(old_len) =~= Seq::<Spanned<Token>>::empty());
        assert(token_list@.take(old_len) =~= old(token_list)@);
    }
    while idx < len
        invariant
            len == t.len(),
            t == text@,
            t == raw_text@,
            0 <= idx <= len,
            b == byte_len(t.take(idx as int)),
            span_offset + byte_len(t) <= usize::MAX,
            whole == scan_word(t, 0, line, off),
            seen + scan_word(t, idx as int, line, off).0 == whole.0,
            scan_word(t, idx as int, line, off).1 == whole.1,
            token_list@.len() == old_len + seen.len(),
            token_list@.take(old_len) == old(token_list)@,
            emits(token_list@.skip(old_len), seen),
            *capture_string == *old(capture_string),
            line == line_number,
            off == span_offset as int,
            old_len == old(token_list)@.len(),
        decreases len - idx,
    {
        let ghost x = scan_word(t, idx as int, line, off).0[0];
        let c = text[idx];
        let step: Option<(Spanned<Token>, usize, usize)>;
        if '0' <= c && c <= '9' {
            step = Some(lex_number(text, line_number, span_offset, idx, b));
        } else if let Some(st) = lex_keyword_rest(text, line_number, span_offset, idx, b) {
            // The whole rest of the word is one keyword or symbol.
            proof {
                lemma_emits_push(token_list@, old_len, seen, st, x);
                assert(scan_word(t, idx as int, line, off).0 =~= seq![x]);
                assert(seen + seq![x] =~= seen.push(x));
            }
            token_list.push(st);
            return;
        } else if match_keyword_1(c).is_some() {
            step = Some(lex_symbol(text, line_number, span_offset, idx, b));
        } else if c == '"' {
            match lex_string(text, line_number, span_offset, idx, b) {
                Ok(s) => {
                    step = Some(s);
                },
                Err(cap) => {
                    // No closing quote: the string goes on in the next words.
                    *capture_string = Some(cap);
                    proof {
                        assert(seen + scan_word(t, idx as int, line, off).0 =~= seen);
                    }
                    return;
                },
            }
        } else {
            step = Some(lex_ident(text, line_number, span_offset, idx, b));
        }
        if let Some((st, j, nb)) = step {
            proof {
                lemma_emits_push(token_list@, old_len, seen, st, x);
                assert(seen + (seq![x] + scan_word(t, j as int, line, off).0) =~= seen.push(x)
                    + scan_word(t, j as int, line, off).0);
                seen = seen.push(x);
            }
            token_list.push(st);
            idx = j;
            b = nb;
        }
    }
    proof {
        reveal(scan_word);
        assert(seen + scan_word(t, idx as int, line, off).0 =~= seen);
    }
}

/// Keywords and symbols are made of ASCII characters, one byte each.
proof fn lemma_keyword_ascii(w: Seq<char>)
    requires
        keyword(w) is Some,
    ensures
        forall|k: int| 0 <= k < w.len() ==> utf8_len(#[trigger] w[k]) == 1,
{
    reveal(keyword);
}

/// Characters of one UTF-8 byte each take as many bytes as there are characters.
proof fn lemma_ascii_byte_len(s: Seq<char>)
    requires
        forall|k: int| 0 <= k < s.len() ==> utf8_len(#[trigger] s[k]) == 1,
    ensures
        byte_len(s) == s.len(),
    decreases s.len(),
{
    if s.len() > 0 {
        lemma_ascii_byte_len(s.drop_last());
    }
}

// ---------------------------------------------------------------------------
// Lines and words
// ---------------------------------------------------------------------------

pub proof fn lemma_find_from_bounds(text: Seq<char>, c: char, i: int)
    requires
        0 <= i <= text.len(),
    ensures
        i <= find_from(text, c, i) <= text.len(),
        find_from(text, c, i) < text.len() ==> text[find_from(text, c, i)] == c,
        forall|k: int| i <= k < find_from(text, c, i) ==> text[k] != c,
    decreases text.len() - i,
{
    if i < text.len() {
        lemma_find_from_bounds(text, c, i + 1);
    }
}

/// A line without the carriage return that ended it.
pub open spec fn strip_cr(l: Seq<char>) -> Seq<char> {
    if l.len() > 0 && l.last() == '\r' {
        l.drop_last()
    } else {
        l
    }
}

/// The lines of `s`, as `str::lines` gives them: `s` split at each line
/// feed, a carriage return before the line feed dropped, and no empty line
/// after a final line feed.
pub open spec fn lines(s: Seq<char>) -> Seq<Seq<char>>
    decreases s.len(),
{
    if s.len() == 0 {
        seq![]
    } else {
        let k = find_from(s, '\n', 0);
        if k < s.len() {
            proof {
                lemma_find_from_bounds(s, '\n', 0);
            }
            seq![strip_cr(s.take(k))] + lines(s.skip(k + 1))
        } else {
            seq![s]
        }
    }
}

/// The first position at or after `i` where `s` holds `a`, `b`, `c` in a
/// row, or the length of `s` when there is none.
pub open spec fn find_triple(s: Seq<char>, a: char, b: char, c: char, i: int) -> int
    decreases s.len() - i,
{
    if i < 0 || i + 3 > s.len() {
        s.len() as int
    } else if s[i] == a && s[i + 1] == b && s[i + 2] == c {
        i
    } else {
        find_triple(s, a, b, c, i + 1)
    }
}

pub proof fn lemma_find_triple_bounds(s: Seq<char>, a: char, b: char, c: char, i: int)
    requires
        0 <= i,
    ensures
        find_triple(s, a, b, c, i) == s.len() || (i <= find_triple(s, a, b, c, i)
            && find_triple(s, a, b, c, i) + 3 <= s.len()),
        find_triple(s, a, b, c, i) < s.len() ==> s[find_triple(s, a, b, c, i)] == a
            && s[find_triple(s, a, b, c, i) + 1] == b && s[find_triple(s, a, b, c, i) + 2] == c,
    decreases s.len() - i,
{
    if i + 3 <= s.len() {
        lemma_find_triple_bounds(s, a, b, c, i + 1);
    }
}

/// The first position at or after `i` that holds whitespace, or the end.
pub open spec fn ws_from(s: Seq<char>, i: int) -> int
    decreases s.len() - i,
{
    if 0 <= i < s.len() && !is_whitespace(s[i]) {
        ws_from(s, i + 1)
    } else if i < s.len() {
        i
    } else {
        s.len() as int
    }
}

pub proof fn lemma_ws_from_bounds(s: Seq<char>, i: int)
    requires
        0 <= i <= s.len(),
    ensures
        i <= ws_from(s, i) <= s.len(),
    decreases s.len() - i,
{
    if i < s.len() {
        lemma_ws_from_bounds(s, i + 1);
    }
}

/// The end of the word starting at `p`: words run up to and including the
/// next whitespace character (`split_inclusive(char::is_whitespace)`).
pub open spec fn word_stop(s: Seq<char>, p: int) -> int {
    let k = ws_from(s, p);
    if k < s.len() {
        k + 1
    } else {
        s.len() as int
    }
}

/// A string literal still open: where it started and what it holds so far.
pub type OpenString = Option<(CharPosition, Seq<char>)>;

/// The lexemes of a word met while a string literal is open, and the string
/// literal open after it. A word without `"` is added to the literal whole.
/// A word with `"` closes the literal at its first `"` (the literal's span
/// ends there), and the text after the quote, trimmed, is tokenized by
/// `scan_word`; no literal is open afterwards.
pub open spec fn open_word(raw: Seq<char>, begin: int, line: usize, start: CharPosition, buf: Seq<char>) -> (
    Seq<(Lexeme, SpanInfo)>,
    OpenString,
) {
    let q = find_from(raw, '"', 0);
    if q < raw.len() {
        let closed = (
            Lexeme::Text(buf + raw.take(q)),
            SpanInfo {
                char_start: start,
                char_end: CharPosition { line, column: (begin + byte_len(raw.take(q))) as usize },
            },
        );
        (seq![closed] + scan_word(trim(raw.skip(q + 1)), 0, line, begin).0, None)
    } else {
        (seq![], Some((start, buf + raw)))
    }
}

/// The whitespace that `trim` takes off the end of a word.
pub open spec fn trimmed_tail(raw: Seq<char>) -> Seq<char> {
    let t = raw.skip(leading_ws(raw, WsKind::Unicode) as int);
    t.skip(t.len() - trailing_ws(t, WsKind::Unicode))
}

/// A string literal left open with `tail` added to what it holds.
pub open spec fn with_tail(open: OpenString, tail: Seq<char>) -> OpenString {
    match open {
        Some((start, buf)) => Some((start, buf + tail)),
        None => None,
    }
}

/// The lexemes of a word met while no string literal is open, the string
/// literal it leaves open, and whether it ends the line: a word that starts
/// with `#` once trimmed is a comment up to the end of the line; any other
/// non-empty trimmed word is tokenized by `scan_word`. A string literal that
/// the word opens and leaves open keeps the whitespace that ends the word, so
/// the spaces inside a literal are kept.
pub open spec fn plain_word(raw: Seq<char>, begin: int, line: usize) -> (
    Seq<(Lexeme, SpanInfo)>,
    OpenString,
    bool,
) {
    let trimmed = trim(raw);
    if trimmed.len() > 0 && trimmed[0] == '#' {
        (seq![], None, true)
    } else if trimmed.len() > 0 {
        let here = scan_word(trimmed, 0, line, begin);
        (here.0, with_tail(here.1, trimmed_tail(raw)), false)
    } else {
        (seq![], None, false)
    }
}

/// The lexemes of the words of line `line` from position `p` on, and the
/// string literal open after them. `col0` is the byte column where `s`
/// begins in the line; each word is handled by `open_word` or `plain_word`.
#[verifier::opaque]
pub open spec fn lex_words(s: Seq<char>, p: int, col0: int, line: usize, open: OpenString) -> (
    Seq<(Lexeme, SpanInfo)>,
    OpenString,
)
    decreases s.len() - p,
{
    if p < 0 || p >= s.len() {
        (seq![], open)
    } else {
        proof {
            lemma_ws_from_bounds(s, p);
        }
        let e = word_stop(s, p);
        let raw = s.subrange(p, e);
        let begin = col0 + byte_len(s.take(p));
        match open {
            Some((start, buf)) => {
                let here = open_word(raw, begin, line, start, buf);
                let rest = lex_words(s, e, col0, line, here.1);
                (here.0 + rest.0, rest.1)
            },
            None => {
                let here = plain_word(raw, begin, line);
                if here.2 {
                    (seq![], None)
                } else {
                    let rest = lex_words(s, e, col0, line, here.1);
                    (here.0 + rest.0, rest.1)
                }
            },
        }
    }
}

/// The lexemes of one line, and whether a `#->` comment and a string literal
/// are open after it.
///
/// Inside a comment, the line is skipped unless it holds `<-#`, in which case
/// the comment ends and the line goes on after it. A `#->` then starts a
/// comment: the line is cut there, and the comment stays open for the next
/// lines.
pub open spec fn lex_line(in_comment: bool, open: OpenString, l: Seq<char>, line: usize) -> (
    Seq<(Lexeme, SpanInfo)>,
    bool,
    OpenString,
) {
    let m = find_triple(l, '<', '-', '#', 0);
    if in_comment && m >= l.len() {
        (seq![], true, open)
    } else {
        let l1 = if in_comment {
            l.skip(m + 3)
        } else {
            l
        };
        let col0 = if in_comment {
            byte_len(l.take(m)) + 3int
        } else {
            0int
        };
        let m2 = find_triple(l1, '#', '-', '>', 0);
        let l2 = if m2 < l1.len() {
            l1.take(m2)
        } else {
            l1
        };
        let words = lex_words(l2, 0, col0, line, open);
        (words.0, m2 < l1.len(), words.1)
    }
}

/// The lexemes of the first `k` lines, and the comment and string literal
/// open after them.
pub open spec fn lex_lines(ls: Seq<Seq<char>>, k: int) -> (Seq<(Lexeme, SpanInfo)>, bool, OpenString)
    decreases k,
{
    if k <= 0 {
        (seq![], false, None)
    } else {
        let prev = lex_lines(ls, k - 1);
        let cur = lex_line(prev.1, prev.2, ls[k - 1], k as usize);
        (prev.0 + cur.0, cur.1, cur.2)
    }
}

/// The lexemes of a source text, line by line (lines are numbered from 1).
/// A string literal still open at the end of the text is dropped.
pub open spec fn tokenize_spec(input: Seq<char>) -> Seq<(Lexeme, SpanInfo)> {
    lex_lines(lines(input), lines(input).len() as int).0
}

// ---------------------------------------------------------------------------
// Tokenizing lines
// ---------------------------------------------------------------------------

/// The first position at or after `from` holding `c`, or the end of the text.
fn scan_char(text: &[char], c: char, from: usize) -> (q: usize)
    requires
        from <= text@.len(),
    ensures
        q == find_from(text@, c, from as int),
{
    let ghost t = text@;
    let len = text.len();
    let mut q = from;
    while q < len && text[q] != c
        invariant
            from <= q <= len,
            len == t.len(),
            t == text@,
            find_from(t, c, q as int) == find_from(t, c, from as int),
        decreases len - q,
    {
        q = q + 1;
    }
    q
}

/// `find_from` on a suffix.
proof fn lemma_find_from_skip(s: Seq<char>, c: char, p: int, i: int)
    requires
        0 <= p <= i <= s.len(),
    ensures
        find_from(s.skip(p), c, i - p) == find_from(s, c, i) - p,
    decreases s.len() - i,
{
    if i < s.len() {
        lemma_find_from_skip(s, c, p, i + 1);
    }
}

/// The lines of the text; see `lines`.
pub(crate) fn split_lines(s: &[char]) -> (r: Vec<Vec<char>>)
    ensures
        r@.len() == lines(s@).len(),
        forall|i: int| 0 <= i < r@.len() ==> (#[trigger] r@[i])@ == lines(s@)[i],
        forall|i: int| 0 <= i < r@.len() ==> byte_len((#[trigger] r@[i])@) <= byte_len(s@),
{
    let ghost t = s@;
    let len = s.len();
    let mut out: Vec<Vec<char>> = Vec::new();
    let mut p: usize = 0;
    proof {
        assert(t.skip(0) =~= t);
    }
    while p < len
        invariant
            0 <= p <= len,
            len == t.len(),
            t == s@,
            out@.len() + lines(t.skip(p as int)).len() == lines(t).len(),
            forall|i: int| 0 <= i < out@.len() ==> (#[trigger] out@[i])@ == lines(t)[i],
            forall|i: int| 0 <= i < lines(t.skip(p as int)).len() ==> #[trigger] lines(t.skip(p as int))[i] == lines(t)[out@.len() + i],
            forall|i: int| 0 <= i < out@.len() ==> byte_len((#[trigger] out@[i])@) <= byte_len(t),
        decreases len - p,
    {
        let ghost rest = t.skip(p as int);
        let k = scan_char(s, '\n', p);
        proof {
            lemma_find_from_bounds(t, '\n', p as int);
            lemma_find_from_skip(t, '\n', p as int, p as int);
            assert(rest.take(k - p) =~= t.subrange(p as int, k as int));
        }
        let mut end = k;
        if k < len && k > p && s[k - 1] == '\r' {
            end = k - 1;
        }
        let line = copy_range(s, p, end);
        proof {
            lemma_byte_len_prefix(t, p as int, end as int);
            lemma_byte_len_prefix(t, end as int, len as int);
            lemma_byte_len_prefix(t, 0, p as int);
            assert(t.take(len as int) =~= t);
            assert(t.take(0) =~= Seq::<char>::empty());
            assert(t.subrange(0, p as int) =~= t.take(p as int));
        }
        let ghost old_out = out@;
        out.push(line);
        if k < len {
            proof {
                assert(line@ == strip_cr(rest.take(k - p))) by {
                    if k > p && t[k - 1] == '\r' {
                        assert(t.subrange(p as int, k as int).drop_last() =~= t.subrange(p as int, end as int));
                    }
                }
                assert(lines(rest) == seq![strip_cr(rest.take(k - p))] + lines(rest.skip(k - p + 1)));
                assert(rest.skip(k - p + 1) =~= t.skip(k + 1));
                assert forall|i: int| 0 <= i < lines(t.skip(k + 1)).len() implies #[trigger] lines(t.skip(k + 1))[i] == lines(t)[out@.len() + i] by {
                    assert(lines(t.skip(k + 1))[i] == lines(rest)[i + 1]);
                }
                assert(lines(rest)[0] == lines(t)[old_out.len() as int]);
            }
            p = k + 1;
        } else {
            proof {
                assert(lines(rest) == seq![rest]);
                assert(rest =~= t.subrange(p as int, k as int));
                assert(lines(rest)[0] == lines(t)[old_out.len() as int]);
                assert(t.skip(len as int) =~= Seq::<char>::empty());
            }
            p = len;
        }
    }
    proof {
        assert(t.skip(len as int) =~= Seq::<char>::empty());
    }
    out
}

/// The first position at or after `from` that holds whitespace, or the end.
fn scan_ws(text: &[char], from: usize) -> (q: usize)
    requires
        from <= text@.len(),
    ensures
        q == ws_from(text@, from as int),
{
    let ghost t = text@;
    let len = text.len();
    let mut q = from;
    while q < len && !char_is_whitespace(text[q])
        invariant
            from <= q <= len,
            len == t.len(),
            t == text@,
            ws_from(t, q as int) == ws_from(t, from as int),
        decreases len - q,
    {
        q = q + 1;
    }
    q
}

/// The first position at or after `from` where `a`, `b`, `c` stand in a row,
/// or the length of the text.
fn scan_triple(text: &[char], a: char, b: char, c: char) -> (m: usize)
    ensures
        m == find_triple(text@, a, b, c, 0),
{
    let ghost t = text@;
    let len = text.len();
    let mut i: usize = 0;
    while 3 <= len - i && !(text[i] == a && text[i + 1] == b && text[i + 2] == c)
        invariant
            0 <= i <= len,
            len == t.len(),
            t == text@,
            find_triple(t, a, b, c, i as int) == find_triple(t, a, b, c, 0),
        decreases len - i,
    {
        i = i + 1;
    }
    if 3 <= len - i {
        i
    } else {
        len
    }
}

/// The string literal open in an exec capture.
pub open spec fn open_of(c: Option<CaptureString>) -> OpenString {
    match c {
        Some(c) => Some((c.span_start, c.string_buffer@)),
        None => None,
    }
}

proof fn lemma_words_end(s: Seq<char>, p: int, col0: int, line: usize, open: OpenString)
    requires
        p >= s.len(),
    ensures
        lex_words(s, p, col0, line, open) == (Seq::<(Lexeme, SpanInfo)>::empty(), open),
{
    reveal(lex_words);
}

proof fn lemma_words_step(s: Seq<char>, p: int, col0: int, line: usize, open: OpenString)
    requires
        0 <= p < s.len(),
    ensures
        p < word_stop(s, p) <= s.len(),
        lex_words(s, p, col0, line, open) == ({
            let e = word_stop(s, p);
            let raw = s.subrange(p, e);
            let begin = col0 + byte_len(s.take(p));
            match open {
                Some((start, buf)) => {
                    let here = open_word(raw, begin, line, start, buf);
                    let rest = lex_words(s, e, col0, line, here.1);
                    (here.0 + rest.0, rest.1)
                },
                None => {
                    let here = plain_word(raw, begin, line);
                    if here.2 {
                        (seq![], None)
                    } else {
                        let rest = lex_words(s, e, col0, line, here.1);
                        (here.0 + rest.0, rest.1)
                    }
                },
            }
        }),
{
    reveal(lex_words);
    lemma_ws_from_bounds(s, p);
}

/// `emits` over a concatenation.
proof fn lemma_emits_append(out: Seq<Spanned<Token>>, old_len: int, a: Seq<(Lexeme, SpanInfo)>, b: Seq<(Lexeme, SpanInfo)>)
    requires
        0 <= old_len <= out.len(),
        emits(out.take(old_len), a),
        emits(out.skip(old_len), b),
    ensures
        emits(out, a + b),
{
    assert forall|k: int| 0 <= k < out.len() implies token_of(#[trigger] out[k].spec_inner(), (a + b)[k].0)
        && out[k].spec_span() == (a + b)[k].1 by {
        if k < old_len {
            assert(out.take(old_len)[k] == out[k]);
            assert(token_of(out.take(old_len)[k].spec_inner(), a[k].0));
        } else {
            assert(out.skip(old_len)[k - old_len] == out[k]);
            assert(token_of(out.skip(old_len)[k - old_len].spec_inner(), b[k - old_len].0));
        }
    }
}

/// Tokenizes a word met while a string literal is open; see `open_word`.
/// Gives back the literal if it is still open.
fn lex_open_word(
    token_list: &mut Vec<Spanned<Token>>,
    cap: CaptureString,
    raw: &[char],
    begin: usize,
    line_number: usize,
) -> (r: Option<CaptureString>)
    requires
        begin + byte_len(raw@) <= usize::MAX,
    ensures
        final(token_list)@.len() >= old(token_list)@.len(),
        final(token_list)@.take(old(token_list)@.len() as int) == old(token_list)@,
        emits(
            final(token_list)@.skip(old(token_list)@.len() as int),
            open_word(raw@, begin as int, line_number, cap.span_start, cap.string_buffer@).0,
        ),
        open_of(r) == open_word(raw@, begin as int, line_number, cap.span_start, cap.string_buffer@).1,
{
    let ghost old_len = token_list@.len() as int;
    let ghost buf0 = cap.string_buffer@;
    let ghost step = open_word(raw@, begin as int, line_number, cap.span_start, buf0);
    let mut cap = cap;
    let q = scan_char(raw, '"', 0);
    proof {
        lemma_find_from_bounds(raw@, '"', 0);
    }
    if q < raw.len() {
        // The open string literal ends in this word.
        proof {
            lemma_byte_len_prefix(raw@, 0, q as int);
            lemma_byte_len_prefix(raw@, q as int, raw@.len() as int);
            assert(raw@.take(raw@.len() as int) =~= raw@);
            assert(raw@.subrange(0, q as int) =~= raw@.take(q as int));
            assert(raw@.take(0) =~= Seq::<char>::empty());
        }
        append_range(&mut cap.string_buffer, raw, 0, q);
        let qb = byte_len_of(raw, 0, q);
        let tok = Token::Literal(Value::String(string_from_chars(cap.string_buffer.as_slice())));
        let span = SpanInfo::new(cap.span_start, CharPosition::new(line_number, begin + qb));
        let st = Spanned::new(tok, span);
        let ghost closed = step.0[0];
        proof {
            assert(token_list@.skip(old_len) =~= Seq::<Spanned<Token>>::empty());
            lemma_emits_push(token_list@, old_len, seq![], st, closed);
        }
        token_list.push(st);
        let (ta, te) = trim_bounds(raw, q + 1, raw.len(), WsKind::Unicode);
        let other = vstd::slice::slice_subrange(raw, ta, te);
        proof {
            assert(raw@.subrange(q + 1, raw@.len() as int) =~= raw@.skip(q + 1));
            lemma_byte_len_prefix(raw@, ta as int, te as int);
            lemma_byte_len_prefix(raw@, te as int, raw@.len() as int);
            lemma_byte_len_prefix(raw@, 0, ta as int);
        }
        let ghost mid = token_list@;
        let mut rest_capture: Option<CaptureString> = None;
        parse_single_text(token_list, line_number, other, begin, &mut rest_capture);
        proof {
            let after = scan_word(other@, 0, line_number, begin as int);
            assert(token_list@.skip(old_len).take(mid.len() - old_len) =~= mid.skip(old_len));
            assert(token_list@.skip(old_len).skip(mid.len() - old_len) =~= token_list@.skip(mid.len() as int));
            assert(Seq::<(Lexeme, SpanInfo)>::empty().push(closed) =~= seq![closed]);
            lemma_emits_append(token_list@.skip(old_len), mid.len() - old_len, seq![closed], after.0);
            assert(token_list@.take(old_len) =~= mid.take(old_len));
            assert(seq![closed] + after.0 =~= step.0);
        }
        None
    } else {
        // The whole word belongs to the open string literal.
        append_range(&mut cap.string_buffer, raw, 0, raw.len());
        proof {
            assert(raw@.subrange(0, raw@.len() as int) =~= raw@);
            assert(token_list@.skip(old_len) =~= Seq::<Spanned<Token>>::empty());
            assert(token_list@.take(old_len) =~= token_list@);
        }
        Some(cap)
    }
}

/// Tokenizes a word met while no string literal is open; see `plain_word`.
/// Records a string literal left open in `capture_string` and tells whether
/// the word ends the line.
fn lex_plain_word(
    token_list: &mut Vec<Spanned<Token>>,
    capture_string: &mut Option<CaptureString>,
    raw: &[char],
    begin: usize,
    line_number: usize,
) -> (stop: bool)
    requires
        begin + byte_len(raw@) <= usize::MAX,
        *old(capture_string) is None,
    ensures
        final(token_list)@.len() >= old(token_list)@.len(),
        final(token_list)@.take(old(token_list)@.len() as int) == old(token_list)@,
        emits(final(token_list)@.skip(old(token_list)@.len() as int), plain_word(raw@, begin as int, line_number).0),
        open_of(*final(capture_string)) == plain_word(raw@, begin as int, line_number).1,
        stop == plain_word(raw@, begin as int, line_number).2,
{
    let ghost old_len = token_list@.len() as int;
    proof {
        assert(token_list@.skip(old_len) =~= Seq::<Spanned<Token>>::empty());
        assert(token_list@.take(old_len) =~= token_list@);
    }
    let (ta, te) = trim_bounds(raw, 0, raw.len(), WsKind::Unicode);
    assert(raw@.subrange(0, raw@.len() as int) =~= raw@);
    if ta < te && raw[ta] == '#' {
        // A comment: the rest of the line is skipped.
        true
    } else if ta < te {
        let trimmed = vstd::slice::slice_subrange(raw, ta, te);
        proof {
            lemma_byte_len_prefix(raw@, ta as int, te as int);
            lemma_byte_len_prefix(raw@, te as int, raw@.len() as int);
            lemma_byte_len_prefix(raw@, 0, ta as int);
            assert(raw@.take(raw@.len() as int) =~= raw@);
        }
        parse_single_text(token_list, line_number, trimmed, begin, capture_string);
        let ghost opened = open_of(*capture_string);
        let mut cur: Option<CaptureString> = None;
        std::mem::swap(&mut cur, capture_string);
        match cur {
            Some(mut cap) => {
                // The literal stays open: the whitespace that ends the word is part of it.
                append_range(&mut cap.string_buffer, raw, te, raw.len());
                *capture_string = Some(cap);
            },
            None => {},
        }
        proof {
            let t = raw@.skip(leading_ws(raw@, WsKind::Unicode) as int);
            assert(raw@.subrange(0, raw@.len() as int) =~= raw@);
            assert(t =~= raw@.subrange(ta as int, raw@.len() as int));
            assert(trimmed_tail(raw@) =~= raw@.subrange(te as int, raw@.len() as int));
            assert(open_of(*capture_string) == with_tail(opened, trimmed_tail(raw@)));
        }
        false
    } else {
        false
    }
}

/// The lexemes of one word, the string literal open after it, and whether it
/// ends the line, given the string literal open before it.
pub open spec fn word_lexemes(raw: Seq<char>, begin: int, line: usize, open: OpenString) -> (
    Seq<(Lexeme, SpanInfo)>,
    OpenString,
    bool,
) {
    match open {
        Some((start, buf)) => {
            let here = open_word(raw, begin, line, start, buf);
            (here.0, here.1, false)
        },
        None => plain_word(raw, begin, line),
    }
}

/// Tokenizes one word; see `word_lexemes`.
fn lex_word(
    token_list: &mut Vec<Spanned<Token>>,
    capture_string: &mut Option<CaptureString>,
    raw: &[char],
    begin: usize,
    line_number: usize,
) -> (stop: bool)
    requires
        begin + byte_len(raw@) <= usize::MAX,
    ensures
        final(token_list)@.len() >= old(token_list)@.len(),
        final(token_list)@.take(old(token_list)@.len() as int) == old(token_list)@,
        emits(
            final(token_list)@.skip(old(token_list)@.len() as int),
            word_lexemes(raw@, begin as int, line_number, open_of(*old(capture_string))).0,
        ),
        open_of(*final(capture_string)) == word_lexemes(raw@, begin as int, line_number, open_of(*old(capture_string))).1,
        stop == word_lexemes(raw@, begin as int, line_number, open_of(*old(capture_string))).2,
{
    let mut cur: Option<CaptureString> = None;
    std::mem::swap(&mut cur, capture_string);
    match cur {
        Some(cap) => {
            let next = lex_open_word(token_list, cap, raw, begin, line_number);
            *capture_string = next;
            false
        },
        None => lex_plain_word(token_list, capture_string, raw, begin, line_number),
    }
}

/// One step of `lex_words`: the lexemes from position `p` on are those of the
/// word at `p` followed, unless that word ends the line, by those after it.
proof fn lemma_words_unfold(s: Seq<char>, p: int, col0: int, line: usize, open: OpenString)
    requires
        0 <= p < s.len(),
    ensures
        p < word_stop(s, p) <= s.len(),
        ({
            let e = word_stop(s, p);
            let here = word_lexemes(s.subrange(p, e), col0 + byte_len(s.take(p)), line, open);
            if here.2 {
                lex_words(s, p, col0, line, open) == (Seq::<(Lexeme, SpanInfo)>::empty(), None::<(CharPosition, Seq<char>)>)
            } else {
                lex_words(s, p, col0, line, open) == (here.0 + lex_words(s, e, col0, line, here.1).0, lex_words(
                    s,
                    e,
                    col0,
                    line,
                    here.1,
                ).1)
            }
        }),
{
    lemma_words_step(s, p, col0, line, open);
}

/// Tokenizes the words of `s`, a line or what is left of it, whose text
/// begins at byte column `col0`; see `lex_words`.
fn lex_line_words(
    token_list: &mut Vec<Spanned<Token>>,
    capture_string: &mut Option<CaptureString>,
    s: &[char],
    col0: usize,
    line_number: usize,
)
    requires
        col0 + byte_len(s@) <= usize::MAX,
    ensures
        final(token_list)@.len() >= old(token_list)@.len(),
        final(token_list)@.take(old(token_list)@.len() as int) == old(token_list)@,
        emits(
            final(token_list)@.skip(old(token_list)@.len() as int),
            lex_words(s@, 0, col0 as int, line_number, open_of(*old(capture_string))).0,
        ),
        open_of(*final(capture_string)) == lex_words(s@, 0, col0 as int, line_number, open_of(*old(capture_string))).1,
{
    let ghost t = s@;
    let ghost line = line_number;
    let ghost c0 = col0 as int;
    let ghost old_len = token_list@.len() as int;
    let ghost whole = lex_words(t, 0, c0, line, open_of(*capture_string));
    let ghost mut seen: Seq<(Lexeme, SpanInfo)> = seq![];
    let len = s.len();
    let mut p: usize = 0;
    let mut bcol: usize = col0;
    proof {
        assert(t.take(0) =~= Seq::<char>::empty());
        assert(seen + whole.0 =~= whole.0);
        assert(token_list@.skip(old_len) =~= Seq::<Spanned<Token>>::empty());
        assert(token_list@.take(old_len) =~= old(token_list)@);
    }
    while p < len
        invariant
            len == t.len(),
            t == s@,
            0 <= p <= len,
            bcol == col0 + byte_len(t.take(p as int)),
            col0 + byte_len(t) <= usize::MAX,
            whole == lex_words(t, 0, c0, line, open_of(*old(capture_string))),
            seen + lex_words(t, p as int, c0, line, open_of(*capture_string)).0 == whole.0,
            lex_words(t, p as int, c0, line, open_of(*capture_string)).1 == whole.1,
            token_list@.len() >= old_len,
            token_list@.take(old_len) == old(token_list)@,
            emits(token_list@.skip(old_len), seen),
            line == line_number,
            c0 == col0 as int,
            old_len == old(token_list)@.len(),
        decreases len - p,
    {
        proof {
            lemma_words_unfold(t, p as int, c0, line, open_of(*capture_string));
            lemma_ws_from_bounds(t, p as int);
        }
        let k = scan_ws(s, p);
        let e = if k < len {
            k + 1
        } else {
            len
        };
        let raw = vstd::slice::slice_subrange(s, p, e);
        proof {
            lemma_byte_len_prefix(t, p as int, e as int);
            lemma_byte_len_prefix(t, e as int, len as int);
            assert(t.take(len as int) =~= t);
            assert(t.take(e as int) =~= t.take(p as int) + t.subrange(p as int, e as int));
            lemma_byte_len_concat(t.take(p as int), t.subrange(p as int, e as int));
        }
        let raw_bytes = byte_len_of(s, p, e);
        let ghost before = token_list@;
        let ghost open_before = open_of(*capture_string);
        let stop = lex_word(token_list, capture_string, raw, bcol, line_number);
        if stop {
            proof {
                assert(token_list@.take(before.len() as int) =~= before);
                assert(token_list@ =~= before);
                assert(seen + Seq::<(Lexeme, SpanInfo)>::empty() =~= seen);
            }
            return;
        }
        proof {
            let here = word_lexemes(raw@, bcol as int, line, open_before).0;
            assert(token_list@.skip(old_len).take(before.len() - old_len) =~= before.skip(old_len));
            assert(token_list@.skip(old_len).skip(before.len() - old_len) =~= token_list@.skip(before.len() as int));
            lemma_emits_append(token_list@.skip(old_len), before.len() - old_len, seen, here);
            assert(token_list@.take(old_len) =~= before.take(old_len));
            let rest = lex_words(t, e as int, c0, line, open_of(*capture_string));
            assert(seen + (here + rest.0) =~= (seen + here) + rest.0);
            seen = seen + here;
        }
        bcol = bcol + raw_bytes;
        p = e;
    }
    proof {
        lemma_words_end(t, p as int, c0, line, open_of(*capture_string));
        assert(seen + Seq::<(Lexeme, SpanInfo)>::empty() =~= seen);
    }
}

/// Tokenizes one line, given whether a `#->` comment and a string literal are
/// open before it; see `lex_line`.
fn lex_one_line(
    token_list: &mut Vec<Spanned<Token>>,
    in_comment: &mut bool,
    capture_string: &mut Option<CaptureString>,
    l: &[char],
    line_number: usize,
)
    requires
        byte_len(l@) <= usize::MAX,
    ensures
        final(token_list)@.len() >= old(token_list)@.len(),
        final(token_list)@.take(old(token_list)@.len() as int) == old(token_list)@,
        emits(
            final(token_list)@.skip(old(token_list)@.len() as int),
            lex_line(*old(in_comment), open_of(*old(capture_string)), l@, line_number).0,
        ),
        *final(in_comment) == lex_line(*old(in_comment), open_of(*old(capture_string)), l@, line_number).1,
        open_of(*final(capture_string)) == lex_line(*old(in_comment), open_of(*old(capture_string)), l@, line_number).2,
{
    let ghost t = l@;
    let len = l.len();
    let m = scan_triple(l, '<', '-', '#');
    proof {
        lemma_find_triple_bounds(t, '<', '-', '#', 0);
        assert(token_list@.take(token_list@.len() as int) =~= token_list@);
        assert(token_list@.skip(token_list@.len() as int) =~= Seq::<Spanned<Token>>::empty());
    }
    let mut start: usize = 0;
    let mut col0: usize = 0;
    if *in_comment {
        if m < len {
            proof {
                lemma_byte_len_prefix(t, 0, m as int);
                lemma_byte_len_prefix(t, m as int, m + 3);
                lemma_byte_len_prefix(t, m + 3, len as int);
                assert(t.take(len as int) =~= t);
                assert(t.take(0) =~= Seq::<char>::empty());
                assert(t.subrange(0, m as int) =~= t.take(m as int));
                assert forall|k: int| 0 <= k < 3 implies utf8_len(#[trigger] t.subrange(m as int, m + 3)[k]) == 1 by {
                    assert(t.subrange(m as int, m + 3)[k] == t[m + k]);
                }
                lemma_ascii_byte_len(t.subrange(m as int, m + 3));
            }
            col0 = byte_len_of(l, 0, m) + 3;
            start = m + 3;
            *in_comment = false;
        } else {
            return;
        }
    }
    let l1 = vstd::slice::slice_subrange(l, start, len);
    proof {
        if start == 0 {
            assert(l1@ =~= t);
            assert(byte_len(t.take(0)) == 0) by {
                assert(t.take(0) =~= Seq::<char>::empty());
            }
        } else {
            assert(l1@ =~= t.skip(start as int));
        }
        lemma_byte_len_prefix(t, start as int, len as int);
        lemma_byte_len_prefix(t, 0, start as int);
        assert(t.take(len as int) =~= t);
        assert(t.subrange(0, start as int) =~= t.take(start as int));
    }
    let m2 = scan_triple(l1, '#', '-', '>');
    proof {
        lemma_find_triple_bounds(l1@, '#', '-', '>', 0);
    }
    let mut end = l1.len();
    if m2 < l1.len() {
        end = m2;
        *in_comment = true;
    }
    let l2 = vstd::slice::slice_subrange(l1, 0, end);
    proof {
        lemma_byte_len_prefix(l1@, 0, end as int);
        lemma_byte_len_prefix(l1@, end as int, l1@.len() as int);
        assert(l1@.take(l1@.len() as int) =~= l1@);
        assert(l1@.subrange(0, end as int) =~= l1@.take(end as int));
        if m2 >= l1.len() {
            assert(l2@ =~= l1@);
        }
    }
    lex_line_words(token_list, capture_string, l2, col0, line_number);
}

/// Splits a source text into tokens.
///
/// The text is read line by line and each line word by word, a word running
/// up to and including the next whitespace character; see `tokenize_spec`
/// for what each word gives. Spans give 1-based lines and byte columns.
/// Tokenizing never fails.
pub fn tokenize(input: &str) -> (r: Result<Vec<Spanned<Token>>, ParserError>)
    ensures
        r matches Ok(tokens) && emits(tokens@, tokenize_spec(input@)),
{
    let chars = chars_of(input);
    let bytes = input.as_bytes();
    let _n = bytes.len();
    proof {
        lemma_encode_utf8_len(input@);
    }
    let ls = split_lines(chars.as_slice());
    let ghost lsv = lines(input@);
    let mut token_list: Vec<Spanned<Token>> = Vec::new();
    let mut in_multiline_comment = false;
    let mut capture_string: Option<CaptureString> = None;
    let mut i: usize = 0;
    while i < ls.len()
        invariant
            0 <= i <= ls@.len(),
            ls@.len() == lsv.len(),
            lsv == lines(input@),
            forall|k: int| 0 <= k < ls@.len() ==> (#[trigger] ls@[k])@ == lsv[k],
            forall|k: int| 0 <= k < ls@.len() ==> byte_len((#[trigger] ls@[k])@) <= usize::MAX,
            emits(token_list@, lex_lines(lsv, i as int).0),
            in_multiline_comment == lex_lines(lsv, i as int).1,
            open_of(capture_string) == lex_lines(lsv, i as int).2,
        decreases ls@.len() - i,
    {
        let ghost before = token_list@;
        lex_one_line(&mut token_list, &mut in_multiline_comment, &mut capture_string, ls[i].as_slice(), i + 1);
        proof {
            lemma_emits_append(token_list@, before.len() as int, lex_lines(lsv, i as int).0, lex_line(lex_lines(lsv, i as int).1, lex_lines(lsv, i as int).2, lsv[i as int], (i + 1) as usize).0);
        }
        i = i + 1;
    }
    Ok(token_list)
}

} // verus!
