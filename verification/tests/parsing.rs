use fog::delimiters::{child_iterator_until, find_closing_braces, find_closing_comma, find_closing_paren, find_next_bitor, find_next_comma};
use fog::errors::{ParserError, SyntaxError};
use fog::lexer::tokenize;
use fog::numeric::{fit_signed, fit_unsigned, try_match_suffix, unparsed_const_to_typed_literal_unsafe};
use fog::patterns::{discriminants_eq, expr_patterns, is_prefix_of, match_expr_pattern, patterns_collide, Expr};
use fog::span::{SpanInfo, Spanned};
use fog::stream::{Stream, Streamable};
use fog::token::{Token, TokenDiscriminants, TokenDiscriminants as D, Type, TypeDiscriminants, Value};

fn stream_of(src: &str) -> Stream<Spanned<Token>> {
    Stream::new(tokenize(src).unwrap())
}

fn bare(src: &str) -> Vec<Token> {
    tokenize(src).unwrap().iter().map(|t| t.inner().clone()).collect()
}

#[test]
fn closing_paren_skips_nested_groups() {
    let mut s = stream_of("f(a, (b), c) + 1");
    s.consume();
    s.consume();
    // From the cursor: a , ( b ) , c ) + 1
    assert_eq!(find_closing_paren(&s), Some(7));
    assert_eq!(s.stream_idx(), 2);
}

#[test]
fn closing_paren_missing() {
    let mut s = stream_of("f(a, (b)");
    s.consume_bulk(2);
    assert_eq!(find_closing_paren(&s), None);
}

#[test]
fn closing_braces_skips_nested_blocks() {
    let mut s = stream_of("{ if (x) { y; } z; } w");
    s.consume();
    assert_eq!(find_closing_braces(&s), Some(10));
    let mut t = stream_of("{ {");
    t.consume();
    assert_eq!(find_closing_braces(&t), None);
}

#[test]
fn next_bitor_and_comma() {
    let toks = bare("a b | c , d");
    assert_eq!(find_next_bitor(&toks), Ok(2));
    assert_eq!(find_next_comma(&toks), Ok(4));
    let none = bare("a b");
    assert_eq!(find_next_bitor(&none), Err(ParserError::SyntaxError(SyntaxError::LeftOpenParentheses)));
    assert_eq!(find_next_comma(&none), Err(ParserError::SyntaxError(SyntaxError::CommaNotFound)));
}

#[test]
fn closing_comma_skips_calls() {
    let toks = bare("g(x, y), z");
    assert_eq!(find_closing_comma(&toks), Ok(6));
    let last = bare("a + b");
    assert_eq!(find_closing_comma(&last), Ok(2));
    assert_eq!(find_closing_comma(&[]), Err(ParserError::InvalidFunctionCallArguments));
}

#[test]
fn pattern_prefixes() {
    assert!(discriminants_eq(D::Comma, D::Comma));
    assert!(!discriminants_eq(D::Comma, D::Dot));
    assert!(is_prefix_of(&[D::If], &[D::If, D::OpenParentheses]));
    assert!(is_prefix_of(&[], &[D::If]));
    assert!(!is_prefix_of(&[D::If, D::OpenParentheses], &[D::If]));
    assert!(!is_prefix_of(&[D::While], &[D::If, D::OpenParentheses]));
    assert!(patterns_collide(&[D::If], &[D::If, D::OpenParentheses]));
    assert!(patterns_collide(&[D::If, D::OpenParentheses], &[D::If]));
    assert!(!patterns_collide(&[D::For], &[D::While]));
}

#[test]
fn expr_pattern_table_has_no_collisions() {
    let table = expr_patterns();
    assert_eq!(table.len(), 5);
    let all: Vec<&Vec<TokenDiscriminants>> = table.iter().flat_map(|(ps, _)| ps.iter()).collect();
    for (i, a) in all.iter().enumerate() {
        for (j, b) in all.iter().enumerate() {
            if i != j {
                assert!(!patterns_collide(a, b));
            }
        }
    }
}

#[test]
fn match_expr_pattern_recognizes_statements() {
    let mut s = stream_of("var int x = 1;");
    assert_eq!(match_expr_pattern(&mut s), Some(Ok(Expr::VariableDeclaration)));
    assert_eq!(s.stream_idx(), 0);
    let mut s = stream_of("int x;");
    assert_eq!(match_expr_pattern(&mut s), Some(Err(SyntaxError::VariableRequiresInitialization)));
    let mut s = stream_of("if (a) {");
    assert_eq!(match_expr_pattern(&mut s), Some(Ok(Expr::Conditional)));
    // The tokenizer has no word for `in`, so a `for` header written out does
    // not match; built from tokens it does.
    let mut s = stream_of("for i in x");
    assert_eq!(match_expr_pattern(&mut s), None);
    let for_tokens = vec![Token::For, Token::Identifier("i".to_string()), Token::In, Token::Identifier("x".to_string())];
    let mut s = Stream::new(for_tokens.into_iter().map(|t| Spanned::new(t, SpanInfo::default())).collect());
    assert_eq!(match_expr_pattern(&mut s), Some(Ok(Expr::For)));
    let mut s = stream_of("while (a)");
    assert_eq!(match_expr_pattern(&mut s), Some(Ok(Expr::While)));
    let mut s = stream_of("return 1;");
    assert_eq!(match_expr_pattern(&mut s), None);
    let mut s = stream_of("x if (a)");
    s.consume();
    assert_eq!(match_expr_pattern(&mut s), Some(Ok(Expr::Conditional)));
    assert_eq!(s.stream_idx(), 1);
}

#[test]
fn numeric_suffixes() {
    assert_eq!(try_match_suffix("10uint"), Some(("10".to_string(), TypeDiscriminants::U32)));
    assert_eq!(try_match_suffix("10uintsmall"), Some(("10".to_string(), TypeDiscriminants::U8)));
    assert_eq!(try_match_suffix("7inthalf"), Some(("7".to_string(), TypeDiscriminants::I16)));
    assert_eq!(try_match_suffix("7int"), Some(("7".to_string(), TypeDiscriminants::I32)));
    assert_eq!(try_match_suffix("2.5floatlong"), Some(("2.5".to_string(), TypeDiscriminants::F64)));
    assert_eq!(try_match_suffix("2.5float"), Some(("2.5".to_string(), TypeDiscriminants::F32)));
    assert_eq!(try_match_suffix("42"), None);
}

#[test]
fn fit_unsigned_picks_narrowest() {
    assert_eq!(fit_unsigned("0"), Ok(Value::U8(0)));
    assert_eq!(fit_unsigned("255"), Ok(Value::U8(255)));
    assert_eq!(fit_unsigned("256"), Ok(Value::U16(256)));
    assert_eq!(fit_unsigned("65536"), Ok(Value::U32(65536)));
    assert_eq!(fit_unsigned("4294967296"), Ok(Value::U64(4294967296)));
    assert_eq!(fit_unsigned("+7"), Ok(Value::U8(7)));
    assert_eq!(fit_unsigned("18446744073709551616"), Err(ParserError::LiteralOutOfRange("18446744073709551616".to_string())));
    assert_eq!(fit_unsigned("-1"), Err(ParserError::LiteralOutOfRange("-1".to_string())));
    assert_eq!(fit_unsigned(""), Err(ParserError::LiteralOutOfRange(String::new())));
}

#[test]
fn fit_signed_picks_narrowest() {
    assert_eq!(fit_signed("-5"), Ok(Value::I16(-5)));
    assert_eq!(fit_signed("32767"), Ok(Value::I16(32767)));
    assert_eq!(fit_signed("-32769"), Ok(Value::I32(-32769)));
    assert_eq!(fit_signed("2147483648"), Ok(Value::I64(2147483648)));
    assert_eq!(fit_signed("-9223372036854775808"), Ok(Value::I64(i64::MIN)));
    assert_eq!(fit_signed("9223372036854775808"), Err(ParserError::LiteralOutOfRange("9223372036854775808".to_string())));
    assert_eq!(fit_signed("1x"), Err(ParserError::LiteralOutOfRange("1x".to_string())));
}

#[test]
fn typed_literals() {
    assert_eq!(unparsed_const_to_typed_literal_unsafe("42", Some(Type::I32), None), Ok(Value::I32(42)));
    assert_eq!(unparsed_const_to_typed_literal_unsafe("-42", Some(Type::I16), None), Ok(Value::I16(-42)));
    assert_eq!(unparsed_const_to_typed_literal_unsafe("255", Some(Type::U8), None), Ok(Value::U8(255)));
    assert_eq!(
        unparsed_const_to_typed_literal_unsafe("256", Some(Type::U8), None),
        Err(ParserError::InvalidTypeCast("256".to_string(), Type::U8))
    );
    assert_eq!(unparsed_const_to_typed_literal_unsafe("true", Some(Type::Boolean), None), Ok(Value::Boolean(true)));
    assert_eq!(
        unparsed_const_to_typed_literal_unsafe("yes", Some(Type::Boolean), None),
        Err(ParserError::InvalidTypeCast("yes".to_string(), Type::Boolean))
    );
    assert_eq!(unparsed_const_to_typed_literal_unsafe("anything", Some(Type::Void), None), Ok(Value::Void));
    assert_eq!(
        unparsed_const_to_typed_literal_unsafe("1", Some(Type::String), None),
        Err(ParserError::InvalidTypeCast("1".to_string(), Type::String))
    );
    assert_eq!(
        unparsed_const_to_typed_literal_unsafe("4096", Some(Type::Pointer(None)), None),
        Ok(Value::Pointer((4096, None)))
    );
}

#[test]
fn float_literals_take_the_given_bits() {
    let bits = 2.5f64.to_bits();
    match unparsed_const_to_typed_literal_unsafe("2.5", Some(Type::F64), Some(bits)) {
        Ok(Value::F64(f)) => assert_eq!(f.bits(), bits),
        other => panic!("unexpected {:?}", other),
    }
    let bits32 = 2.5f32.to_bits() as u64;
    match unparsed_const_to_typed_literal_unsafe("2.5", Some(Type::F32), Some(bits32)) {
        Ok(Value::F32(f)) => assert_eq!(f.bits(), 2.5f32.to_bits()),
        other => panic!("unexpected {:?}", other),
    }
    assert_eq!(
        unparsed_const_to_typed_literal_unsafe("abc", Some(Type::F64), None),
        Err(ParserError::InvalidTypeCast("abc".to_string(), Type::F64))
    );
    match unparsed_const_to_typed_literal_unsafe("1.5", None, Some(1.5f64.to_bits())) {
        Ok(Value::F64(f)) => assert_eq!(f64::from_bits(f.bits()), 1.5),
        other => panic!("unexpected {:?}", other),
    }
}

#[test]
fn untyped_literals_are_guessed() {
    assert_eq!(unparsed_const_to_typed_literal_unsafe("false", None, None), Ok(Value::Boolean(false)));
    assert_eq!(unparsed_const_to_typed_literal_unsafe("-3", None, None), Ok(Value::I64(-3)));
    assert_eq!(unparsed_const_to_typed_literal_unsafe("3", None, None), Ok(Value::U64(3)));
}

#[test]
fn child_until_semicolon() {
    let mut s = stream_of("x a b ; c");
    s.consume();
    {
        let mut child = child_iterator_until(&mut s, &TokenDiscriminants::SemiColon, ParserError::InvalidFunctionCallArguments).unwrap();
        assert_eq!(Streamable::len(&child), 2);
        assert_eq!(child.consume().map(|t| t.inner().clone()), Some(Token::Identifier("a".to_string())));
        assert_eq!(child.consume().map(|t| t.inner().clone()), Some(Token::Identifier("b".to_string())));
        assert!(child.consume().is_none());
    }
    assert_eq!(s.stream_idx(), 3);
    assert_eq!(s.peek_next().map(|t| t.inner().clone()), Some(Token::SemiColon));
}

#[test]
fn child_until_missing_kind() {
    let mut s = stream_of("a b c");
    let r = child_iterator_until(&mut s, &TokenDiscriminants::SemiColon, ParserError::InvalidFunctionCallArguments);
    assert_eq!(r.err(), Some(ParserError::InvalidFunctionCallArguments));
    assert_eq!(s.stream_idx(), 0);
}
