use fog::codegen::FunctionArgumentIdentifier;
use fog::errors::{ParserError, SyntaxError};
use fog::lexer::tokenize;
use fog::parser::{parse_expr, parse_variable_expression, Arguments, StatementVariant, Statements};
use fog::span::{CharPosition, SpanInfo, Spanned};
use fog::stream::{Stream, Streamable};
use fog::token::{LogicalOperator, MathematicalSymbol, Order, Token, TypeDiscriminants, Value};

fn stream_of(src: &str) -> Stream<Spanned<Token>> {
    Stream::new(tokenize(src).unwrap())
}

fn span(line: usize, start: usize, end: usize) -> SpanInfo {
    SpanInfo::new(CharPosition::new(line, start), CharPosition::new(line, end))
}

fn value(s: &Spanned<StatementVariant>) -> &Value {
    match &s.inner {
        StatementVariant::Value(v) => v,
        other => panic!("not a value: {:?}", other),
    }
}

fn name(s: &Spanned<StatementVariant>) -> &str {
    match &s.inner {
        StatementVariant::BasicReference { variable_name } => variable_name,
        other => panic!("not a reference: {:?}", other),
    }
}

#[test]
fn parse_addition() {
    let mut s = stream_of("a + 1");
    let e = parse_expr(&mut s).unwrap();
    assert_eq!(s.stream_idx(), 3);
    assert_eq!(e.span, span(1, 2, 5));
    match &e.inner {
        StatementVariant::MathematicalExpression { lhs, symbol, rhs } => {
            assert_eq!(name(lhs), "a");
            assert_eq!(*symbol, MathematicalSymbol::Addition);
            assert_eq!(value(rhs), &Value::U8(1));
        },
        other => panic!("unexpected {:?}", other),
    }
}

#[test]
fn parse_call_with_positional_and_named_arguments() {
    let mut s = stream_of("foo(1, x = 2)");
    let e = parse_expr(&mut s).unwrap();
    assert_eq!(s.stream_idx(), 8);
    assert_eq!(e.span, span(1, 3, 13));
    match &e.inner {
        StatementVariant::FunctionCall { identifier, arguments } => {
            assert_eq!(name(identifier), "foo");
            match arguments {
                Arguments::Item(k0, v0, rest) => {
                    assert_eq!(*k0, FunctionArgumentIdentifier::Index(0));
                    assert_eq!(value(v0), &Value::U8(1));
                    match &**rest {
                        Arguments::Item(k1, v1, end) => {
                            assert_eq!(*k1, FunctionArgumentIdentifier::Identifier("x".to_string()));
                            assert_eq!(value(v1), &Value::U8(2));
                            assert_eq!(**end, Arguments::End);
                        },
                        other => panic!("unexpected {:?}", other),
                    }
                },
                other => panic!("unexpected {:?}", other),
            }
        },
        other => panic!("unexpected {:?}", other),
    }
}

#[test]
fn parse_call_without_arguments() {
    let mut s = stream_of("run()");
    let e = parse_expr(&mut s).unwrap();
    assert!(matches!(&e.inner, StatementVariant::FunctionCall { arguments: Arguments::End, .. }));
    assert_eq!(s.stream_idx(), 3);
}

#[test]
fn parse_named_argument_given_twice_keeps_last() {
    let mut s = stream_of("f(a = 1, a = 2)");
    let e = parse_expr(&mut s).unwrap();
    match &e.inner {
        StatementVariant::FunctionCall { arguments: Arguments::Item(k, v, rest), .. } => {
            assert_eq!(*k, FunctionArgumentIdentifier::Identifier("a".to_string()));
            assert_eq!(value(v), &Value::U8(2));
            assert_eq!(**rest, Arguments::End);
        },
        other => panic!("unexpected {:?}", other),
    }
}

#[test]
fn parse_index_then_field() {
    let mut s = stream_of("arr[0].len");
    let e = parse_expr(&mut s).unwrap();
    match &e.inner {
        StatementVariant::StructFieldReference { variable_reference, field_name } => {
            assert_eq!(field_name, "len");
            match &variable_reference.inner {
                StatementVariant::ArrayReference { variable_reference, index } => {
                    assert_eq!(name(variable_reference), "arr");
                    assert_eq!(value(index), &Value::U8(0));
                },
                other => panic!("unexpected {:?}", other),
            }
        },
        other => panic!("unexpected {:?}", other),
    }
    assert_eq!(s.stream_idx(), 6);
}

#[test]
fn parse_array_literal() {
    let mut s = stream_of("{1, 2}");
    let e = parse_expr(&mut s).unwrap();
    assert_eq!(e.span, span(1, 0, 6));
    match &e.inner {
        StatementVariant::ArrayInitialization { values: Statements::Item(a, rest) } => {
            assert_eq!(value(a), &Value::U8(1));
            match &**rest {
                Statements::Item(b, end) => {
                    assert_eq!(value(b), &Value::U8(2));
                    assert_eq!(**end, Statements::End);
                },
                other => panic!("unexpected {:?}", other),
            }
        },
        other => panic!("unexpected {:?}", other),
    }
}

#[test]
fn parse_grouping_and_comparison() {
    let mut s = stream_of("(a) == b && c");
    let e = parse_expr(&mut s).unwrap();
    assert_eq!(s.stream_idx(), 7);
    match &e.inner {
        StatementVariant::Comparison { lhs, ord, rhs } => {
            assert_eq!(*ord, Order::Equal);
            assert!(matches!(&lhs.inner, StatementVariant::Grouping { .. }));
            match &rhs.inner {
                StatementVariant::LogicalOperation { lhs, op, rhs } => {
                    assert_eq!(*op, LogicalOperator::And);
                    assert_eq!(name(lhs), "b");
                    assert_eq!(name(rhs), "c");
                },
                other => panic!("unexpected {:?}", other),
            }
        },
        other => panic!("unexpected {:?}", other),
    }
}

#[test]
fn parse_pointers_negation_and_return() {
    let mut s = stream_of("return -x");
    let e = parse_expr(&mut s).unwrap();
    match &e.inner {
        StatementVariant::ReturnValue { value } => {
            assert!(matches!(&value.inner, StatementVariant::NegateValue(_)));
        },
        other => panic!("unexpected {:?}", other),
    }
    let mut s = stream_of("ref deref p");
    let e = parse_expr(&mut s).unwrap();
    match &e.inner {
        StatementVariant::GetPointerTo(inner) => assert!(matches!(&inner.inner, StatementVariant::DerefPointer(_))),
        other => panic!("unexpected {:?}", other),
    }
}

fn literal(text: &str) -> Stream<Spanned<Token>> {
    Stream::new(vec![Spanned::new(Token::UnparsedLiteral(text.to_string()), span(1, 0, text.len()))])
}

#[test]
fn parse_number_literals() {
    // The tokenizer splits a suffix off as a type word; a literal token that
    // keeps its suffix is read with it.
    let mut s = literal("10uint");
    assert_eq!(value(&parse_expr(&mut s).unwrap()), &Value::U32(10));
    let mut s = stream_of("70000");
    assert_eq!(value(&parse_expr(&mut s).unwrap()), &Value::U32(70000));
    let mut s = stream_of("1.5");
    assert_eq!(parse_expr(&mut s).unwrap().inner, StatementVariant::FloatLiteral("1.5".to_string(), None));
    let mut s = literal("2floatlong");
    assert_eq!(
        parse_expr(&mut s).unwrap().inner,
        StatementVariant::FloatLiteral("2floatlong".to_string(), Some(TypeDiscriminants::F64))
    );
    let mut s = literal("300uintsmall");
    assert_eq!(parse_expr(&mut s).err(), Some(ParserError::LiteralOutOfRange("300uintsmall".to_string())));
    let mut s = literal("-5inthalf");
    assert_eq!(value(&parse_expr(&mut s).unwrap()), &Value::I16(-5));
}

#[test]
fn parse_errors() {
    let mut s = stream_of("");
    assert_eq!(parse_expr(&mut s).err(), Some(ParserError::EOF));
    let mut s = stream_of(";");
    assert_eq!(parse_expr(&mut s).err(), Some(ParserError::UnknownExpression));
    let mut s = stream_of("foo(1");
    assert_eq!(parse_expr(&mut s).err(), Some(ParserError::SyntaxError(SyntaxError::LeftOpenParentheses)));
    let mut s = stream_of("a ;");
    assert_eq!(
        parse_expr(&mut s).err(),
        Some(ParserError::SyntaxError(SyntaxError::InvalidVariableExpression))
    );
    let mut s = stream_of("a.1");
    assert_eq!(
        parse_expr(&mut s).err(),
        Some(ParserError::SyntaxError(SyntaxError::InvalidStructFieldReference))
    );
    let mut s = stream_of("{1");
    assert_eq!(parse_expr(&mut s).err(), Some(ParserError::SyntaxError(SyntaxError::LeftOpenBraces)));
}

#[test]
fn parse_assignment_after_a_reference() {
    let mut s = stream_of("x = 5 , y");
    s.consume();
    let stmt = Spanned::new(StatementVariant::BasicReference { variable_name: "x".to_string() }, span(1, 0, 1));
    let e = parse_variable_expression(&mut s, stmt).unwrap();
    match &e.inner {
        StatementVariant::SetValue { receiver, value: v } => {
            assert_eq!(name(receiver), "x");
            assert_eq!(value(v), &Value::U8(5));
        },
        other => panic!("unexpected {:?}", other),
    }
    assert_eq!(e.span, span(1, 0, 5));
    assert_eq!(s.stream_idx(), 4);
    let stmt = Spanned::new(StatementVariant::BasicReference { variable_name: "z".to_string() }, span(1, 0, 1));
    let mut t = stream_of("");
    assert_eq!(parse_variable_expression(&mut t, stmt).unwrap().inner, StatementVariant::BasicReference {
        variable_name: "z".to_string(),
    });
}
