use fog::lexer::tokenize;
use fog::span::{CharPosition, SpanInfo, Spanned};
use fog::token::{
    CompilerInstructionDiscriminants, ItemVisibility, LogicalOperator, MathematicalSymbol, Order, Token,
    TypeToken, Value,
};

fn span(line: usize, start: usize, end: usize) -> SpanInfo {
    SpanInfo::new(CharPosition::new(line, start), CharPosition::new(line, end))
}

fn kinds(tokens: &[Spanned<Token>]) -> Vec<Token> {
    tokens.iter().map(|t| t.inner().clone()).collect()
}

fn spans(tokens: &[Spanned<Token>]) -> Vec<SpanInfo> {
    tokens.iter().map(|t| *t.get_span()).collect()
}

#[test]
fn tokenize_function_header() {
    let tokens = tokenize("pub function main(): int {").unwrap();
    assert_eq!(
        kinds(&tokens),
        vec![
            Token::ItemVisibility(ItemVisibility::Public),
            Token::TypeDefinition(TypeToken::Function),
            Token::Identifier("main".to_string()),
            Token::OpenParentheses,
            Token::CloseParentheses,
            Token::Colon,
            Token::TypeDefinition(TypeToken::I32),
            Token::OpenBraces,
        ]
    );
    assert_eq!(
        spans(&tokens),
        vec![
            span(1, 0, 3),
            span(1, 4, 12),
            span(1, 13, 17),
            span(1, 17, 18),
            span(1, 18, 19),
            span(1, 19, 20),
            span(1, 21, 24),
            span(1, 25, 26),
        ]
    );
}

#[test]
fn tokenize_empty_and_blank_input() {
    assert!(tokenize("").unwrap().is_empty());
    assert!(tokenize("   \n\t\n  ").unwrap().is_empty());
}

#[test]
fn tokenize_line_comment_skips_rest_of_line() {
    let tokens = tokenize("a # b c\nd").unwrap();
    assert_eq!(kinds(&tokens), vec![Token::Identifier("a".to_string()), Token::Identifier("d".to_string())]);
    assert_eq!(spans(&tokens), vec![span(1, 0, 1), span(2, 0, 1)]);
}

#[test]
fn tokenize_multiline_comment() {
    let tokens = tokenize("a #-> hidden\nstill hidden\nend <-# b").unwrap();
    assert_eq!(kinds(&tokens), vec![Token::Identifier("a".to_string()), Token::Identifier("b".to_string())]);
    assert_eq!(spans(&tokens), vec![span(1, 0, 1), span(3, 8, 9)]);
}

#[test]
fn tokenize_numbers() {
    let tokens = tokenize("3.14 343. 42").unwrap();
    assert_eq!(
        kinds(&tokens),
        vec![
            Token::UnparsedLiteral("3.14".to_string()),
            Token::UnparsedLiteral("343.".to_string()),
            Token::UnparsedLiteral("42".to_string()),
        ]
    );
    assert_eq!(spans(&tokens), vec![span(1, 0, 4), span(1, 5, 9), span(1, 10, 12)]);
}

#[test]
fn tokenize_number_followed_by_field_access() {
    let tokens = tokenize("355.3.asd").unwrap();
    assert_eq!(
        kinds(&tokens),
        vec![Token::UnparsedLiteral("355.3".to_string()), Token::Dot, Token::Identifier("asd".to_string())]
    );
    assert_eq!(spans(&tokens), vec![span(1, 0, 5), span(1, 5, 6), span(1, 6, 9)]);
}

#[test]
fn tokenize_symbols_inside_a_word() {
    let tokens = tokenize("a!=b").unwrap();
    assert_eq!(
        kinds(&tokens),
        vec![
            Token::Identifier("a!".to_string()),
            Token::SetValue,
            Token::Identifier("b".to_string()),
        ]
    );
    let tokens = tokenize("foo==bar").unwrap();
    assert_eq!(
        kinds(&tokens),
        vec![
            Token::Identifier("foo".to_string()),
            Token::Comparison(Order::Equal),
            Token::Identifier("bar".to_string()),
        ]
    );
    assert_eq!(spans(&tokens), vec![span(1, 0, 3), span(1, 3, 5), span(1, 5, 8)]);
}

#[test]
fn tokenize_longest_symbol_wins() {
    let tokens = tokenize("f(a,...)").unwrap();
    assert_eq!(
        kinds(&tokens),
        vec![
            Token::Identifier("f".to_string()),
            Token::OpenParentheses,
            Token::Identifier("a".to_string()),
            Token::Comma,
            Token::Ellipsis,
            Token::CloseParentheses,
        ]
    );
}

#[test]
fn tokenize_operators_and_keywords() {
    let tokens = tokenize("x && y || z - 1 =+ 2 %= 3 b>> b<< -> <- :: ; @ cold feature true false").unwrap();
    assert_eq!(
        kinds(&tokens),
        vec![
            Token::Identifier("x".to_string()),
            Token::LogicalOperator(LogicalOperator::And),
            Token::Identifier("y".to_string()),
            Token::LogicalOperator(LogicalOperator::Or),
            Token::Identifier("z".to_string()),
            Token::MathSym(MathematicalSymbol::Subtraction),
            Token::UnparsedLiteral("1".to_string()),
            Token::SetValueMathSym(MathematicalSymbol::Addition),
            Token::UnparsedLiteral("2".to_string()),
            Token::SetValueMathSym(MathematicalSymbol::Modulo),
            Token::UnparsedLiteral("3".to_string()),
            Token::BitRight,
            Token::BitLeft,
            Token::RightArrow,
            Token::LeftArrow,
            Token::DoubleColon,
            Token::SemiColon,
            Token::CompilerHintSymbol,
            Token::CompilerInstruction(CompilerInstructionDiscriminants::Cold),
            Token::CompilerInstruction(CompilerInstructionDiscriminants::Feature),
            Token::Literal(Value::Boolean(true)),
            Token::Literal(Value::Boolean(false)),
        ]
    );
}

#[test]
fn tokenize_string_without_spaces() {
    let tokens = tokenize("println(\"hi\");").unwrap();
    assert_eq!(
        kinds(&tokens),
        vec![
            Token::Identifier("println".to_string()),
            Token::OpenParentheses,
            Token::Literal(Value::String("hi".to_string())),
            Token::CloseParentheses,
            Token::SemiColon,
        ]
    );
    assert_eq!(
        spans(&tokens),
        vec![span(1, 0, 7), span(1, 7, 8), span(1, 8, 12), span(1, 12, 13), span(1, 13, 14)]
    );
}

#[test]
fn tokenize_string_over_several_words() {
    let tokens = tokenize("x = \"hello big world\";").unwrap();
    assert_eq!(
        kinds(&tokens),
        vec![
            Token::Identifier("x".to_string()),
            Token::SetValue,
            Token::Literal(Value::String("hello big world".to_string())),
            Token::SemiColon,
        ]
    );
    // The string spans from its opening quote to its closing quote; what
    // follows the closing quote is placed from the start of its word.
    assert_eq!(spans(&tokens), vec![span(1, 0, 1), span(1, 2, 3), span(1, 4, 20), span(1, 15, 16)]);
}

#[test]
fn tokenize_keywords_with_types() {
    let tokens = tokenize("const uintlong n = 5;").unwrap();
    assert_eq!(
        kinds(&tokens),
        vec![
            Token::Const,
            Token::TypeDefinition(TypeToken::U64),
            Token::Identifier("n".to_string()),
            Token::SetValue,
            Token::UnparsedLiteral("5".to_string()),
            Token::SemiColon,
        ]
    );
}

#[test]
fn tokenize_columns_count_bytes() {
    let tokens = tokenize("é x").unwrap();
    assert_eq!(kinds(&tokens), vec![Token::Identifier("é".to_string()), Token::Identifier("x".to_string())]);
    assert_eq!(spans(&tokens), vec![span(1, 0, 2), span(1, 3, 4)]);
}

#[test]
fn tokenize_lines_are_numbered_from_one() {
    let tokens = tokenize("a\n\nb\r\nc").unwrap();
    assert_eq!(spans(&tokens), vec![span(1, 0, 1), span(3, 0, 1), span(4, 0, 1)]);
}

#[test]
fn tokenize_string_keeps_its_spaces() {
    let tokens = tokenize("\"a b\"").unwrap();
    assert_eq!(kinds(&tokens), vec![Token::Literal(Value::String("a b".to_string()))]);
    assert_eq!(spans(&tokens), vec![span(1, 0, 4)]);
    let tokens = tokenize("println(\"Name: %s,  Number: %i\", name);").unwrap();
    assert_eq!(tokens[2].inner(), &Token::Literal(Value::String("Name: %s,  Number: %i".to_string())));
    let tokens = tokenize("\" a\"").unwrap();
    assert_eq!(kinds(&tokens), vec![Token::Literal(Value::String(" a".to_string()))]);
}
