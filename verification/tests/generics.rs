use fog::errors::{ParserError, SyntaxError};
use fog::function::{parse_function_signature, parse_generics, ArgumentList, FunctionArguments, Generics, TraitBounds};
use fog::lexer::tokenize;
use fog::span::{CharPosition, SpanInfo, Spanned};
use fog::stream::{Stream, Streamable};
use fog::token::{Token, Type, TypeToken};

fn stream_of(src: &str) -> Stream<Spanned<Token>> {
    Stream::new(tokenize(src).unwrap())
}

fn bounds(names: &[&str]) -> TraitBounds {
    let mut b = TraitBounds::End;
    for name in names.iter().rev() {
        b = TraitBounds::Item(name.to_string(), Box::new(b));
    }
    b
}

fn generics(items: &[(&str, &[&str])]) -> Generics {
    let mut g = Generics::End;
    for (name, traits) in items.iter().rev() {
        g = Generics::Item(name.to_string(), bounds(traits), Box::new(g));
    }
    g
}

#[test]
fn generics_with_several_bounds() {
    let mut tokens = stream_of("T: Add + Sub, U: Display| (");
    assert_eq!(
        parse_generics(&mut tokens),
        Ok(generics(&[("T", &["Add", "Sub"]), ("U", &["Display"])]))
    );
    assert_eq!(tokens.stream_idx(), 10);
}

#[test]
fn repeated_trait_is_kept_once() {
    let mut tokens = stream_of("T: Add + Add|");
    assert_eq!(parse_generics(&mut tokens), Ok(generics(&[("T", &["Add"])])));
    assert_eq!(tokens.stream_idx(), 6);
}

#[test]
fn generic_named_twice_keeps_its_place() {
    let mut tokens = stream_of("T: A, U: B, T: C|");
    assert_eq!(parse_generics(&mut tokens), Ok(generics(&[("T", &["C"]), ("U", &["B"])])));
}

#[test]
fn empty_generics_list() {
    let mut tokens = stream_of("| (");
    assert_eq!(parse_generics(&mut tokens), Ok(Generics::End));
    assert_eq!(tokens.stream_idx(), 1);
}

#[test]
fn generic_without_colon() {
    let mut tokens = stream_of("T Add|");
    assert_eq!(
        parse_generics(&mut tokens),
        Err(ParserError::SyntaxError(SyntaxError::InvalidFunctionGenericsDefinition))
    );
    assert_eq!(tokens.stream_idx(), 2);
}

#[test]
fn generic_without_traits_points_at_its_name() {
    let mut tokens = stream_of("T:");
    assert_eq!(parse_generics(&mut tokens), Err(ParserError::GenericMustHaveAtleastOneTrait));
    assert_eq!(tokens.stream_idx(), 1);
}

#[test]
fn trait_at_end_of_tokens() {
    let mut tokens = stream_of("T: Add");
    assert_eq!(parse_generics(&mut tokens), Err(ParserError::EOF));
    assert_eq!(tokens.stream_idx(), 3);
}

#[test]
fn bad_trait_separator() {
    let mut tokens = stream_of("T: Add - Sub|");
    assert_eq!(
        parse_generics(&mut tokens),
        Err(ParserError::SyntaxError(SyntaxError::InvalidFunctionGenericsDefinition))
    );
    assert_eq!(tokens.stream_idx(), 4);
}

#[test]
fn generics_list_may_end_with_the_tokens() {
    let mut tokens = stream_of("T: Add +");
    assert_eq!(parse_generics(&mut tokens), Ok(generics(&[("T", &["Add"])])));
    assert_eq!(tokens.stream_idx(), 4);
}

fn tok(t: Token) -> Spanned<Token> {
    Spanned::new(t, SpanInfo::new(CharPosition::new(0, 0), CharPosition::new(0, 1)))
}

fn arguments(items: Vec<(&str, Type)>) -> ArgumentList {
    let mut list = ArgumentList::End;
    for (name, ty) in items.into_iter().rev() {
        list = ArgumentList::Item(name.to_string(), ty, Box::new(list));
    }
    list
}

#[test]
fn signature_with_named_and_unresolved_types() {
    let mut tokens = stream_of("a: int, b: Foo) : int");
    let mut args = FunctionArguments::new();
    assert_eq!(parse_function_signature(&mut tokens, &mut args, None), Ok(()));
    assert_eq!(tokens.stream_idx(), 8);
    assert_eq!(args.arguments, arguments(vec![("a", Type::I32), ("b", Type::Unresolved("Foo".to_string()))]));
    assert!(!args.ellipsis_present);
    assert_eq!(args.referenced_receiver, None);
}

#[test]
fn empty_signature() {
    let mut tokens = stream_of(")");
    let mut args = FunctionArguments::new();
    assert_eq!(parse_function_signature(&mut tokens, &mut args, None), Ok(()));
    assert_eq!(tokens.stream_idx(), 1);
    assert_eq!(args, FunctionArguments::new());
}

#[test]
fn argument_named_twice() {
    let mut tokens = stream_of("a: int, a: bool)");
    let mut args = FunctionArguments::new();
    assert_eq!(
        parse_function_signature(&mut tokens, &mut args, None),
        Err(ParserError::DuplicateArguments("a".to_string()))
    );
    assert_eq!(tokens.stream_idx(), 7);
    assert_eq!(args.arguments, arguments(vec![("a", Type::Boolean)]));
}

#[test]
fn ellipsis_must_close_the_signature() {
    let mut tokens = stream_of("a: int, ...)");
    let mut args = FunctionArguments::new();
    assert_eq!(parse_function_signature(&mut tokens, &mut args, None), Ok(()));
    assert!(args.ellipsis_present);
    assert_eq!(tokens.stream_idx(), 6);
    let mut tokens = stream_of("..., a: int)");
    let mut args = FunctionArguments::new();
    assert_eq!(
        parse_function_signature(&mut tokens, &mut args, None),
        Err(ParserError::InvalidFunctionArgumentDefinition)
    );
    assert_eq!(tokens.stream_idx(), 2);
    assert!(args.ellipsis_present);
}

#[test]
fn malformed_arguments() {
    let mut args = FunctionArguments::new();
    let mut tokens = stream_of("a int)");
    assert_eq!(
        parse_function_signature(&mut tokens, &mut args, None),
        Err(ParserError::InvalidFunctionArgumentDefinition)
    );
    assert_eq!(tokens.stream_idx(), 2);
    let mut tokens = stream_of("a: ;)");
    assert_eq!(parse_function_signature(&mut tokens, &mut args, None), Err(ParserError::InvalidArgumentType));
    assert_eq!(tokens.stream_idx(), 3);
    let mut tokens = stream_of("a: array)");
    assert_eq!(
        parse_function_signature(&mut tokens, &mut args, None),
        Err(ParserError::InternalTypetokenNotConvertable)
    );
    assert_eq!(tokens.stream_idx(), 3);
    assert_eq!(args, FunctionArguments::new());
}

#[test]
fn signature_cut_short() {
    let mut tokens = stream_of("a: int");
    let mut args = FunctionArguments::new();
    assert_eq!(parse_function_signature(&mut tokens, &mut args, None), Err(ParserError::EOF));
    assert_eq!(tokens.stream_idx(), 3);
    assert_eq!(args.arguments, arguments(vec![("a", Type::I32)]));
}

#[test]
fn receiver_of_an_implemented_function() {
    let ts = vec![
        tok(Token::This),
        tok(Token::Comma),
        tok(Token::Identifier("x".to_string())),
        tok(Token::Colon),
        tok(Token::TypeDefinition(TypeToken::I32)),
        tok(Token::CloseParentheses),
    ];
    let mut tokens = Stream::new(ts);
    let mut args = FunctionArguments::new();
    assert_eq!(parse_function_signature(&mut tokens, &mut args, Some(Type::String)), Ok(()));
    assert_eq!(tokens.stream_idx(), 6);
    assert_eq!(args.referenced_receiver, Some(Type::String));
    assert_eq!(args.arguments, arguments(vec![("x", Type::I32)]));
}

#[test]
fn receiver_errors() {
    let mut tokens = Stream::new(vec![tok(Token::This), tok(Token::CloseParentheses)]);
    let mut args = FunctionArguments::new();
    assert_eq!(parse_function_signature(&mut tokens, &mut args, None), Err(ParserError::NotImplementingForAny));
    assert_eq!(tokens.stream_idx(), 1);
    let mut tokens = Stream::new(vec![tok(Token::This), tok(Token::Comma), tok(Token::This), tok(Token::CloseParentheses)]);
    assert_eq!(
        parse_function_signature(&mut tokens, &mut args, Some(Type::U8)),
        Err(ParserError::SyntaxError(SyntaxError::ThisRereferenced))
    );
    assert_eq!(tokens.stream_idx(), 3);
    assert_eq!(args.referenced_receiver, Some(Type::U8));
}
