use fog::errors::{ParserError, SyntaxError};
use fog::import::{parse_import_statement, parse_import_statement_with};
use fog::imports::ImportType;
use fog::lexer::tokenize;
use fog::span::Spanned;
use fog::stream::{Stream, Streamable};
use fog::token::Token;

fn stream_of(src: &str) -> Stream<Spanned<Token>> {
    Stream::new(tokenize(src).unwrap())
}

fn chain_of(import: &ImportType) -> Vec<String> {
    match import {
        ImportType::Dependency(chain) => chain.clone(),
        other => panic!("not a module path: {:?}", other),
    }
}

fn path_of(import: &ImportType) -> String {
    match import {
        ImportType::Path(path) => path.clone(),
        other => panic!("not a path: {:?}", other),
    }
}

fn strings(items: &[&str]) -> Vec<String> {
    items.iter().map(|s| s.to_string()).collect()
}

#[test]
fn module_path_is_stored_under_its_last_name() {
    let mut tokens = stream_of("foo::bar::baz");
    let mut imports = Vec::new();
    assert_eq!(parse_import_statement(&mut tokens, &mut imports), Ok(()));
    assert_eq!(tokens.stream_idx(), 5);
    assert_eq!(imports.len(), 1);
    assert_eq!(imports[0].0, "baz");
    assert_eq!(chain_of(&imports[0].1), strings(&["foo", "bar", "baz"]));
}

#[test]
fn aliased_module_path() {
    let mut tokens = stream_of("foo::bar as hello");
    let mut imports = Vec::new();
    assert_eq!(parse_import_statement(&mut tokens, &mut imports), Ok(()));
    assert_eq!(tokens.stream_idx(), 5);
    assert_eq!(imports[0].0, "hello");
    assert_eq!(chain_of(&imports[0].1), strings(&["foo", "bar"]));
}

#[test]
fn path_is_stored_under_its_file_name() {
    let mut tokens = stream_of("\"libs/foo.f\"");
    let mut imports = Vec::new();
    assert_eq!(parse_import_statement(&mut tokens, &mut imports), Ok(()));
    assert_eq!(tokens.stream_idx(), 1);
    assert_eq!(imports[0].0, "foo");
    assert_eq!(path_of(&imports[0].1), "libs/foo.f");
}

#[test]
fn aliased_path() {
    let mut tokens = stream_of("\"foo.f\" as lib");
    let mut imports = Vec::new();
    assert_eq!(parse_import_statement(&mut tokens, &mut imports), Ok(()));
    assert_eq!(imports[0].0, "lib");
    assert_eq!(path_of(&imports[0].1), "foo.f");
}

#[test]
fn path_without_file_name() {
    let mut tokens = stream_of("\"..\"");
    let mut imports = Vec::new();
    assert_eq!(parse_import_statement(&mut tokens, &mut imports), Err(ParserError::InvalidImportPath));
    assert_eq!(tokens.stream_idx(), 1);
    assert!(imports.is_empty());
}

#[test]
fn given_file_name_is_used_for_a_path() {
    let mut tokens = stream_of("\"a/b.f\"");
    let mut imports = Vec::new();
    assert_eq!(parse_import_statement_with(&mut tokens, &mut imports, Some("named".to_string())), Ok(()));
    assert_eq!(imports[0].0, "named");
    let mut tokens = stream_of("\"a/b.f\"");
    assert_eq!(parse_import_statement_with(&mut tokens, &mut imports, None), Err(ParserError::InvalidImportPath));
    assert_eq!(imports.len(), 1);
}

#[test]
fn taken_name_is_reported_and_replaced() {
    let mut imports = vec![("baz".to_string(), ImportType::Path("x.f".to_string())), ("y".to_string(), ImportType::Path("y.f".to_string()))];
    let mut tokens = stream_of("a::baz");
    assert_eq!(
        parse_import_statement(&mut tokens, &mut imports),
        Err(ParserError::ImportNameCollision("baz".to_string()))
    );
    assert_eq!(imports.len(), 2);
    assert_eq!(imports[0].0, "baz");
    assert_eq!(chain_of(&imports[0].1), strings(&["a", "baz"]));
    assert_eq!(path_of(&imports[1].1), "y.f");
}

#[test]
fn alias_must_be_a_single_name_at_the_end() {
    let mut imports = Vec::new();
    let mut tokens = stream_of("foo as");
    assert_eq!(parse_import_statement(&mut tokens, &mut imports), Err(ParserError::InvalidImportAlias));
    assert_eq!(tokens.stream_idx(), 2);
    let mut tokens = stream_of("foo as bar baz");
    assert_eq!(parse_import_statement(&mut tokens, &mut imports), Err(ParserError::InvalidImportAlias));
    assert_eq!(tokens.stream_idx(), 3);
    assert!(imports.is_empty());
}

#[test]
fn malformed_module_paths() {
    let mut imports = Vec::new();
    let mut tokens = stream_of("foo::");
    assert_eq!(
        parse_import_statement(&mut tokens, &mut imports),
        Err(ParserError::SyntaxError(SyntaxError::InvalidImportDefinition))
    );
    assert_eq!(tokens.stream_idx(), 2);
    let mut tokens = stream_of("foo bar");
    assert_eq!(
        parse_import_statement(&mut tokens, &mut imports),
        Err(ParserError::SyntaxError(SyntaxError::InvalidImportDefinition))
    );
    assert_eq!(tokens.stream_idx(), 2);
    let mut tokens = stream_of("; foo");
    assert_eq!(
        parse_import_statement(&mut tokens, &mut imports),
        Err(ParserError::SyntaxError(SyntaxError::InvalidImportDefinition))
    );
    assert_eq!(tokens.stream_idx(), 1);
    assert!(imports.is_empty());
}

#[test]
fn nothing_to_import() {
    let mut imports = Vec::new();
    let mut tokens = stream_of("");
    assert_eq!(parse_import_statement(&mut tokens, &mut imports), Err(ParserError::EOF));
    assert_eq!(tokens.stream_idx(), 0);
}
