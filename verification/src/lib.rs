//! Parts of the Fog language toolchain: source positions and spans, the
//! tokenizer, the token stream a parser reads through, the expression parser,
//! the parsers of a function's generics, of its argument list and of import
//! statements, and the small helpers a parser relies on.

pub mod span;
pub mod token;
pub mod errors;
pub mod lexer;
pub mod keywords;
pub mod stream;
pub mod delimiters;
pub mod patterns;
pub mod numeric;
pub mod config;
pub mod dependency;
pub mod distributed;
pub mod dependency_manager;
pub mod variable;
pub mod imports;
pub mod linker;
pub mod cli;
pub mod codegen;
pub mod analysis;
pub mod requester;
pub mod list_manager;
pub mod report;
pub mod instructions;
pub mod parser;
pub mod function;
pub mod import;
