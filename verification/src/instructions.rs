use vstd::prelude::*;
use indexmap::IndexSet;
use crate::errors::{ParserError, SyntaxError};
use crate::span::Spanned;
use crate::stream::{Stream, Streamable};
use crate::token::{CompilerInstruction, CompilerInstructionDiscriminants, Token, TokenDiscriminants, Value};

verus! {

#[verifier::external_type_specification]
#[verifier::external_body]
#[verifier::reject_recursive_types(T)]
#[verifier::reject_recursive_types(S)]
pub struct ExIndexSet<T, S>(IndexSet<T, S>);

/// What tells compiler instructions apart: the kind and, for a feature, the
/// feature's name.
pub open spec fn instruction_key(c: CompilerInstruction) -> (CompilerInstructionDiscriminants, Seq<char>) {
    match c {
        CompilerInstruction::Feature(name) => (CompilerInstructionDiscriminants::Feature, name@),
        _ => (c.spec_discriminant(), Seq::empty()),
    }
}

/// The instructions a set holds, by their keys, in the order they were
/// inserted.
pub uninterp spec fn instruction_set_items(s: IndexSet<CompilerInstruction>) -> Seq<
    (CompilerInstructionDiscriminants, Seq<char>),
>;

/// The items after inserting `key`: unchanged if it is there already,
/// otherwise with `key` added at the end.
pub open spec fn inserted(
    items: Seq<(CompilerInstructionDiscriminants, Seq<char>)>,
    key: (CompilerInstructionDiscriminants, Seq<char>),
) -> Seq<(CompilerInstructionDiscriminants, Seq<char>)> {
    if items.contains(key) {
        items
    } else {
        items.push(key)
    }
}

/// Inserts a compiler instruction into a set.
///
/// Trusted: `IndexSet::insert` leaves the set as it is and returns `false`
/// when an equal item is there already, and otherwise adds the item after the
/// others and returns `true`. Compiler instructions are equal (by their
/// derived `PartialEq`, with which their derived `Hash` agrees) when they are
/// of the same kind and, for features, name the same feature.
#[verifier::external_body]
fn insert_instruction(set: &mut IndexSet<CompilerInstruction>, value: CompilerInstruction) -> (r: bool)
    ensures
        r == !instruction_set_items(*old(set)).contains(instruction_key(value)),
        instruction_set_items(*final(set)) == inserted(instruction_set_items(*old(set)), instruction_key(value)),
{
    set.insert(value)
}

/// The feature name a token gives: the text of a string literal.
pub open spec fn feature_name(t: Token) -> Option<Seq<char>> {
    match t {
        Token::Literal(Value::String(s)) => Some(s@),
        _ => None,
    }
}

/// Parses the compiler instruction that follows a `@` and adds it to
/// `instr_buf`.
///
/// The token at the cursor must be a compiler instruction; a `feature` must be
/// followed by a string literal naming the feature. Both tokens are consumed
/// even when they are not what is expected.
pub fn parse_compiler_instruction(
    instr_buf: &mut IndexSet<CompilerInstruction>,
    tokens: &mut Stream<Spanned<Token>>,
) -> (r: Result<(), ParserError>)
    requires
        old(tokens).spec_valid(),
    ensures
        final(tokens).spec_valid(),
        final(tokens).spec_items() == old(tokens).spec_items(),
        ({
            let items = old(tokens).spec_items();
            let c = old(tokens).spec_cursor();
            let set0 = instruction_set_items(*old(instr_buf));
            let set1 = instruction_set_items(*final(instr_buf));
            if !(0 <= c < items.len()) {
                &&& r == Err::<(), ParserError>(
                    ParserError::SyntaxError(SyntaxError::CompilerInstructionRequiredAfterSymbol),
                )
                &&& final(tokens).spec_cursor() == c
                &&& set1 == set0
            } else {
                match items[c].spec_inner() {
                    Token::CompilerInstruction(CompilerInstructionDiscriminants::Feature) => {
                        if c + 1 < items.len() && feature_name(items[c + 1].spec_inner()) is Some {
                            &&& r is Ok
                            &&& final(tokens).spec_cursor() == c + 2
                            &&& set1 == inserted(
                                set0,
                                (
                                    CompilerInstructionDiscriminants::Feature,
                                    feature_name(items[c + 1].spec_inner())->0,
                                ),
                            )
                        } else {
                            &&& r == Err::<(), ParserError>(ParserError::InvalidFunctionFeature(None))
                            &&& final(tokens).spec_cursor() == if c + 1 < items.len() {
                                c + 2
                            } else {
                                c + 1
                            }
                            &&& set1 == set0
                        }
                    },
                    Token::CompilerInstruction(kind) => {
                        &&& r is Ok
                        &&& final(tokens).spec_cursor() == c + 1
                        &&& set1 == inserted(set0, (kind, Seq::empty()))
                    },
                    _ => {
                        &&& r == Err::<(), ParserError>(
                            ParserError::SyntaxError(SyntaxError::CompilerInstructionRequiredAfterSymbol),
                        )
                        &&& final(tokens).spec_cursor() == c + 1
                        &&& set1 == set0
                    },
                }
            }
        }),
{
    let kind = match tokens.consume() {
        Some(tkn) => match tkn.inner() {
            Token::CompilerInstruction(instr) => *instr,
            _ => {
                return Err(ParserError::SyntaxError(SyntaxError::CompilerInstructionRequiredAfterSymbol));
            },
        },
        None => {
            return Err(ParserError::SyntaxError(SyntaxError::CompilerInstructionRequiredAfterSymbol));
        },
    };
    if kind == CompilerInstructionDiscriminants::Feature {
        let name = match tokens.try_consume_match(
            ParserError::InvalidFunctionFeature(None),
            &TokenDiscriminants::Literal,
        ) {
            Ok(t) => match t.inner() {
                Token::Literal(Value::String(s)) => s.clone(),
                _ => {
                    return Err(ParserError::InvalidFunctionFeature(None));
                },
            },
            Err(e) => {
                return Err(e);
            },
        };
        insert_instruction(instr_buf, CompilerInstruction::Feature(name));
    } else {
        let instr = CompilerInstruction::from_discriminant(kind);
        insert_instruction(instr_buf, instr);
    }
    Ok(())
}

/// Adding an instruction that is already there changes nothing, so adding
/// the same instruction twice is the same as adding it once.
pub proof fn law_insert_idempotent(
    items: Seq<(CompilerInstructionDiscriminants, Seq<char>)>,
    key: (CompilerInstructionDiscriminants, Seq<char>),
)
    ensures
        inserted(inserted(items, key), key) == inserted(items, key),
        inserted(items, key).contains(key),
{
    if !items.contains(key) {
        assert(items.push(key)[items.len() as int] == key);
    }
}

/// A set of instructions never holds the same instruction twice: adding one
/// keeps the items free of repeats, and keeps those already there, in order.
pub proof fn law_insert_keeps_items_distinct(
    items: Seq<(CompilerInstructionDiscriminants, Seq<char>)>,
    key: (CompilerInstructionDiscriminants, Seq<char>),
)
    requires
        items.no_duplicates(),
    ensures
        inserted(items, key).no_duplicates(),
        inserted(items, key).take(items.len() as int) == items,
{
    assert(inserted(items, key).take(items.len() as int) =~= items);
}

} // verus!
