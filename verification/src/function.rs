use vstd::prelude::*;
use crate::errors::{ParserError, SyntaxError};
use crate::parser::closes_with;
use crate::span::Spanned;
use crate::stream::{Stream, Streamable};
use crate::token::{type_of_type_token, MathematicalSymbol, Token, TokenDiscriminants, Type, TypeToken};

verus! {

/// The traits a generic is bound by, each once, in the order they first
/// appear.
#[derive(Debug, PartialEq)]
pub enum TraitBounds {
    End,
    Item(String, Box<TraitBounds>),
}

/// The generics of a function with the traits each is bound by, in the order
/// the generics first appear; a generic named twice keeps its place and
/// takes the later bounds.
#[derive(Debug, PartialEq)]
pub enum Generics {
    End,
    Item(String, TraitBounds, Box<Generics>),
}

/// `bounds` with the trait `name` added at the end, unless it is there.
pub open spec fn bounds_insert(bounds: TraitBounds, name: String) -> TraitBounds
    decreases bounds,
{
    match bounds {
        TraitBounds::End => TraitBounds::Item(name, Box::new(TraitBounds::End)),
        TraitBounds::Item(h, t) => if h@ == name@ {
            TraitBounds::Item(h, t)
        } else {
            TraitBounds::Item(h, Box::new(bounds_insert(*t, name)))
        },
    }
}

/// `generics` with `bounds` for the generic `name`: in place of the bounds
/// of a generic of that name, or added at the end.
pub open spec fn generics_insert(generics: Generics, name: String, bounds: TraitBounds) -> Generics
    decreases generics,
{
    match generics {
        Generics::End => Generics::Item(name, bounds, Box::new(Generics::End)),
        Generics::Item(n, b, t) => if n@ == name@ {
            Generics::Item(n, bounds, t)
        } else {
            Generics::Item(n, b, Box::new(generics_insert(*t, name, bounds)))
        },
    }
}

/// The error for a malformed list of generics.
pub open spec fn generics_syntax_error() -> ParserError {
    ParserError::SyntaxError(SyntaxError::InvalidFunctionGenericsDefinition)
}

/// The trait bounds of one generic, read from position `p` of `ts` after its
/// `:` and added to `acc`: traits joined by `+`, up to a `,` (more generics
/// follow), a `|` (the list ends; the flag is then true) or the end of the
/// tokens. With the position after them.
pub open spec fn spec_bounds(ts: Seq<Spanned<Token>>, p: int, acc: TraitBounds) -> (
    Result<(TraitBounds, bool), ParserError>,
    int,
)
    decreases ts.len() - p,
{
    if !(0 <= p < ts.len()) {
        (Ok((acc, false)), p)
    } else {
        match ts[p].inner {
            Token::Identifier(t) => {
                let b = bounds_insert(acc, t);
                if p + 1 >= ts.len() {
                    (Err(ParserError::EOF), p + 1)
                } else {
                    match ts[p + 1].inner {
                        Token::BitOr => (Ok((b, true)), p + 2),
                        Token::MathSym(MathematicalSymbol::Addition) => spec_bounds(ts, p + 2, b),
                        Token::Comma => (Ok((b, false)), p + 2),
                        _ => (Err(generics_syntax_error()), p + 2),
                    }
                }
            },
            _ => (Err(generics_syntax_error()), p + 1),
        }
    }
}

/// `parse_generics` on the tokens `ts` from position `p`, just after the
/// opening `|`, with the generics read so far in `acc`: each generic is a
/// name, `:` and its trait bounds, and the list ends at a `|` or at the end
/// of the tokens. A generic whose bounds are empty leaves the position just
/// after its name. With the position after the list.
pub open spec fn spec_generics(ts: Seq<Spanned<Token>>, p: int, acc: Generics) -> (Result<Generics, ParserError>, int)
    decreases ts.len() - p,
{
    if !(0 <= p < ts.len()) {
        (Ok(acc), p)
    } else {
        match ts[p].inner {
            Token::Identifier(g) => {
                let (c, is_colon) = closes_with(ts, p + 1, TokenDiscriminants::Colon);
                if !is_colon {
                    (Err(generics_syntax_error()), c)
                } else {
                    let (r, e) = spec_bounds(ts, c, TraitBounds::End);
                    match r {
                        Err(x) => (Err(x), e),
                        Ok((b, closed)) => if closed {
                            (Ok(generics_insert(acc, g, b)), e)
                        } else if b is End {
                            (Err(ParserError::GenericMustHaveAtleastOneTrait), p + 1)
                        } else if e <= p || e > ts.len() {
                            (Err(ParserError::EOF), e)
                        } else {
                            spec_generics(ts, e, generics_insert(acc, g, b))
                        },
                    }
                }
            },
            Token::BitOr => (Ok(acc), p + 1),
            _ => (Err(generics_syntax_error()), p + 1),
        }
    }
}

/// Whether the trait `name` is among `bounds`.
pub open spec fn bounds_has(bounds: TraitBounds, name: Seq<char>) -> bool
    decreases bounds,
{
    match bounds {
        TraitBounds::End => false,
        TraitBounds::Item(h, t) => h@ == name || bounds_has(*t, name),
    }
}

/// Whether no trait occurs twice in `bounds`.
pub open spec fn bounds_distinct(bounds: TraitBounds) -> bool
    decreases bounds,
{
    match bounds {
        TraitBounds::End => true,
        TraitBounds::Item(h, t) => !bounds_has(*t, h@) && bounds_distinct(*t),
    }
}

/// Whether a generic named `name` is among `generics`.
pub open spec fn generics_has(generics: Generics, name: Seq<char>) -> bool
    decreases generics,
{
    match generics {
        Generics::End => false,
        Generics::Item(n, _, t) => n@ == name || generics_has(*t, name),
    }
}

/// Whether `generics` is a map from generics to sets of traits in which
/// every generic is bound by at least one trait: no generic occurs twice,
/// no trait twice in one generic's bounds, and no bounds are empty.
pub open spec fn generics_well_formed(generics: Generics) -> bool
    decreases generics,
{
    match generics {
        Generics::End => true,
        Generics::Item(n, b, t) => {
            &&& !generics_has(*t, n@)
            &&& !(b is End)
            &&& bounds_distinct(b)
            &&& generics_well_formed(*t)
        },
    }
}

proof fn lemma_bounds_has_insert(bounds: TraitBounds, name: String, x: Seq<char>)
    ensures
        bounds_has(bounds_insert(bounds, name), x) == (bounds_has(bounds, x) || x == name@),
    decreases bounds,
{
    if let TraitBounds::Item(h, t) = bounds {
        if h@ != name@ {
            lemma_bounds_has_insert(*t, name, x);
        }
    }
}

proof fn lemma_bounds_insert(bounds: TraitBounds, name: String)
    requires
        bounds_distinct(bounds),
    ensures
        bounds_distinct(bounds_insert(bounds, name)),
        !(bounds_insert(bounds, name) is End),
    decreases bounds,
{
    if let TraitBounds::Item(h, t) = bounds {
        if h@ != name@ {
            lemma_bounds_insert(*t, name);
            lemma_bounds_has_insert(*t, name, h@);
        }
    }
}

proof fn lemma_generics_has_insert(generics: Generics, name: String, bounds: TraitBounds, x: Seq<char>)
    ensures
        generics_has(generics_insert(generics, name, bounds), x) == (generics_has(generics, x) || x == name@),
    decreases generics,
{
    if let Generics::Item(n, b, t) = generics {
        if n@ != name@ {
            lemma_generics_has_insert(*t, name, bounds, x);
        }
    }
}

proof fn lemma_generics_insert(generics: Generics, name: String, bounds: TraitBounds)
    requires
        generics_well_formed(generics),
        !(bounds is End),
        bounds_distinct(bounds),
    ensures
        generics_well_formed(generics_insert(generics, name, bounds)),
    decreases generics,
{
    if let Generics::Item(n, b, t) = generics {
        if n@ != name@ {
            lemma_generics_insert(*t, name, bounds);
            lemma_generics_has_insert(*t, name, bounds, n@);
        }
    }
}

proof fn lemma_bounds_read(ts: Seq<Spanned<Token>>, p: int, acc: TraitBounds)
    requires
        bounds_distinct(acc),
    ensures
        spec_bounds(ts, p, acc).0 matches Ok((b, closed)) ==> bounds_distinct(b) && ((closed || !(acc is End)) ==> !(b is End)),
    decreases ts.len() - p,
{
    if 0 <= p < ts.len() {
        if let Token::Identifier(t) = ts[p].inner {
            lemma_bounds_insert(acc, t);
            if p + 1 < ts.len() {
                lemma_bounds_read(ts, p + 2, bounds_insert(acc, t));
            }
        }
    }
}

proof fn lemma_generics_read(ts: Seq<Spanned<Token>>, p: int, acc: Generics)
    requires
        generics_well_formed(acc),
    ensures
        spec_generics(ts, p, acc).0 matches Ok(g) ==> generics_well_formed(g),
    decreases ts.len() - p,
{
    if 0 <= p < ts.len() {
        if let Token::Identifier(g) = ts[p].inner {
            let (c, is_colon) = closes_with(ts, p + 1, TokenDiscriminants::Colon);
            if is_colon {
                lemma_bounds_read(ts, c, TraitBounds::End);
                let (r, e) = spec_bounds(ts, c, TraitBounds::End);
                if let Ok((b, closed)) = r {
                    if !(b is End) {
                        lemma_generics_insert(acc, g, b);
                        if !closed && e > p && e <= ts.len() {
                            lemma_generics_read(ts, e, generics_insert(acc, g, b));
                        }
                    }
                }
            }
        }
    }
}

/// Generics as read are a map from generic names to non-empty sets of trait
/// names: whatever the tokens, a list that parses names no generic twice,
/// binds each to at least one trait, and names no trait twice for one
/// generic.
pub proof fn law_generics_well_formed(ts: Seq<Spanned<Token>>, p: int)
    ensures
        spec_generics(ts, p, Generics::End).0 matches Ok(g) ==> generics_well_formed(g),
{
    lemma_generics_read(ts, p, Generics::End);
}

/// The arguments of a function by name, each with its type, in the order
/// they first appear.
#[derive(Debug, PartialEq)]
pub enum ArgumentList {
    End,
    Item(String, Type, Box<ArgumentList>),
}

/// What a function takes: its arguments, whether it ends in `...` (for
/// foreign functions), its generics, and the type it is implemented for when
/// it takes `this`.
#[derive(Debug, PartialEq)]
pub struct FunctionArguments {
    pub arguments: ArgumentList,
    pub ellipsis_present: bool,
    pub generics: Generics,
    pub referenced_receiver: Option<Type>,
}

impl FunctionArguments {
    /// No arguments, no `...`, no generics and no receiver.
    pub fn new() -> (r: Self)
        ensures
            r == (FunctionArguments {
                arguments: ArgumentList::End,
                ellipsis_present: false,
                generics: Generics::End,
                referenced_receiver: None,
            }),
    {
        FunctionArguments {
            arguments: ArgumentList::End,
            ellipsis_present: false,
            generics: Generics::End,
            referenced_receiver: None,
        }
    }
}

/// Whether an argument named `name` is in `list`.
pub open spec fn arguments_has(list: ArgumentList, name: Seq<char>) -> bool
    decreases list,
{
    match list {
        ArgumentList::End => false,
        ArgumentList::Item(n, _, t) => n@ == name || arguments_has(*t, name),
    }
}

/// `list` with the argument `name` of type `ty`: in place of the type of an
/// argument of that name, or added at the end.
pub open spec fn arguments_insert(list: ArgumentList, name: String, ty: Type) -> ArgumentList
    decreases list,
{
    match list {
        ArgumentList::End => ArgumentList::Item(name, ty, Box::new(ArgumentList::End)),
        ArgumentList::Item(n, t, rest) => if n@ == name@ {
            ArgumentList::Item(n, ty, rest)
        } else {
            ArgumentList::Item(n, t, Box::new(arguments_insert(*rest, name, ty)))
        },
    }
}

/// The type an argument's type token names: a type word, or a name to be
/// resolved later.
pub open spec fn argument_type(t: Token) -> Result<Type, ParserError> {
    match t {
        Token::Identifier(name) => Ok(Type::Unresolved(name)),
        Token::TypeDefinition(tt) => match type_of_type_token(tt) {
            Some(ty) => Ok(ty),
            None => Err(ParserError::InternalTypetokenNotConvertable),
        },
        _ => Err(ParserError::InvalidArgumentType),
    }
}

/// The error for a malformed argument list.
pub open spec fn argument_error() -> ParserError {
    ParserError::InvalidFunctionArgumentDefinition
}

/// `args` with `arguments` in place of its arguments.
pub open spec fn with_arguments(args: FunctionArguments, arguments: ArgumentList) -> FunctionArguments {
    FunctionArguments {
        arguments,
        ellipsis_present: args.ellipsis_present,
        generics: args.generics,
        referenced_receiver: args.referenced_receiver,
    }
}

/// `args` with `receiver` as the type it is implemented for.
pub open spec fn with_receiver(args: FunctionArguments, receiver: Option<Type>) -> FunctionArguments {
    FunctionArguments {
        arguments: args.arguments,
        ellipsis_present: args.ellipsis_present,
        generics: args.generics,
        referenced_receiver: receiver,
    }
}

/// `args` with `...` present.
pub open spec fn with_ellipsis(args: FunctionArguments) -> FunctionArguments {
    FunctionArguments {
        arguments: args.arguments,
        ellipsis_present: true,
        generics: args.generics,
        referenced_receiver: args.referenced_receiver,
    }
}

/// What follows an argument at `q`: `,` and more arguments, or `)`.
pub open spec fn spec_after_argument(ts: Seq<Spanned<Token>>, q: int, args: FunctionArguments, imp: Option<Type>) -> (
    Result<(), ParserError>,
    int,
    FunctionArguments,
)
    decreases ts.len() - q, 0int,
{
    if !(0 <= q < ts.len()) {
        (Err(ParserError::EOF), q, args)
    } else {
        match ts[q].inner {
            Token::Comma => spec_signature(ts, q + 1, args, imp),
            Token::CloseParentheses => (Ok(()), q + 1, args),
            _ => (Err(argument_error()), q + 1, args),
        }
    }
}

/// `parse_function_signature` on the tokens `ts` from position `p`, just
/// after the opening `(`, with the arguments read so far in `args` and `imp`
/// the type the function is implemented for: arguments `<name> ":" <type>`,
/// `this` (once, and only for a function implemented for a type) and a
/// closing `...`, separated by `,`, up to the `)`. What was read before an
/// error stays in the arguments. The result, the position after the list and
/// the arguments.
pub open spec fn spec_signature(ts: Seq<Spanned<Token>>, p: int, args: FunctionArguments, imp: Option<Type>) -> (
    Result<(), ParserError>,
    int,
    FunctionArguments,
)
    decreases ts.len() - p, 1int,
{
    if !(0 <= p < ts.len()) {
        (Ok(()), p, args)
    } else {
        match ts[p].inner {
            Token::Identifier(a) => {
                let (c, colon) = closes_with(ts, p + 1, TokenDiscriminants::Colon);
                if !colon {
                    (Err(argument_error()), c, args)
                } else if c >= ts.len() {
                    (Err(ParserError::EOF), c, args)
                } else {
                    match argument_type(ts[c].inner) {
                        Err(e) => (Err(e), c + 1, args),
                        Ok(t) => {
                            let next = with_arguments(args, arguments_insert(args.arguments, a, t));
                            if arguments_has(args.arguments, a@) {
                                (Err(ParserError::DuplicateArguments(a)), c + 1, next)
                            } else {
                                spec_after_argument(ts, c + 1, next, imp)
                            }
                        },
                    }
                }
            },
            Token::This => if imp is None {
                (Err(ParserError::NotImplementingForAny), p + 1, args)
            } else if args.referenced_receiver is Some {
                (Err(ParserError::SyntaxError(SyntaxError::ThisRereferenced)), p + 1, args)
            } else {
                spec_after_argument(ts, p + 1, with_receiver(args, imp), imp)
            },
            Token::Ellipsis => {
                let next = with_ellipsis(args);
                if p + 1 >= ts.len() {
                    (Err(ParserError::EOF), p + 1, next)
                } else if ts[p + 1].inner is CloseParentheses {
                    (Ok(()), p + 2, next)
                } else {
                    (Err(argument_error()), p + 2, next)
                }
            },
            Token::CloseParentheses => (Ok(()), p + 1, args),
            _ => (Err(argument_error()), p + 1, args),
        }
    }
}

/// Each type word names its type: the integer, float, string, boolean, void
/// and pointer words the type of the same name; `enum`, `array`, `struct`
/// and `function` need more than the word and name none alone.
pub proof fn law_type_words()
    ensures
        type_of_type_token(TypeToken::I64) == Some(Type::I64),
        type_of_type_token(TypeToken::F64) == Some(Type::F64),
        type_of_type_token(TypeToken::U64) == Some(Type::U64),
        type_of_type_token(TypeToken::I32) == Some(Type::I32),
        type_of_type_token(TypeToken::F32) == Some(Type::F32),
        type_of_type_token(TypeToken::U32) == Some(Type::U32),
        type_of_type_token(TypeToken::I16) == Some(Type::I16),
        type_of_type_token(TypeToken::F16) == Some(Type::F16),
        type_of_type_token(TypeToken::U16) == Some(Type::U16),
        type_of_type_token(TypeToken::U8) == Some(Type::U8),
        type_of_type_token(TypeToken::String) == Some(Type::String),
        type_of_type_token(TypeToken::Boolean) == Some(Type::Boolean),
        type_of_type_token(TypeToken::Void) == Some(Type::Void),
        type_of_type_token(TypeToken::Pointer) == Some(Type::Pointer(None)),
        type_of_type_token(TypeToken::Enum) is None,
        type_of_type_token(TypeToken::Array) is None,
        type_of_type_token(TypeToken::Struct) is None,
        type_of_type_token(TypeToken::Function) is None,
{
}

/// An argument `<name> ":" <type>` gets the type its type token names: the
/// type a type word names, or, for a name, that name unresolved; it is added
/// to the arguments read so far (a new name at the end, a name read before
/// in place, which is an error), and parsing goes on after it.
pub proof fn law_argument_types(ts: Seq<Spanned<Token>>, p: int, args: FunctionArguments, imp: Option<Type>)
    requires
        0 <= p,
        p + 2 < ts.len(),
        ts[p].inner is Identifier,
        ts[p + 1].inner is Colon,
    ensures
        ({
            let a = ts[p].inner->Identifier_0;
            let after = |t: Type| {
                let next = with_arguments(args, arguments_insert(args.arguments, a, t));
                if arguments_has(args.arguments, a@) {
                    (Err(ParserError::DuplicateArguments(a)), p + 3, next)
                } else {
                    spec_after_argument(ts, p + 3, next, imp)
                }
            };
            &&& ts[p + 2].inner matches Token::TypeDefinition(tt) ==> (match type_of_type_token(tt) {
                Some(t) => spec_signature(ts, p, args, imp) == after(t),
                None => spec_signature(ts, p, args, imp) == (
                    Err::<(), ParserError>(ParserError::InternalTypetokenNotConvertable),
                    p + 3,
                    args,
                ),
            })
            &&& ts[p + 2].inner matches Token::Identifier(n) ==> spec_signature(ts, p, args, imp) == after(Type::Unresolved(n))
            &&& !(ts[p + 2].inner is TypeDefinition || ts[p + 2].inner is Identifier) ==> spec_signature(ts, p, args, imp) == (
                Err::<(), ParserError>(ParserError::InvalidArgumentType),
                p + 3,
                args,
            )
        }),
{
}

/// An argument is added under its name with its type: after it, the
/// arguments hold that name with that type.
pub proof fn law_inserted_argument(list: ArgumentList, name: String, ty: Type)
    ensures
        arguments_has(arguments_insert(list, name, ty), name@),
        argument_type_in(arguments_insert(list, name, ty), name@) == Some(ty),
    decreases list,
{
    if let ArgumentList::Item(n, t, rest) = list {
        if n@ != name@ {
            law_inserted_argument(*rest, name, ty);
        }
    }
}

/// The type of the first argument named `name` in `list`.
pub open spec fn argument_type_in(list: ArgumentList, name: Seq<char>) -> Option<Type>
    decreases list,
{
    match list {
        ArgumentList::End => None,
        ArgumentList::Item(n, t, rest) => if n@ == name {
            Some(t)
        } else {
            argument_type_in(*rest, name)
        },
    }
}

fn insert_bound(bounds: TraitBounds, name: String) -> (r: TraitBounds)
    ensures
        r == bounds_insert(bounds, name),
    decreases bounds,
{
    match bounds {
        TraitBounds::End => TraitBounds::Item(name, Box::new(TraitBounds::End)),
        TraitBounds::Item(h, t) => if h == name {
            TraitBounds::Item(h, t)
        } else {
            TraitBounds::Item(h, Box::new(insert_bound(*t, name)))
        },
    }
}

fn insert_generic(generics: Generics, name: String, bounds: TraitBounds) -> (r: Generics)
    ensures
        r == generics_insert(generics, name, bounds),
    decreases generics,
{
    match generics {
        Generics::End => Generics::Item(name, bounds, Box::new(Generics::End)),
        Generics::Item(n, b, t) => if n == name {
            Generics::Item(n, bounds, t)
        } else {
            Generics::Item(n, b, Box::new(insert_generic(*t, name, bounds)))
        },
    }
}

fn bounds_at(ts: &[Spanned<Token>], p: usize, acc: TraitBounds) -> (r: (Result<(TraitBounds, bool), ParserError>, usize))
    requires
        p <= ts@.len(),
    ensures
        r.0 == spec_bounds(ts@, p as int, acc).0,
        r.1 == spec_bounds(ts@, p as int, acc).1,
        p <= r.1 <= ts@.len(),
    decreases ts@.len() - p,
{
    if p >= ts.len() {
        return (Ok((acc, false)), p);
    }
    match &ts[p].inner {
        Token::Identifier(t) => {
            let b = insert_bound(acc, t.clone());
            if p + 1 >= ts.len() {
                return (Err(ParserError::EOF), p + 1);
            }
            match &ts[p + 1].inner {
                Token::BitOr => (Ok((b, true)), p + 2),
                Token::MathSym(MathematicalSymbol::Addition) => bounds_at(ts, p + 2, b),
                Token::Comma => (Ok((b, false)), p + 2),
                _ => (Err(ParserError::SyntaxError(SyntaxError::InvalidFunctionGenericsDefinition)), p + 2),
            }
        },
        _ => (Err(ParserError::SyntaxError(SyntaxError::InvalidFunctionGenericsDefinition)), p + 1),
    }
}

fn generics_at(ts: &[Spanned<Token>], p: usize, acc: Generics) -> (r: (Result<Generics, ParserError>, usize))
    requires
        p <= ts@.len(),
    ensures
        r.0 == spec_generics(ts@, p as int, acc).0,
        r.1 == spec_generics(ts@, p as int, acc).1,
        p <= r.1 <= ts@.len(),
    decreases ts@.len() - p,
{
    if p >= ts.len() {
        return (Ok(acc), p);
    }
    match &ts[p].inner {
        Token::Identifier(g) => {
            let q = p + 1;
            if q >= ts.len() {
                return (Err(ParserError::SyntaxError(SyntaxError::InvalidFunctionGenericsDefinition)), q);
            }
            if !ts[q].inner.is_kind(&TokenDiscriminants::Colon) {
                return (Err(ParserError::SyntaxError(SyntaxError::InvalidFunctionGenericsDefinition)), q + 1);
            }
            let (r, e) = bounds_at(ts, q + 1, TraitBounds::End);
            match r {
                Err(x) => (Err(x), e),
                Ok((b, closed)) => {
                    if closed {
                        (Ok(insert_generic(acc, g.clone(), b)), e)
                    } else if matches!(b, TraitBounds::End) {
                        (Err(ParserError::GenericMustHaveAtleastOneTrait), q)
                    } else {
                        generics_at(ts, e, insert_generic(acc, g.clone(), b))
                    }
                },
            }
        },
        Token::BitOr => (Ok(acc), p + 1),
        _ => (Err(ParserError::SyntaxError(SyntaxError::InvalidFunctionGenericsDefinition)), p + 1),
    }
}

/// Parses the generics of a function, from just after the opening `|`: each
/// is `<generic> ":" <trait> {"+" <trait>}`, separated by `,`, up to the
/// closing `|`. A generic must be bound by at least one trait; when it is
/// not, the cursor is left just after the generic's name.
pub fn parse_generics(tokens: &mut Stream<Spanned<Token>>) -> (r: Result<Generics, ParserError>)
    requires
        old(tokens).spec_valid(),
    ensures
        final(tokens).spec_valid(),
        final(tokens).spec_items() == old(tokens).spec_items(),
        r == spec_generics(old(tokens).spec_items(), old(tokens).spec_cursor(), Generics::End).0,
        final(tokens).spec_cursor() == spec_generics(old(tokens).spec_items(), old(tokens).spec_cursor(), Generics::End).1,
        r matches Ok(g) ==> generics_well_formed(g),
{
    proof {
        law_generics_well_formed(old(tokens).spec_items(), old(tokens).spec_cursor());
    }
    let p = tokens.stream_idx();
    let len = Stream::len(tokens);
    if p > len {
        return Ok(Generics::End);
    }
    let (r, e) = generics_at(tokens.items(), p, Generics::End);
    tokens.set_cursor(e);
    r
}

fn insert_argument_type(list: ArgumentList, name: String, ty: Type) -> (r: ArgumentList)
    ensures
        r == arguments_insert(list, name, ty),
    decreases list,
{
    match list {
        ArgumentList::End => ArgumentList::Item(name, ty, Box::new(ArgumentList::End)),
        ArgumentList::Item(n, t, rest) => if n == name {
            ArgumentList::Item(n, ty, rest)
        } else {
            ArgumentList::Item(n, t, Box::new(insert_argument_type(*rest, name, ty)))
        },
    }
}

fn has_argument(list: &ArgumentList, name: &String) -> (r: bool)
    ensures
        r == arguments_has(*list, name@),
    decreases list,
{
    match list {
        ArgumentList::End => false,
        ArgumentList::Item(n, _, rest) => *n == *name || has_argument(rest, name),
    }
}

fn argument_type_of(t: &Token) -> (r: Result<Type, ParserError>)
    ensures
        r == argument_type(*t),
{
    match t {
        Token::Identifier(name) => Ok(Type::Unresolved(name.clone())),
        Token::TypeDefinition(tt) => match tt.try_into_type() {
            Ok(ty) => Ok(ty),
            Err(_) => Err(ParserError::InternalTypetokenNotConvertable),
        },
        _ => Err(ParserError::InvalidArgumentType),
    }
}

fn clone_receiver(imp: &Option<Type>) -> (r: Option<Type>)
    ensures
        r == *imp,
{
    match imp {
        Some(t) => Some(t.clone()),
        None => None,
    }
}

fn after_argument_at(ts: &[Spanned<Token>], q: usize, args: FunctionArguments, imp: &Option<Type>) -> (r: (
    Result<(), ParserError>,
    usize,
    FunctionArguments,
))
    requires
        q <= ts@.len(),
    ensures
        r.0 == spec_after_argument(ts@, q as int, args, *imp).0,
        r.1 == spec_after_argument(ts@, q as int, args, *imp).1,
        r.2 == spec_after_argument(ts@, q as int, args, *imp).2,
        q <= r.1 <= ts@.len(),
    decreases ts@.len() - q, 0int,
{
    if q >= ts.len() {
        return (Err(ParserError::EOF), q, args);
    }
    match &ts[q].inner {
        Token::Comma => signature_at(ts, q + 1, args, imp),
        Token::CloseParentheses => (Ok(()), q + 1, args),
        _ => (Err(ParserError::InvalidFunctionArgumentDefinition), q + 1, args),
    }
}

fn signature_at(ts: &[Spanned<Token>], p: usize, args: FunctionArguments, imp: &Option<Type>) -> (r: (
    Result<(), ParserError>,
    usize,
    FunctionArguments,
))
    requires
        p <= ts@.len(),
    ensures
        r.0 == spec_signature(ts@, p as int, args, *imp).0,
        r.1 == spec_signature(ts@, p as int, args, *imp).1,
        r.2 == spec_signature(ts@, p as int, args, *imp).2,
        p <= r.1 <= ts@.len(),
    decreases ts@.len() - p, 1int,
{
    if p >= ts.len() {
        return (Ok(()), p, args);
    }
    match &ts[p].inner {
        Token::Identifier(a) => {
            let c = p + 1;
            if c >= ts.len() {
                return (Err(ParserError::InvalidFunctionArgumentDefinition), c, args);
            }
            if !ts[c].inner.is_kind(&TokenDiscriminants::Colon) {
                return (Err(ParserError::InvalidFunctionArgumentDefinition), c + 1, args);
            }
            let c = c + 1;
            if c >= ts.len() {
                return (Err(ParserError::EOF), c, args);
            }
            match argument_type_of(&ts[c].inner) {
                Err(e) => (Err(e), c + 1, args),
                Ok(t) => {
                    let taken = has_argument(&args.arguments, a);
                    let FunctionArguments { arguments, ellipsis_present, generics, referenced_receiver } = args;
                    let next = FunctionArguments {
                        arguments: insert_argument_type(arguments, a.clone(), t),
                        ellipsis_present,
                        generics,
                        referenced_receiver,
                    };
                    if taken {
                        (Err(ParserError::DuplicateArguments(a.clone())), c + 1, next)
                    } else {
                        after_argument_at(ts, c + 1, next, imp)
                    }
                },
            }
        },
        Token::This => {
            if imp.is_none() {
                return (Err(ParserError::NotImplementingForAny), p + 1, args);
            }
            if args.referenced_receiver.is_some() {
                return (Err(ParserError::SyntaxError(SyntaxError::ThisRereferenced)), p + 1, args);
            }
            let FunctionArguments { arguments, ellipsis_present, generics, referenced_receiver: _ } = args;
            let next = FunctionArguments { arguments, ellipsis_present, generics, referenced_receiver: clone_receiver(imp) };
            after_argument_at(ts, p + 1, next, imp)
        },
        Token::Ellipsis => {
            let FunctionArguments { arguments, ellipsis_present: _, generics, referenced_receiver } = args;
            let next = FunctionArguments { arguments, ellipsis_present: true, generics, referenced_receiver };
            if p + 1 >= ts.len() {
                (Err(ParserError::EOF), p + 1, next)
            } else if ts[p + 1].inner.is_kind(&TokenDiscriminants::CloseParentheses) {
                (Ok(()), p + 2, next)
            } else {
                (Err(ParserError::InvalidFunctionArgumentDefinition), p + 2, next)
            }
        },
        Token::CloseParentheses => (Ok(()), p + 1, args),
        _ => (Err(ParserError::InvalidFunctionArgumentDefinition), p + 1, args),
    }
}

/// Parses the arguments of a function's signature into `function_args`,
/// from just after the opening `(` up to the closing `)`: arguments
/// `<name> ":" <type>`, where the type is a type word or a name resolved
/// later, `this` for a function implemented for `implementing_for_type`,
/// and a closing `...`. An argument named twice, `this` twice or without a
/// type to implement for, and `...` before the end are errors; what was read
/// before an error stays in `function_args`.
pub fn parse_function_signature(
    tokens: &mut Stream<Spanned<Token>>,
    function_args: &mut FunctionArguments,
    implementing_for_type: Option<Type>,
) -> (r: Result<(), ParserError>)
    requires
        old(tokens).spec_valid(),
    ensures
        final(tokens).spec_valid(),
        final(tokens).spec_items() == old(tokens).spec_items(),
        r == spec_signature(old(tokens).spec_items(), old(tokens).spec_cursor(), *old(function_args), implementing_for_type).0,
        final(tokens).spec_cursor() == spec_signature(
            old(tokens).spec_items(),
            old(tokens).spec_cursor(),
            *old(function_args),
            implementing_for_type,
        ).1,
        *final(function_args) == spec_signature(
            old(tokens).spec_items(),
            old(tokens).spec_cursor(),
            *old(function_args),
            implementing_for_type,
        ).2,
{
    let p = tokens.stream_idx();
    let len = Stream::len(tokens);
    if p > len {
        return Ok(());
    }
    let mut args = FunctionArguments::new();
    std::mem::swap(&mut args, function_args);
    let (r, e, out) = signature_at(tokens.items(), p, args, &implementing_for_type);
    *function_args = out;
    tokens.set_cursor(e);
    r
}

} // verus!
