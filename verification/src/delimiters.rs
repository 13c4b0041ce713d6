use vstd::prelude::*;
use crate::errors::{ParserError, SyntaxError};
use crate::span::Spanned;
use crate::stream::{Matches, StreamChild, Streamable};
use crate::token::{token_kind, Token, TokenDiscriminants};

verus! {

/// The nesting level after the first `n` tokens of `ts`, starting from
/// `start`: each `open` token adds one, each `close` token takes one away.
pub open spec fn level_after(
    ts: Seq<Token>,
    n: int,
    start: int,
    open: TokenDiscriminants,
    close: TokenDiscriminants,
) -> int
    decreases n,
{
    if n <= 0 {
        start
    } else {
        level_after(ts, n - 1, start, open, close) + if token_kind(ts[n - 1]) == open {
            1int
        } else if token_kind(ts[n - 1]) == close {
            -1int
        } else {
            0int
        }
    }
}

/// The tokens of a sequence of spanned tokens.
pub open spec fn inners(ts: Seq<Spanned<Token>>) -> Seq<Token> {
    ts.map_values(|t: Spanned<Token>| t.spec_inner())
}

/// Whether position `i` of `ts` closes the group opened just before `ts`:
/// the level, starting at 1, first drops to 0 after token `i`.
pub open spec fn closes_at(ts: Seq<Token>, i: int, open: TokenDiscriminants, close: TokenDiscriminants) -> bool {
    &&& 0 <= i < ts.len()
    &&& level_after(ts, i + 1, 1, open, close) == 0
    &&& forall|j: int| 0 <= j <= i ==> #[trigger] level_after(ts, j, 1, open, close) > 0
}

/// Whether no position of `ts` closes the group opened just before it.
pub open spec fn never_closes(ts: Seq<Token>, open: TokenDiscriminants, close: TokenDiscriminants) -> bool {
    forall|j: int| 0 <= j <= ts.len() ==> #[trigger] level_after(ts, j, 1, open, close) > 0
}

/// The position, counted from the cursor, of the token that closes a group
/// opened just before the cursor (by an `open` token), if the rest of the
/// stream has one; nested groups are skipped.
fn find_closing<S: Streamable<Spanned<Token>>>(
    tokens: &S,
    open: TokenDiscriminants,
    close: TokenDiscriminants,
) -> (r: Option<usize>)
    requires
        tokens.spec_valid(),
        tokens.spec_items().len() < usize::MAX,
    ensures
        match r {
            Some(i) => 0 <= tokens.spec_cursor() <= tokens.spec_items().len() && closes_at(
                inners(tokens.spec_items().skip(tokens.spec_cursor())),
                i as int,
                open,
                close,
            ),
            None => !(0 <= tokens.spec_cursor() <= tokens.spec_items().len()) || never_closes(
                inners(tokens.spec_items().skip(tokens.spec_cursor())),
                open,
                close,
            ),
        },
{
    match tokens.peek_remainder() {
        Some(tkns) => {
            let ghost ts = inners(tkns@);
            proof {
                assert(tkns@ =~= tokens.spec_items().skip(tokens.spec_cursor()));
            }
            let mut counter: usize = 1;
            let mut idx: usize = 0;
            while idx < tkns.len()
                invariant
                    0 <= idx <= tkns@.len(),
                    tkns@.len() < usize::MAX,
                    ts == inners(tkns@),
                    0 <= tokens.spec_cursor() <= tokens.spec_items().len(),
                    tkns@ == tokens.spec_items().skip(tokens.spec_cursor()),
                    counter == level_after(ts, idx as int, 1, open, close),
                    counter <= idx + 1,
                    forall|j: int| 0 <= j <= idx ==> #[trigger] level_after(ts, j, 1, open, close) > 0,
                decreases tkns@.len() - idx,
            {
                let kind = tkns[idx].inner().discriminant();
                assert(ts[idx as int] == tkns@[idx as int].spec_inner());
                if kind == open {
                    counter = counter + 1;
                } else if kind == close {
                    counter = counter - 1;
                }
                if counter == 0 {
                    return Some(idx);
                }
                idx = idx + 1;
            }
            None
        },
        None => None,
    }
}

/// The position, counted from the cursor, of the `)` that closes a `(`
/// consumed just before the cursor; nested parentheses are skipped.
pub fn find_closing_paren<S: Streamable<Spanned<Token>>>(tokens: &S) -> (r: Option<usize>)
    requires
        tokens.spec_valid(),
        tokens.spec_items().len() < usize::MAX,
    ensures
        match r {
            Some(i) => 0 <= tokens.spec_cursor() <= tokens.spec_items().len() && closes_at(
                inners(tokens.spec_items().skip(tokens.spec_cursor())),
                i as int,
                TokenDiscriminants::OpenParentheses,
                TokenDiscriminants::CloseParentheses,
            ),
            None => !(0 <= tokens.spec_cursor() <= tokens.spec_items().len()) || never_closes(
                inners(tokens.spec_items().skip(tokens.spec_cursor())),
                TokenDiscriminants::OpenParentheses,
                TokenDiscriminants::CloseParentheses,
            ),
        },
{
    find_closing(tokens, TokenDiscriminants::OpenParentheses, TokenDiscriminants::CloseParentheses)
}

/// The position, counted from the cursor, of the `}` that closes a `{`
/// consumed just before the cursor; nested braces are skipped.
pub fn find_closing_braces<S: Streamable<Spanned<Token>>>(tokens: &S) -> (r: Option<usize>)
    requires
        tokens.spec_valid(),
        tokens.spec_items().len() < usize::MAX,
    ensures
        match r {
            Some(i) => 0 <= tokens.spec_cursor() <= tokens.spec_items().len() && closes_at(
                inners(tokens.spec_items().skip(tokens.spec_cursor())),
                i as int,
                TokenDiscriminants::OpenBraces,
                TokenDiscriminants::CloseBraces,
            ),
            None => !(0 <= tokens.spec_cursor() <= tokens.spec_items().len()) || never_closes(
                inners(tokens.spec_items().skip(tokens.spec_cursor())),
                TokenDiscriminants::OpenBraces,
                TokenDiscriminants::CloseBraces,
            ),
        },
{
    find_closing(tokens, TokenDiscriminants::OpenBraces, TokenDiscriminants::CloseBraces)
}

/// The position of the first token of the given kind in `slice`.
fn find_kind(slice: &[Token], kind: TokenDiscriminants) -> (r: Option<usize>)
    ensures
        match r {
            Some(i) => i < slice@.len() && token_kind(slice@[i as int]) == kind && forall|j: int|
                0 <= j < i ==> token_kind(#[trigger] slice@[j]) != kind,
            None => forall|j: int| 0 <= j < slice@.len() ==> token_kind(#[trigger] slice@[j]) != kind,
        },
{
    let mut idx: usize = 0;
    while idx < slice.len()
        invariant
            0 <= idx <= slice@.len(),
            forall|j: int| 0 <= j < idx ==> token_kind(#[trigger] slice@[j]) != kind,
        decreases slice@.len() - idx,
    {
        if slice[idx].discriminant() == kind {
            return Some(idx);
        }
        idx = idx + 1;
    }
    None
}

/// The position of the first `|` in the slice; a missing one is an
/// unclosed group.
pub fn find_next_bitor(bitor_start_slice: &[Token]) -> (r: Result<usize, ParserError>)
    ensures
        match r {
            Ok(i) => i < bitor_start_slice@.len() && token_kind(bitor_start_slice@[i as int])
                == TokenDiscriminants::BitOr && forall|j: int|
                0 <= j < i ==> token_kind(#[trigger] bitor_start_slice@[j]) != TokenDiscriminants::BitOr,
            Err(e) => e == ParserError::SyntaxError(SyntaxError::LeftOpenParentheses) && forall|j: int|
                0 <= j < bitor_start_slice@.len() ==> token_kind(#[trigger] bitor_start_slice@[j])
                    != TokenDiscriminants::BitOr,
        },
{
    match find_kind(bitor_start_slice, TokenDiscriminants::BitOr) {
        Some(i) => Ok(i),
        None => Err(ParserError::SyntaxError(SyntaxError::LeftOpenParentheses)),
    }
}

/// The position of the first `,` in the slice.
pub fn find_next_comma(slice: &[Token]) -> (r: Result<usize, ParserError>)
    ensures
        match r {
            Ok(i) => i < slice@.len() && token_kind(slice@[i as int]) == TokenDiscriminants::Comma
                && forall|j: int| 0 <= j < i ==> token_kind(#[trigger] slice@[j]) != TokenDiscriminants::Comma,
            Err(e) => e == ParserError::SyntaxError(SyntaxError::CommaNotFound) && forall|j: int|
                0 <= j < slice@.len() ==> token_kind(#[trigger] slice@[j]) != TokenDiscriminants::Comma,
        },
{
    match find_kind(slice, TokenDiscriminants::Comma) {
        Some(i) => Ok(i),
        None => Err(ParserError::SyntaxError(SyntaxError::CommaNotFound)),
    }
}

/// Whether the argument that starts the slice ends at position `i`: at a
/// `,` outside any parentheses, or at the last token.
pub open spec fn argument_ends_at(slice: Seq<Token>, i: int) -> bool {
    (token_kind(slice[i]) == TokenDiscriminants::Comma && level_after(
        slice,
        i + 1,
        0,
        TokenDiscriminants::OpenParentheses,
        TokenDiscriminants::CloseParentheses,
    ) == 0) || i == slice.len() - 1
}

/// Where the function call argument that starts the slice ends: the first
/// `,` outside any parentheses, or the last token. An empty slice has no
/// argument.
pub fn find_closing_comma(slice: &[Token]) -> (r: Result<usize, ParserError>)
    ensures
        match r {
            Ok(i) => i < slice@.len() && argument_ends_at(slice@, i as int) && forall|j: int|
                0 <= j < i ==> !argument_ends_at(slice@, j),
            Err(e) => e == ParserError::InvalidFunctionCallArguments && slice@.len() == 0,
        },
{
    let mut paren_level: i128 = 0;
    let mut idx: usize = 0;
    while idx < slice.len()
        invariant
            0 <= idx <= slice@.len(),
            paren_level == level_after(
                slice@,
                idx as int,
                0,
                TokenDiscriminants::OpenParentheses,
                TokenDiscriminants::CloseParentheses,
            ),
            -(idx as int) <= paren_level <= idx,
            slice@.len() == 0 || idx < slice@.len(),
            forall|j: int| 0 <= j < idx ==> !argument_ends_at(slice@, j),
        decreases slice@.len() - idx,
    {
        let kind = slice[idx].discriminant();
        if kind == TokenDiscriminants::OpenParentheses {
            paren_level = paren_level + 1;
        } else if kind == TokenDiscriminants::CloseParentheses {
            paren_level = paren_level - 1;
        }
        if (kind == TokenDiscriminants::Comma && paren_level == 0) || slice.len() - 1 == idx {
            return Ok(idx);
        }
        idx = idx + 1;
    }
    Err(ParserError::InvalidFunctionCallArguments)
}

/// Whether the item at `i` is the first of the given kind from position
/// `from` on.
pub open spec fn first_of_kind_at(items: Seq<Spanned<Token>>, from: int, i: int, kind: TokenDiscriminants) -> bool {
    &&& from <= i < items.len()
    &&& items[i].spec_matches(kind)
    &&& forall|j: int| from <= j < i ==> !(#[trigger] items[j]).spec_matches(kind)
}

/// A child stream over the tokens from the cursor up to, not including, the
/// next token of kind `until`; `err` where the rest of the stream has none.
/// Nothing is consumed.
pub fn child_iterator_until<'child, S: Streamable<Spanned<Token>>>(
    s: &'child mut S,
    until: &TokenDiscriminants,
    err: ParserError,
) -> (r: Result<StreamChild<'child, Spanned<Token>>, ParserError>)
    requires
        old(s).spec_valid(),
    ensures
        match r {
            Ok(c) => exists|i: int|
                #![trigger first_of_kind_at(old(s).spec_items(), old(s).spec_cursor(), i, *until)]
                0 <= old(s).spec_cursor() && first_of_kind_at(old(s).spec_items(), old(s).spec_cursor(), i, *until)
                    && c.wf() && c.window() == old(s).spec_items().subrange(old(s).spec_cursor(), i)
                    && c.cursor_at_depth(c.spec_depth()) == 0,
            Err(e) => {
                &&& e == err
                &&& *final(s) == *old(s)
                &&& forall|i: int| !first_of_kind_at(old(s).spec_items(), old(s).spec_cursor(), i, *until)
            },
        },
{
    let is_until = |element: &Spanned<Token>| -> (b: bool)
        ensures
            b == element.spec_matches(*until),
        { element.matches(until) };
    // The cursor is read as a `usize`: it is not negative.
    let _cursor = s.stream_idx();
    let found = s.map_next_pos(is_until);
    match found {
        Some(n) => {
            let ghost items = s.spec_items();
            let ghost c = s.spec_cursor();
            proof {
                assert(first_of_kind_at(items, c, c + n, *until));
            }
            match s.child_iterator_bulk(n) {
                Some(child) => Ok(child),
                None => Err(ParserError::EOF),
            }
        },
        None => {
            proof {
                assert forall|i: int| !first_of_kind_at(s.spec_items(), s.spec_cursor(), i, *until) by {
                    if first_of_kind_at(s.spec_items(), s.spec_cursor(), i, *until) {
                        assert(is_until.ensures((&s.spec_items()[i],), false));
                    }
                }
            }
            Err(err)
        },
    }
}

} // verus!
