use vstd::prelude::*;
use crate::errors::SyntaxError;
use crate::span::Spanned;
use crate::stream::{pattern_at, Matches, Streamable};
use crate::token::{Token, TokenDiscriminants};

verus! {

/// The statements recognized by their first tokens.
#[derive(Debug, Clone, Copy, PartialEq, Eq, Hash, Structural)]
pub enum Expr {
    /// A variable declaration: `const` or `var`, a type, a name, `=` and a value.
    VariableDeclaration,
    /// An `if`, with its `elseif` and `else` branches.
    Conditional,
    While,
    For,
}

/// Whether two token kinds are the same.
pub fn discriminants_eq(a: TokenDiscriminants, b: TokenDiscriminants) -> (r: bool)
    ensures
        r == (a == b),
{
    a == b
}

/// Whether `shorter` is a prefix of `longer`.
pub open spec fn spec_is_prefix_of(shorter: Seq<TokenDiscriminants>, longer: Seq<TokenDiscriminants>) -> bool {
    shorter.len() <= longer.len() && shorter == longer.take(shorter.len() as int)
}

/// Whether `shorter` is a prefix of `longer`.
pub fn is_prefix_of(shorter: &[TokenDiscriminants], longer: &[TokenDiscriminants]) -> (r: bool)
    ensures
        r == spec_is_prefix_of(shorter@, longer@),
{
    if shorter.len() > longer.len() {
        return false;
    }
    let mut k: usize = 0;
    while k < shorter.len()
        invariant
            0 <= k <= shorter@.len(),
            shorter@.len() <= longer@.len(),
            forall|j: int| 0 <= j < k ==> shorter@[j] == longer@[j],
        decreases shorter@.len() - k,
    {
        if !discriminants_eq(shorter[k], longer[k]) {
            assert(shorter@[k as int] != longer@.take(shorter@.len() as int)[k as int]);
            return false;
        }
        k = k + 1;
    }
    assert(shorter@ =~= longer@.take(shorter@.len() as int));
    true
}

/// Whether one of two patterns is a prefix of the other.
pub open spec fn spec_patterns_collide(a: Seq<TokenDiscriminants>, b: Seq<TokenDiscriminants>) -> bool {
    spec_is_prefix_of(a, b) || spec_is_prefix_of(b, a)
}

/// Whether one of two patterns is a prefix of the other.
pub fn patterns_collide(a: &[TokenDiscriminants], b: &[TokenDiscriminants]) -> (r: bool)
    ensures
        r == spec_patterns_collide(a@, b@),
{
    is_prefix_of(a, b) || is_prefix_of(b, a)
}

/// The statement patterns, each group with what its statements are: a
/// group's patterns are the first tokens of the statements it stands for.
/// Some common mistakes are recognized too, and give their syntax error.
pub open spec fn expr_pat() -> Seq<(Seq<Seq<TokenDiscriminants>>, Result<Expr, SyntaxError>)> {
    seq![
        (
            seq![seq![TokenDiscriminants::Const], seq![TokenDiscriminants::Variable]],
            Ok(Expr::VariableDeclaration),
        ),
        (
            seq![
                seq![
                    TokenDiscriminants::TypeDefinition,
                    TokenDiscriminants::Identifier,
                    TokenDiscriminants::SemiColon,
                ],
                seq![
                    TokenDiscriminants::Identifier,
                    TokenDiscriminants::Identifier,
                    TokenDiscriminants::SemiColon,
                ],
            ],
            Err(SyntaxError::VariableRequiresInitialization),
        ),
        (
            seq![seq![TokenDiscriminants::If, TokenDiscriminants::OpenParentheses]],
            Ok(Expr::Conditional),
        ),
        (
            seq![seq![TokenDiscriminants::For, TokenDiscriminants::Identifier, TokenDiscriminants::In]],
            Ok(Expr::For),
        ),
        (
            seq![seq![TokenDiscriminants::While, TokenDiscriminants::OpenParentheses]],
            Ok(Expr::While),
        ),
    ]
}

/// The statement patterns; see `expr_pat`.
pub fn expr_patterns() -> (r: Vec<(Vec<Vec<TokenDiscriminants>>, Result<Expr, SyntaxError>)>)
    ensures
        r@.len() == expr_pat().len(),
        forall|g: int|
            #![trigger r@[g]]
            0 <= g < r@.len() ==> r@[g].1 == expr_pat()[g].1 && r@[g].0@.len() == expr_pat()[g].0.len()
                && forall|p: int| 0 <= p < r@[g].0@.len() ==> (#[trigger] r@[g].0@[p])@ == expr_pat()[g].0[p],
{
    let r = vec![
        (vec![vec![TokenDiscriminants::Const], vec![TokenDiscriminants::Variable]], Ok(Expr::VariableDeclaration)),
        (
            vec![
                vec![
                    TokenDiscriminants::TypeDefinition,
                    TokenDiscriminants::Identifier,
                    TokenDiscriminants::SemiColon,
                ],
                vec![
                    TokenDiscriminants::Identifier,
                    TokenDiscriminants::Identifier,
                    TokenDiscriminants::SemiColon,
                ],
            ],
            Err(SyntaxError::VariableRequiresInitialization),
        ),
        (vec![vec![TokenDiscriminants::If, TokenDiscriminants::OpenParentheses]], Ok(Expr::Conditional)),
        (
            vec![vec![TokenDiscriminants::For, TokenDiscriminants::Identifier, TokenDiscriminants::In]],
            Ok(Expr::For),
        ),
        (vec![vec![TokenDiscriminants::While, TokenDiscriminants::OpenParentheses]], Ok(Expr::While)),
    ];
    proof {
        assert(r@[0].0@[0]@ =~= expr_pat()[0].0[0]);
        assert(r@[0].0@[1]@ =~= expr_pat()[0].0[1]);
        assert(r@[1].0@[0]@ =~= expr_pat()[1].0[0]);
        assert(r@[1].0@[1]@ =~= expr_pat()[1].0[1]);
        assert(r@[2].0@[0]@ =~= expr_pat()[2].0[0]);
        assert(r@[3].0@[0]@ =~= expr_pat()[3].0[0]);
        assert(r@[4].0@[0]@ =~= expr_pat()[4].0[0]);
    }
    r
}

/// The first group of `table` with a pattern that matches `items` at `at`.
pub open spec fn first_match<T: Matches<TokenDiscriminants>>(
    table: Seq<(Seq<Seq<TokenDiscriminants>>, Result<Expr, SyntaxError>)>,
    items: Seq<T>,
    at: int,
) -> Option<Result<Expr, SyntaxError>>
    decreases table.len(),
{
    if table.len() == 0 {
        None
    } else if exists|p: int| 0 <= p < table[0].0.len() && pattern_at(items, at, #[trigger] table[0].0[p]) {
        Some(table[0].1)
    } else {
        first_match(table.drop_first(), items, at)
    }
}

/// What the statement at the cursor is, by the first group of `expr_pat`
/// with a pattern that matches the tokens from the cursor on.
pub fn match_expr_pattern<S: Streamable<Spanned<Token>>>(tkns: &mut S) -> (r: Option<
    Result<Expr, SyntaxError>,
>)
    requires
        old(tkns).spec_valid(),
    ensures
        *final(tkns) == *old(tkns),
        r == first_match(expr_pat(), old(tkns).spec_items(), old(tkns).spec_cursor()),
{
    let table = expr_patterns();
    let ghost items = tkns.spec_items();
    let ghost at = tkns.spec_cursor();
    let mut g: usize = 0;
    assert(expr_pat().skip(0) =~= expr_pat());
    while g < table.len()
        invariant
            0 <= g <= table@.len(),
            table@.len() == expr_pat().len(),
            forall|h: int|
                #![trigger table@[h]]
                0 <= h < table@.len() ==> table@[h].1 == expr_pat()[h].1 && table@[h].0@.len() == expr_pat()[h].0.len()
                    && forall|p: int| 0 <= p < table@[h].0@.len() ==> (#[trigger] table@[h].0@[p])@ == expr_pat()[h].0[p],
            tkns.spec_valid(),
            items == tkns.spec_items(),
            at == tkns.spec_cursor(),
            *tkns == *old(tkns),
            first_match(expr_pat(), items, at) == first_match(expr_pat().skip(g as int), items, at),
        decreases table@.len() - g,
    {
        let group = &table[g].0;
        let ghost rest = expr_pat().skip(g as int);
        assert(rest[0] == expr_pat()[g as int]);
        let mut p: usize = 0;
        let mut found = false;
        while p < group.len()
            invariant_except_break
                !found,
                forall|q: int| 0 <= q < p ==> !pattern_at(items, at, #[trigger] expr_pat()[g as int].0[q]),
            invariant
                0 <= p <= group@.len(),
                group@.len() == expr_pat()[g as int].0.len(),
                forall|q: int| 0 <= q < group@.len() ==> (#[trigger] group@[q])@ == expr_pat()[g as int].0[q],
                tkns.spec_valid(),
                items == tkns.spec_items(),
                at == tkns.spec_cursor(),
            ensures
                found ==> exists|q: int| 0 <= q < group@.len() && pattern_at(items, at, #[trigger] expr_pat()[g as int].0[q]),
                !found ==> forall|q: int| 0 <= q < group@.len() ==> !pattern_at(items, at, #[trigger] expr_pat()[g as int].0[q]),
            decreases group@.len() - p,
        {
            if tkns.try_match_pattern(group[p].as_slice()) {
                found = true;
                assert(pattern_at(items, at, expr_pat()[g as int].0[p as int]));
                break;
            }
            p = p + 1;
        }
        if found {
            assert(first_match(rest, items, at) == Some(rest[0].1));
            return Some(table[g].1);
        }
        assert forall|q: int| 0 <= q < rest[0].0.len() implies !pattern_at(items, at, #[trigger] rest[0].0[q]) by {
            assert(rest[0].0[q] == expr_pat()[g as int].0[q]);
        }
        assert(rest.drop_first() =~= expr_pat().skip(g + 1));
        g = g + 1;
    }
    assert(expr_pat().skip(g as int).len() == 0);
    None
}

/// No pattern of `expr_pat` is a prefix of another, so the first pattern
/// that matches is the only one that does.
pub proof fn lemma_expr_pat_no_collisions()
    ensures
        forall|g1: int, p1: int, g2: int, p2: int|
            0 <= g1 < expr_pat().len() && 0 <= p1 < expr_pat()[g1].0.len() && 0 <= g2 < expr_pat().len()
                && 0 <= p2 < expr_pat()[g2].0.len() && (g1 != g2 || p1 != p2) ==> !spec_patterns_collide(
                #[trigger] expr_pat()[g1].0[p1],
                #[trigger] expr_pat()[g2].0[p2],
            ),
{
    assert forall|g1: int, p1: int, g2: int, p2: int|
        0 <= g1 < expr_pat().len() && 0 <= p1 < expr_pat()[g1].0.len() && 0 <= g2 < expr_pat().len()
            && 0 <= p2 < expr_pat()[g2].0.len() && (g1 != g2 || p1 != p2) implies !spec_patterns_collide(
            #[trigger] expr_pat()[g1].0[p1],
            #[trigger] expr_pat()[g2].0[p2],
        ) by {
        let a = expr_pat()[g1].0[p1];
        let b = expr_pat()[g2].0[p2];
        assert(a.len() > 0 && b.len() > 0);
        assert(a[0] != b[0] || (a.len() >= 2 && b.len() >= 2 && a[1] != b[1]) || (a.len() == 3 && b.len() == 3 && a[0] == b[0] && a[1] == b[1] && a[2] != b[2]));
        if spec_is_prefix_of(a, b) {
            assert(a[0] == b.take(a.len() as int)[0]);
        }
        if spec_is_prefix_of(b, a) {
            assert(b[0] == a.take(b.len() as int)[0]);
        }
    }
}

/// With no pattern of the table a prefix of another, two different patterns
/// never both match at the same place: which pattern matches does not depend
/// on the order of the table.
pub proof fn lemma_expr_pat_at_most_one_match(items: Seq<Spanned<Token>>, at: int)
    ensures
        forall|g1: int, p1: int, g2: int, p2: int|
            0 <= g1 < expr_pat().len() && 0 <= p1 < expr_pat()[g1].0.len() && 0 <= g2 < expr_pat().len()
                && 0 <= p2 < expr_pat()[g2].0.len() && pattern_at(items, at, #[trigger] expr_pat()[g1].0[p1])
                && pattern_at(items, at, #[trigger] expr_pat()[g2].0[p2]) ==> g1 == g2 && p1 == p2,
{
    lemma_expr_pat_no_collisions();
    assert forall|g1: int, p1: int, g2: int, p2: int|
        0 <= g1 < expr_pat().len() && 0 <= p1 < expr_pat()[g1].0.len() && 0 <= g2 < expr_pat().len()
            && 0 <= p2 < expr_pat()[g2].0.len() && pattern_at(items, at, #[trigger] expr_pat()[g1].0[p1])
            && pattern_at(items, at, #[trigger] expr_pat()[g2].0[p2]) implies g1 == g2 && p1 == p2 by {
        let a = expr_pat()[g1].0[p1];
        let b = expr_pat()[g2].0[p2];
        if g1 != g2 || p1 != p2 {
            assert(!spec_patterns_collide(a, b));
            let n = if a.len() <= b.len() { a.len() } else { b.len() };
            // Two patterns that both match agree on their common length.
            assert forall|k: int| 0 <= k < n implies a[k] == b[k] by {
                assert(items[at + k].spec_matches(a[k]));
                assert(items[at + k].spec_matches(b[k]));
            }
            if a.len() <= b.len() {
                assert(a =~= b.take(a.len() as int));
            } else {
                assert(b =~= a.take(b.len() as int));
            }
        }
    }
}

/// Whether the item at `at` is of kind `k`.
pub open spec fn kind_at(items: Seq<Spanned<Token>>, at: int, k: TokenDiscriminants) -> bool {
    0 <= at < items.len() && items[at].spec_matches(k)
}

proof fn lemma_pattern_kinds(items: Seq<Spanned<Token>>, at: int, pattern: Seq<TokenDiscriminants>)
    requires
        pattern.len() > 0,
    ensures
        pattern_at(items, at, pattern) ==> kind_at(items, at, pattern[0]),
        pattern_at(items, at, pattern) && pattern.len() > 1 ==> kind_at(items, at + 1, pattern[1]),
        pattern_at(items, at, pattern) && pattern.len() > 2 ==> kind_at(items, at + 2, pattern[2]),
        pattern.len() == 1 && kind_at(items, at, pattern[0]) ==> pattern_at(items, at, pattern),
        pattern.len() == 2 && kind_at(items, at, pattern[0]) && kind_at(items, at + 1, pattern[1]) ==> pattern_at(
            items,
            at,
            pattern,
        ),
        pattern.len() == 3 && kind_at(items, at, pattern[0]) && kind_at(items, at + 1, pattern[1]) && kind_at(
            items,
            at + 2,
            pattern[2],
        ) ==> pattern_at(items, at, pattern),
{
    if pattern_at(items, at, pattern) {
        assert(items[at + 0].spec_matches(pattern[0]));
        if pattern.len() > 1 {
            assert(items[at + 1].spec_matches(pattern[1]));
        }
        if pattern.len() > 2 {
            assert(items[at + 2].spec_matches(pattern[2]));
        }
    }
    if pattern.len() <= 3 && kind_at(items, at, pattern[0]) && (pattern.len() > 1 ==> kind_at(items, at + 1, pattern[1]))
        && (pattern.len() > 2 ==> kind_at(items, at + 2, pattern[2])) {
        assert forall|i: int| 0 <= i < pattern.len() implies #[trigger] items[at + i].spec_matches(pattern[i]) by {
            if i == 0 {
                assert(at + i == at);
            } else if i == 1 {
                assert(at + i == at + 1);
            } else {
                assert(at + i == at + 2);
            }
        }
    }
}

/// What a statement is, by its first tokens: `const` or `var` starts a
/// variable declaration; `if (` a conditional; `while (` a while loop;
/// `for <name> in` a for loop; a type or a name followed by a name and `;`
/// is a variable declared without a value, an error; any other start is
/// none of these.
pub proof fn law_statement_kinds(items: Seq<Spanned<Token>>, at: int)
    ensures
        kind_at(items, at, TokenDiscriminants::Const) || kind_at(items, at, TokenDiscriminants::Variable) ==> first_match(
            expr_pat(),
            items,
            at,
        ) == Some(Ok::<Expr, SyntaxError>(Expr::VariableDeclaration)),
        (kind_at(items, at, TokenDiscriminants::TypeDefinition) || kind_at(items, at, TokenDiscriminants::Identifier))
            && kind_at(items, at + 1, TokenDiscriminants::Identifier) && kind_at(items, at + 2, TokenDiscriminants::SemiColon)
            ==> first_match(expr_pat(), items, at) == Some(Err::<Expr, SyntaxError>(SyntaxError::VariableRequiresInitialization)),
        kind_at(items, at, TokenDiscriminants::If) && kind_at(items, at + 1, TokenDiscriminants::OpenParentheses) ==> first_match(
            expr_pat(),
            items,
            at,
        ) == Some(Ok::<Expr, SyntaxError>(Expr::Conditional)),
        kind_at(items, at, TokenDiscriminants::For) && kind_at(items, at + 1, TokenDiscriminants::Identifier) && kind_at(
            items,
            at + 2,
            TokenDiscriminants::In,
        ) ==> first_match(expr_pat(), items, at) == Some(Ok::<Expr, SyntaxError>(Expr::For)),
        kind_at(items, at, TokenDiscriminants::While) && kind_at(items, at + 1, TokenDiscriminants::OpenParentheses)
            ==> first_match(expr_pat(), items, at) == Some(Ok::<Expr, SyntaxError>(Expr::While)),
        !(kind_at(items, at, TokenDiscriminants::Const) || kind_at(items, at, TokenDiscriminants::Variable) || kind_at(
            items,
            at,
            TokenDiscriminants::TypeDefinition,
        ) || kind_at(items, at, TokenDiscriminants::Identifier) || kind_at(items, at, TokenDiscriminants::If) || kind_at(
            items,
            at,
            TokenDiscriminants::For,
        ) || kind_at(items, at, TokenDiscriminants::While)) ==> first_match(expr_pat(), items, at) is None,
{
    let t = expr_pat();
    assert(t[0].0[0] =~= seq![TokenDiscriminants::Const]);
    assert(t[0].0[1] =~= seq![TokenDiscriminants::Variable]);
    assert(t[1].0[0] =~= seq![TokenDiscriminants::TypeDefinition, TokenDiscriminants::Identifier, TokenDiscriminants::SemiColon]);
    assert(t[1].0[1] =~= seq![TokenDiscriminants::Identifier, TokenDiscriminants::Identifier, TokenDiscriminants::SemiColon]);
    assert(t[2].0[0] =~= seq![TokenDiscriminants::If, TokenDiscriminants::OpenParentheses]);
    assert(t[3].0[0] =~= seq![TokenDiscriminants::For, TokenDiscriminants::Identifier, TokenDiscriminants::In]);
    assert(t[4].0[0] =~= seq![TokenDiscriminants::While, TokenDiscriminants::OpenParentheses]);
    lemma_pattern_kinds(items, at, t[0].0[0]);
    lemma_pattern_kinds(items, at, t[0].0[1]);
    lemma_pattern_kinds(items, at, t[1].0[0]);
    lemma_pattern_kinds(items, at, t[1].0[1]);
    lemma_pattern_kinds(items, at, t[2].0[0]);
    lemma_pattern_kinds(items, at, t[3].0[0]);
    lemma_pattern_kinds(items, at, t[4].0[0]);
    let t1 = t.drop_first();
    let t2 = t1.drop_first();
    let t3 = t2.drop_first();
    let t4 = t3.drop_first();
    let t5 = t4.drop_first();
    assert(t1[0] == t[1] && t2[0] == t[2] && t3[0] == t[3] && t4[0] == t[4] && t5.len() == 0);
    let g0 = exists|p: int| 0 <= p < t[0].0.len() && pattern_at(items, at, #[trigger] t[0].0[p]);
    let g1 = exists|p: int| 0 <= p < t1[0].0.len() && pattern_at(items, at, #[trigger] t1[0].0[p]);
    let g2 = exists|p: int| 0 <= p < t2[0].0.len() && pattern_at(items, at, #[trigger] t2[0].0[p]);
    let g3 = exists|p: int| 0 <= p < t3[0].0.len() && pattern_at(items, at, #[trigger] t3[0].0[p]);
    let g4 = exists|p: int| 0 <= p < t4[0].0.len() && pattern_at(items, at, #[trigger] t4[0].0[p]);
    assert(g0 <==> (pattern_at(items, at, t[0].0[0]) || pattern_at(items, at, t[0].0[1])));
    assert(g1 <==> (pattern_at(items, at, t[1].0[0]) || pattern_at(items, at, t[1].0[1])));
    assert(g2 <==> pattern_at(items, at, t[2].0[0]));
    assert(g3 <==> pattern_at(items, at, t[3].0[0]));
    assert(g4 <==> pattern_at(items, at, t[4].0[0]));
    assert(first_match(t, items, at) == if g0 { Some(t[0].1) } else { first_match(t1, items, at) });
    assert(first_match(t1, items, at) == if g1 { Some(t1[0].1) } else { first_match(t2, items, at) });
    assert(first_match(t2, items, at) == if g2 { Some(t2[0].1) } else { first_match(t3, items, at) });
    assert(first_match(t3, items, at) == if g3 { Some(t3[0].1) } else { first_match(t4, items, at) });
    assert(first_match(t4, items, at) == if g4 { Some(t4[0].1) } else { first_match(t5, items, at) });
    assert(first_match(t5, items, at) is None);
}

} // verus!
