use vstd::prelude::*;
use crate::codegen::FunctionArgumentIdentifier;
use crate::errors::{ParserError, SyntaxError};
use crate::numeric::{
    contains_char, fit_unsigned, numeric_suffix, parse_integer, suffix_match, try_match_suffix, unparsed_const_to_typed_literal_unsafe,
    unsigned_value,
};
use crate::lexer::chars_of;
use crate::span::{SpanInfo, Spanned};
use crate::stream::{Stream, Streamable};
use crate::token::{
    clone_value, LogicalOperator, MathematicalSymbol, Order, Token, TokenDiscriminants, Type, TypeDiscriminants, Value,
};

verus! {

/// A parsed expression.
#[derive(Debug, PartialEq)]
pub enum StatementVariant {
    /// A variable referenced by name.
    BasicReference { variable_name: String },
    /// An element of an array: `foo[i]`.
    ArrayReference { variable_reference: Box<Spanned<StatementVariant>>, index: Box<Spanned<StatementVariant>> },
    /// A field of a struct: `foo.bar`.
    StructFieldReference { variable_reference: Box<Spanned<StatementVariant>>, field_name: String },
    /// A value known when parsing.
    Value(Value),
    /// A float literal as written, with the float type its suffix names
    /// (`floathalf` is read as a half and kept as a single); without a
    /// suffix the narrowest float that holds it is chosen. Floats are read
    /// outside this library.
    FloatLiteral(String, Option<TypeDiscriminants>),
    /// `lhs <symbol> rhs`.
    MathematicalExpression {
        lhs: Box<Spanned<StatementVariant>>,
        symbol: MathematicalSymbol,
        rhs: Box<Spanned<StatementVariant>>,
    },
    /// `-value`.
    NegateValue(Box<Spanned<StatementVariant>>),
    /// A call, with its arguments by position or by name.
    FunctionCall { identifier: Box<Spanned<StatementVariant>>, arguments: Arguments },
    /// `receiver = value`.
    SetValue { receiver: Box<Spanned<StatementVariant>>, value: Box<Spanned<StatementVariant>> },
    /// `receiver <symbol>= value`.
    ModifyValueArithmetic {
        receiver: Box<Spanned<StatementVariant>>,
        symbol: MathematicalSymbol,
        value: Box<Spanned<StatementVariant>>,
    },
    /// `return value`.
    ReturnValue { value: Box<Spanned<StatementVariant>> },
    /// `lhs <ord> rhs`.
    Comparison { lhs: Box<Spanned<StatementVariant>>, ord: Order, rhs: Box<Spanned<StatementVariant>> },
    /// `lhs <op> rhs` over booleans.
    LogicalOperation { lhs: Box<Spanned<StatementVariant>>, op: LogicalOperator, rhs: Box<Spanned<StatementVariant>> },
    /// `(inner_expr)`.
    Grouping { inner_expr: Box<Spanned<StatementVariant>> },
    /// `{a, b, ...}`.
    ArrayInitialization { values: Statements },
    /// `ref value`.
    GetPointerTo(Box<Spanned<StatementVariant>>),
    /// `deref value`.
    DerefPointer(Box<Spanned<StatementVariant>>),
}

/// Expressions in order.
#[derive(Debug, PartialEq)]
pub enum Statements {
    End,
    Item(Box<Spanned<StatementVariant>>, Box<Statements>),
}

/// The arguments of a call, in the order their keys first appear; a key
/// given twice keeps its place and takes the later value.
#[derive(Debug, PartialEq)]
pub enum Arguments {
    End,
    Item(FunctionArgumentIdentifier<String, usize>, Box<Spanned<StatementVariant>>, Box<Arguments>),
}

/// `statements` with `s` added at the end.
pub open spec fn statements_push(statements: Statements, s: Spanned<StatementVariant>) -> Statements
    decreases statements,
{
    match statements {
        Statements::End => Statements::Item(Box::new(s), Box::new(Statements::End)),
        Statements::Item(h, t) => Statements::Item(h, Box::new(statements_push(*t, s))),
    }
}

/// Whether two argument keys are the same.
pub open spec fn same_key(a: FunctionArgumentIdentifier<String, usize>, b: FunctionArgumentIdentifier<String, usize>) -> bool {
    match (a, b) {
        (FunctionArgumentIdentifier::Identifier(x), FunctionArgumentIdentifier::Identifier(y)) => x@ == y@,
        (FunctionArgumentIdentifier::Index(i), FunctionArgumentIdentifier::Index(j)) => i == j,
        _ => false,
    }
}

/// `arguments` with `value` under `key`: in place of the value of an equal
/// key, or added at the end.
pub open spec fn arguments_insert(
    arguments: Arguments,
    key: FunctionArgumentIdentifier<String, usize>,
    value: Spanned<StatementVariant>,
) -> Arguments
    decreases arguments,
{
    match arguments {
        Arguments::End => Arguments::Item(key, Box::new(value), Box::new(Arguments::End)),
        Arguments::Item(k, v, t) => if same_key(k, key) {
            Arguments::Item(k, Box::new(value), t)
        } else {
            Arguments::Item(k, v, Box::new(arguments_insert(*t, key, value)))
        },
    }
}

/// The span from the start of `a` to the end of `b`.
pub open spec fn join(a: SpanInfo, b: SpanInfo) -> SpanInfo {
    SpanInfo { char_start: a.char_start, char_end: b.char_end }
}

/// How a token changes the nesting level of `open`/`close` groups.
pub open spec fn level_step(t: Token, open: TokenDiscriminants, close: TokenDiscriminants) -> int {
    if crate::token::token_kind(t) == open {
        1
    } else if crate::token::token_kind(t) == close {
        -1
    } else {
        0
    }
}

/// The position, from `i` on, where the nesting level, `level` before
/// position `i`, first drops to 0.
pub open spec fn closing_at(
    ts: Seq<Spanned<Token>>,
    i: int,
    level: int,
    open: TokenDiscriminants,
    close: TokenDiscriminants,
) -> Option<int>
    decreases ts.len() - i,
{
    if i < 0 || i >= ts.len() {
        None
    } else {
        let l = level + level_step(ts[i].inner, open, close);
        if l == 0 {
            Some(i)
        } else {
            closing_at(ts, i + 1, l, open, close)
        }
    }
}

/// The value an integer literal with the integer type suffix `ty` gives.
pub open spec fn suffixed_int(ty: TypeDiscriminants, lit: Seq<char>) -> Option<Value> {
    match ty {
        TypeDiscriminants::I64 => match parse_integer(lit, true, i64::MIN as int, i64::MAX as int) {
            Some(n) => Some(Value::I64(n as i64)),
            None => None,
        },
        TypeDiscriminants::U64 => match parse_integer(lit, false, 0, u64::MAX as int) {
            Some(n) => Some(Value::U64(n as u64)),
            None => None,
        },
        TypeDiscriminants::I32 => match parse_integer(lit, true, i32::MIN as int, i32::MAX as int) {
            Some(n) => Some(Value::I32(n as i32)),
            None => None,
        },
        TypeDiscriminants::U32 => match parse_integer(lit, false, 0, u32::MAX as int) {
            Some(n) => Some(Value::U32(n as u32)),
            None => None,
        },
        TypeDiscriminants::I16 => match parse_integer(lit, true, i16::MIN as int, i16::MAX as int) {
            Some(n) => Some(Value::I16(n as i16)),
            None => None,
        },
        TypeDiscriminants::U16 => match parse_integer(lit, false, 0, u16::MAX as int) {
            Some(n) => Some(Value::U16(n as u16)),
            None => None,
        },
        TypeDiscriminants::U8 => match parse_integer(lit, false, 0, u8::MAX as int) {
            Some(n) => Some(Value::U8(n as u8)),
            None => None,
        },
        _ => None,
    }
}

/// What a number literal (`UnparsedLiteral`) stands for. With a type suffix,
/// the digits before it read as that type; a float suffix keeps the literal
/// for reading outside. Without one, a literal with a `.` is a float and
/// any other is the narrowest unsigned integer that holds it. A literal that
/// does not read is out of range.
pub open spec fn literal_statement(text: String) -> Result<StatementVariant, ParserError> {
    match suffix_match(text@, numeric_suffix()) {
        Some((lit, ty)) => if ty is F64 || ty is F32 || ty is F16 {
            Ok(StatementVariant::FloatLiteral(text, Some(ty)))
        } else {
            match suffixed_int(ty, lit) {
                Some(v) => Ok(StatementVariant::Value(v)),
                None => Err(ParserError::LiteralOutOfRange(text)),
            }
        },
        None => if text@.contains('.') {
            Ok(StatementVariant::FloatLiteral(text, None))
        } else {
            match parse_integer(text@, false, 0, u64::MAX as int) {
                Some(n) => Ok(StatementVariant::Value(unsigned_value(n))),
                None => Err(ParserError::LiteralOutOfRange(text)),
            }
        },
    }
}

/// A parse result and the position after it.
pub type Parsed = (Result<Spanned<StatementVariant>, ParserError>, int);

/// `try_consume_match` of a token of kind `kind` at `at`: the position after
/// it, and whether it was of that kind.
pub open spec fn closes_with(ts: Seq<Spanned<Token>>, at: int, kind: TokenDiscriminants) -> (int, bool) {
    if 0 <= at < ts.len() {
        (at + 1, crate::token::token_kind(ts[at].inner) == kind)
    } else {
        (at, false)
    }
}

/// `parse_expr` on the tokens `ts` from position `p`: the expression that
/// starts there and the position after it.
pub open spec fn spec_expr(ts: Seq<Spanned<Token>>, p: int) -> Parsed
    decreases ts.len() - p, 1int,
{
    if !(0 <= p < ts.len()) {
        (Err(ParserError::EOF), p)
    } else {
        let tkn = ts[p];
        let q = p + 1;
        match tkn.inner {
            Token::Identifier(ident) => spec_var_expr(
                ts,
                q,
                Spanned { inner: StatementVariant::BasicReference { variable_name: ident }, span: tkn.span },
            ),
            Token::Literal(val) => spec_var_expr(ts, q, Spanned { inner: StatementVariant::Value(val), span: tkn.span }),
            Token::Reference => {
                let (r, e) = spec_expr(ts, q);
                match r {
                    Ok(v) => (Ok(Spanned { inner: StatementVariant::GetPointerTo(Box::new(v)), span: tkn.span }), e),
                    Err(x) => (Err(x), e),
                }
            },
            Token::Dereference => {
                let (r, e) = spec_expr(ts, q);
                match r {
                    Ok(v) => (Ok(Spanned { inner: StatementVariant::DerefPointer(Box::new(v)), span: tkn.span }), e),
                    Err(x) => (Err(x), e),
                }
            },
            Token::UnparsedLiteral(text) => match literal_statement(text) {
                Ok(v) => spec_var_expr(ts, q, Spanned { inner: v, span: tkn.span }),
                Err(x) => (Err(x), q),
            },
            Token::MathSym(MathematicalSymbol::Subtraction) => {
                let (r, e) = spec_expr(ts, q);
                match r {
                    Ok(v) => if e <= p || e > ts.len() {
                        (Err(ParserError::EOF), e)
                    } else {
                        spec_var_expr(ts, e, Spanned { inner: StatementVariant::NegateValue(Box::new(v)), span: tkn.span })
                    },
                    Err(x) => (Err(x), e),
                }
            },
            Token::MathSym(MathematicalSymbol::Addition) => {
                let (r, e) = spec_expr(ts, q);
                match r {
                    Ok(v) => if e <= p || e > ts.len() {
                        (Err(ParserError::EOF), e)
                    } else {
                        spec_var_expr(ts, e, v)
                    },
                    Err(x) => (Err(x), e),
                }
            },
            Token::Return => {
                let (r, e) = spec_expr(ts, q);
                match r {
                    Ok(v) => (
                        Ok(
                            Spanned {
                                inner: StatementVariant::ReturnValue { value: Box::new(v) },
                                span: join(tkn.span, v.span),
                            },
                        ),
                        e,
                    ),
                    Err(x) => (Err(x), e),
                }
            },
            Token::OpenBraces => match closing_at(ts, q, 1, TokenDiscriminants::OpenBraces, TokenDiscriminants::CloseBraces) {
                None => (Err(ParserError::SyntaxError(SyntaxError::LeftOpenBraces)), q),
                Some(c) => if c < q || c >= ts.len() {
                    (Err(ParserError::EOF), q)
                } else {
                    let (r, m) = spec_values(ts.subrange(q, c), 0, Statements::End);
                    if m < 0 || m > c - q {
                        (Err(ParserError::EOF), q)
                    } else {
                        match r {
                            Err(x) => (Err(x), q + m),
                            Ok(values) => {
                                let (after, ok) = closes_with(ts, q + m, TokenDiscriminants::CloseBraces);
                                if !ok {
                                    (Err(ParserError::SyntaxError(SyntaxError::LeftOpenBraces)), after)
                                } else {
                                    spec_var_expr(
                                        ts,
                                        after,
                                        Spanned {
                                            inner: StatementVariant::ArrayInitialization { values },
                                            span: join(tkn.span, ts[q + m].span),
                                        },
                                    )
                                }
                            },
                        }
                    }
                },
            },
            Token::OpenParentheses => match closing_at(
                ts,
                q,
                1,
                TokenDiscriminants::OpenParentheses,
                TokenDiscriminants::CloseParentheses,
            ) {
                None => (Err(ParserError::SyntaxError(SyntaxError::LeftOpenBraces)), q),
                Some(c) => if c < q || c >= ts.len() {
                    (Err(ParserError::EOF), q)
                } else {
                    let (r, m) = spec_expr(ts.subrange(q, c), 0);
                    if m < 0 || m > c - q {
                        (Err(ParserError::EOF), q)
                    } else {
                        match r {
                            Err(x) => (Err(x), q + m),
                            Ok(g) => {
                                let (after, ok) = closes_with(ts, q + m, TokenDiscriminants::CloseParentheses);
                                if !ok {
                                    (Err(ParserError::SyntaxError(SyntaxError::LeftOpenParentheses)), after)
                                } else {
                                    let grouped = Spanned {
                                        inner: StatementVariant::Grouping { inner_expr: Box::new(g) },
                                        span: join(tkn.span, ts[q + m].span),
                                    };
                                    let (r2, e2) = spec_var_expr(ts, after, grouped);
                                    match r2 {
                                        Err(x) => (Err(x), e2),
                                        Ok(complete) => if e2 <= p || e2 > ts.len() {
                                            (Err(ParserError::EOF), e2)
                                        } else {
                                            spec_var_expr(
                                                ts,
                                                e2,
                                                Spanned { inner: complete.inner, span: join(tkn.span, complete.span) },
                                            )
                                        },
                                    }
                                }
                            },
                        }
                    }
                },
            },
            _ => (Err(ParserError::UnknownExpression), q),
        }
    }
}

/// The values of an array literal: expressions parsed one after the other
/// from position `p` to the end of `ts`, added to `acc`.
pub open spec fn spec_values(ts: Seq<Spanned<Token>>, p: int, acc: Statements) -> (Result<Statements, ParserError>, int)
    decreases ts.len() - p, 2int,
{
    if !(0 <= p < ts.len()) {
        (Ok(acc), p)
    } else {
        let (r, e) = spec_expr(ts, p);
        match r {
            Err(x) => (Err(x), e),
            Ok(v) => if e <= p || e > ts.len() {
                (Err(ParserError::EOF), e)
            } else {
                spec_values(ts, e, statements_push(acc, v))
            },
        }
    }
}

/// The arguments of a call: from position `p` to the end of `ts`, each
/// `name = value` is a named argument and any other expression the next
/// positional one (`idx` counts those seen), added to `acc`.
pub open spec fn spec_args(ts: Seq<Spanned<Token>>, p: int, idx: nat, acc: Arguments) -> (Result<Arguments, ParserError>, int)
    decreases ts.len() - p, 2int,
{
    if !(0 <= p < ts.len()) {
        (Ok(acc), p)
    } else if p + 1 < ts.len() && ts[p].inner is Identifier && ts[p + 1].inner is SetValue {
        let name = ts[p].inner->Identifier_0;
        let (r, e) = spec_expr(ts, p + 2);
        match r {
            Err(x) => (Err(x), e),
            Ok(v) => if e <= p || e > ts.len() {
                (Err(ParserError::EOF), e)
            } else {
                spec_args(ts, e, idx, arguments_insert(acc, FunctionArgumentIdentifier::Identifier(name), v))
            },
        }
    } else {
        let (r, e) = spec_expr(ts, p);
        match r {
            Err(x) => (Err(x), e),
            Ok(v) => if e <= p || e > ts.len() {
                (Err(ParserError::EOF), e)
            } else {
                spec_args(ts, e, idx + 1, arguments_insert(acc, FunctionArgumentIdentifier::Index(idx as usize), v))
            },
        }
    }
}

/// A binary expression built from `lhs`, the operator token and `rhs`.
pub open spec fn binary(lhs: Spanned<StatementVariant>, op: Token, rhs: Spanned<StatementVariant>) -> StatementVariant {
    match op {
        Token::LogicalOperator(o) => StatementVariant::LogicalOperation { lhs: Box::new(lhs), op: o, rhs: Box::new(rhs) },
        Token::Comparison(o) => StatementVariant::Comparison { lhs: Box::new(lhs), ord: o, rhs: Box::new(rhs) },
        Token::OpenAngledBrackets => StatementVariant::Comparison { lhs: Box::new(lhs), ord: Order::Bigger, rhs: Box::new(rhs) },
        _ => StatementVariant::Comparison { lhs: Box::new(lhs), ord: Order::Smaller, rhs: Box::new(rhs) },
    }
}

/// `parse_variable_expression` on the tokens `ts` from position `p`: what
/// follows the expression `stmt` (a call, an index, a field, an operator, an
/// assignment), and the position after it.
pub open spec fn spec_var_expr(ts: Seq<Spanned<Token>>, p: int, stmt: Spanned<StatementVariant>) -> Parsed
    decreases ts.len() - p, 0int,
{
    if !(0 <= p < ts.len()) {
        (Ok(stmt), p)
    } else {
        let tkn = ts[p];
        let q = p + 1;
        match tkn.inner {
            Token::OpenParentheses => if q < ts.len() && ts[q].inner is CloseParentheses {
                spec_var_expr(
                    ts,
                    q + 1,
                    Spanned {
                        inner: StatementVariant::FunctionCall { identifier: Box::new(stmt), arguments: Arguments::End },
                        span: join(tkn.span, ts[q].span),
                    },
                )
            } else {
                match closing_at(ts, q, 1, TokenDiscriminants::OpenParentheses, TokenDiscriminants::CloseParentheses) {
                    None => (Err(ParserError::SyntaxError(SyntaxError::LeftOpenParentheses)), q),
                    Some(c) => if c < q || c >= ts.len() {
                        (Err(ParserError::EOF), q)
                    } else {
                        let (r, m) = spec_args(ts.subrange(q, c), 0, 0, Arguments::End);
                        if m < 0 || m > c - q {
                            (Err(ParserError::EOF), q)
                        } else {
                            match r {
                                Err(x) => (Err(x), q + m),
                                Ok(arguments) => {
                                    let (after, ok) = closes_with(ts, q + m, TokenDiscriminants::CloseParentheses);
                                    if !ok {
                                        (Err(ParserError::SyntaxError(SyntaxError::LeftOpenParentheses)), after)
                                    } else {
                                        spec_var_expr(
                                            ts,
                                            after,
                                            Spanned {
                                                inner: StatementVariant::FunctionCall { identifier: Box::new(stmt), arguments },
                                                span: join(tkn.span, ts[q + m].span),
                                            },
                                        )
                                    }
                                },
                            }
                        }
                    },
                }
            },
            Token::OpenSquareBrackets => match closing_at(
                ts,
                q,
                1,
                TokenDiscriminants::OpenSquareBrackets,
                TokenDiscriminants::CloseSquareBrackets,
            ) {
                None => (Err(ParserError::SyntaxError(SyntaxError::LeftOpenSquareBrackets)), q),
                Some(c) => if c < q || c >= ts.len() {
                    (Err(ParserError::EOF), q)
                } else {
                    let (r, m) = spec_expr(ts.subrange(q, c), 0);
                    if m < 0 || m > c - q {
                        (Err(ParserError::EOF), q)
                    } else {
                        match r {
                            Err(x) => (Err(x), q + m),
                            Ok(index) => {
                                let (after, ok) = closes_with(ts, q + m, TokenDiscriminants::CloseSquareBrackets);
                                if !ok {
                                    (Err(ParserError::SyntaxError(SyntaxError::LeftOpenSquareBrackets)), after)
                                } else {
                                    spec_var_expr(
                                        ts,
                                        after,
                                        Spanned {
                                            inner: StatementVariant::ArrayReference {
                                                variable_reference: Box::new(stmt),
                                                index: Box::new(index),
                                            },
                                            span: join(tkn.span, ts[q + m].span),
                                        },
                                    )
                                }
                            },
                        }
                    }
                },
            },
            Token::Dot => if q < ts.len() {
                match ts[q].inner {
                    Token::Identifier(field_name) => spec_var_expr(
                        ts,
                        q + 1,
                        Spanned {
                            inner: StatementVariant::StructFieldReference { variable_reference: Box::new(stmt), field_name },
                            span: tkn.span,
                        },
                    ),
                    _ => (Err(ParserError::SyntaxError(SyntaxError::InvalidStructFieldReference)), q + 1),
                }
            } else {
                (Err(ParserError::SyntaxError(SyntaxError::InvalidStructFieldReference)), q)
            },
            Token::MathSym(symbol) => {
                let (r, e) = spec_expr(ts, q);
                match r {
                    Err(x) => (Err(x), e),
                    Ok(rhs) => if e <= p || e > ts.len() {
                        (Err(ParserError::EOF), e)
                    } else {
                        spec_var_expr(
                            ts,
                            e,
                            Spanned {
                                inner: StatementVariant::MathematicalExpression {
                                    lhs: Box::new(stmt),
                                    symbol,
                                    rhs: Box::new(rhs),
                                },
                                span: join(tkn.span, ts[e - 1].span),
                            },
                        )
                    },
                }
            },
            Token::Comma => (Ok(stmt), q),
            Token::SetValueMathSym(symbol) => {
                let (r, e) = spec_expr(ts, q);
                match r {
                    Err(x) => (Err(x), e),
                    Ok(value) => (
                        Ok(
                            Spanned {
                                inner: StatementVariant::ModifyValueArithmetic {
                                    receiver: Box::new(stmt),
                                    symbol,
                                    value: Box::new(value),
                                },
                                span: join(stmt.span, value.span),
                            },
                        ),
                        e,
                    ),
                }
            },
            Token::SetValue => {
                let (r, e) = spec_expr(ts, q);
                match r {
                    Err(x) => (Err(x), e),
                    Ok(value) => (
                        Ok(
                            Spanned {
                                inner: StatementVariant::SetValue { receiver: Box::new(stmt), value: Box::new(value) },
                                span: join(stmt.span, value.span),
                            },
                        ),
                        e,
                    ),
                }
            },
            Token::LogicalOperator(_) | Token::Comparison(_) | Token::OpenAngledBrackets | Token::CloseAngledBrackets => {
                let (r, e) = spec_expr(ts, q);
                match r {
                    Err(x) => (Err(x), e),
                    Ok(rhs) => if e <= p || e > ts.len() {
                        (Err(ParserError::EOF), e)
                    } else {
                        spec_var_expr(ts, e, Spanned { inner: binary(stmt, tkn.inner, rhs), span: join(stmt.span, rhs.span) })
                    },
                }
            },
            _ => (Err(ParserError::SyntaxError(SyntaxError::InvalidVariableExpression)), q),
        }
    }
}


/// An expression followed by an operator and a second expression is joined
/// with that very operator, the first expression on the left and the second
/// on the right: an arithmetic symbol gives the arithmetic of that symbol,
/// `&&` and `||` the logical operation of the token, `==`, `!=`, `>=` and
/// `<=` the comparison of the token, and the angle brackets `<` and `>` the
/// orders `Bigger` and `Smaller`, as this parser reads them; parsing then
/// goes on after the second expression. `=` and `<symbol>=` end the
/// expression with an assignment of the second expression to the first.
pub proof fn law_operators_keep_their_meaning(ts: Seq<Spanned<Token>>, p: int, stmt: Spanned<StatementVariant>)
    requires
        0 <= p < ts.len(),
        spec_expr(ts, p + 1).0 is Ok,
        p < spec_expr(ts, p + 1).1 <= ts.len(),
    ensures
        ({
            let rhs = spec_expr(ts, p + 1).0->Ok_0;
            let e = spec_expr(ts, p + 1).1;
            let joined = |inner: StatementVariant| Spanned { inner, span: join(stmt.span, rhs.span) };
            &&& ts[p].inner matches Token::LogicalOperator(o) ==> spec_var_expr(ts, p, stmt) == spec_var_expr(
                ts,
                e,
                joined(StatementVariant::LogicalOperation { lhs: Box::new(stmt), op: o, rhs: Box::new(rhs) }),
            )
            &&& ts[p].inner matches Token::Comparison(o) ==> spec_var_expr(ts, p, stmt) == spec_var_expr(
                ts,
                e,
                joined(StatementVariant::Comparison { lhs: Box::new(stmt), ord: o, rhs: Box::new(rhs) }),
            )
            &&& ts[p].inner is OpenAngledBrackets ==> spec_var_expr(ts, p, stmt) == spec_var_expr(
                ts,
                e,
                joined(StatementVariant::Comparison { lhs: Box::new(stmt), ord: Order::Bigger, rhs: Box::new(rhs) }),
            )
            &&& ts[p].inner is CloseAngledBrackets ==> spec_var_expr(ts, p, stmt) == spec_var_expr(
                ts,
                e,
                joined(StatementVariant::Comparison { lhs: Box::new(stmt), ord: Order::Smaller, rhs: Box::new(rhs) }),
            )
            &&& ts[p].inner matches Token::MathSym(symbol) ==> spec_var_expr(ts, p, stmt) == spec_var_expr(
                ts,
                e,
                Spanned {
                    inner: StatementVariant::MathematicalExpression { lhs: Box::new(stmt), symbol, rhs: Box::new(rhs) },
                    span: join(ts[p].span, ts[e - 1].span),
                },
            )
            &&& ts[p].inner matches Token::SetValueMathSym(symbol) ==> spec_var_expr(ts, p, stmt) == (
                Ok::<Spanned<StatementVariant>, ParserError>(
                    joined(StatementVariant::ModifyValueArithmetic { receiver: Box::new(stmt), symbol, value: Box::new(rhs) }),
                ),
                e,
            )
            &&& ts[p].inner is SetValue ==> spec_var_expr(ts, p, stmt) == (
                Ok::<Spanned<StatementVariant>, ParserError>(
                    joined(StatementVariant::SetValue { receiver: Box::new(stmt), value: Box::new(rhs) }),
                ),
                e,
            )
        }),
{
}

fn join_spans(a: SpanInfo, b: SpanInfo) -> (r: SpanInfo)
    ensures
        r == join(a, b),
{
    SpanInfo { char_start: a.char_start, char_end: b.char_end }
}

fn push_statement(statements: Statements, s: Spanned<StatementVariant>) -> (r: Statements)
    ensures
        r == statements_push(statements, s),
    decreases statements,
{
    match statements {
        Statements::End => Statements::Item(Box::new(s), Box::new(Statements::End)),
        Statements::Item(h, t) => Statements::Item(h, Box::new(push_statement(*t, s))),
    }
}

fn same_key_exec(a: &FunctionArgumentIdentifier<String, usize>, b: &FunctionArgumentIdentifier<String, usize>) -> (r: bool)
    ensures
        r == same_key(*a, *b),
{
    match (a, b) {
        (FunctionArgumentIdentifier::Identifier(x), FunctionArgumentIdentifier::Identifier(y)) => *x == *y,
        (FunctionArgumentIdentifier::Index(i), FunctionArgumentIdentifier::Index(j)) => *i == *j,
        _ => false,
    }
}

fn insert_argument(
    arguments: Arguments,
    key: FunctionArgumentIdentifier<String, usize>,
    value: Spanned<StatementVariant>,
) -> (r: Arguments)
    ensures
        r == arguments_insert(arguments, key, value),
    decreases arguments,
{
    match arguments {
        Arguments::End => Arguments::Item(key, Box::new(value), Box::new(Arguments::End)),
        Arguments::Item(k, v, t) => if same_key_exec(&k, &key) {
            Arguments::Item(k, Box::new(value), t)
        } else {
            Arguments::Item(k, v, Box::new(insert_argument(*t, key, value)))
        },
    }
}

fn make_binary(lhs: Spanned<StatementVariant>, op: &Token, rhs: Spanned<StatementVariant>) -> (r: StatementVariant)
    ensures
        r == binary(lhs, *op, rhs),
{
    match op {
        Token::LogicalOperator(o) => StatementVariant::LogicalOperation { lhs: Box::new(lhs), op: *o, rhs: Box::new(rhs) },
        Token::Comparison(o) => StatementVariant::Comparison { lhs: Box::new(lhs), ord: *o, rhs: Box::new(rhs) },
        Token::OpenAngledBrackets => StatementVariant::Comparison { lhs: Box::new(lhs), ord: Order::Bigger, rhs: Box::new(rhs) },
        _ => StatementVariant::Comparison { lhs: Box::new(lhs), ord: Order::Smaller, rhs: Box::new(rhs) },
    }
}

/// The position of the token that closes a group opened just before `q`.
fn closing_from(ts: &[Spanned<Token>], q: usize, open: TokenDiscriminants, close: TokenDiscriminants) -> (r: Option<usize>)
    requires
        q <= ts@.len(),
    ensures
        match r {
            Some(c) => closing_at(ts@, q as int, 1, open, close) == Some(c as int) && q <= c < ts@.len(),
            None => closing_at(ts@, q as int, 1, open, close) is None,
        },
{
    let mut level: i128 = 1;
    let mut i: usize = q;
    while i < ts.len()
        invariant
            q <= i <= ts@.len(),
            level != 0,
            -(i as int) <= level <= i + 1,
            closing_at(ts@, q as int, 1, open, close) == closing_at(ts@, i as int, level as int, open, close),
        decreases ts@.len() - i,
    {
        let kind = ts[i].inner.discriminant();
        if kind == open {
            level = level + 1;
        } else if kind == close {
            level = level - 1;
        }
        if level == 0 {
            return Some(i);
        }
        i = i + 1;
    }
    None
}

fn literal_stmt(text: &String) -> (r: Result<StatementVariant, ParserError>)
    ensures
        r == literal_statement(*text),
{
    match try_match_suffix(text.as_str()) {
        Some((lit, ty)) => match ty {
            TypeDiscriminants::F64 | TypeDiscriminants::F32 | TypeDiscriminants::F16 => Ok(
                StatementVariant::FloatLiteral(text.clone(), Some(ty)),
            ),
            _ => {
                let dest = match ty {
                    TypeDiscriminants::I64 => Some(Type::I64),
                    TypeDiscriminants::U64 => Some(Type::U64),
                    TypeDiscriminants::I32 => Some(Type::I32),
                    TypeDiscriminants::U32 => Some(Type::U32),
                    TypeDiscriminants::I16 => Some(Type::I16),
                    TypeDiscriminants::U16 => Some(Type::U16),
                    TypeDiscriminants::U8 => Some(Type::U8),
                    _ => None,
                };
                match dest {
                    Some(t) => match unparsed_const_to_typed_literal_unsafe(lit.as_str(), Some(t), None) {
                        Ok(v) => Ok(StatementVariant::Value(v)),
                        Err(_) => Err(ParserError::LiteralOutOfRange(text.clone())),
                    },
                    None => Err(ParserError::LiteralOutOfRange(text.clone())),
                }
            },
        },
        None => {
            let chars = chars_of(text.as_str());
            if contains_char(chars.as_slice(), '.') {
                Ok(StatementVariant::FloatLiteral(text.clone(), None))
            } else {
                match fit_unsigned(text.as_str()) {
                    Ok(v) => Ok(StatementVariant::Value(v)),
                    Err(_) => Err(ParserError::LiteralOutOfRange(text.clone())),
                }
            }
        },
    }
}

fn expr_at(ts: &[Spanned<Token>], p: usize) -> (r: (Result<Spanned<StatementVariant>, ParserError>, usize))
    requires
        p <= ts@.len(),
    ensures
        r.0 == spec_expr(ts@, p as int).0,
        r.1 == spec_expr(ts@, p as int).1,
        p <= r.1 <= ts@.len(),
        r.0 is Ok ==> p < r.1,
    decreases ts@.len() - p, 1int,
{
    if p >= ts.len() {
        return (Err(ParserError::EOF), p);
    }
    let q = p + 1;
    let span = ts[p].span;
    match &ts[p].inner {
        Token::Identifier(ident) => var_expr_at(
            ts,
            q,
            Spanned { inner: StatementVariant::BasicReference { variable_name: ident.clone() }, span },
        ),
        Token::Literal(val) => var_expr_at(ts, q, Spanned { inner: StatementVariant::Value(clone_value(val)), span }),
        Token::Reference => {
            let (r, e) = expr_at(ts, q);
            match r {
                Ok(v) => (Ok(Spanned { inner: StatementVariant::GetPointerTo(Box::new(v)), span }), e),
                Err(x) => (Err(x), e),
            }
        },
        Token::Dereference => {
            let (r, e) = expr_at(ts, q);
            match r {
                Ok(v) => (Ok(Spanned { inner: StatementVariant::DerefPointer(Box::new(v)), span }), e),
                Err(x) => (Err(x), e),
            }
        },
        Token::UnparsedLiteral(text) => match literal_stmt(text) {
            Ok(v) => var_expr_at(ts, q, Spanned { inner: v, span }),
            Err(x) => (Err(x), q),
        },
        Token::MathSym(MathematicalSymbol::Subtraction) => {
            let (r, e) = expr_at(ts, q);
            match r {
                Ok(v) => var_expr_at(ts, e, Spanned { inner: StatementVariant::NegateValue(Box::new(v)), span }),
                Err(x) => (Err(x), e),
            }
        },
        Token::MathSym(MathematicalSymbol::Addition) => {
            let (r, e) = expr_at(ts, q);
            match r {
                Ok(v) => var_expr_at(ts, e, v),
                Err(x) => (Err(x), e),
            }
        },
        Token::Return => {
            let (r, e) = expr_at(ts, q);
            match r {
                Ok(v) => {
                    let vspan = v.span;
                    (Ok(Spanned { inner: StatementVariant::ReturnValue { value: Box::new(v) }, span: join_spans(span, vspan) }), e)
                },
                Err(x) => (Err(x), e),
            }
        },
        Token::OpenBraces => match closing_from(ts, q, TokenDiscriminants::OpenBraces, TokenDiscriminants::CloseBraces) {
            None => (Err(ParserError::SyntaxError(SyntaxError::LeftOpenBraces)), q),
            Some(c) => {
                let w = vstd::slice::slice_subrange(ts, q, c);
                let (r, m) = values_at(w, 0, Statements::End);
                match r {
                    Err(x) => (Err(x), q + m),
                    Ok(values) => {
                        let at = q + m;
                        if at < ts.len() && ts[at].inner.discriminant() == TokenDiscriminants::CloseBraces {
                            let close_span = ts[at].span;
                            var_expr_at(
                                ts,
                                at + 1,
                                Spanned {
                                    inner: StatementVariant::ArrayInitialization { values },
                                    span: join_spans(span, close_span),
                                },
                            )
                        } else if at < ts.len() {
                            (Err(ParserError::SyntaxError(SyntaxError::LeftOpenBraces)), at + 1)
                        } else {
                            (Err(ParserError::SyntaxError(SyntaxError::LeftOpenBraces)), at)
                        }
                    },
                }
            },
        },
        Token::OpenParentheses => match closing_from(
            ts,
            q,
            TokenDiscriminants::OpenParentheses,
            TokenDiscriminants::CloseParentheses,
        ) {
            None => (Err(ParserError::SyntaxError(SyntaxError::LeftOpenBraces)), q),
            Some(c) => {
                let w = vstd::slice::slice_subrange(ts, q, c);
                let (r, m) = expr_at(w, 0);
                match r {
                    Err(x) => (Err(x), q + m),
                    Ok(g) => {
                        let at = q + m;
                        if at < ts.len() && ts[at].inner.discriminant() == TokenDiscriminants::CloseParentheses {
                            let close_span = ts[at].span;
                            let grouped = Spanned {
                                inner: StatementVariant::Grouping { inner_expr: Box::new(g) },
                                span: join_spans(span, close_span),
                            };
                            let (r2, e2) = var_expr_at(ts, at + 1, grouped);
                            match r2 {
                                Err(x) => (Err(x), e2),
                                Ok(complete) => {
                                    let cspan = complete.span;
                                    var_expr_at(ts, e2, Spanned { inner: complete.inner, span: join_spans(span, cspan) })
                                },
                            }
                        } else if at < ts.len() {
                            (Err(ParserError::SyntaxError(SyntaxError::LeftOpenParentheses)), at + 1)
                        } else {
                            (Err(ParserError::SyntaxError(SyntaxError::LeftOpenParentheses)), at)
                        }
                    },
                }
            },
        },
        _ => (Err(ParserError::UnknownExpression), q),
    }
}

fn values_at(ts: &[Spanned<Token>], p: usize, acc: Statements) -> (r: (Result<Statements, ParserError>, usize))
    requires
        p <= ts@.len(),
    ensures
        r.0 == spec_values(ts@, p as int, acc).0,
        r.1 == spec_values(ts@, p as int, acc).1,
        p <= r.1 <= ts@.len(),
    decreases ts@.len() - p, 2int,
{
    if p >= ts.len() {
        return (Ok(acc), p);
    }
    let (r, e) = expr_at(ts, p);
    match r {
        Err(x) => (Err(x), e),
        Ok(v) => values_at(ts, e, push_statement(acc, v)),
    }
}

fn args_at(ts: &[Spanned<Token>], p: usize, idx: usize, acc: Arguments) -> (r: (Result<Arguments, ParserError>, usize))
    requires
        idx <= p <= ts@.len(),
    ensures
        r.0 == spec_args(ts@, p as int, idx as nat, acc).0,
        r.1 == spec_args(ts@, p as int, idx as nat, acc).1,
        p <= r.1 <= ts@.len(),
    decreases ts@.len() - p, 2int,
{
    if p >= ts.len() {
        return (Ok(acc), p);
    }
    let named: Option<String> = if p + 1 < ts.len() {
        match (&ts[p].inner, &ts[p + 1].inner) {
            (Token::Identifier(n), Token::SetValue) => Some(n.clone()),
            _ => None,
        }
    } else {
        None
    };
    match named {
        Some(name) => {
            let (r, e) = expr_at(ts, p + 2);
            match r {
                Err(x) => (Err(x), e),
                Ok(v) => args_at(ts, e, idx, insert_argument(acc, FunctionArgumentIdentifier::Identifier(name), v)),
            }
        },
        None => {
            let (r, e) = expr_at(ts, p);
            match r {
                Err(x) => (Err(x), e),
                Ok(v) => args_at(ts, e, idx + 1, insert_argument(acc, FunctionArgumentIdentifier::Index(idx), v)),
            }
        },
    }
}

fn var_expr_at(ts: &[Spanned<Token>], p: usize, stmt: Spanned<StatementVariant>) -> (r: (
    Result<Spanned<StatementVariant>, ParserError>,
    usize,
))
    requires
        p <= ts@.len(),
    ensures
        r.0 == spec_var_expr(ts@, p as int, stmt).0,
        r.1 == spec_var_expr(ts@, p as int, stmt).1,
        p <= r.1 <= ts@.len(),
    decreases ts@.len() - p, 0int,
{
    if p >= ts.len() {
        return (Ok(stmt), p);
    }
    let q = p + 1;
    let span = ts[p].span;
    match &ts[p].inner {
        Token::OpenParentheses => {
            if q < ts.len() && ts[q].inner.discriminant() == TokenDiscriminants::CloseParentheses {
                let close_span = ts[q].span;
                return var_expr_at(
                    ts,
                    q + 1,
                    Spanned {
                        inner: StatementVariant::FunctionCall { identifier: Box::new(stmt), arguments: Arguments::End },
                        span: join_spans(span, close_span),
                    },
                );
            }
            match closing_from(ts, q, TokenDiscriminants::OpenParentheses, TokenDiscriminants::CloseParentheses) {
                None => (Err(ParserError::SyntaxError(SyntaxError::LeftOpenParentheses)), q),
                Some(c) => {
                    let w = vstd::slice::slice_subrange(ts, q, c);
                    let (r, m) = args_at(w, 0, 0, Arguments::End);
                    match r {
                        Err(x) => (Err(x), q + m),
                        Ok(arguments) => {
                            let at = q + m;
                            if at < ts.len() && ts[at].inner.discriminant() == TokenDiscriminants::CloseParentheses {
                                let close_span = ts[at].span;
                                var_expr_at(
                                    ts,
                                    at + 1,
                                    Spanned {
                                        inner: StatementVariant::FunctionCall { identifier: Box::new(stmt), arguments },
                                        span: join_spans(span, close_span),
                                    },
                                )
                            } else if at < ts.len() {
                                (Err(ParserError::SyntaxError(SyntaxError::LeftOpenParentheses)), at + 1)
                            } else {
                                (Err(ParserError::SyntaxError(SyntaxError::LeftOpenParentheses)), at)
                            }
                        },
                    }
                },
            }
        },
        Token::OpenSquareBrackets => match closing_from(
            ts,
            q,
            TokenDiscriminants::OpenSquareBrackets,
            TokenDiscriminants::CloseSquareBrackets,
        ) {
            None => (Err(ParserError::SyntaxError(SyntaxError::LeftOpenSquareBrackets)), q),
            Some(c) => {
                let w = vstd::slice::slice_subrange(ts, q, c);
                let (r, m) = expr_at(w, 0);
                match r {
                    Err(x) => (Err(x), q + m),
                    Ok(index) => {
                        let at = q + m;
                        if at < ts.len() && ts[at].inner.discriminant() == TokenDiscriminants::CloseSquareBrackets {
                            let close_span = ts[at].span;
                            var_expr_at(
                                ts,
                                at + 1,
                                Spanned {
                                    inner: StatementVariant::ArrayReference {
                                        variable_reference: Box::new(stmt),
                                        index: Box::new(index),
                                    },
                                    span: join_spans(span, close_span),
                                },
                            )
                        } else if at < ts.len() {
                            (Err(ParserError::SyntaxError(SyntaxError::LeftOpenSquareBrackets)), at + 1)
                        } else {
                            (Err(ParserError::SyntaxError(SyntaxError::LeftOpenSquareBrackets)), at)
                        }
                    },
                }
            },
        },
        Token::Dot => {
            if q < ts.len() {
                match &ts[q].inner {
                    Token::Identifier(field_name) => var_expr_at(
                        ts,
                        q + 1,
                        Spanned {
                            inner: StatementVariant::StructFieldReference {
                                variable_reference: Box::new(stmt),
                                field_name: field_name.clone(),
                            },
                            span,
                        },
                    ),
                    _ => (Err(ParserError::SyntaxError(SyntaxError::InvalidStructFieldReference)), q + 1),
                }
            } else {
                (Err(ParserError::SyntaxError(SyntaxError::InvalidStructFieldReference)), q)
            }
        },
        Token::MathSym(symbol) => {
            let symbol = *symbol;
            let (r, e) = expr_at(ts, q);
            match r {
                Err(x) => (Err(x), e),
                Ok(rhs) => {
                    let last_span = ts[e - 1].span;
                    var_expr_at(
                        ts,
                        e,
                        Spanned {
                            inner: StatementVariant::MathematicalExpression {
                                lhs: Box::new(stmt),
                                symbol,
                                rhs: Box::new(rhs),
                            },
                            span: join_spans(span, last_span),
                        },
                    )
                },
            }
        },
        Token::Comma => (Ok(stmt), q),
        Token::SetValueMathSym(symbol) => {
            let symbol = *symbol;
            let (r, e) = expr_at(ts, q);
            match r {
                Err(x) => (Err(x), e),
                Ok(value) => {
                    let s2 = join_spans(stmt.span, value.span);
                    (
                        Ok(
                            Spanned {
                                inner: StatementVariant::ModifyValueArithmetic {
                                    receiver: Box::new(stmt),
                                    symbol,
                                    value: Box::new(value),
                                },
                                span: s2,
                            },
                        ),
                        e,
                    )
                },
            }
        },
        Token::SetValue => {
            let (r, e) = expr_at(ts, q);
            match r {
                Err(x) => (Err(x), e),
                Ok(value) => {
                    let s2 = join_spans(stmt.span, value.span);
                    (
                        Ok(
                            Spanned {
                                inner: StatementVariant::SetValue { receiver: Box::new(stmt), value: Box::new(value) },
                                span: s2,
                            },
                        ),
                        e,
                    )
                },
            }
        },
        Token::LogicalOperator(_) | Token::Comparison(_) | Token::OpenAngledBrackets | Token::CloseAngledBrackets => {
            let op = &ts[p].inner;
            let (r, e) = expr_at(ts, q);
            match r {
                Err(x) => (Err(x), e),
                Ok(rhs) => {
                    let s2 = join_spans(stmt.span, rhs.span);
                    var_expr_at(ts, e, Spanned { inner: make_binary(stmt, op, rhs), span: s2 })
                },
            }
        },
        _ => (Err(ParserError::SyntaxError(SyntaxError::InvalidVariableExpression)), q),
    }
}

/// Parses the expression at the cursor, which moves past it; see
/// `spec_expr`.
pub fn parse_expr(tokens: &mut Stream<Spanned<Token>>) -> (r: Result<Spanned<StatementVariant>, ParserError>)
    requires
        old(tokens).spec_valid(),
    ensures
        final(tokens).spec_valid(),
        final(tokens).spec_items() == old(tokens).spec_items(),
        r == spec_expr(old(tokens).spec_items(), old(tokens).spec_cursor()).0,
        final(tokens).spec_cursor() == spec_expr(old(tokens).spec_items(), old(tokens).spec_cursor()).1,
{
    let p = tokens.stream_idx();
    let len = Stream::len(tokens);
    if p > len {
        return Err(ParserError::EOF);
    }
    let (r, e) = expr_at(tokens.items(), p);
    tokens.set_cursor(e);
    r
}

/// Parses what follows the expression `stmt` at the cursor (a call, an
/// index, a field, an operator, an assignment), which moves past it; see
/// `spec_var_expr`.
pub fn parse_variable_expression(
    tokens: &mut Stream<Spanned<Token>>,
    stmt: Spanned<StatementVariant>,
) -> (r: Result<Spanned<StatementVariant>, ParserError>)
    requires
        old(tokens).spec_valid(),
    ensures
        final(tokens).spec_valid(),
        final(tokens).spec_items() == old(tokens).spec_items(),
        r == spec_var_expr(old(tokens).spec_items(), old(tokens).spec_cursor(), stmt).0,
        final(tokens).spec_cursor() == spec_var_expr(old(tokens).spec_items(), old(tokens).spec_cursor(), stmt).1,
{
    let p = tokens.stream_idx();
    let len = Stream::len(tokens);
    if p > len {
        return Ok(stmt);
    }
    let (r, e) = var_expr_at(tokens.items(), p, stmt);
    tokens.set_cursor(e);
    r
}
} // verus!
