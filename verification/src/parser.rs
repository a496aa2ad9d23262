//! Syntax and semantic analysis: a recursive-descent parser over the token
//! sequence, producing an ordered sequence of statement nodes.
//!
//! Declaration checking is folded into the syntax pass: a set of declared
//! names is threaded through the whole parse and consulted at every `let`,
//! `input` and identifier-reference site.  The parser stops at the first
//! violation and returns a structured error.  What it produces is pinned
//! down by the `sp_*` specification functions below.

use vstd::prelude::*;

use crate::lexer::{spec_tokens_view, SpecToken, Token, TokenData, TokenKind};
use crate::strutil::{i64_to_string, push_char};
use vstd::string::*;

verus! {

/// A name appearing in the program text.
#[derive(Debug)]
pub struct Identifier {
    pub id: String,
}

/// One statement node of the abstract syntax tree.
#[derive(Debug)]
pub enum Statement {
    Print { option: PrintOption },
    If { comparison: Comparison, statements: Vec<Statement> },
    While { comparison: Comparison, statements: Vec<Statement> },
    Let { identifier: Identifier, expression: Expression },
    Input { identifier: Identifier },
    Assign { identifier: Identifier, expression: Expression },
}

/// Exactly one relational operator joining two expressions; comparisons do
/// not chain.
#[derive(Debug)]
pub enum Comparison {
    GreaterThan { lhs: Expression, rhs: Expression },
    GreaterThanEquals { lhs: Expression, rhs: Expression },
    LessThan { lhs: Expression, rhs: Expression },
    LessThanEquals { lhs: Expression, rhs: Expression },
    EqualsEquals { lhs: Expression, rhs: Expression },
    NotEquals { lhs: Expression, rhs: Expression },
}

/// A term plus an optional `+`/`-` continuation whose payload is itself a
/// full expression, so chains associate to the right by construction.
#[derive(Debug)]
pub struct Expression {
    pub lhs: Term,
    pub rhs: Box<Option<ExpressionOp>>,
}

#[derive(Debug)]
pub enum ExpressionOp {
    Plus(Expression),
    Minus(Expression),
}

/// A unary plus an optional `*`/`/` continuation whose payload is itself a
/// full term.
#[derive(Debug)]
pub struct Term {
    pub lhs: Unary,
    pub rhs: Box<Option<TermOp>>,
}

#[derive(Debug)]
pub enum TermOp {
    Multiply(Term),
    Divide(Term),
}

/// A signed or unsigned primary.
#[derive(Debug)]
pub enum Unary {
    Positive(Primary),
    Negative(Primary),
    UnSigned(Primary),
}

/// A literal integer or a reference to a previously declared identifier.
#[derive(Debug)]
pub enum Primary {
    LiteralNumber(i64),
    IdentifierExpression(Identifier),
}

/// What a `print` statement prints: a string literal or an expression.
#[derive(Debug)]
pub enum PrintOption {
    PrintLiteral(String),
    PrintExpression(Expression),
}

/// The dedicated relational-operator tag, narrower than [`TokenKind`]: the
/// only kinds a comparison site can produce.
#[derive(PartialEq, Eq, Structural, Debug, Clone, Copy)]
pub enum RelOp {
    GreaterThan,
    GreaterThanEquals,
    LessThan,
    LessThanEquals,
    EqualsEquals,
    NotEquals,
}

/// The dedicated additive-operator tag: the only kinds an expression
/// continuation site can produce.
#[derive(PartialEq, Eq, Structural, Debug, Clone, Copy)]
pub enum AddOp {
    Plus,
    Minus,
}

/// The dedicated multiplicative-operator tag: the only kinds a term
/// continuation site can produce.
#[derive(PartialEq, Eq, Structural, Debug, Clone, Copy)]
pub enum MulOp {
    Multiply,
    Divide,
}

/// The mathematical model of a primary.
pub enum SpecPrimary {
    Number(i64),
    Ident(Seq<char>),
}

/// The mathematical model of a unary.
pub enum SpecUnary {
    Positive(SpecPrimary),
    Negative(SpecPrimary),
    UnSigned(SpecPrimary),
}

/// The mathematical model of a term: the leading unary followed by the
/// chain of `*`/`/` continuations in source order.
pub struct SpecTerm {
    pub first: SpecUnary,
    pub rest: Seq<(MulOp, SpecUnary)>,
}

/// The mathematical model of an expression: the leading term followed by
/// the chain of `+`/`-` continuations in source order.
pub struct SpecExpression {
    pub first: SpecTerm,
    pub rest: Seq<(AddOp, SpecTerm)>,
}

/// The mathematical model of a comparison.
pub struct SpecComparison {
    pub op: RelOp,
    pub lhs: SpecExpression,
    pub rhs: SpecExpression,
}

/// The mathematical model of what a `print` statement prints.
pub enum SpecPrintOption {
    Literal(Seq<char>),
    Expr(SpecExpression),
}

/// The mathematical model of a statement node.
pub enum SpecStatement {
    Print { option: SpecPrintOption },
    If { comparison: SpecComparison, statements: Seq<SpecStatement> },
    While { comparison: SpecComparison, statements: Seq<SpecStatement> },
    Let { identifier: Seq<char>, expression: SpecExpression },
    Input { identifier: Seq<char> },
    Assign { identifier: Seq<char>, expression: SpecExpression },
}

impl View for Primary {
    type V = SpecPrimary;

    open spec fn view(&self) -> SpecPrimary {
        match self {
            Primary::LiteralNumber(n) => SpecPrimary::Number(*n),
            Primary::IdentifierExpression(id) => SpecPrimary::Ident(id.id@),
        }
    }
}

impl View for Unary {
    type V = SpecUnary;

    open spec fn view(&self) -> SpecUnary {
        match self {
            Unary::Positive(p) => SpecUnary::Positive(p@),
            Unary::Negative(p) => SpecUnary::Negative(p@),
            Unary::UnSigned(p) => SpecUnary::UnSigned(p@),
        }
    }
}

impl View for Term {
    type V = SpecTerm;

    open spec fn view(&self) -> SpecTerm
        decreases self,
    {
        SpecTerm {
            first: self.lhs@,
            rest: match *self.rhs {
                Option::None => Seq::empty(),
                Option::Some(TermOp::Multiply(t)) => seq![(MulOp::Multiply, t.lhs@)] + t@.rest,
                Option::Some(TermOp::Divide(t)) => seq![(MulOp::Divide, t.lhs@)] + t@.rest,
            },
        }
    }
}

impl View for Expression {
    type V = SpecExpression;

    open spec fn view(&self) -> SpecExpression
        decreases self,
    {
        SpecExpression {
            first: self.lhs@,
            rest: match *self.rhs {
                Option::None => Seq::empty(),
                Option::Some(ExpressionOp::Plus(e)) => seq![(AddOp::Plus, e.lhs@)] + e@.rest,
                Option::Some(ExpressionOp::Minus(e)) => seq![(AddOp::Minus, e.lhs@)] + e@.rest,
            },
        }
    }
}

impl View for Comparison {
    type V = SpecComparison;

    open spec fn view(&self) -> SpecComparison {
        match self {
            Comparison::GreaterThan { lhs, rhs } => SpecComparison {
                op: RelOp::GreaterThan,
                lhs: lhs@,
                rhs: rhs@,
            },
            Comparison::GreaterThanEquals { lhs, rhs } => SpecComparison {
                op: RelOp::GreaterThanEquals,
                lhs: lhs@,
                rhs: rhs@,
            },
            Comparison::LessThan { lhs, rhs } => SpecComparison {
                op: RelOp::LessThan,
                lhs: lhs@,
                rhs: rhs@,
            },
            Comparison::LessThanEquals { lhs, rhs } => SpecComparison {
                op: RelOp::LessThanEquals,
                lhs: lhs@,
                rhs: rhs@,
            },
            Comparison::EqualsEquals { lhs, rhs } => SpecComparison {
                op: RelOp::EqualsEquals,
                lhs: lhs@,
                rhs: rhs@,
            },
            Comparison::NotEquals { lhs, rhs } => SpecComparison {
                op: RelOp::NotEquals,
                lhs: lhs@,
                rhs: rhs@,
            },
        }
    }
}

impl View for PrintOption {
    type V = SpecPrintOption;

    open spec fn view(&self) -> SpecPrintOption {
        match self {
            PrintOption::PrintLiteral(s) => SpecPrintOption::Literal(s@),
            PrintOption::PrintExpression(e) => SpecPrintOption::Expr(e@),
        }
    }
}

impl View for Statement {
    type V = SpecStatement;

    open spec fn view(&self) -> SpecStatement
        decreases self,
    {
        match self {
            Statement::Print { option } => SpecStatement::Print { option: option@ },
            Statement::If { comparison, statements } => SpecStatement::If {
                comparison: comparison@,
                statements: spec_statements_view(statements@),
            },
            Statement::While { comparison, statements } => SpecStatement::While {
                comparison: comparison@,
                statements: spec_statements_view(statements@),
            },
            Statement::Let { identifier, expression } => SpecStatement::Let {
                identifier: identifier.id@,
                expression: expression@,
            },
            Statement::Input { identifier } => SpecStatement::Input {
                identifier: identifier.id@,
            },
            Statement::Assign { identifier, expression } => SpecStatement::Assign {
                identifier: identifier.id@,
                expression: expression@,
            },
        }
    }
}

/// The models of a sequence of statement nodes, in order.
pub open spec fn spec_statements_view(q: Seq<Statement>) -> Seq<SpecStatement>
    decreases q,
{
    if q.len() == 0 {
        Seq::empty()
    } else {
        seq![q[0]@] + spec_statements_view(q.drop_first())
    }
}

/// A structured parse error: the offending token (if any), the expected
/// token kind (if applicable) and a human-readable reason.
#[derive(Debug, Clone)]
pub struct ParserError {
    pub token: Option<Token>,
    pub expected: Option<TokenKind>,
    pub reason: Option<String>,
}

pub type ParserResult<T> = Result<T, ParserError>;

/// The mathematical model of a parse error.
pub struct SpecParserError {
    pub token: Option<SpecToken>,
    pub expected: Option<TokenKind>,
    pub reason: Option<Seq<char>>,
}

impl View for ParserError {
    type V = SpecParserError;

    open spec fn view(&self) -> SpecParserError {
        SpecParserError {
            token: match self.token {
                Option::Some(t) => Option::Some(t@),
                Option::None => Option::None,
            },
            expected: self.expected,
            reason: match self.reason {
                Option::Some(s) => Option::Some(s@),
                Option::None => Option::None,
            },
        }
    }
}

/// The outcome of one grammar rule in the specification parser: the parsed
/// value and the position after it, or the structured error that stops the
/// whole parse.
pub enum SpParse<T> {
    Parsed { val: T, next: int },
    Failed { err: SpecParserError },
}

/// The token at `pos`, if any.
pub open spec fn sp_cur(toks: Seq<SpecToken>, pos: int) -> Option<SpecToken> {
    if 0 <= pos < toks.len() {
        Option::Some(toks[pos])
    } else {
        Option::None
    }
}

/// Whether the token at `pos` exists and has exactly kind `k`.
pub open spec fn sp_kind_at(toks: Seq<SpecToken>, pos: int, k: TokenKind) -> bool {
    match sp_cur(toks, pos) {
        Option::Some(t) => t.kind == k,
        Option::None => false,
    }
}

/// The relational operator at `pos`, if the token there is one.
pub open spec fn sp_relop_at(toks: Seq<SpecToken>, pos: int) -> Option<RelOp> {
    match sp_cur(toks, pos) {
        Option::Some(t) => match t.kind {
            TokenKind::GreaterThan => Option::Some(RelOp::GreaterThan),
            TokenKind::GreaterThanEquals => Option::Some(RelOp::GreaterThanEquals),
            TokenKind::LessThan => Option::Some(RelOp::LessThan),
            TokenKind::LessThanEquals => Option::Some(RelOp::LessThanEquals),
            TokenKind::EqualsEquals => Option::Some(RelOp::EqualsEquals),
            TokenKind::NotEquals => Option::Some(RelOp::NotEquals),
            _ => Option::None,
        },
        Option::None => Option::None,
    }
}

/// The additive operator at `pos`, if the token there is one.
pub open spec fn sp_addop_at(toks: Seq<SpecToken>, pos: int) -> Option<AddOp> {
    match sp_cur(toks, pos) {
        Option::Some(t) => match t.kind {
            TokenKind::Plus => Option::Some(AddOp::Plus),
            TokenKind::Minus => Option::Some(AddOp::Minus),
            _ => Option::None,
        },
        Option::None => Option::None,
    }
}

/// The multiplicative operator at `pos`, if the token there is one.
pub open spec fn sp_mulop_at(toks: Seq<SpecToken>, pos: int) -> Option<MulOp> {
    match sp_cur(toks, pos) {
        Option::Some(t) => match t.kind {
            TokenKind::Asterisk => Option::Some(MulOp::Multiply),
            TokenKind::Slash => Option::Some(MulOp::Divide),
            _ => Option::None,
        },
        Option::None => Option::None,
    }
}

/// The number payload at `pos`, if the token there is a number literal.
pub open spec fn sp_number_at(toks: Seq<SpecToken>, pos: int) -> Option<i64> {
    match sp_cur(toks, pos) {
        Option::Some(t) => match t.kind {
            TokenKind::LiteralNumber(n) => Option::Some(n),
            _ => Option::None,
        },
        Option::None => Option::None,
    }
}

/// The debug rendering of a token kind, as it appears in error reasons.
pub open spec fn spec_kind_name(k: TokenKind) -> Seq<char> {
    match k {
        TokenKind::LiteralNumber(n) => "LiteralNumber("@ + crate::strutil::spec_idec_str(n as int)
            + ")"@,
        TokenKind::LiteralString => "LiteralString"@,
        TokenKind::Plus => "Plus"@,
        TokenKind::Minus => "Minus"@,
        TokenKind::Asterisk => "Asterisk"@,
        TokenKind::Slash => "Slash"@,
        TokenKind::Equals => "Equals"@,
        TokenKind::EqualsEquals => "EqualsEquals"@,
        TokenKind::NotEquals => "NotEquals"@,
        TokenKind::GreaterThan => "GreaterThan"@,
        TokenKind::LessThan => "LessThan"@,
        TokenKind::GreaterThanEquals => "GreaterThanEquals"@,
        TokenKind::LessThanEquals => "LessThanEquals"@,
        TokenKind::Let => "Let"@,
        TokenKind::If => "If"@,
        TokenKind::Else => "Else"@,
        TokenKind::While => "While"@,
        TokenKind::OpenCurly => "OpenCurly"@,
        TokenKind::CloseCurly => "CloseCurly"@,
        TokenKind::SemiColon => "SemiColon"@,
        TokenKind::Print => "Print"@,
        TokenKind::Input => "Input"@,
        TokenKind::Invalid => "Invalid"@,
        TokenKind::Whitespace => "Whitespace"@,
        TokenKind::Identifier => "Identifier"@,
        TokenKind::Eof => "Eof"@,
        TokenKind::TokenizationError => "TokenizationError"@,
    }
}

/// The reason text of a missing-expected-token error.
pub open spec fn msg_expected(k: TokenKind) -> Seq<char> {
    "Expected "@ + spec_kind_name(k)
}

/// The reason text of a redeclared-identifier error.
pub open spec fn msg_already_declared(id: Seq<char>) -> Seq<char> {
    "Identifier "@ + id + " is already declared"@
}

/// The reason text of an undeclared-identifier error.
pub open spec fn msg_never_declared(id: Seq<char>) -> Seq<char> {
    "Identifier "@ + id + " is never declared"@
}

/// A failure carrying the token at `pos`.
pub open spec fn sp_fail<T>(
    toks: Seq<SpecToken>,
    pos: int,
    expected: Option<TokenKind>,
    reason: Seq<char>,
) -> SpParse<T> {
    SpParse::Failed {
        err: SpecParserError { token: sp_cur(toks, pos), expected, reason: Option::Some(reason) },
    }
}

/// `p`, but never below `lo`; the recursive rules use it so that every
/// recursion visibly moves forward (the progress lemmas below show the
/// clamp never actually fires on a successful sub-parse).
pub open spec fn sp_at_least(p: int, lo: int) -> int {
    if p < lo {
        lo
    } else {
        p
    }
}

/// How many tokens remain at `pos`: the termination measure of the
/// recursive rules.
pub open spec fn sp_rem(toks: Seq<SpecToken>, pos: int) -> int {
    if pos < toks.len() {
        toks.len() - pos
    } else {
        0
    }
}

/// The text a string-literal token contributes to a `print` statement: its
/// raw text with every quote character removed.
pub open spec fn spec_drop_quotes(s: Seq<char>) -> Seq<char>
    decreases s.len(),
{
    if s.len() == 0 {
        Seq::empty()
    } else {
        spec_drop_quotes(s.drop_last()) + (if s.last() == '"' {
            Seq::<char>::empty()
        } else {
            seq![s.last()]
        })
    }
}

/// The token sequence with every whitespace token removed, in order: what
/// the parser actually consumes.
pub open spec fn spec_strip_ws(toks: Seq<SpecToken>) -> Seq<SpecToken>
    decreases toks.len(),
{
    if toks.len() == 0 {
        Seq::empty()
    } else {
        spec_strip_ws(toks.drop_last()) + (if toks.last().kind == TokenKind::Whitespace {
            Seq::<SpecToken>::empty()
        } else {
            seq![toks.last()]
        })
    }
}

/// The `primary` rule: a number literal or a declared identifier.
pub open spec fn sp_primary(toks: Seq<SpecToken>, pos: int, declared: Set<Seq<char>>) -> SpParse<
    SpecPrimary,
>
    decreases sp_rem(toks, pos), 0int,
{
    if sp_kind_at(toks, pos, TokenKind::Identifier) {
        let id = toks[pos].raw;
        if declared.contains(id) {
            SpParse::Parsed { val: SpecPrimary::Ident(id), next: pos + 1 }
        } else {
            sp_fail(toks, pos + 1, Option::None, msg_never_declared(id))
        }
    } else if sp_number_at(toks, pos) is Some {
        SpParse::Parsed { val: SpecPrimary::Number(sp_number_at(toks, pos)->0), next: pos + 1 }
    } else {
        sp_fail(
            toks,
            pos,
            Option::Some(TokenKind::Identifier),
            "Expected Identifier or literal nr"@,
        )
    }
}

/// The `unary` rule: an optional sign before a primary.
pub open spec fn sp_unary(toks: Seq<SpecToken>, pos: int, declared: Set<Seq<char>>) -> SpParse<
    SpecUnary,
>
    decreases sp_rem(toks, pos), 1int,
{
    match sp_addop_at(toks, pos) {
        Option::Some(op) => match sp_primary(toks, pos + 1, declared) {
            SpParse::Parsed { val, next } => SpParse::Parsed {
                val: if op == AddOp::Plus {
                    SpecUnary::Positive(val)
                } else {
                    SpecUnary::Negative(val)
                },
                next,
            },
            SpParse::Failed { err } => SpParse::Failed { err },
        },
        Option::None => match sp_primary(toks, pos, declared) {
            SpParse::Parsed { val, next } => SpParse::Parsed {
                val: SpecUnary::UnSigned(val),
                next,
            },
            SpParse::Failed { err } => SpParse::Failed { err },
        },
    }
}

/// The `term` rule: a unary with an optional `*`/`/` continuation that is
/// itself a full term, so chains lean to the right.
pub open spec fn sp_term(toks: Seq<SpecToken>, pos: int, declared: Set<Seq<char>>) -> SpParse<
    SpecTerm,
>
    decreases sp_rem(toks, pos), 2int,
{
    match sp_unary(toks, pos, declared) {
        SpParse::Failed { err } => SpParse::Failed { err },
        SpParse::Parsed { val: u, next: p2 } => match sp_mulop_at(toks, p2) {
            Option::Some(op) => match sp_term(toks, sp_at_least(p2 + 1, pos + 1), declared) {
                SpParse::Failed { err } => SpParse::Failed { err },
                SpParse::Parsed { val: t2, next: p3 } => SpParse::Parsed {
                    val: SpecTerm { first: u, rest: seq![(op, t2.first)] + t2.rest },
                    next: p3,
                },
            },
            Option::None => SpParse::Parsed {
                val: SpecTerm { first: u, rest: Seq::empty() },
                next: p2,
            },
        },
    }
}

/// The `expression` rule: a term with an optional `+`/`-` continuation that
/// is itself a full expression, so chains lean to the right.
pub open spec fn sp_expression(toks: Seq<SpecToken>, pos: int, declared: Set<Seq<char>>) -> SpParse<
    SpecExpression,
>
    decreases sp_rem(toks, pos), 3int,
{
    match sp_term(toks, pos, declared) {
        SpParse::Failed { err } => SpParse::Failed { err },
        SpParse::Parsed { val: t, next: p2 } => match sp_addop_at(toks, p2) {
            Option::Some(op) => match sp_expression(
                toks,
                sp_at_least(p2 + 1, pos + 1),
                declared,
            ) {
                SpParse::Failed { err } => SpParse::Failed { err },
                SpParse::Parsed { val: e2, next: p3 } => SpParse::Parsed {
                    val: SpecExpression { first: t, rest: seq![(op, e2.first)] + e2.rest },
                    next: p3,
                },
            },
            Option::None => SpParse::Parsed {
                val: SpecExpression { first: t, rest: Seq::empty() },
                next: p2,
            },
        },
    }
}

/// The `comparison` rule: exactly one relational operator between two
/// expressions.
pub open spec fn sp_comparison(toks: Seq<SpecToken>, pos: int, declared: Set<Seq<char>>) -> SpParse<
    SpecComparison,
>
    decreases sp_rem(toks, pos), 4int,
{
    match sp_expression(toks, pos, declared) {
        SpParse::Failed { err } => SpParse::Failed { err },
        SpParse::Parsed { val: lhs, next: p2 } => match sp_relop_at(toks, p2) {
            Option::Some(op) => match sp_expression(toks, sp_at_least(p2 + 1, pos), declared) {
                SpParse::Failed { err } => SpParse::Failed { err },
                SpParse::Parsed { val: rhs, next: p3 } => SpParse::Parsed {
                    val: SpecComparison { op, lhs, rhs },
                    next: p3,
                },
            },
            Option::None => sp_fail(toks, p2, Option::None, "Expected comparison operator"@),
        },
    }
}

/// The `statement` rule, with declaration checking folded in: the parsed
/// statement, the position after it and the updated declared-name set, or
/// the first error.
pub open spec fn sp_statement(toks: Seq<SpecToken>, pos: int, declared: Set<Seq<char>>) -> SpParse<
    (SpecStatement, Set<Seq<char>>),
>
    decreases sp_rem(toks, pos), 5int,
{
    if sp_kind_at(toks, pos, TokenKind::Print) {
        if sp_kind_at(toks, pos + 1, TokenKind::LiteralString) {
            let lit = spec_drop_quotes(toks[pos + 1].raw);
            if sp_kind_at(toks, pos + 2, TokenKind::SemiColon) {
                SpParse::Parsed {
                    val: (
                        SpecStatement::Print { option: SpecPrintOption::Literal(lit) },
                        declared,
                    ),
                    next: pos + 3,
                }
            } else {
                sp_fail(
                    toks,
                    pos + 2,
                    Option::Some(TokenKind::SemiColon),
                    msg_expected(TokenKind::SemiColon),
                )
            }
        } else {
            match sp_expression(toks, pos + 1, declared) {
                SpParse::Failed { err } => SpParse::Failed { err },
                SpParse::Parsed { val: e, next: p2 } => {
                    if sp_kind_at(toks, p2, TokenKind::SemiColon) {
                        SpParse::Parsed {
                            val: (
                                SpecStatement::Print { option: SpecPrintOption::Expr(e) },
                                declared,
                            ),
                            next: p2 + 1,
                        }
                    } else {
                        sp_fail(
                            toks,
                            p2,
                            Option::Some(TokenKind::SemiColon),
                            msg_expected(TokenKind::SemiColon),
                        )
                    }
                },
            }
        }
    } else if sp_kind_at(toks, pos, TokenKind::If) {
        match sp_comparison(toks, pos + 1, declared) {
            SpParse::Failed { err } => SpParse::Failed { err },
            SpParse::Parsed { val: c, next: p2 } => {
                if sp_kind_at(toks, p2, TokenKind::OpenCurly) {
                    match sp_block(toks, sp_at_least(p2 + 1, pos + 1), declared) {
                        SpParse::Failed { err } => SpParse::Failed { err },
                        SpParse::Parsed { val: b, next: p3 } => {
                            if sp_kind_at(toks, p3, TokenKind::CloseCurly) {
                                SpParse::Parsed {
                                    val: (
                                        SpecStatement::If { comparison: c, statements: b.0 },
                                        b.1,
                                    ),
                                    next: p3 + 1,
                                }
                            } else {
                                sp_fail(
                                    toks,
                                    p3,
                                    Option::Some(TokenKind::CloseCurly),
                                    msg_expected(TokenKind::CloseCurly),
                                )
                            }
                        },
                    }
                } else {
                    sp_fail(
                        toks,
                        p2,
                        Option::Some(TokenKind::OpenCurly),
                        msg_expected(TokenKind::OpenCurly),
                    )
                }
            },
        }
    } else if sp_kind_at(toks, pos, TokenKind::While) {
        match sp_comparison(toks, pos + 1, declared) {
            SpParse::Failed { err } => SpParse::Failed { err },
            SpParse::Parsed { val: c, next: p2 } => {
                if sp_kind_at(toks, p2, TokenKind::OpenCurly) {
                    match sp_block(toks, sp_at_least(p2 + 1, pos + 1), declared) {
                        SpParse::Failed { err } => SpParse::Failed { err },
                        SpParse::Parsed { val: b, next: p3 } => {
                            if sp_kind_at(toks, p3, TokenKind::CloseCurly) {
                                SpParse::Parsed {
                                    val: (
                                        SpecStatement::While { comparison: c, statements: b.0 },
                                        b.1,
                                    ),
                                    next: p3 + 1,
                                }
                            } else {
                                sp_fail(
                                    toks,
                                    p3,
                                    Option::Some(TokenKind::CloseCurly),
                                    msg_expected(TokenKind::CloseCurly),
                                )
                            }
                        },
                    }
                } else {
                    sp_fail(
                        toks,
                        p2,
                        Option::Some(TokenKind::OpenCurly),
                        msg_expected(TokenKind::OpenCurly),
                    )
                }
            },
        }
    } else if sp_kind_at(toks, pos, TokenKind::Let) {
        if !sp_kind_at(toks, pos + 1, TokenKind::Identifier) {
            sp_fail(
                toks,
                pos + 1,
                Option::Some(TokenKind::Identifier),
                "Expected Identifier"@,
            )
        } else {
            let id = toks[pos + 1].raw;
            if declared.contains(id) {
                sp_fail(toks, pos + 2, Option::None, msg_already_declared(id))
            } else {
                let d2 = declared.insert(id);
                if !sp_kind_at(toks, pos + 2, TokenKind::Equals) {
                    sp_fail(
                        toks,
                        pos + 2,
                        Option::Some(TokenKind::Equals),
                        msg_expected(TokenKind::Equals),
                    )
                } else {
                    match sp_expression(toks, pos + 3, d2) {
                        SpParse::Failed { err } => SpParse::Failed { err },
                        SpParse::Parsed { val: e, next: p2 } => {
                            if sp_kind_at(toks, p2, TokenKind::SemiColon) {
                                SpParse::Parsed {
                                    val: (
                                        SpecStatement::Let { identifier: id, expression: e },
                                        d2,
                                    ),
                                    next: p2 + 1,
                                }
                            } else {
                                sp_fail(
                                    toks,
                                    p2,
                                    Option::Some(TokenKind::SemiColon),
                                    msg_expected(TokenKind::SemiColon),
                                )
                            }
                        },
                    }
                }
            }
        }
    } else if sp_kind_at(toks, pos, TokenKind::Input) {
        if !sp_kind_at(toks, pos + 1, TokenKind::Identifier) {
            sp_fail(
                toks,
                pos + 1,
                Option::Some(TokenKind::Identifier),
                "Expected Identifier"@,
            )
        } else {
            let id = toks[pos + 1].raw;
            if declared.contains(id) {
                sp_fail(toks, pos + 2, Option::None, msg_already_declared(id))
            } else {
                let d2 = declared.insert(id);
                if sp_kind_at(toks, pos + 2, TokenKind::SemiColon) {
                    SpParse::Parsed {
                        val: (SpecStatement::Input { identifier: id }, d2),
                        next: pos + 3,
                    }
                } else {
                    sp_fail(
                        toks,
                        pos + 2,
                        Option::Some(TokenKind::SemiColon),
                        msg_expected(TokenKind::SemiColon),
                    )
                }
            }
        }
    } else if sp_kind_at(toks, pos, TokenKind::Identifier) {
        let id = toks[pos].raw;
        if !declared.contains(id) {
            sp_fail(toks, pos + 1, Option::None, msg_never_declared(id))
        } else if !sp_kind_at(toks, pos + 1, TokenKind::Equals) {
            sp_fail(
                toks,
                pos + 1,
                Option::Some(TokenKind::Equals),
                msg_expected(TokenKind::Equals),
            )
        } else {
            match sp_expression(toks, pos + 2, declared) {
                SpParse::Failed { err } => SpParse::Failed { err },
                SpParse::Parsed { val: e, next: p2 } => {
                    if sp_kind_at(toks, p2, TokenKind::SemiColon) {
                        SpParse::Parsed {
                            val: (
                                SpecStatement::Assign { identifier: id, expression: e },
                                declared,
                            ),
                            next: p2 + 1,
                        }
                    } else {
                        sp_fail(
                            toks,
                            p2,
                            Option::Some(TokenKind::SemiColon),
                            msg_expected(TokenKind::SemiColon),
                        )
                    }
                },
            }
        }
    } else {
        sp_fail(toks, pos, Option::None, "Unknown statement"@)
    }
}

/// A block body: statements up to (not including) the matching
/// close-brace.  A missing close-brace surfaces as the error of whatever
/// the next statement parse hits.
pub open spec fn sp_block(toks: Seq<SpecToken>, pos: int, declared: Set<Seq<char>>) -> SpParse<
    (Seq<SpecStatement>, Set<Seq<char>>),
>
    decreases sp_rem(toks, pos), 6int,
{
    match sp_cur(toks, pos) {
        Option::None => sp_fail(toks, pos, Option::None, "Unknown statement"@),
        Option::Some(t) => {
            if t.kind == TokenKind::CloseCurly {
                SpParse::Parsed { val: (Seq::empty(), declared), next: pos }
            } else {
                match sp_statement(toks, pos, declared) {
                    SpParse::Failed { err } => SpParse::Failed { err },
                    SpParse::Parsed { val: s, next: p2 } => match sp_block(
                        toks,
                        sp_at_least(p2, pos + 1),
                        s.1,
                    ) {
                        SpParse::Failed { err } => SpParse::Failed { err },
                        SpParse::Parsed { val: b, next: p3 } => SpParse::Parsed {
                            val: (seq![s.0] + b.0, b.1),
                            next: p3,
                        },
                    },
                }
            }
        },
    }
}

/// The `program` rule: statements up to the end-of-input token or the end
/// of the sequence.
pub open spec fn sp_program(toks: Seq<SpecToken>, pos: int, declared: Set<Seq<char>>) -> SpParse<
    (Seq<SpecStatement>, Set<Seq<char>>),
>
    decreases sp_rem(toks, pos), 7int,
{
    match sp_cur(toks, pos) {
        Option::None => SpParse::Parsed { val: (Seq::empty(), declared), next: pos },
        Option::Some(t) => {
            if t.kind == TokenKind::Eof {
                SpParse::Parsed { val: (Seq::empty(), declared), next: pos }
            } else {
                match sp_statement(toks, pos, declared) {
                    SpParse::Failed { err } => SpParse::Failed { err },
                    SpParse::Parsed { val: s, next: p2 } => match sp_program(
                        toks,
                        sp_at_least(p2, pos + 1),
                        s.1,
                    ) {
                        SpParse::Failed { err } => SpParse::Failed { err },
                        SpParse::Parsed { val: b, next: p3 } => SpParse::Parsed {
                            val: (seq![s.0] + b.0, b.1),
                            next: p3,
                        },
                    },
                }
            }
        },
    }
}

/// A successful `primary` consumes exactly the one token at the cursor.
pub proof fn lemma_sp_primary_progress(toks: Seq<SpecToken>, pos: int, declared: Set<Seq<char>>)
    ensures
        sp_primary(toks, pos, declared) matches SpParse::Parsed { next, .. } ==> pos < next
            <= toks.len(),
    decreases sp_rem(toks, pos), 0int,
{
}

/// A successful `unary` consumes at least one token.
pub proof fn lemma_sp_unary_progress(toks: Seq<SpecToken>, pos: int, declared: Set<Seq<char>>)
    ensures
        sp_unary(toks, pos, declared) matches SpParse::Parsed { next, .. } ==> pos < next
            <= toks.len(),
    decreases sp_rem(toks, pos), 1int,
{
    lemma_sp_primary_progress(toks, pos, declared);
    lemma_sp_primary_progress(toks, pos + 1, declared);
}

/// A successful `term` consumes at least one token.
pub proof fn lemma_sp_term_progress(toks: Seq<SpecToken>, pos: int, declared: Set<Seq<char>>)
    ensures
        sp_term(toks, pos, declared) matches SpParse::Parsed { next, .. } ==> pos < next
            <= toks.len(),
    decreases sp_rem(toks, pos), 2int,
{
    lemma_sp_unary_progress(toks, pos, declared);
    match sp_unary(toks, pos, declared) {
        SpParse::Parsed { val: _, next: p2 } => {
            if sp_mulop_at(toks, p2) is Some {
                lemma_sp_term_progress(toks, sp_at_least(p2 + 1, pos + 1), declared);
            }
        },
        SpParse::Failed { .. } => {},
    }
}

/// A successful `expression` consumes at least one token.
pub proof fn lemma_sp_expression_progress(toks: Seq<SpecToken>, pos: int, declared: Set<Seq<char>>)
    ensures
        sp_expression(toks, pos, declared) matches SpParse::Parsed { next, .. } ==> pos < next
            <= toks.len(),
    decreases sp_rem(toks, pos), 3int,
{
    lemma_sp_term_progress(toks, pos, declared);
    match sp_term(toks, pos, declared) {
        SpParse::Parsed { val: _, next: p2 } => {
            if sp_addop_at(toks, p2) is Some {
                lemma_sp_expression_progress(toks, sp_at_least(p2 + 1, pos + 1), declared);
            }
        },
        SpParse::Failed { .. } => {},
    }
}

/// A successful `comparison` consumes at least one token.
pub proof fn lemma_sp_comparison_progress(toks: Seq<SpecToken>, pos: int, declared: Set<Seq<char>>)
    ensures
        sp_comparison(toks, pos, declared) matches SpParse::Parsed { next, .. } ==> pos < next
            <= toks.len(),
    decreases sp_rem(toks, pos), 4int,
{
    lemma_sp_expression_progress(toks, pos, declared);
    match sp_expression(toks, pos, declared) {
        SpParse::Parsed { val: _, next: p2 } => {
            if sp_relop_at(toks, p2) is Some {
                lemma_sp_expression_progress(toks, sp_at_least(p2 + 1, pos), declared);
            }
        },
        SpParse::Failed { .. } => {},
    }
}

/// A successful `statement` consumes at least one token.
pub proof fn lemma_sp_statement_progress(toks: Seq<SpecToken>, pos: int, declared: Set<Seq<char>>)
    ensures
        sp_statement(toks, pos, declared) matches SpParse::Parsed { next, .. } ==> pos < next
            <= toks.len(),
    decreases sp_rem(toks, pos), 5int,
{
    if sp_kind_at(toks, pos, TokenKind::Print) {
        lemma_sp_expression_progress(toks, pos + 1, declared);
    } else if sp_kind_at(toks, pos, TokenKind::If) || sp_kind_at(toks, pos, TokenKind::While) {
        lemma_sp_comparison_progress(toks, pos + 1, declared);
        match sp_comparison(toks, pos + 1, declared) {
            SpParse::Parsed { val: _, next: p2 } => {
                if sp_kind_at(toks, p2, TokenKind::OpenCurly) {
                    lemma_sp_block_progress(toks, sp_at_least(p2 + 1, pos + 1), declared);
                }
            },
            SpParse::Failed { .. } => {},
        }
    } else if sp_kind_at(toks, pos, TokenKind::Let) {
        if sp_kind_at(toks, pos + 1, TokenKind::Identifier) {
            lemma_sp_expression_progress(toks, pos + 3, declared.insert(toks[pos + 1].raw));
        }
    } else if sp_kind_at(toks, pos, TokenKind::Identifier) {
        lemma_sp_expression_progress(toks, pos + 2, declared);
    }
}

/// A successful block body stops exactly at a close-brace.
pub proof fn lemma_sp_block_progress(toks: Seq<SpecToken>, pos: int, declared: Set<Seq<char>>)
    ensures
        sp_block(toks, pos, declared) matches SpParse::Parsed { next, .. } ==> pos <= next
            < toks.len(),
    decreases sp_rem(toks, pos), 6int,
{
    lemma_sp_statement_progress(toks, pos, declared);
    match sp_cur(toks, pos) {
        Option::Some(t) => {
            if t.kind != TokenKind::CloseCurly {
                match sp_statement(toks, pos, declared) {
                    SpParse::Parsed { val: s, next: p2 } => {
                        lemma_sp_block_progress(toks, sp_at_least(p2, pos + 1), s.1);
                    },
                    SpParse::Failed { .. } => {},
                }
            }
        },
        Option::None => {},
    }
}

/// A successful program parse never moves the cursor backwards.
pub proof fn lemma_sp_program_progress(toks: Seq<SpecToken>, pos: int, declared: Set<Seq<char>>)
    ensures
        sp_program(toks, pos, declared) matches SpParse::Parsed { next, .. } ==> pos <= next,
    decreases sp_rem(toks, pos), 7int,
{
    lemma_sp_statement_progress(toks, pos, declared);
    match sp_cur(toks, pos) {
        Option::Some(t) => {
            if t.kind != TokenKind::Eof {
                match sp_statement(toks, pos, declared) {
                    SpParse::Parsed { val: s, next: p2 } => {
                        lemma_sp_program_progress(toks, sp_at_least(p2, pos + 1), s.1);
                    },
                    SpParse::Failed { .. } => {},
                }
            }
        },
        Option::None => {},
    }
}

/// Parsing is deterministic.  [`Parser::parse`] ensures that its outcome —
/// the statement models on success, the structured error on failure — is
/// exactly `sp_program` of the whitespace-stripped token models, so two
/// parses of the same token sequence produce structurally identical
/// statement sequences, or the identical error.
pub proof fn lemma_parse_deterministic(
    toks: Seq<SpecToken>,
    r1: SpParse<(Seq<SpecStatement>, Set<Seq<char>>)>,
    r2: SpParse<(Seq<SpecStatement>, Set<Seq<char>>)>,
)
    requires
        r1 == sp_program(toks, 0, Set::<Seq<char>>::empty()),
        r2 == sp_program(toks, 0, Set::<Seq<char>>::empty()),
    ensures
        r1 == r2,
{
}

/// Whether some name in `q` reads as `s`.
pub open spec fn spec_has_name(q: Seq<String>, s: Seq<char>) -> bool {
    exists|i: int| 0 <= i < q.len() && #[trigger] (q[i]@) == s
}

/// The models of two concatenated statement sequences concatenate.
pub proof fn lemma_statements_view_concat(a: Seq<Statement>, b: Seq<Statement>)
    ensures
        spec_statements_view(a + b) == spec_statements_view(a) + spec_statements_view(b),
    decreases a.len(),
{
    if a.len() == 0 {
        assert(a + b =~= b);
        assert(spec_statements_view(a) + spec_statements_view(b) =~= spec_statements_view(b));
    } else {
        lemma_statements_view_concat(a.drop_first(), b);
        assert((a + b).drop_first() =~= a.drop_first() + b);
        assert((a + b)[0] == a[0]);
        assert(seq![a[0]@] + (spec_statements_view(a.drop_first()) + spec_statements_view(b))
            =~= (seq![a[0]@] + spec_statements_view(a.drop_first())) + spec_statements_view(b));
    }
}

/// The model sequence is as long as the node sequence.
pub proof fn lemma_statements_view_len(q: Seq<Statement>)
    ensures
        spec_statements_view(q).len() == q.len(),
    decreases q.len(),
{
    if q.len() > 0 {
        lemma_statements_view_len(q.drop_first());
        assert(spec_statements_view(q) == seq![q[0]@] + spec_statements_view(q.drop_first()));
    }
}

/// The model sequence models each node in place.
pub proof fn lemma_statements_view_index(q: Seq<Statement>, i: int)
    requires
        0 <= i < q.len(),
    ensures
        spec_statements_view(q).len() == q.len(),
        spec_statements_view(q)[i] == q[i]@,
    decreases q.len(),
{
    lemma_statements_view_len(q);
    if i > 0 {
        lemma_statements_view_index(q.drop_first(), i - 1);
        assert(spec_statements_view(q) == seq![q[0]@] + spec_statements_view(q.drop_first()));
        assert(q.drop_first()[i - 1] == q[i]);
    } else {
        assert(spec_statements_view(q) == seq![q[0]@] + spec_statements_view(q.drop_first()));
    }
}

/// Extending a modelled prefix by one node appends that node's model.
pub proof fn lemma_statements_view_subrange_push(q: Seq<Statement>, i: int)
    requires
        0 <= i < q.len(),
    ensures
        spec_statements_view(q.subrange(0, i + 1)) == spec_statements_view(
            q.subrange(0, i),
        ).push(q[i]@),
{
    let a = q.subrange(0, i);
    let b = q.subrange(0, i + 1);
    lemma_statements_view_len(a);
    lemma_statements_view_len(b);
    assert forall|j: int| 0 <= j < i + 1 implies spec_statements_view(b)[j]
        == spec_statements_view(a).push(q[i]@)[j] by {
        lemma_statements_view_index(b, j);
        if j < i {
            lemma_statements_view_index(a, j);
        }
    }
    assert(spec_statements_view(b) =~= spec_statements_view(a).push(q[i]@));
}

/// The model of a statement prepended to a sequence.
pub proof fn lemma_statements_view_cons(s: Statement, q: Seq<Statement>)
    ensures
        spec_statements_view(q.insert(0, s)) == seq![s@] + spec_statements_view(q),
{
    let c = q.insert(0, s);
    assert(c[0] == s);
    assert(c.drop_first() =~= q);
}

/// The parser: the whitespace-stripped token sequence, a forward cursor,
/// the declaration-tracking set, and the statements parsed so far.
pub struct Parser {
    tokens: Vec<Token>,
    current: usize,
    identifiers: Vec<String>,
    statements: Vec<Statement>,
}

impl Parser {
    /// The models of the tokens the parser consumes.
    pub closed spec fn toks(&self) -> Seq<SpecToken> {
        spec_tokens_view(self.tokens@)
    }

    /// The cursor: the position of the next token to consume.
    pub closed spec fn pos(&self) -> int {
        self.current as int
    }

    /// The names declared so far.
    pub closed spec fn declared(&self) -> Set<Seq<char>> {
        Set::new(|s: Seq<char>| spec_has_name(self.identifiers@, s))
    }

    /// The models of the statements accumulated so far.
    pub closed spec fn acc(&self) -> Seq<SpecStatement> {
        spec_statements_view(self.statements@)
    }

    /// The cursor never leaves the token sequence.
    pub open spec fn wf(&self) -> bool {
        0 <= self.pos() <= self.toks().len()
    }

    /// Builds a parser over `tokens` with whitespace tokens stripped, an
    /// empty declaration set and the cursor at the start.
    pub fn new(tokens: &[Token]) -> (p: Parser)
        ensures
            p.wf(),
            p.toks() == spec_strip_ws(spec_tokens_view(tokens@)),
            p.pos() == 0,
            p.declared() == Set::<Seq<char>>::empty(),
            p.acc() == Seq::<SpecStatement>::empty(),
    {
        let mut kept: Vec<Token> = Vec::new();
        let mut i: usize = 0;
        while i < tokens.len()
            invariant
                i <= tokens@.len(),
                spec_tokens_view(kept@) == spec_strip_ws(
                    spec_tokens_view(tokens@.subrange(0, i as int)),
                ),
            decreases tokens@.len() - i,
        {
            let ghost pre = kept@;
            proof {
                assert(spec_tokens_view(tokens@.subrange(0, i + 1)).drop_last()
                    =~= spec_tokens_view(tokens@.subrange(0, i as int)));
                assert(spec_tokens_view(tokens@.subrange(0, i + 1)).last() == tokens@[i as int]@);
            }
            if !matches!(tokens[i].kind, TokenKind::Whitespace) {
                let t = &tokens[i];
                kept.push(Token { kind: t.kind, data: TokenData { raw: t.data.raw.clone() } });
                proof {
                    assert(spec_tokens_view(kept@) =~= spec_tokens_view(pre).push(
                        tokens@[i as int]@,
                    ));
                    assert(spec_tokens_view(kept@) =~= spec_strip_ws(
                        spec_tokens_view(tokens@.subrange(0, i + 1)),
                    ));
                }
            } else {
                proof {
                    assert(spec_tokens_view(kept@) =~= spec_strip_ws(
                        spec_tokens_view(tokens@.subrange(0, i + 1)),
                    ));
                }
            }
            i += 1;
        }
        proof {
            assert(tokens@.subrange(0, tokens@.len() as int) =~= tokens@);
        }
        let p = Parser { tokens: kept, current: 0, identifiers: Vec::new(), statements: Vec::new() };
        proof {
            assert(p.declared() =~= Set::<Seq<char>>::empty());
        }
        p
    }

    fn current_token(&self) -> (r: Option<&Token>)
        ensures
            match r {
                Option::Some(t) => sp_cur(self.toks(), self.pos()) == Option::Some(t@),
                Option::None => sp_cur(self.toks(), self.pos()) is None,
            },
    {
        if self.current < self.tokens.len() {
            Some(&self.tokens[self.current])
        } else {
            None
        }
    }

    /// The kind of the token at the cursor, if any.
    fn current_kind(&self) -> (r: Option<TokenKind>)
        ensures
            match r {
                Option::Some(k) => sp_cur(self.toks(), self.pos()) matches Option::Some(t)
                    && t.kind == k,
                Option::None => sp_cur(self.toks(), self.pos()) is None,
            },
    {
        match self.current_token() {
            Some(t) => Some(t.kind),
            None => None,
        }
    }

    /// A copy of the token at the cursor, if any: what error values carry.
    fn cloned_current(&self) -> (r: Option<Token>)
        ensures
            match r {
                Option::Some(t) => sp_cur(self.toks(), self.pos()) == Option::Some(t@),
                Option::None => sp_cur(self.toks(), self.pos()) is None,
            },
    {
        match self.current_token() {
            Some(t) => Some(Token { kind: t.kind, data: TokenData { raw: t.data.raw.clone() } }),
            None => None,
        }
    }

    fn advance_token(&mut self)
        requires
            old(self).wf(),
            old(self).pos() < old(self).toks().len(),
        ensures
            final(self).wf(),
            final(self).toks() == old(self).toks(),
            final(self).declared() == old(self).declared(),
            final(self).acc() == old(self).acc(),
            final(self).pos() == old(self).pos() + 1,
    {
        proof {
            assert(self.tokens@.len() == self.tokens.len());
        }
        self.current += 1;
    }

    fn is_current_token(&self, to_match_against: TokenKind) -> (r: bool)
        ensures
            r == sp_kind_at(self.toks(), self.pos(), to_match_against),
    {
        match self.current_token() {
            Some(t) => t.kind == to_match_against,
            None => false,
        }
    }

    fn is_current_plus_minus_token(&self) -> (r: bool)
        ensures
            r == (sp_addop_at(self.toks(), self.pos()) is Some),
    {
        self.is_current_token(TokenKind::Plus) || self.is_current_token(TokenKind::Minus)
    }

    fn is_current_asterix_slash_token(&self) -> (r: bool)
        ensures
            r == (sp_mulop_at(self.toks(), self.pos()) is Some),
    {
        self.is_current_token(TokenKind::Asterisk) || self.is_current_token(TokenKind::Slash)
    }

    fn is_current_comparison_token(&self) -> (r: bool)
        ensures
            r == (sp_relop_at(self.toks(), self.pos()) is Some),
    {
        self.is_current_token(TokenKind::GreaterThan) || self.is_current_token(
            TokenKind::GreaterThanEquals,
        ) || self.is_current_token(TokenKind::LessThan) || self.is_current_token(
            TokenKind::LessThanEquals,
        ) || self.is_current_token(TokenKind::EqualsEquals) || self.is_current_token(
            TokenKind::NotEquals,
        )
    }

    /// The number payload of the token at the cursor, if it is a number
    /// literal.
    fn current_number(&self) -> (r: Option<i64>)
        ensures
            r == sp_number_at(self.toks(), self.pos()),
    {
        match self.current_kind() {
            Some(TokenKind::LiteralNumber(n)) => Some(n),
            _ => None,
        }
    }

    /// Whether `id` has already been declared.
    fn declared_contains(&self, id: &String) -> (r: bool)
        ensures
            r == self.declared().contains(id@),
    {
        let mut i: usize = 0;
        while i < self.identifiers.len()
            invariant
                i <= self.identifiers@.len(),
                forall|j: int| 0 <= j < i ==> #[trigger] (self.identifiers@[j]@) != id@,
            decreases self.identifiers@.len() - i,
        {
            if self.identifiers[i] == *id {
                proof {
                    assert(spec_has_name(self.identifiers@, id@));
                }
                return true;
            }
            i += 1;
        }
        proof {
            assert(!spec_has_name(self.identifiers@, id@));
        }
        false
    }

    /// Records `id` as declared.
    fn declare(&mut self, id: &String)
        ensures
            final(self).toks() == old(self).toks(),
            final(self).pos() == old(self).pos(),
            final(self).acc() == old(self).acc(),
            final(self).declared() == old(self).declared().insert(id@),
    {
        let ghost q0 = self.identifiers@;
        self.identifiers.push(id.clone());
        proof {
            let q1 = self.identifiers@;
            assert(q1 =~= q0.push(*id));
            assert(final(self).declared() =~= old(self).declared().insert(id@)) by {
                assert forall|s: Seq<char>| spec_has_name(q1, s) implies (spec_has_name(q0, s) || s
                    == id@) by {
                    let i = choose|i: int| 0 <= i < q1.len() && #[trigger] (q1[i]@) == s;
                    if i < q0.len() {
                        assert(q0[i]@ == s);
                    }
                }
                assert forall|s: Seq<char>| spec_has_name(q0, s) implies spec_has_name(q1, s) by {
                    let i = choose|i: int| 0 <= i < q0.len() && #[trigger] (q0[i]@) == s;
                    assert(q1[i]@ == s);
                }
                assert(q1[q0.len() as int]@ == id@);
            }
        }
    }

    fn match_token(&mut self, token_kind: TokenKind) -> (r: ParserResult<()>)
        requires
            old(self).wf(),
        ensures
            final(self).wf(),
            final(self).toks() == old(self).toks(),
            final(self).declared() == old(self).declared(),
            final(self).acc() == old(self).acc(),
            if sp_kind_at(old(self).toks(), old(self).pos(), token_kind) {
                r is Ok && final(self).pos() == old(self).pos() + 1
            } else {
                (r matches Err(e) && e@ == SpecParserError {
                    token: sp_cur(old(self).toks(), old(self).pos()),
                    expected: Option::Some(token_kind),
                    reason: Option::Some(msg_expected(token_kind)),
                }) && final(self).pos() == old(self).pos()
            },
    {
        if self.is_current_token(token_kind) {
            self.advance_token();
            Ok(())
        } else {
            Err(
                ParserError {
                    token: self.cloned_current(),
                    expected: Some(token_kind),
                    reason: Some(build_msg_expected(token_kind)),
                },
            )
        }
    }

    fn match_identifier(&mut self) -> (r: ParserResult<Identifier>)
        requires
            old(self).wf(),
        ensures
            final(self).wf(),
            final(self).toks() == old(self).toks(),
            final(self).declared() == old(self).declared(),
            final(self).acc() == old(self).acc(),
            if sp_kind_at(old(self).toks(), old(self).pos(), TokenKind::Identifier) {
                (r matches Ok(id) && id.id@ == old(self).toks()[old(self).pos()].raw)
                    && final(self).pos() == old(self).pos() + 1
            } else {
                (r matches Err(e) && e@ == SpecParserError {
                    token: sp_cur(old(self).toks(), old(self).pos()),
                    expected: Option::Some(TokenKind::Identifier),
                    reason: Option::Some("Expected Identifier"@),
                }) && final(self).pos() == old(self).pos()
            },
    {
        match self.cloned_current() {
            Some(t) => {
                if t.kind == TokenKind::Identifier {
                    self.advance_token();
                    Ok(Identifier { id: t.data.raw })
                } else {
                    Err(
                        ParserError {
                            token: Some(t),
                            expected: Some(TokenKind::Identifier),
                            reason: Some(String::from_str("Expected Identifier")),
                        },
                    )
                }
            },
            None => Err(
                ParserError {
                    token: None,
                    expected: Some(TokenKind::Identifier),
                    reason: Some(String::from_str("Expected Identifier")),
                },
            ),
        }
    }

    fn match_comparison_token(&mut self) -> (r: ParserResult<RelOp>)
        requires
            old(self).wf(),
        ensures
            final(self).wf(),
            final(self).toks() == old(self).toks(),
            final(self).declared() == old(self).declared(),
            final(self).acc() == old(self).acc(),
            match sp_relop_at(old(self).toks(), old(self).pos()) {
                Option::Some(op) => (r matches Ok(o) && o == op)
                    && final(self).pos() == old(self).pos() + 1,
                Option::None => (r matches Err(e) && e@ == SpecParserError {
                    token: Option::None,
                    expected: Option::None,
                    reason: Option::Some("Expected comparison token"@),
                }) && final(self).pos() == old(self).pos(),
            },
    {
        match self.current_kind() {
            Some(TokenKind::GreaterThan) => {
                self.advance_token();
                Ok(RelOp::GreaterThan)
            },
            Some(TokenKind::GreaterThanEquals) => {
                self.advance_token();
                Ok(RelOp::GreaterThanEquals)
            },
            Some(TokenKind::LessThan) => {
                self.advance_token();
                Ok(RelOp::LessThan)
            },
            Some(TokenKind::LessThanEquals) => {
                self.advance_token();
                Ok(RelOp::LessThanEquals)
            },
            Some(TokenKind::EqualsEquals) => {
                self.advance_token();
                Ok(RelOp::EqualsEquals)
            },
            Some(TokenKind::NotEquals) => {
                self.advance_token();
                Ok(RelOp::NotEquals)
            },
            _ => Err(
                ParserError {
                    token: None,
                    expected: None,
                    reason: Some(String::from_str("Expected comparison token")),
                },
            ),
        }
    }

    fn match_plus_minus_token(&mut self) -> (r: ParserResult<AddOp>)
        requires
            old(self).wf(),
        ensures
            final(self).wf(),
            final(self).toks() == old(self).toks(),
            final(self).declared() == old(self).declared(),
            final(self).acc() == old(self).acc(),
            match sp_addop_at(old(self).toks(), old(self).pos()) {
                Option::Some(op) => (r matches Ok(o) && o == op)
                    && final(self).pos() == old(self).pos() + 1,
                Option::None => (r matches Err(e) && e@ == SpecParserError {
                    token: Option::None,
                    expected: Option::None,
                    reason: Option::Some("Expected signed token"@),
                }) && final(self).pos() == old(self).pos(),
            },
    {
        match self.current_kind() {
            Some(TokenKind::Plus) => {
                self.advance_token();
                Ok(AddOp::Plus)
            },
            Some(TokenKind::Minus) => {
                self.advance_token();
                Ok(AddOp::Minus)
            },
            _ => Err(
                ParserError {
                    token: None,
                    expected: None,
                    reason: Some(String::from_str("Expected signed token")),
                },
            ),
        }
    }

    fn match_asterix_slash_token(&mut self) -> (r: ParserResult<MulOp>)
        requires
            old(self).wf(),
        ensures
            final(self).wf(),
            final(self).toks() == old(self).toks(),
            final(self).declared() == old(self).declared(),
            final(self).acc() == old(self).acc(),
            match sp_mulop_at(old(self).toks(), old(self).pos()) {
                Option::Some(op) => (r matches Ok(o) && o == op)
                    && final(self).pos() == old(self).pos() + 1,
                Option::None => (r matches Err(e) && e@ == SpecParserError {
                    token: Option::None,
                    expected: Option::None,
                    reason: Option::Some("Expected * or / token"@),
                }) && final(self).pos() == old(self).pos(),
            },
    {
        match self.current_kind() {
            Some(TokenKind::Asterisk) => {
                self.advance_token();
                Ok(MulOp::Multiply)
            },
            Some(TokenKind::Slash) => {
                self.advance_token();
                Ok(MulOp::Divide)
            },
            _ => Err(
                ParserError {
                    token: None,
                    expected: None,
                    reason: Some(String::from_str("Expected * or / token")),
                },
            ),
        }
    }

    fn match_primary(&mut self) -> (r: ParserResult<Primary>)
        requires
            old(self).wf(),
        ensures
            final(self).wf(),
            final(self).toks() == old(self).toks(),
            final(self).declared() == old(self).declared(),
            final(self).acc() == old(self).acc(),
            match sp_primary(old(self).toks(), old(self).pos(), old(self).declared()) {
                SpParse::Parsed { val, next } => (r matches Ok(p) && p@ == val)
                    && final(self).pos() == next,
                SpParse::Failed { err } => r matches Err(e) && e@ == err,
            },
    {
        if self.is_current_token(TokenKind::Identifier) {
            let identifier = self.match_identifier()?;
            if !self.declared_contains(&identifier.id) {
                return Err(
                    ParserError {
                        token: self.cloned_current(),
                        expected: None,
                        reason: Some(build_msg_never_declared(&identifier.id)),
                    },
                );
            }
            Ok(Primary::IdentifierExpression(identifier))
        } else {
            match self.current_number() {
                Some(nr) => {
                    self.advance_token();
                    Ok(Primary::LiteralNumber(nr))
                },
                None => Err(
                    ParserError {
                        token: self.cloned_current(),
                        expected: Some(TokenKind::Identifier),
                        reason: Some(String::from_str("Expected Identifier or literal nr")),
                    },
                ),
            }
        }
    }
}

impl Parser {
    fn match_unary(&mut self) -> (r: ParserResult<Unary>)
        requires
            old(self).wf(),
        ensures
            final(self).wf(),
            final(self).toks() == old(self).toks(),
            final(self).declared() == old(self).declared(),
            final(self).acc() == old(self).acc(),
            match sp_unary(old(self).toks(), old(self).pos(), old(self).declared()) {
                SpParse::Parsed { val, next } => (r matches Ok(u) && u@ == val)
                    && final(self).pos() == next,
                SpParse::Failed { err } => r matches Err(e) && e@ == err,
            },
    {
        let op = if self.is_current_plus_minus_token() {
            Some(self.match_plus_minus_token()?)
        } else {
            None
        };
        let primary = self.match_primary()?;
        match op {
            Some(AddOp::Plus) => Ok(Unary::Positive(primary)),
            Some(AddOp::Minus) => Ok(Unary::Negative(primary)),
            None => Ok(Unary::UnSigned(primary)),
        }
    }

    fn match_term(&mut self) -> (r: ParserResult<Term>)
        requires
            old(self).wf(),
        ensures
            final(self).wf(),
            final(self).toks() == old(self).toks(),
            final(self).declared() == old(self).declared(),
            final(self).acc() == old(self).acc(),
            match sp_term(old(self).toks(), old(self).pos(), old(self).declared()) {
                SpParse::Parsed { val, next } => (r matches Ok(t) && t@ == val)
                    && final(self).pos() == next,
                SpParse::Failed { err } => r matches Err(e) && e@ == err,
            },
        decreases old(self).toks().len() - old(self).pos(), 2int,
    {
        let ghost toks = self.toks();
        let ghost p0 = self.pos();
        let ghost d0 = self.declared();
        let lhs = self.match_unary()?;
        proof {
            lemma_sp_unary_progress(toks, p0, d0);
        }
        let op = if self.is_current_asterix_slash_token() {
            Some(self.match_asterix_slash_token()?)
        } else {
            None
        };
        let rhs = match op {
            Some(MulOp::Multiply) => {
                let t = self.match_term()?;
                Some(TermOp::Multiply(t))
            },
            Some(MulOp::Divide) => {
                let t = self.match_term()?;
                Some(TermOp::Divide(t))
            },
            None => None,
        };
        Ok(Term { lhs, rhs: Box::new(rhs) })
    }

    fn match_expression(&mut self) -> (r: ParserResult<Expression>)
        requires
            old(self).wf(),
        ensures
            final(self).wf(),
            final(self).toks() == old(self).toks(),
            final(self).declared() == old(self).declared(),
            final(self).acc() == old(self).acc(),
            match sp_expression(old(self).toks(), old(self).pos(), old(self).declared()) {
                SpParse::Parsed { val, next } => (r matches Ok(e) && e@ == val)
                    && final(self).pos() == next,
                SpParse::Failed { err } => r matches Err(e) && e@ == err,
            },
        decreases old(self).toks().len() - old(self).pos(), 3int,
    {
        let ghost toks = self.toks();
        let ghost p0 = self.pos();
        let ghost d0 = self.declared();
        let lhs = self.match_term()?;
        proof {
            lemma_sp_term_progress(toks, p0, d0);
        }
        let op = if self.is_current_plus_minus_token() {
            Some(self.match_plus_minus_token()?)
        } else {
            None
        };
        let rhs = match op {
            Some(AddOp::Plus) => {
                let e = self.match_expression()?;
                Some(ExpressionOp::Plus(e))
            },
            Some(AddOp::Minus) => {
                let e = self.match_expression()?;
                Some(ExpressionOp::Minus(e))
            },
            None => None,
        };
        Ok(Expression { lhs, rhs: Box::new(rhs) })
    }

    fn match_comparison(&mut self) -> (r: ParserResult<Comparison>)
        requires
            old(self).wf(),
        ensures
            final(self).wf(),
            final(self).toks() == old(self).toks(),
            final(self).declared() == old(self).declared(),
            final(self).acc() == old(self).acc(),
            match sp_comparison(old(self).toks(), old(self).pos(), old(self).declared()) {
                SpParse::Parsed { val, next } => (r matches Ok(c) && c@ == val)
                    && final(self).pos() == next,
                SpParse::Failed { err } => r matches Err(e) && e@ == err,
            },
    {
        let ghost toks = self.toks();
        let ghost p0 = self.pos();
        let ghost d0 = self.declared();
        let lhs = self.match_expression()?;
        proof {
            lemma_sp_expression_progress(toks, p0, d0);
        }
        if self.is_current_comparison_token() {
            let op = self.match_comparison_token()?;
            let rhs = self.match_expression()?;
            match op {
                RelOp::GreaterThan => Ok(Comparison::GreaterThan { lhs, rhs }),
                RelOp::GreaterThanEquals => Ok(Comparison::GreaterThanEquals { lhs, rhs }),
                RelOp::LessThan => Ok(Comparison::LessThan { lhs, rhs }),
                RelOp::LessThanEquals => Ok(Comparison::LessThanEquals { lhs, rhs }),
                RelOp::EqualsEquals => Ok(Comparison::EqualsEquals { lhs, rhs }),
                RelOp::NotEquals => Ok(Comparison::NotEquals { lhs, rhs }),
            }
        } else {
            Err(
                ParserError {
                    token: self.cloned_current(),
                    expected: None,
                    reason: Some(String::from_str("Expected comparison operator")),
                },
            )
        }
    }

    #[verifier::rlimit(100)]
    fn match_statement(&mut self) -> (r: ParserResult<Statement>)
        requires
            old(self).wf(),
        ensures
            final(self).wf(),
            final(self).toks() == old(self).toks(),
            final(self).acc() == old(self).acc(),
            match sp_statement(old(self).toks(), old(self).pos(), old(self).declared()) {
                SpParse::Parsed { val, next } => (r matches Ok(st) && st@ == val.0)
                    && final(self).declared() == val.1 && final(self).pos() == next,
                SpParse::Failed { err } => r matches Err(e) && e@ == err,
            },
        decreases old(self).toks().len() - old(self).pos(), 5int,
    {
        let ghost toks = self.toks();
        let ghost p0 = self.pos();
        let ghost d0 = self.declared();
        if self.is_current_token(TokenKind::Print) {
            self.advance_token();
            let option = match self.cloned_current() {
                Some(t) if t.kind == TokenKind::LiteralString => {
                    let literal = strip_quotes(&t.data.raw);
                    self.advance_token();
                    PrintOption::PrintLiteral(literal)
                },
                _ => {
                    let expression = self.match_expression()?;
                    PrintOption::PrintExpression(expression)
                },
            };
            self.match_token(TokenKind::SemiColon)?;
            Ok(Statement::Print { option })
        } else if self.is_current_token(TokenKind::If) {
            self.advance_token();
            let comparison = self.match_comparison()?;
            proof {
                lemma_sp_comparison_progress(toks, p0 + 1, d0);
            }
            self.match_token(TokenKind::OpenCurly)?;
            let statements = self.match_block()?;
            self.match_token(TokenKind::CloseCurly)?;
            Ok(Statement::If { comparison, statements })
        } else if self.is_current_token(TokenKind::While) {
            self.advance_token();
            let comparison = self.match_comparison()?;
            proof {
                lemma_sp_comparison_progress(toks, p0 + 1, d0);
            }
            self.match_token(TokenKind::OpenCurly)?;
            let statements = self.match_block()?;
            self.match_token(TokenKind::CloseCurly)?;
            Ok(Statement::While { comparison, statements })
        } else if self.is_current_token(TokenKind::Let) {
            self.advance_token();
            let identifier = self.match_identifier()?;
            if self.declared_contains(&identifier.id) {
                return Err(
                    ParserError {
                        token: self.cloned_current(),
                        expected: None,
                        reason: Some(build_msg_already_declared(&identifier.id)),
                    },
                );
            }
            self.declare(&identifier.id);
            self.match_token(TokenKind::Equals)?;
            let expression = self.match_expression()?;
            self.match_token(TokenKind::SemiColon)?;
            Ok(Statement::Let { identifier, expression })
        } else if self.is_current_token(TokenKind::Input) {
            self.advance_token();
            let identifier = self.match_identifier()?;
            if self.declared_contains(&identifier.id) {
                return Err(
                    ParserError {
                        token: self.cloned_current(),
                        expected: None,
                        reason: Some(build_msg_already_declared(&identifier.id)),
                    },
                );
            }
            self.declare(&identifier.id);
            self.match_token(TokenKind::SemiColon)?;
            Ok(Statement::Input { identifier })
        } else if self.is_current_token(TokenKind::Identifier) {
            let identifier = self.match_identifier()?;
            if !self.declared_contains(&identifier.id) {
                return Err(
                    ParserError {
                        token: self.cloned_current(),
                        expected: None,
                        reason: Some(build_msg_never_declared(&identifier.id)),
                    },
                );
            }
            self.match_token(TokenKind::Equals)?;
            let expression = self.match_expression()?;
            self.match_token(TokenKind::SemiColon)?;
            Ok(Statement::Assign { identifier, expression })
        } else {
            Err(
                ParserError {
                    token: self.cloned_current(),
                    expected: None,
                    reason: Some(String::from_str("Unknown statement")),
                },
            )
        }
    }

    fn match_block(&mut self) -> (r: ParserResult<Vec<Statement>>)
        requires
            old(self).wf(),
        ensures
            final(self).wf(),
            final(self).toks() == old(self).toks(),
            final(self).acc() == old(self).acc(),
            match sp_block(old(self).toks(), old(self).pos(), old(self).declared()) {
                SpParse::Parsed { val, next } => (r matches Ok(v) && spec_statements_view(v@)
                    == val.0) && final(self).declared() == val.1 && final(self).pos() == next,
                SpParse::Failed { err } => r matches Err(e) && e@ == err,
            },
        decreases old(self).toks().len() - old(self).pos(), 6int,
    {
        let ghost toks = self.toks();
        let ghost p0 = self.pos();
        let ghost d0 = self.declared();
        if self.is_current_token(TokenKind::CloseCurly) {
            return Ok(Vec::new());
        }
        let st = self.match_statement()?;
        proof {
            lemma_sp_statement_progress(toks, p0, d0);
        }
        let mut rest = self.match_block()?;
        proof {
            lemma_statements_view_cons(st, rest@);
        }
        rest.insert(0, st);
        Ok(rest)
    }

    fn match_program(&mut self) -> (r: ParserResult<Vec<Statement>>)
        requires
            old(self).wf(),
        ensures
            final(self).wf(),
            final(self).toks() == old(self).toks(),
            final(self).acc() == old(self).acc(),
            match sp_program(old(self).toks(), old(self).pos(), old(self).declared()) {
                SpParse::Parsed { val, next } => (r matches Ok(v) && spec_statements_view(v@)
                    == val.0) && final(self).declared() == val.1 && final(self).pos() == next,
                SpParse::Failed { err } => r matches Err(e) && e@ == err,
            },
        decreases old(self).toks().len() - old(self).pos(), 7int,
    {
        let ghost toks = self.toks();
        let ghost p0 = self.pos();
        let ghost d0 = self.declared();
        match self.current_kind() {
            None => {
                return Ok(Vec::new());
            },
            Some(TokenKind::Eof) => {
                return Ok(Vec::new());
            },
            Some(_) => {},
        }
        let st = self.match_statement()?;
        proof {
            lemma_sp_statement_progress(toks, p0, d0);
        }
        let mut rest = self.match_program()?;
        proof {
            lemma_statements_view_cons(st, rest@);
        }
        rest.insert(0, st);
        Ok(rest)
    }

    /// Runs the whole grammar over the token sequence: the ordered statement
    /// sequence of the program, or the first structured error.
    pub fn parse(self) -> (r: ParserResult<Vec<Statement>>)
        requires
            self.wf(),
        ensures
            match sp_program(self.toks(), self.pos(), self.declared()) {
                SpParse::Parsed { val, next } => r matches Ok(v) && spec_statements_view(v@)
                    == self.acc() + val.0,
                SpParse::Failed { err } => r matches Err(e) && e@ == err,
            },
    {
        let ghost toks = self.toks();
        let ghost p0 = self.pos();
        let ghost d0 = self.declared();
        let ghost acc0 = self.acc();
        let mut this = self;
        let parsed = this.match_program();
        match parsed {
            Ok(v) => {
                let ghost accvec = this.statements@;
                let ghost vvec = v@;
                let mut out = this.statements;
                let mut rest = v;
                out.append(&mut rest);
                proof {
                    lemma_statements_view_concat(accvec, vvec);
                }
                Ok(out)
            },
            Err(e) => Err(e),
        }
    }
}

/// Removes every quote character, as the stored text of a `print` string
/// literal requires.
fn strip_quotes(s: &String) -> (r: String)
    ensures
        r@ == spec_drop_quotes(s@),
{
    let n = s.as_str().unicode_len();
    let mut r = String::new();
    let mut i: usize = 0;
    while i < n
        invariant
            i <= n,
            n == s@.len(),
            r@ == spec_drop_quotes(s@.subrange(0, i as int)),
        decreases n - i,
    {
        let c = s.as_str().get_char(i);
        proof {
            assert(s@.subrange(0, i + 1).drop_last() =~= s@.subrange(0, i as int));
            assert(s@.subrange(0, i + 1).last() == s@[i as int]);
        }
        let ghost pre = r@;
        if c != '"' {
            push_char(&mut r, c);
            proof {
                assert(r@ =~= pre + seq![c]);
                assert(r@ =~= spec_drop_quotes(s@.subrange(0, i + 1)));
            }
        } else {
            proof {
                assert(pre + Seq::<char>::empty() =~= pre);
                assert(r@ =~= spec_drop_quotes(s@.subrange(0, i + 1)));
            }
        }
        i += 1;
    }
    proof {
        assert(s@.subrange(0, n as int) =~= s@);
    }
    r
}

/// The debug rendering of a token kind, for error reasons.
fn kind_name(k: TokenKind) -> (s: String)
    ensures
        s@ == spec_kind_name(k),
{
    match k {
        TokenKind::LiteralNumber(n) => {
            let mut s = String::from_str("LiteralNumber(");
            let num = i64_to_string(n);
            s.append(num.as_str());
            s.append(")");
            proof {
                assert(s@ =~= "LiteralNumber("@ + crate::strutil::spec_idec_str(n as int) + ")"@);
            }
            s
        },
        TokenKind::LiteralString => String::from_str("LiteralString"),
        TokenKind::Plus => String::from_str("Plus"),
        TokenKind::Minus => String::from_str("Minus"),
        TokenKind::Asterisk => String::from_str("Asterisk"),
        TokenKind::Slash => String::from_str("Slash"),
        TokenKind::Equals => String::from_str("Equals"),
        TokenKind::EqualsEquals => String::from_str("EqualsEquals"),
        TokenKind::NotEquals => String::from_str("NotEquals"),
        TokenKind::GreaterThan => String::from_str("GreaterThan"),
        TokenKind::LessThan => String::from_str("LessThan"),
        TokenKind::GreaterThanEquals => String::from_str("GreaterThanEquals"),
        TokenKind::LessThanEquals => String::from_str("LessThanEquals"),
        TokenKind::Let => String::from_str("Let"),
        TokenKind::If => String::from_str("If"),
        TokenKind::Else => String::from_str("Else"),
        TokenKind::While => String::from_str("While"),
        TokenKind::OpenCurly => String::from_str("OpenCurly"),
        TokenKind::CloseCurly => String::from_str("CloseCurly"),
        TokenKind::SemiColon => String::from_str("SemiColon"),
        TokenKind::Print => String::from_str("Print"),
        TokenKind::Input => String::from_str("Input"),
        TokenKind::Invalid => String::from_str("Invalid"),
        TokenKind::Whitespace => String::from_str("Whitespace"),
        TokenKind::Identifier => String::from_str("Identifier"),
        TokenKind::Eof => String::from_str("Eof"),
        TokenKind::TokenizationError => String::from_str("TokenizationError"),
    }
}

fn build_msg_expected(k: TokenKind) -> (s: String)
    ensures
        s@ == msg_expected(k),
{
    let mut s = String::from_str("Expected ");
    let kn = kind_name(k);
    s.append(kn.as_str());
    s
}

fn build_msg_already_declared(id: &String) -> (s: String)
    ensures
        s@ == msg_already_declared(id@),
{
    let mut s = String::from_str("Identifier ");
    s.append(id.as_str());
    s.append(" is already declared");
    proof {
        assert(s@ =~= msg_already_declared(id@));
    }
    s
}

fn build_msg_never_declared(id: &String) -> (s: String)
    ensures
        s@ == msg_never_declared(id@),
{
    let mut s = String::from_str("Identifier ");
    s.append(id.as_str());
    s.append(" is never declared");
    proof {
        assert(s@ =~= msg_never_declared(id@));
    }
    s
}

} // verus!
