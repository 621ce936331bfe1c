//! What the compiler produces, as mathematics: the state of a compilation
//! and what each step of the parse does to it.
//!
//! Expressions are parsed by precedence climbing. A table gives each kind
//! of token the handler that runs where the token starts an operand, the
//! handler that runs where it follows one, and the precedence of the
//! latter.
use vstd::prelude::*;
use crate::compiler::{JqaRuleKind, RuleView, SyntaxErrorView};
use crate::lexer::{
    LexerView, TokenKind, TokenView, kind_text, lemma_next_token, lemma_read_regex, next_token,
    plain_token, read_regex, token_text, unread,
};
use crate::text::decimal;
use crate::vm::{LiteralView, OpView};

verus! {

/// How tightly an operator binds, from the loosest to the tightest.
#[derive(Copy, Clone, PartialEq, Eq, Debug, Structural)]
pub enum Precedence {
    Lowest,
    Assignment,
    Logical,
    Equal,
    Comparison,
    Addition,
    Multiplication,
    Func,
}

/// The rank of a precedence: a tighter one has a larger rank.
pub open spec fn level(p: Precedence) -> nat {
    match p {
        Precedence::Lowest => 0,
        Precedence::Assignment => 1,
        Precedence::Logical => 2,
        Precedence::Equal => 3,
        Precedence::Comparison => 4,
        Precedence::Addition => 5,
        Precedence::Multiplication => 6,
        Precedence::Func => 7,
    }
}

/// The handlers for a token that starts an operand.
#[derive(Copy, Clone, PartialEq, Eq, Debug, Structural)]
pub enum Prefix {
    Field,
    Text,
    Number,
    Variable,
    Regex,
}

/// The handlers for a token that follows an operand.
#[derive(Copy, Clone, PartialEq, Eq, Debug, Structural)]
pub enum Infix {
    Member,
    Computed,
    Assign,
    Binary,
}

/// The entry of the table for one kind of token.
#[derive(Copy, Clone, PartialEq, Eq, Debug, Structural)]
pub struct ParseRule {
    pub prec: Precedence,
    pub infix: Option<Infix>,
    pub prefix: Option<Prefix>,
}

/// The table.
pub open spec fn rule_of(kind: TokenKind) -> ParseRule {
    match kind {
        TokenKind::Dollar => ParseRule {
            prec: Precedence::Lowest,
            infix: None,
            prefix: Some(Prefix::Field),
        },
        TokenKind::Str => ParseRule {
            prec: Precedence::Lowest,
            infix: None,
            prefix: Some(Prefix::Text),
        },
        TokenKind::Num => ParseRule {
            prec: Precedence::Lowest,
            infix: None,
            prefix: Some(Prefix::Number),
        },
        TokenKind::Identifier => ParseRule {
            prec: Precedence::Lowest,
            infix: None,
            prefix: Some(Prefix::Variable),
        },
        TokenKind::Dot => ParseRule {
            prec: Precedence::Func,
            infix: Some(Infix::Member),
            prefix: None,
        },
        TokenKind::LSquare => ParseRule {
            prec: Precedence::Func,
            infix: Some(Infix::Computed),
            prefix: None,
        },
        TokenKind::Equal => ParseRule {
            prec: Precedence::Assignment,
            infix: Some(Infix::Assign),
            prefix: None,
        },
        TokenKind::EqualEqual | TokenKind::Tilde | TokenKind::BangTilde => ParseRule {
            prec: Precedence::Equal,
            infix: Some(Infix::Binary),
            prefix: None,
        },
        TokenKind::And | TokenKind::Or => ParseRule {
            prec: Precedence::Logical,
            infix: Some(Infix::Binary),
            prefix: None,
        },
        TokenKind::RAngle => ParseRule {
            prec: Precedence::Comparison,
            infix: Some(Infix::Binary),
            prefix: None,
        },
        TokenKind::Plus | TokenKind::Minus => ParseRule {
            prec: Precedence::Addition,
            infix: Some(Infix::Binary),
            prefix: None,
        },
        TokenKind::Star => ParseRule {
            prec: Precedence::Multiplication,
            infix: Some(Infix::Binary),
            prefix: None,
        },
        TokenKind::Slash => ParseRule {
            prec: Precedence::Multiplication,
            infix: Some(Infix::Binary),
            prefix: Some(Prefix::Regex),
        },
        _ => ParseRule { prec: Precedence::Lowest, infix: None, prefix: None },
    }
}

/// The state of a compilation: the token under the cursor, the one before
/// it, the scanner behind them and the code written so far.
pub struct CompilerView {
    pub current: TokenView,
    pub prev: TokenView,
    pub lexer: LexerView,
    pub output: Seq<OpView>,
}

/// A compilation that has not read anything yet.
pub open spec fn start(lexer: LexerView) -> CompilerView {
    CompilerView {
        current: plain_token(TokenKind::EOF, 0),
        prev: plain_token(TokenKind::EOF, 0),
        lexer,
        output: Seq::empty(),
    }
}

/// A step of the parse gives the next state or an error.
pub type Parsed = Result<CompilerView, SyntaxErrorView>;

/// An error.
pub open spec fn error(msg: Seq<char>, line: nat) -> SyntaxErrorView {
    SyntaxErrorView { msg, line }
}

/// The text that a token carries; empty where it carries none.
pub open spec fn text_of(t: TokenView) -> Seq<char> {
    match t.text {
        Some(s) => s,
        None => Seq::empty(),
    }
}

/// How much of the program is still to be parsed: the characters that the
/// scanner has not read, and the token under the cursor unless it is the
/// end of the text.
pub open spec fn left(c: CompilerView) -> nat {
    unread(c.lexer) + if c.current.kind is EOF {
        0nat
    } else {
        1nat
    }
}

/// Moves the cursor to the next token. An error that the scanner reports
/// becomes an error of the compilation.
#[verifier::opaque]
pub open spec fn advance(c: CompilerView) -> Parsed {
    let (token, lexer) = next_token(c.lexer);
    if token.kind is Error {
        Err(error(text_of(token), token.line))
    } else {
        Ok(CompilerView { current: token, prev: c.current, lexer, output: c.output })
    }
}

/// Moves the cursor past a token of the given kind; any other is an error.
pub open spec fn consume(c: CompilerView, kind: TokenKind) -> Parsed {
    if c.current.kind != kind {
        Err(
            error(
                "unexpected token "@ + token_text(c.current) + " expected "@ + kind_text(kind),
                c.current.line,
            ),
        )
    } else {
        advance(c)
    }
}

/// Writes one instruction.
pub open spec fn emit(c: CompilerView, op: OpView) -> CompilerView {
    CompilerView { output: c.output.push(op), ..c }
}

/// Moving the cursor off a token that is not the end of the text leaves
/// less to parse.
pub proof fn lemma_advance(c: CompilerView)
    ensures
        advance(c) is Ok ==> {
            &&& advance(c)->Ok_0.lexer.src == c.lexer.src
            &&& advance(c)->Ok_0.output == c.output
            &&& left(advance(c)->Ok_0) <= left(c)
            &&& !(c.current.kind is EOF) ==> left(advance(c)->Ok_0) < left(c)
        },
{
    reveal(advance);
    lemma_next_token(c.lexer);
}

/// `$`: the current root element.
pub open spec fn field(c: CompilerView) -> Parsed {
    match consume(c, TokenKind::Dollar) {
        Err(e) => Err(e),
        Ok(c1) => Ok(emit(c1, OpView::GetField(Seq::empty()))),
    }
}

/// A string constant.
pub open spec fn string(c: CompilerView) -> Parsed {
    match consume(c, TokenKind::Str) {
        Err(e) => Err(e),
        Ok(c1) => Ok(emit(c1, OpView::PushImmediate(LiteralView::Str(text_of(c1.prev))))),
    }
}

/// A number constant.
pub open spec fn number(c: CompilerView) -> Parsed {
    match consume(c, TokenKind::Num) {
        Err(e) => Err(e),
        Ok(c1) => Ok(emit(c1, OpView::PushImmediate(LiteralView::Num(text_of(c1.prev))))),
    }
}

/// A variable.
pub open spec fn variable(c: CompilerView) -> Parsed {
    match consume(c, TokenKind::Identifier) {
        Err(e) => Err(e),
        Ok(c1) => Ok(emit(c1, OpView::GetGlobal(text_of(c1.prev)))),
    }
}

/// A regular expression: the slash under the cursor opens it, and the
/// scanner reads its body.
pub open spec fn regex(c: CompilerView) -> Parsed {
    let (token, lexer) = read_regex(c.lexer);
    if token.kind is Error {
        Err(
            error(
                "error on line "@ + decimal(token.line) + ": "@ + text_of(token),
                token.line,
            ),
        )
    } else {
        match advance(
            CompilerView { current: token, prev: c.current, lexer, output: c.output },
        ) {
            Err(e) => Err(e),
            Ok(c1) => Ok(emit(c1, OpView::PushImmediate(LiteralView::Regex(text_of(c1.prev))))),
        }
    }
}

/// The handler for a token that starts an operand.
pub open spec fn prefix(c: CompilerView, handler: Prefix) -> Parsed {
    match handler {
        Prefix::Field => field(c),
        Prefix::Text => string(c),
        Prefix::Number => number(c),
        Prefix::Variable => variable(c),
        Prefix::Regex => regex(c),
    }
}

/// A handler for the start of an operand uses up at least one token.
pub proof fn lemma_prefix(c: CompilerView, handler: Prefix)
    requires
        rule_of(c.current.kind).prefix == Some(handler),
    ensures
        prefix(c, handler) is Ok ==> {
            &&& prefix(c, handler)->Ok_0.lexer.src == c.lexer.src
            &&& left(prefix(c, handler)->Ok_0) < left(c)
        },
{
    lemma_advance(c);
    if handler is Regex {
        lemma_read_regex(c.lexer);
        let (token, lexer) = read_regex(c.lexer);
        lemma_advance(CompilerView { current: token, prev: c.current, lexer, output: c.output });
    }
}

/// `.name`: a member by its name.
pub open spec fn member(c: CompilerView) -> Parsed {
    match consume(c, TokenKind::Dot) {
        Err(e) => Err(e),
        Ok(c1) => match consume(c1, TokenKind::Identifier) {
            Err(e) => Err(e),
            Ok(c2) => Ok(
                emit(
                    emit(c2, OpView::PushImmediate(LiteralView::Str(text_of(c2.prev)))),
                    OpView::GetMember,
                ),
            ),
        },
    }
}

/// The instructions of a binary operator.
pub open spec fn operator(kind: TokenKind) -> Option<Seq<OpView>> {
    match kind {
        TokenKind::EqualEqual => Some(seq![OpView::Equal]),
        TokenKind::And => Some(seq![OpView::And]),
        TokenKind::Or => Some(seq![OpView::Or]),
        TokenKind::RAngle => Some(seq![OpView::Greater]),
        TokenKind::Plus => Some(seq![OpView::Add]),
        TokenKind::Minus => Some(seq![OpView::Subtract]),
        TokenKind::Star => Some(seq![OpView::Multiply]),
        TokenKind::Slash => Some(seq![OpView::Divide]),
        TokenKind::Tilde => Some(seq![OpView::Match]),
        TokenKind::BangTilde => Some(seq![OpView::Match, OpView::Negate]),
        _ => None,
    }
}

/// An expression: an operand, then every operator that binds at least as
/// tightly as `prec`, each with what follows it.
pub open spec fn expression(c: CompilerView, prec: Precedence) -> Parsed
    decreases left(c), 2nat,
{
    match rule_of(c.current.kind).prefix {
        None => Err(error("unexpected prefix "@ + token_text(c.current), c.current.line)),
        Some(handler) => match prefix(c, handler) {
            Err(e) => Err(e),
            Ok(c1) => {
                proof {
                    lemma_prefix(c, handler);
                }
                operators(c1, prec)
            },
        },
    }
}

/// The operators that follow an operand, as long as they bind at least as
/// tightly as `prec`.
pub open spec fn operators(c: CompilerView, prec: Precedence) -> Parsed
    decreases left(c), 1nat,
{
    if level(prec) <= level(rule_of(c.current.kind).prec) {
        match rule_of(c.current.kind).infix {
            None => Err(error("unexpected infix "@ + token_text(c.current), c.current.line)),
            Some(handler) => match infix(c, handler) {
                Err(e) => Err(e),
                Ok(c1) => if left(c1) < left(c) {
                    operators(c1, prec)
                } else {
                    Ok(c1)
                },
            },
        }
    } else {
        Ok(c)
    }
}

/// The handler for a token that follows an operand.
pub open spec fn infix(c: CompilerView, handler: Infix) -> Parsed
    decreases left(c), 0nat,
{
    match handler {
        Infix::Member => member(c),
        Infix::Computed => match consume(c, TokenKind::LSquare) {
            Err(e) => Err(e),
            Ok(c1) => {
                proof {
                    lemma_advance(c);
                }
                match expression(c1, Precedence::Assignment) {
                    Err(e) => Err(e),
                    Ok(c2) => match consume(c2, TokenKind::RSquare) {
                        Err(e) => Err(e),
                        Ok(c3) => Ok(emit(c3, OpView::GetMember)),
                    },
                }
            },
        },
        Infix::Assign => match consume(c, TokenKind::Equal) {
            Err(e) => Err(e),
            Ok(c1) => {
                proof {
                    lemma_advance(c);
                }
                let target = if c1.output.len() > 0 {
                    Some(c1.output.last())
                } else {
                    None
                };
                let rest = CompilerView {
                    output: if c1.output.len() > 0 {
                        c1.output.drop_last()
                    } else {
                        c1.output
                    },
                    ..c1
                };
                match expression(rest, Precedence::Assignment) {
                    Err(e) => Err(e),
                    Ok(c2) => match target {
                        Some(OpView::GetGlobal(name)) => Ok(emit(c2, OpView::SetGlobal(name))),
                        _ => Err(error("invalid assignment target"@, c.current.line)),
                    },
                }
            },
        },
        Infix::Binary => match operator(c.current.kind) {
            None => Err(error("unknown operator "@ + kind_text(c.current.kind), c.current.line)),
            Some(ops) => match advance(c) {
                Err(e) => Err(e),
                Ok(c1) => {
                    proof {
                        lemma_advance(c);
                    }
                    match expression(c1, rule_of(c.current.kind).prec) {
                        Err(e) => Err(e),
                        Ok(c2) => Ok(CompilerView { output: c2.output + ops, ..c2 }),
                    }
                },
            },
        },
    }
}

/// The table is complete: every token with a precedence has a handler for
/// the place after an operand, and every token that the table hands to the
/// handler for binary operators is one.
pub proof fn law_table_is_complete(kind: TokenKind)
    ensures
        level(rule_of(kind).prec) > 0 ==> rule_of(kind).infix is Some,
        rule_of(kind).infix == Some(Infix::Binary) ==> operator(kind) is Some,
{
}

/// Whether `after` is a later state of the compilation that `before`
/// belongs to, with less left to parse.
pub open spec fn later(before: CompilerView, after: CompilerView) -> bool {
    after.lexer.src == before.lexer.src && left(after) < left(before)
}

/// A handler for a token that follows an operand uses up at least one
/// token.
pub proof fn lemma_infix(c: CompilerView, handler: Infix)
    ensures
        infix(c, handler) is Ok ==> later(c, infix(c, handler)->Ok_0),
    decreases left(c), 0nat,
{
    lemma_advance(c);
    match handler {
        Infix::Member => {
            if consume(c, TokenKind::Dot) is Ok {
                lemma_advance(consume(c, TokenKind::Dot)->Ok_0);
            }
        },
        Infix::Computed => {
            if consume(c, TokenKind::LSquare) is Ok {
                let c1 = consume(c, TokenKind::LSquare)->Ok_0;
                lemma_expression(c1, Precedence::Assignment);
                if expression(c1, Precedence::Assignment) is Ok {
                    lemma_advance(expression(c1, Precedence::Assignment)->Ok_0);
                }
            }
        },
        Infix::Assign => {
            if consume(c, TokenKind::Equal) is Ok {
                let c1 = consume(c, TokenKind::Equal)->Ok_0;
                let rest = CompilerView {
                    output: if c1.output.len() > 0 {
                        c1.output.drop_last()
                    } else {
                        c1.output
                    },
                    ..c1
                };
                lemma_expression(rest, Precedence::Assignment);
            }
        },
        Infix::Binary => {
            if operator(c.current.kind) is Some && advance(c) is Ok {
                lemma_expression(advance(c)->Ok_0, rule_of(c.current.kind).prec);
            }
        },
    }
}

/// The operators after an operand never give back what was parsed.
pub proof fn lemma_operators(c: CompilerView, prec: Precedence)
    ensures
        operators(c, prec) is Ok ==> {
            &&& operators(c, prec)->Ok_0.lexer.src == c.lexer.src
            &&& left(operators(c, prec)->Ok_0) <= left(c)
        },
    decreases left(c), 1nat,
{
    if level(prec) <= level(rule_of(c.current.kind).prec) {
        if rule_of(c.current.kind).infix is Some {
            let handler = rule_of(c.current.kind).infix->0;
            lemma_infix(c, handler);
            if infix(c, handler) is Ok {
                let c1 = infix(c, handler)->Ok_0;
                lemma_operators(c1, prec);
            }
        }
    }
}

/// An expression uses up at least one token.
pub proof fn lemma_expression(c: CompilerView, prec: Precedence)
    ensures
        expression(c, prec) is Ok ==> later(c, expression(c, prec)->Ok_0),
    decreases left(c), 2nat,
{
    if rule_of(c.current.kind).prefix is Some {
        let handler = rule_of(c.current.kind).prefix->0;
        lemma_prefix(c, handler);
        if prefix(c, handler) is Ok {
            lemma_operators(prefix(c, handler)->Ok_0, prec);
        }
    }
}

/// Whether the cursor is at the end of a statement.
pub open spec fn at_statement_end(c: CompilerView) -> bool {
    c.current.kind is Semicolon || c.current.kind is RCurly
}

/// A count, one larger: it stops at the largest number the machine holds.
pub open spec fn next_count(n: nat) -> nat {
    if n < usize::MAX {
        n + 1
    } else {
        n
    }
}

/// The arguments of `print`, separated by commas, after `count` of them:
/// the state after the last one, and how many there are.
pub open spec fn arguments(c: CompilerView, count: nat) -> Result<
    (CompilerView, nat),
    SyntaxErrorView,
>
    decreases left(c),
{
    if at_statement_end(c) {
        Ok((c, count))
    } else {
        match expression(c, Precedence::Assignment) {
            Err(e) => Err(e),
            Ok(c1) => if c1.current.kind is Comma {
                match advance(c1) {
                    Err(e) => Err(e),
                    Ok(c2) => if left(c2) < left(c) {
                        arguments(c2, next_count(count))
                    } else {
                        Ok((c2, next_count(count)))
                    },
                }
            } else {
                Ok((c1, next_count(count)))
            },
        }
    }
}

/// A statement: `print` with its arguments, or an expression.
#[verifier::opaque]
pub open spec fn statement(c: CompilerView) -> Parsed {
    if c.current.kind is Print {
        match consume(c, TokenKind::Print) {
            Err(e) => Err(e),
            Ok(c1) => match arguments(c1, 0) {
                Err(e) => Err(e),
                Ok((c2, count)) => Ok(emit(c2, OpView::Print(count))),
            },
        }
    } else {
        expression(c, Precedence::Assignment)
    }
}

/// The statements of a body up to the brace that closes it, with a
/// semicolon after each but the last, where it may be left out.
pub open spec fn statements(c: CompilerView) -> Parsed
    decreases left(c),
{
    if c.current.kind is RCurly {
        Ok(c)
    } else {
        match statement(c) {
            Err(e) => Err(e),
            Ok(c1) => {
                let separated = if c1.current.kind is RCurly {
                    Ok(c1)
                } else {
                    consume(c1, TokenKind::Semicolon)
                };
                match separated {
                    Err(e) => Err(e),
                    Ok(c2) => if left(c2) < left(c) {
                        statements(c2)
                    } else {
                        Ok(c2)
                    },
                }
            },
        }
    }
}

/// The arguments of `print` never give back what was parsed.
pub proof fn lemma_arguments(c: CompilerView, count: nat)
    ensures
        arguments(c, count) is Ok ==> {
            &&& arguments(c, count)->Ok_0.0.lexer.src == c.lexer.src
            &&& left(arguments(c, count)->Ok_0.0) <= left(c)
        },
    decreases left(c),
{
    if !at_statement_end(c) {
        lemma_expression(c, Precedence::Assignment);
        if expression(c, Precedence::Assignment) is Ok {
            let c1 = expression(c, Precedence::Assignment)->Ok_0;
            if c1.current.kind is Comma {
                lemma_advance(c1);
                if advance(c1) is Ok {
                    lemma_arguments(advance(c1)->Ok_0, next_count(count));
                }
            }
        }
    }
}

/// A statement uses up at least one token.
pub proof fn lemma_statement(c: CompilerView)
    ensures
        statement(c) is Ok ==> later(c, statement(c)->Ok_0),
{
    reveal(statement);
    if c.current.kind is Print {
        lemma_advance(c);
        if consume(c, TokenKind::Print) is Ok {
            lemma_arguments(consume(c, TokenKind::Print)->Ok_0, 0);
        }
    } else {
        lemma_expression(c, Precedence::Assignment);
    }
}

/// The statements of a body never give back what was parsed.
pub proof fn lemma_statements(c: CompilerView)
    ensures
        statements(c) is Ok ==> {
            &&& statements(c)->Ok_0.lexer.src == c.lexer.src
            &&& left(statements(c)->Ok_0) <= left(c)
        },
    decreases left(c),
{
    if !(c.current.kind is RCurly) {
        lemma_statement(c);
        if statement(c) is Ok {
            let c1 = statement(c)->Ok_0;
            lemma_advance(c1);
            let separated = if c1.current.kind is RCurly {
                Ok(c1)
            } else {
                consume(c1, TokenKind::Semicolon)
            };
            if separated is Ok {
                lemma_statements(separated->Ok_0);
            }
        }
    }
}

/// The state with nothing written.
pub open spec fn cleared(c: CompilerView) -> CompilerView {
    CompilerView { output: Seq::empty(), ..c }
}

/// The start of a rule: `BEGIN`, `END`, a pattern, or nothing before the
/// body. Gives the kind of the rule; the pattern is what has been written.
pub open spec fn rule_head(c: CompilerView) -> Result<(JqaRuleKind, CompilerView), SyntaxErrorView> {
    match c.current.kind {
        TokenKind::LCurly => Ok((JqaRuleKind::Match, c)),
        TokenKind::Begin => match consume(c, TokenKind::Begin) {
            Err(e) => Err(e),
            Ok(c1) => Ok((JqaRuleKind::Begin, c1)),
        },
        TokenKind::End => match consume(c, TokenKind::End) {
            Err(e) => Err(e),
            Ok(c1) => Ok((JqaRuleKind::End, c1)),
        },
        _ => match expression(c, Precedence::Assignment) {
            Err(e) => Err(e),
            Ok(c1) => Ok((JqaRuleKind::Match, c1)),
        },
    }
}

/// The body of a rule: the statements between braces or, where no brace
/// follows, the printing of the current element. The body is what has been
/// written.
pub open spec fn rule_body(c: CompilerView) -> Parsed {
    if !(c.current.kind is LCurly) {
        Ok(emit(c, OpView::Print(0)))
    } else {
        match consume(c, TokenKind::LCurly) {
            Err(e) => Err(e),
            Ok(c1) => match statements(c1) {
                Err(e) => Err(e),
                Ok(c2) => consume(c2, TokenKind::RCurly),
            },
        }
    }
}

/// One rule, and the state after it, with nothing written.
#[verifier::opaque]
pub open spec fn rule(c: CompilerView) -> Result<(RuleView, CompilerView), SyntaxErrorView> {
    match rule_head(c) {
        Err(e) => Err(e),
        Ok((kind, c1)) => match rule_body(cleared(c1)) {
            Err(e) => Err(e),
            Ok(c2) => Ok((RuleView { pattern: c1.output, body: c2.output, kind }, cleared(c2))),
        },
    }
}

/// A rule uses up at least one token.
pub proof fn lemma_rule(c: CompilerView)
    requires
        !(c.current.kind is EOF),
    ensures
        rule(c) is Ok ==> later(c, rule(c)->Ok_0.1),
{
    reveal(rule);
    lemma_advance(c);
    lemma_expression(c, Precedence::Assignment);
    if rule_head(c) is Ok {
        let c1 = rule_head(c)->Ok_0.1;
        let b = cleared(c1);
        lemma_advance(b);
        if consume(b, TokenKind::LCurly) is Ok {
            let c2 = consume(b, TokenKind::LCurly)->Ok_0;
            lemma_statements(c2);
            if statements(c2) is Ok {
                lemma_advance(statements(c2)->Ok_0);
            }
        }
    }
}

/// The rules up to the end of the text, after those in `done`.
pub open spec fn rules(c: CompilerView, done: Seq<RuleView>) -> Result<
    Seq<RuleView>,
    SyntaxErrorView,
>
    decreases left(c),
{
    if c.current.kind is EOF {
        Ok(done)
    } else {
        match rule(c) {
            Err(e) => Err(e),
            Ok((r, c1)) => if left(c1) < left(c) {
                rules(c1, done.push(r))
            } else {
                Ok(done.push(r))
            },
        }
    }
}

/// A whole program: its rules in the order of the text.
pub open spec fn program(c: CompilerView) -> Result<Seq<RuleView>, SyntaxErrorView> {
    match advance(c) {
        Err(e) => Err(e),
        Ok(c1) => rules(c1, Seq::empty()),
    }
}

/// A single expression: the state after it. Its code is what has been
/// written.
pub open spec fn single(c: CompilerView) -> Parsed {
    match advance(c) {
        Err(e) => Err(e),
        Ok(c1) => expression(c1, Precedence::Assignment),
    }
}

/// A scanner at the start of a text.
pub open spec fn opened(src: Seq<char>) -> LexerView {
    LexerView { src, pos: 0, line: 1 }
}

/// The rules that a program text compiles to, or the error that refuses it.
pub open spec fn compiled(src: Seq<char>) -> Result<Seq<RuleView>, SyntaxErrorView> {
    program(start(opened(src)))
}

/// The code that the text of an expression compiles to, or the error that
/// refuses it.
pub open spec fn compiled_expression(src: Seq<char>) -> Result<Seq<OpView>, SyntaxErrorView> {
    match single(start(opened(src))) {
        Ok(c) => Ok(c.output),
        Err(e) => Err(e),
    }
}

} // verus!
