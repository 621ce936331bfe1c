//! The compiler: one pass over the tokens, from program text to rules.
use vstd::prelude::*;
use crate::grammar;
use crate::grammar::{
    CompilerView, Infix, ParseRule, Precedence, Prefix, arguments, at_statement_end, cleared,
    emit, left, lemma_advance, lemma_expression, lemma_infix, lemma_prefix, level,
    lemma_rule, lemma_statement, operator, operators, program, rule_of, single, start,
    statements, text_of,
};
use crate::lexer::{Lexer, Token, TokenKind};
use crate::text::decimal_of;
use crate::vm::{Literal, OpCode, OpView};

verus! {

/// When a rule runs: before the input, for each element of it, or after it.
#[derive(Copy, Clone, PartialEq, Eq, Debug, Structural)]
pub enum JqaRuleKind {
    Begin,
    Match,
    End,
}

/// A compiled rule: the code of its pattern, which is empty where the rule
/// has none, the code of its body, and when it runs.
#[derive(Debug, PartialEq)]
pub struct JqaRule {
    pub pattern: Vec<OpCode>,
    pub body: Vec<OpCode>,
    pub kind: JqaRuleKind,
}

/// A rule as a mathematical value.
pub struct RuleView {
    pub pattern: Seq<OpView>,
    pub body: Seq<OpView>,
    pub kind: JqaRuleKind,
}

impl DeepView for JqaRule {
    type V = RuleView;

    open spec fn deep_view(&self) -> RuleView {
        RuleView {
            pattern: self.pattern.deep_view(),
            body: self.body.deep_view(),
            kind: self.kind,
        }
    }
}

/// Why a program was refused, and on which line.
#[derive(Debug, PartialEq)]
pub struct SyntaxError {
    pub msg: String,
    pub line: usize,
}

/// A syntax error as a mathematical value.
pub struct SyntaxErrorView {
    pub msg: Seq<char>,
    pub line: nat,
}

impl View for SyntaxError {
    type V = SyntaxErrorView;

    open spec fn view(&self) -> SyntaxErrorView {
        SyntaxErrorView { msg: self.msg@, line: self.line as nat }
    }
}

/// Whether a step of the parse fails with the error `e`.
pub open spec fn fails<T>(outcome: Result<T, SyntaxErrorView>, e: SyntaxErrorView) -> bool {
    outcome is Err && outcome->Err_0 == e
}

/// Whether what a step of the compiler gave and left behind is what the
/// grammar says: the state after it where it succeeds, the error where it
/// fails.
pub open spec fn follows(
    outcome: Result<(), SyntaxError>,
    after: CompilerView,
    wanted: Result<CompilerView, SyntaxErrorView>,
) -> bool {
    match outcome {
        Ok(_) => wanted == Ok::<CompilerView, SyntaxErrorView>(after),
        Err(e) => fails(wanted, e@),
    }
}

/// The compiler.
pub struct Compiler {
    current: Token,
    prev: Token,
    lexer: Lexer,
    output: Vec<OpCode>,
}

impl View for Compiler {
    type V = CompilerView;

    closed spec fn view(&self) -> CompilerView {
        CompilerView {
            current: self.current@,
            prev: self.prev@,
            lexer: self.lexer@,
            output: self.output.deep_view(),
        }
    }
}

/// An error with a message made of `prefix` and `rest`.
fn failure(prefix: &str, rest: &str, line: usize) -> (e: SyntaxError)
    ensures
        e@ == grammar::error(prefix@ + rest@, line as nat),
{
    let mut msg = String::from_str(prefix);
    msg.append(rest);
    SyntaxError { msg, line }
}

/// The rank of a precedence.
fn rank(p: Precedence) -> (r: u8)
    ensures
        r == level(p),
{
    match p {
        Precedence::Lowest => 0,
        Precedence::Assignment => 1,
        Precedence::Logical => 2,
        Precedence::Equal => 3,
        Precedence::Comparison => 4,
        Precedence::Addition => 5,
        Precedence::Multiplication => 6,
        Precedence::Func => 7,
    }
}

/// A copy of a piece of code.
pub fn copy_ops(ops: &Vec<OpCode>) -> (r: Vec<OpCode>)
    ensures
        r.deep_view() == ops.deep_view(),
{
    let mut out: Vec<OpCode> = Vec::new();
    let mut i: usize = 0;
    while i < ops.len()
        invariant
            i <= ops.len(),
            out.len() == i,
            forall|k: int| 0 <= k < i ==> out[k].deep_view() == ops[k].deep_view(),
        decreases ops.len() - i,
    {
        out.push(ops[i].duplicate());
        i += 1;
    }
    assert(out.deep_view() =~= ops.deep_view());
    out
}

impl Compiler {
    /// A compiler over a scanner that has given no token yet.
    pub fn new(lexer: Lexer) -> (c: Compiler)
        ensures
            c@ == start(lexer@),
    {
        let c = Compiler {
            current: Token::new(TokenKind::EOF, 0),
            prev: Token::new(TokenKind::EOF, 0),
            lexer,
            output: Vec::new(),
        };
        assert(c@.output =~= Seq::empty());
        c
    }

    /// The entry of the table for one kind of token.
    fn get_rule(kind: TokenKind) -> (r: ParseRule)
        ensures
            r == rule_of(kind),
    {
        match kind {
            TokenKind::Dollar => ParseRule {
                prec: Precedence::Lowest,
                infix: None,
                prefix: Some(Prefix::Field),
            },
            TokenKind::Str => ParseRule {
                prec: Precedence::Lowest,
                infix: None,
                prefix: Some(Prefix::Text),
            },
            TokenKind::Num => ParseRule {
                prec: Precedence::Lowest,
                infix: None,
                prefix: Some(Prefix::Number),
            },
            TokenKind::Identifier => ParseRule {
                prec: Precedence::Lowest,
                infix: None,
                prefix: Some(Prefix::Variable),
            },
            TokenKind::Dot => ParseRule {
                prec: Precedence::Func,
                infix: Some(Infix::Member),
                prefix: None,
            },
            TokenKind::LSquare => ParseRule {
                prec: Precedence::Func,
                infix: Some(Infix::Computed),
                prefix: None,
            },
            TokenKind::Equal => ParseRule {
                prec: Precedence::Assignment,
                infix: Some(Infix::Assign),
                prefix: None,
            },
            TokenKind::EqualEqual => ParseRule {
                prec: Precedence::Equal,
                infix: Some(Infix::Binary),
                prefix: None,
            },
            TokenKind::Tilde => ParseRule {
                prec: Precedence::Equal,
                infix: Some(Infix::Binary),
                prefix: None,
            },
            TokenKind::BangTilde => ParseRule {
                prec: Precedence::Equal,
                infix: Some(Infix::Binary),
                prefix: None,
            },
            TokenKind::And => ParseRule {
                prec: Precedence::Logical,
                infix: Some(Infix::Binary),
                prefix: None,
            },
            TokenKind::Or => ParseRule {
                prec: Precedence::Logical,
                infix: Some(Infix::Binary),
                prefix: None,
            },
            TokenKind::RAngle => ParseRule {
                prec: Precedence::Comparison,
                infix: Some(Infix::Binary),
                prefix: None,
            },
            TokenKind::Plus => ParseRule {
                prec: Precedence::Addition,
                infix: Some(Infix::Binary),
                prefix: None,
            },
            TokenKind::Minus => ParseRule {
                prec: Precedence::Addition,
                infix: Some(Infix::Binary),
                prefix: None,
            },
            TokenKind::Star => ParseRule {
                prec: Precedence::Multiplication,
                infix: Some(Infix::Binary),
                prefix: None,
            },
            TokenKind::Slash => ParseRule {
                prec: Precedence::Multiplication,
                infix: Some(Infix::Binary),
                prefix: Some(Prefix::Regex),
            },
            _ => ParseRule { prec: Precedence::Lowest, infix: None, prefix: None },
        }
    }

    /// The text that a token carries.
    fn text(token: &Token) -> (r: String)
        ensures
            r@ == text_of(token@),
    {
        match &token.str {
            Some(s) => s.clone(),
            None => String::new(),
        }
    }

    /// Moves the cursor to the next token.
    fn advance(&mut self) -> (r: Result<(), SyntaxError>)
        ensures
            follows(r, final(self)@, grammar::advance(old(self)@)),
    {
        reveal(grammar::advance);
        let t = self.lexer.next_token();
        match t.kind {
            TokenKind::Error => Err(SyntaxError { msg: Compiler::text(&t), line: t.line }),
            _ => {
                self.prev = self.current.duplicate();
                self.current = t;
                Ok(())
            },
        }
    }

    /// Moves the cursor past a token of the given kind.
    fn consume(&mut self, kind: TokenKind) -> (r: Result<(), SyntaxError>)
        ensures
            follows(r, final(self)@, grammar::consume(old(self)@, kind)),
    {
        if self.current.kind != kind {
            let mut msg = String::from_str("unexpected token ");
            msg.append(self.current.describe().as_str());
            msg.append(" expected ");
            msg.append(kind.describe().as_str());
            return Err(SyntaxError { msg, line: self.current.line });
        }
        self.advance()
    }

    /// Writes one instruction.
    fn emit(&mut self, opcode: OpCode)
        ensures
            final(self)@ == emit(old(self)@, opcode.deep_view()),
    {
        self.output.push(opcode);
        assert(self.output.deep_view() =~= old(self).output.deep_view().push(opcode.deep_view()));
    }

    /// `$`: the current root element.
    fn field(&mut self) -> (r: Result<(), SyntaxError>)
        ensures
            follows(r, final(self)@, grammar::field(old(self)@)),
    {
        match self.consume(TokenKind::Dollar) {
            Err(e) => Err(e),
            Ok(_) => {
                self.emit(OpCode::GetField(String::new()));
                Ok(())
            },
        }
    }

    /// A string constant.
    fn string(&mut self) -> (r: Result<(), SyntaxError>)
        ensures
            follows(r, final(self)@, grammar::string(old(self)@)),
    {
        match self.consume(TokenKind::Str) {
            Err(e) => Err(e),
            Ok(_) => {
                let text = Compiler::text(&self.prev);
                self.emit(OpCode::PushImmediate(Literal::Str(text)));
                Ok(())
            },
        }
    }

    /// A number constant: its digits are kept as they are written.
    fn number(&mut self) -> (r: Result<(), SyntaxError>)
        ensures
            follows(r, final(self)@, grammar::number(old(self)@)),
    {
        match self.consume(TokenKind::Num) {
            Err(e) => Err(e),
            Ok(_) => {
                let text = Compiler::text(&self.prev);
                self.emit(OpCode::PushImmediate(Literal::Num(text)));
                Ok(())
            },
        }
    }

    /// A variable.
    fn variable(&mut self) -> (r: Result<(), SyntaxError>)
        ensures
            follows(r, final(self)@, grammar::variable(old(self)@)),
    {
        match self.consume(TokenKind::Identifier) {
            Err(e) => Err(e),
            Ok(_) => {
                let text = Compiler::text(&self.prev);
                self.emit(OpCode::GetGlobal(text));
                Ok(())
            },
        }
    }

    /// A regular expression: the scanner reads its body.
    fn regex(&mut self) -> (r: Result<(), SyntaxError>)
        ensures
            follows(r, final(self)@, grammar::regex(old(self)@)),
    {
        reveal(grammar::advance);
        let t = self.lexer.read_regex();
        match t.kind {
            TokenKind::Error => {
                let mut msg = String::from_str("error on line ");
                msg.append(decimal_of(t.line).as_str());
                msg.append(": ");
                msg.append(Compiler::text(&t).as_str());
                return Err(SyntaxError { msg, line: t.line });
            },
            _ => {
                self.prev = self.current.duplicate();
                self.current = t;
            },
        }
        match self.advance() {
            Err(e) => Err(e),
            Ok(_) => {
                let text = Compiler::text(&self.prev);
                self.emit(OpCode::PushImmediate(Literal::Regex(text)));
                Ok(())
            },
        }
    }

    /// Runs the handler for a token that starts an operand.
    fn prefix(&mut self, handler: Prefix) -> (r: Result<(), SyntaxError>)
        ensures
            follows(r, final(self)@, grammar::prefix(old(self)@, handler)),
    {
        match handler {
            Prefix::Field => self.field(),
            Prefix::Text => self.string(),
            Prefix::Number => self.number(),
            Prefix::Variable => self.variable(),
            Prefix::Regex => self.regex(),
        }
    }

    /// `.name`: a member by its name.
    fn member(&mut self) -> (r: Result<(), SyntaxError>)
        ensures
            follows(r, final(self)@, grammar::member(old(self)@)),
    {
        match self.consume(TokenKind::Dot) {
            Err(e) => Err(e),
            Ok(_) => match self.consume(TokenKind::Identifier) {
                Err(e) => Err(e),
                Ok(_) => {
                    let text = Compiler::text(&self.prev);
                    self.emit(OpCode::PushImmediate(Literal::Str(text)));
                    self.emit(OpCode::GetMember);
                    Ok(())
                },
            },
        }
    }

    /// `[expression]`: a member by a key that is computed.
    fn computed_member(&mut self) -> (r: Result<(), SyntaxError>)
        ensures
            follows(r, final(self)@, grammar::infix(old(self)@, Infix::Computed)),
        decreases left(old(self)@), 0nat, 0nat,
    {
        match self.consume(TokenKind::LSquare) {
            Err(e) => Err(e),
            Ok(_) => {
                proof {
                    lemma_advance(old(self)@);
                }
                match self.expression(Precedence::Assignment) {
                    Err(e) => Err(e),
                    Ok(_) => match self.consume(TokenKind::RSquare) {
                        Err(e) => Err(e),
                        Ok(_) => {
                            self.emit(OpCode::GetMember);
                            Ok(())
                        },
                    },
                }
            },
        }
    }

    /// `= expression`: the read of a variable that was written last becomes
    /// a write after the code of the value.
    fn assign(&mut self) -> (r: Result<(), SyntaxError>)
        ensures
            follows(r, final(self)@, grammar::infix(old(self)@, Infix::Assign)),
        decreases left(old(self)@), 0nat, 0nat,
    {
        let line = self.current.line;
        match self.consume(TokenKind::Equal) {
            Err(e) => Err(e),
            Ok(_) => {
                proof {
                    lemma_advance(old(self)@);
                }
                let ghost c1 = self@;
                let target = self.output.pop();
                assert(self@.output =~= if c1.output.len() > 0 {
                    c1.output.drop_last()
                } else {
                    c1.output
                });
                match self.expression(Precedence::Assignment) {
                    Err(e) => Err(e),
                    Ok(_) => match target {
                        Some(OpCode::GetGlobal(name)) => {
                            self.emit(OpCode::SetGlobal(name));
                            Ok(())
                        },
                        _ => Err(
                            SyntaxError {
                                msg: String::from_str("invalid assignment target"),
                                line,
                            },
                        ),
                    },
                }
            },
        }
    }

    /// A binary operator and what follows it.
    fn binary(&mut self) -> (r: Result<(), SyntaxError>)
        ensures
            follows(r, final(self)@, grammar::infix(old(self)@, Infix::Binary)),
        decreases left(old(self)@), 0nat, 0nat,
    {
        let kind = self.current.kind;
        let known = match kind {
            TokenKind::EqualEqual | TokenKind::And | TokenKind::Or | TokenKind::RAngle
            | TokenKind::Plus | TokenKind::Minus | TokenKind::Star | TokenKind::Slash
            | TokenKind::Tilde | TokenKind::BangTilde => true,
            _ => false,
        };
        if !known {
            return Err(
                failure("unknown operator ", kind.describe().as_str(), self.current.line),
            );
        }
        let prec = Compiler::get_rule(kind).prec;
        match self.advance() {
            Err(e) => {
                return Err(e);
            },
            Ok(_) => {},
        }
        proof {
            lemma_advance(old(self)@);
        }
        match self.expression(prec) {
            Err(e) => {
                return Err(e);
            },
            Ok(_) => {},
        }
        let ghost c2 = self@;
        match kind {
            TokenKind::EqualEqual => self.emit(OpCode::Equal),
            TokenKind::And => self.emit(OpCode::And),
            TokenKind::Or => self.emit(OpCode::Or),
            TokenKind::RAngle => self.emit(OpCode::Greater),
            TokenKind::Plus => self.emit(OpCode::Add),
            TokenKind::Minus => self.emit(OpCode::Subtract),
            TokenKind::Star => self.emit(OpCode::Multiply),
            TokenKind::Slash => self.emit(OpCode::Divide),
            TokenKind::Tilde => self.emit(OpCode::Match),
            _ => {
                self.emit(OpCode::Match);
                self.emit(OpCode::Negate);
            },
        }
        assert(self@.output =~= c2.output + operator(kind)->0);
        Ok(())
    }

    /// Runs the handler for a token that follows an operand.
    fn infix(&mut self, handler: Infix) -> (r: Result<(), SyntaxError>)
        ensures
            follows(r, final(self)@, grammar::infix(old(self)@, handler)),
        decreases left(old(self)@), 0nat, 1nat,
    {
        match handler {
            Infix::Member => self.member(),
            Infix::Computed => self.computed_member(),
            Infix::Assign => self.assign(),
            Infix::Binary => self.binary(),
        }
    }

    /// An expression: an operand and the operators that bind at least as
    /// tightly as `prec`.
    fn expression(&mut self, prec: Precedence) -> (r: Result<(), SyntaxError>)
        ensures
            follows(r, final(self)@, grammar::expression(old(self)@, prec)),
        decreases left(old(self)@), 2nat, 0nat,
    {
        let handler = match Compiler::get_rule(self.current.kind).prefix {
            Some(handler) => handler,
            None => {
                return Err(
                    failure(
                        "unexpected prefix ",
                        self.current.describe().as_str(),
                        self.current.line,
                    ),
                );
            },
        };
        match self.prefix(handler) {
            Err(e) => {
                return Err(e);
            },
            Ok(_) => {},
        }
        proof {
            lemma_prefix(old(self)@, handler);
        }
        let ghost c1 = self@;
        loop
            invariant
                grammar::expression(old(self)@, prec) == operators(c1, prec),
                operators(self@, prec) == operators(c1, prec),
                left(self@) <= left(c1),
                left(c1) < left(old(self)@),
            decreases left(self@),
        {
            let rule = Compiler::get_rule(self.current.kind);
            if rank(prec) > rank(rule.prec) {
                return Ok(());
            }
            let handler = match rule.infix {
                Some(handler) => handler,
                None => {
                    return Err(
                        failure(
                            "unexpected infix ",
                            self.current.describe().as_str(),
                            self.current.line,
                        ),
                    );
                },
            };
            let ghost before = self@;
            match self.infix(handler) {
                Err(e) => {
                    return Err(e);
                },
                Ok(_) => {},
            }
            proof {
                lemma_infix(before, handler);
            }
        }
    }

    /// Whether the cursor is at the end of a statement.
    fn at_statement_end(&self) -> (r: bool)
        ensures
            r == at_statement_end(self@),
    {
        match self.current.kind {
            TokenKind::Semicolon | TokenKind::RCurly => true,
            _ => false,
        }
    }

    /// The arguments of `print`: how many there are.
    fn arguments(&mut self) -> (r: Result<usize, SyntaxError>)
        ensures
            match r {
                Ok(count) => arguments(old(self)@, 0) == Ok::<
                    (CompilerView, nat),
                    SyntaxErrorView,
                >((final(self)@, count as nat)),
                Err(e) => fails(arguments(old(self)@, 0), e@),
            },
    {
        let mut arg_count: usize = 0;
        loop
            invariant
                arguments(self@, arg_count as nat) == arguments(old(self)@, 0),
            decreases left(self@),
        {
            if self.at_statement_end() {
                return Ok(arg_count);
            }
            let ghost before = self@;
            match self.expression(Precedence::Assignment) {
                Err(e) => {
                    return Err(e);
                },
                Ok(_) => {},
            }
            proof {
                lemma_expression(before, Precedence::Assignment);
            }
            if arg_count < usize::MAX {
                arg_count += 1;
            }
            if self.current.kind != TokenKind::Comma {
                return Ok(arg_count);
            }
            let ghost mid = self@;
            match self.advance() {
                Err(e) => {
                    return Err(e);
                },
                Ok(_) => {},
            }
            proof {
                lemma_advance(mid);
            }
        }
    }

    /// A statement: `print` with its arguments, or an expression.
    fn statement(&mut self) -> (r: Result<(), SyntaxError>)
        ensures
            follows(r, final(self)@, grammar::statement(old(self)@)),
    {
        reveal(grammar::statement);
        match self.current.kind {
            TokenKind::Print => match self.consume(TokenKind::Print) {
                Err(e) => Err(e),
                Ok(_) => match self.arguments() {
                    Err(e) => Err(e),
                    Ok(count) => {
                        self.emit(OpCode::Print(count));
                        Ok(())
                    },
                },
            },
            _ => self.expression(Precedence::Assignment),
        }
    }

    /// Hands out the code written so far and starts with none.
    fn take_output(&mut self) -> (ops: Vec<OpCode>)
        ensures
            final(self)@ == cleared(old(self)@),
            ops.deep_view() == old(self)@.output,
    {
        let mut ops: Vec<OpCode> = Vec::new();
        std::mem::swap(&mut self.output, &mut ops);
        assert(self@.output =~= Seq::empty());
        ops
    }

    /// The start of a rule: its kind, with the pattern written.
    fn rule_head(&mut self) -> (r: Result<JqaRuleKind, SyntaxError>)
        ensures
            match r {
                Ok(kind) => grammar::rule_head(old(self)@) == Ok::<
                    (JqaRuleKind, CompilerView),
                    SyntaxErrorView,
                >((kind, final(self)@)),
                Err(e) => fails(grammar::rule_head(old(self)@), e@),
            },
    {
        match self.current.kind {
            TokenKind::LCurly => Ok(JqaRuleKind::Match),
            TokenKind::Begin => match self.consume(TokenKind::Begin) {
                Err(e) => Err(e),
                Ok(_) => Ok(JqaRuleKind::Begin),
            },
            TokenKind::End => match self.consume(TokenKind::End) {
                Err(e) => Err(e),
                Ok(_) => Ok(JqaRuleKind::End),
            },
            _ => match self.expression(Precedence::Assignment) {
                Err(e) => Err(e),
                Ok(_) => Ok(JqaRuleKind::Match),
            },
        }
    }

    /// The body of a rule, written.
    #[verifier::loop_isolation(false)]
    fn rule_body(&mut self) -> (r: Result<(), SyntaxError>)
        ensures
            follows(r, final(self)@, grammar::rule_body(old(self)@)),
    {
        if self.current.kind != TokenKind::LCurly {
            self.emit(OpCode::Print(0));
            return Ok(());
        }
        match self.consume(TokenKind::LCurly) {
            Err(e) => {
                return Err(e);
            },
            Ok(_) => {},
        }
        let ghost c1 = self@;
        while self.current.kind != TokenKind::RCurly
            invariant
                statements(self@) == statements(c1),
            decreases left(self@),
        {
            let ghost before = self@;
            match self.statement() {
                Err(e) => {
                    return Err(e);
                },
                Ok(_) => {},
            }
            proof {
                lemma_statement(before);
                lemma_advance(self@);
            }
            if self.current.kind != TokenKind::RCurly {
                match self.consume(TokenKind::Semicolon) {
                    Err(e) => {
                        return Err(e);
                    },
                    Ok(_) => {},
                }
            }
        }
        self.consume(TokenKind::RCurly)
    }

    /// One rule.
    fn compile_rule(&mut self) -> (r: Result<JqaRule, SyntaxError>)
        ensures
            match r {
                Ok(rule) => grammar::rule(old(self)@) == Ok::<
                    (RuleView, CompilerView),
                    SyntaxErrorView,
                >((rule.deep_view(), final(self)@)),
                Err(e) => fails(grammar::rule(old(self)@), e@),
            },
    {
        reveal(grammar::rule);
        let kind = match self.rule_head() {
            Err(e) => {
                return Err(e);
            },
            Ok(kind) => kind,
        };
        let pattern = self.take_output();
        match self.rule_body() {
            Err(e) => {
                return Err(e);
            },
            Ok(_) => {},
        }
        let body = self.take_output();
        Ok(JqaRule { pattern, body, kind })
    }

    /// Compiles a single expression, as the root selector is one: its code.
    /// What follows the expression in the text is not looked at.
    pub fn compile_expression(&mut self) -> (r: Result<Vec<OpCode>, SyntaxError>)
        ensures
            match r {
                Ok(ops) => single(old(self)@) == Ok::<CompilerView, SyntaxErrorView>(final(self)@)
                    && ops.deep_view() == final(self)@.output,
                Err(e) => fails(single(old(self)@), e@),
            },
    {
        match self.advance() {
            Err(e) => {
                return Err(e);
            },
            Ok(_) => {},
        }
        match self.expression(Precedence::Assignment) {
            Err(e) => {
                return Err(e);
            },
            Ok(_) => {},
        }
        Ok(copy_ops(&self.output))
    }

    /// Compiles a program: its rules, in the order of the text. An error
    /// leaves no rules behind.
    #[verifier::loop_isolation(false)]
    pub fn compile_rules(&mut self) -> (r: Result<Vec<JqaRule>, SyntaxError>)
        ensures
            match r {
                Ok(rules) => program(old(self)@) == Ok::<Seq<RuleView>, SyntaxErrorView>(
                    rules.deep_view(),
                ),
                Err(e) => fails(program(old(self)@), e@),
            },
    {
        match self.advance() {
            Err(e) => {
                return Err(e);
            },
            Ok(_) => {},
        }
        let ghost c1 = self@;
        let mut rules: Vec<JqaRule> = Vec::new();
        assert(rules.deep_view() =~= Seq::empty());
        while self.current.kind != TokenKind::EOF
            invariant
                grammar::rules(self@, rules.deep_view()) == grammar::rules(c1, Seq::empty()),
            decreases left(self@),
        {
            let ghost before = self@;
            let ghost done = rules.deep_view();
            let rule = match self.compile_rule() {
                Err(e) => {
                    return Err(e);
                },
                Ok(rule) => rule,
            };
            proof {
                lemma_rule(before);
            }
            rules.push(rule);
            assert(rules.deep_view() =~= done.push(rule.deep_view()));
        }
        Ok(rules)
    }
}

/// Compiles a program text to its rules.
pub fn compile(src: &str) -> (r: Result<Vec<JqaRule>, SyntaxError>)
    ensures
        match r {
            Ok(rules) => grammar::compiled(src@) == Ok::<Seq<RuleView>, SyntaxErrorView>(
                rules.deep_view(),
            ),
            Err(e) => fails(grammar::compiled(src@), e@),
        },
{
    let mut compiler = Compiler::new(Lexer::new(src));
    compiler.compile_rules()
}

/// Compiles the text of a single expression, as the root selector is one,
/// to its code.
pub fn compile_selector(src: &str) -> (r: Result<Vec<OpCode>, SyntaxError>)
    ensures
        match r {
            Ok(ops) => grammar::compiled_expression(src@) == Ok::<Seq<OpView>, SyntaxErrorView>(
                ops.deep_view(),
            ),
            Err(e) => fails(grammar::compiled_expression(src@), e@),
        },
{
    let mut compiler = Compiler::new(Lexer::new(src));
    compiler.compile_expression()
}

} // verus!
