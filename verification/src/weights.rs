//! How the code that the compiler writes moves the stack: an expression
//! leaves one value, less one for every assignment in it.
use vstd::prelude::*;
use crate::balance::{effect, total};
use crate::grammar::{
    CompilerView, Infix, Precedence, Prefix, advance, arguments, at_statement_end, cleared,
    consume, expression, infix, left, lemma_advance, lemma_expression,
    lemma_infix, lemma_prefix, lemma_statement, level,
    next_count, operator, operators, prefix, rule, rule_head, rule_of, statement,
    statements,
};
use crate::lexer::TokenKind;
use crate::vm::OpView;

verus! {

/// How many assignments a piece of code makes.
pub open spec fn sets(ops: Seq<OpView>) -> int
    decreases ops.len(),
{
    if ops.len() == 0 {
        0
    } else {
        sets(ops.drop_last()) + if ops.last() is SetGlobal {
            1int
        } else {
            0int
        }
    }
}

/// The values that a piece of code leaves on the stack, counting each
/// assignment as one: an assignment takes the value that it stores.
pub open spec fn weight(ops: Seq<OpView>) -> int {
    total(ops) + sets(ops)
}

/// The weight of one instruction.
pub open spec fn weight_of(op: OpView) -> int {
    effect(op) + if op is SetGlobal {
        1int
    } else {
        0int
    }
}

/// One more instruction adds its weight.
pub proof fn lemma_weight_push(ops: Seq<OpView>, op: OpView)
    ensures
        weight(ops.push(op)) == weight(ops) + weight_of(op),
{
    assert(ops.push(op).drop_last() =~= ops);
}

/// Code without its last instruction is lighter by that instruction.
pub proof fn lemma_weight_drop_last(ops: Seq<OpView>)
    requires
        ops.len() > 0,
    ensures
        weight(ops.drop_last()) == weight(ops) - weight_of(ops.last()),
{
}

/// The weight of an operator's instructions: they take one value.
pub proof fn lemma_weight_operator(ops: Seq<OpView>, kind: TokenKind)
    requires
        operator(kind) is Some,
    ensures
        weight(ops + operator(kind)->0) == weight(ops) - 1,
{
    let added = operator(kind)->0;
    if kind is BangTilde {
        assert(ops + added =~= ops.push(OpView::Match).push(OpView::Negate));
        lemma_weight_push(ops, OpView::Match);
        lemma_weight_push(ops.push(OpView::Match), OpView::Negate);
    } else {
        assert(ops + added =~= ops.push(added[0]));
        lemma_weight_push(ops, added[0]);
    }
}

/// A handler for the start of an operand writes code that leaves one
/// value.
pub proof fn lemma_prefix_weight(c: CompilerView, handler: Prefix)
    ensures
        prefix(c, handler) is Ok ==> weight(prefix(c, handler)->Ok_0.output) == weight(c.output)
            + 1,
{
    reveal(advance);
    if prefix(c, handler) is Ok {
        let c1 = prefix(c, handler)->Ok_0;
        assert(c1.output.len() > 0);
        assert(c1.output.drop_last() =~= c.output);
        lemma_weight_push(c.output, c1.output.last());
    }
}

/// A handler for a token after an operand writes code that keeps the
/// weight: it takes what it gives.
pub proof fn lemma_infix_weight(c: CompilerView, handler: Infix)
    ensures
        infix(c, handler) is Ok ==> weight(infix(c, handler)->Ok_0.output) == weight(c.output),
    decreases left(c), 0nat,
{
    lemma_advance(c);
    if infix(c, handler) is Ok {
        match handler {
            Infix::Member => {
                let c1 = consume(c, TokenKind::Dot)->Ok_0;
                lemma_advance(c1);
                let c2 = consume(c1, TokenKind::Identifier)->Ok_0;
                let pushed = crate::grammar::member(c)->Ok_0.output.drop_last();
                assert(pushed.drop_last() =~= c2.output);
                lemma_weight_push(c2.output, pushed.last());
                lemma_weight_push(pushed, OpView::GetMember);
                assert(crate::grammar::member(c)->Ok_0.output =~= pushed.push(OpView::GetMember));
            },
            Infix::Computed => {
                let c1 = consume(c, TokenKind::LSquare)->Ok_0;
                lemma_expression_weight(c1, Precedence::Assignment);
                let c2 = expression(c1, Precedence::Assignment)->Ok_0;
                lemma_advance(c2);
                let c3 = consume(c2, TokenKind::RSquare)->Ok_0;
                lemma_weight_push(c3.output, OpView::GetMember);
            },
            Infix::Assign => {
                let c1 = consume(c, TokenKind::Equal)->Ok_0;
                assert(c1.output.len() > 0);
                let rest = CompilerView { output: c1.output.drop_last(), ..c1 };
                lemma_weight_drop_last(c1.output);
                lemma_expression_weight(rest, Precedence::Assignment);
                let c2 = expression(rest, Precedence::Assignment)->Ok_0;
                let name = c1.output.last()->GetGlobal_0;
                lemma_weight_push(c2.output, OpView::SetGlobal(name));
            },
            Infix::Binary => {
                let c1 = advance(c)->Ok_0;
                lemma_expression_weight(c1, rule_of(c.current.kind).prec);
                let c2 = expression(c1, rule_of(c.current.kind).prec)->Ok_0;
                lemma_weight_operator(c2.output, c.current.kind);
            },
        }
    }
}

/// The operators after an operand write code that keeps the weight.
pub proof fn lemma_operators_weight(c: CompilerView, prec: Precedence)
    ensures
        operators(c, prec) is Ok ==> weight(operators(c, prec)->Ok_0.output) == weight(c.output),
    decreases left(c), 1nat,
{
    if level(prec) <= level(rule_of(c.current.kind).prec) {
        if rule_of(c.current.kind).infix is Some {
            let handler = rule_of(c.current.kind).infix->0;
            lemma_infix(c, handler);
            lemma_infix_weight(c, handler);
            if infix(c, handler) is Ok {
                lemma_operators_weight(infix(c, handler)->Ok_0, prec);
            }
        }
    }
}

/// The code of an expression leaves one value on the stack, less one for
/// every assignment that it makes.
pub proof fn lemma_expression_weight(c: CompilerView, prec: Precedence)
    ensures
        expression(c, prec) is Ok ==> weight(expression(c, prec)->Ok_0.output) == weight(c.output)
            + 1,
    decreases left(c), 2nat,
{
    if rule_of(c.current.kind).prefix is Some {
        let handler = rule_of(c.current.kind).prefix->0;
        lemma_prefix(c, handler);
        lemma_prefix_weight(c, handler);
        if prefix(c, handler) is Ok {
            lemma_operators_weight(prefix(c, handler)->Ok_0, prec);
        }
    }
}

/// The arguments of `print` leave one value each, as long as they can be
/// counted.
pub proof fn lemma_arguments_weight(c: CompilerView, count: nat)
    requires
        count + left(c) <= usize::MAX,
    ensures
        arguments(c, count) is Ok ==> {
            &&& arguments(c, count)->Ok_0.1 >= count
            &&& arguments(c, count)->Ok_0.1 + left(arguments(c, count)->Ok_0.0) <= usize::MAX
            &&& weight(arguments(c, count)->Ok_0.0.output) == weight(c.output) + arguments(
                c,
                count,
            )->Ok_0.1 - count
        },
    decreases left(c),
{
    if !at_statement_end(c) {
        lemma_expression(c, Precedence::Assignment);
        lemma_expression_weight(c, Precedence::Assignment);
        if expression(c, Precedence::Assignment) is Ok {
            let c1 = expression(c, Precedence::Assignment)->Ok_0;
            if c1.current.kind is Comma {
                lemma_advance(c1);
                if advance(c1) is Ok {
                    lemma_arguments_weight(advance(c1)->Ok_0, next_count(count));
                }
            }
        }
    }
}

/// Whether a statement is `print`.
pub open spec fn prints(c: CompilerView) -> bool {
    c.current.kind is Print
}

/// A statement with `print` writes code that leaves nothing on the stack,
/// any other statement code that leaves one value, less one for every
/// assignment.
pub proof fn lemma_statement_weight(c: CompilerView)
    requires
        left(c) <= usize::MAX,
    ensures
        statement(c) is Ok ==> weight(statement(c)->Ok_0.output) == weight(c.output) + if prints(
            c,
        ) {
            0int
        } else {
            1int
        },
{
    reveal(statement);
    if prints(c) {
        lemma_advance(c);
        if consume(c, TokenKind::Print) is Ok {
            let c1 = consume(c, TokenKind::Print)->Ok_0;
            lemma_arguments_weight(c1, 0);
            if arguments(c1, 0) is Ok {
                let (c2, count) = arguments(c1, 0)->Ok_0;
                lemma_weight_push(c2.output, OpView::Print(count));
            }
        }
    } else {
        lemma_expression_weight(c, Precedence::Assignment);
    }
}

/// How many of the statements of a body are no `print`.
pub open spec fn bare_statements(c: CompilerView) -> nat
    decreases left(c),
{
    if c.current.kind is RCurly {
        0
    } else {
        match statement(c) {
            Err(_) => 0,
            Ok(c1) => {
                let separated = if c1.current.kind is RCurly {
                    Ok(c1)
                } else {
                    consume(c1, TokenKind::Semicolon)
                };
                let here: nat = if prints(c) {
                    0
                } else {
                    1
                };
                match separated {
                    Err(_) => 0,
                    Ok(c2) => if left(c2) < left(c) {
                        here + bare_statements(c2)
                    } else {
                        here
                    },
                }
            },
        }
    }
}

/// The statements of a body write code that leaves one value for every
/// statement that is no `print`, less one for every assignment.
pub proof fn lemma_statements_weight(c: CompilerView)
    requires
        left(c) <= usize::MAX,
    ensures
        statements(c) is Ok ==> weight(statements(c)->Ok_0.output) == weight(c.output)
            + bare_statements(c),
    decreases left(c),
{
    if !(c.current.kind is RCurly) {
        lemma_statement(c);
        lemma_statement_weight(c);
        if statement(c) is Ok {
            let c1 = statement(c)->Ok_0;
            lemma_advance(c1);
            let separated = if c1.current.kind is RCurly {
                Ok(c1)
            } else {
                consume(c1, TokenKind::Semicolon)
            };
            if separated is Ok {
                lemma_statements_weight(separated->Ok_0);
            }
        }
    }
}

/// How many statements of a rule's body are no `print`; none where the
/// rule has no body of its own.
pub open spec fn bare_in_body(c: CompilerView) -> nat {
    match rule_head(c) {
        Err(_) => 0,
        Ok((_, c1)) => if !(c1.current.kind is LCurly) {
            0
        } else {
            match consume(cleared(c1), TokenKind::LCurly) {
                Err(_) => 0,
                Ok(c2) => bare_statements(c2),
            }
        },
    }
}

/// The stack after a rule's pattern and after its body. The code of a
/// pattern leaves exactly one value more on the stack than it found, where
/// the pattern makes no assignment. The code of a body leaves the stack as
/// high as it found it, where each of its statements is `print` or makes
/// exactly one assignment; in general it leaves one value for every
/// statement that is no `print`, less one for every assignment.
pub proof fn law_rule_code_weights(c: CompilerView)
    requires
        c.output.len() == 0,
        left(c) <= usize::MAX,
        !(c.current.kind is EOF),
    ensures
        rule(c) is Ok ==> ({
            let r = rule(c)->Ok_0.0;
            &&& r.pattern.len() > 0 ==> total(r.pattern) == 1 - sets(r.pattern)
            &&& r.pattern.len() > 0 && sets(r.pattern) == 0 ==> total(r.pattern) == 1
            &&& total(r.body) == bare_in_body(c) - sets(r.body)
            &&& bare_in_body(c) == sets(r.body) ==> total(r.body) == 0
        }),
{
    reveal(rule);
    lemma_advance(c);
    lemma_expression(c, Precedence::Assignment);
    lemma_expression_weight(c, Precedence::Assignment);
    if rule(c) is Ok {
        let (kind, c1) = rule_head(c)->Ok_0;
        let b = cleared(c1);
        assert(weight(b.output) == 0);
        assert(weight(c.output) == 0);
        if !(b.current.kind is LCurly) {
            lemma_weight_push(b.output, OpView::Print(0));
        } else {
            lemma_advance(b);
            let c2 = consume(b, TokenKind::LCurly)->Ok_0;
            lemma_statements_weight(c2);
            lemma_advance(statements(c2)->Ok_0);
        }
    }
}

} // verus!
