//! Compiled rules written out as text, for a reader who wants to see what
//! the compiler made of a program.
use vstd::prelude::*;
use crate::compiler::{JqaRule, JqaRuleKind, RuleView};
use crate::text::{decimal, decimal_of};
use crate::vm::{Literal, LiteralView, OpCode, OpView};

verus! {

/// A constant as it is listed.
pub open spec fn literal_text(literal: LiteralView) -> Seq<char> {
    match literal {
        LiteralView::Str(s) => "Str(\""@ + s + "\")"@,
        LiteralView::Regex(p) => "Regex(\""@ + p + "\")"@,
        LiteralView::Num(digits) => "Num("@ + digits + ")"@,
    }
}

/// An instruction as it is listed: its name, then what it carries.
pub open spec fn op_text(op: OpView) -> Seq<char> {
    match op {
        OpView::GetField(s) => "GetField "@ + s,
        OpView::PushImmediate(literal) => "PushImmediate "@ + literal_text(literal),
        OpView::GetMember => "GetMember"@,
        OpView::GetGlobal(s) => "GetGlobal "@ + s,
        OpView::SetGlobal(s) => "SetGlobal "@ + s,
        OpView::Equal => "Equal"@,
        OpView::And => "And"@,
        OpView::Or => "Or"@,
        OpView::Add => "Add"@,
        OpView::Subtract => "Subtract"@,
        OpView::Multiply => "Multiply"@,
        OpView::Divide => "Divide"@,
        OpView::Greater => "Greater"@,
        OpView::Match => "Match"@,
        OpView::Negate => "Negate"@,
        OpView::Print(n) => "Print "@ + decimal(n),
    }
}

/// The name of a kind of rule.
pub open spec fn rule_kind_text(kind: JqaRuleKind) -> Seq<char> {
    match kind {
        JqaRuleKind::Begin => "Begin"@,
        JqaRuleKind::Match => "Match"@,
        JqaRuleKind::End => "End"@,
    }
}

/// The first `count` instructions of a piece of code, one on a line,
/// indented.
pub open spec fn listing(ops: Seq<OpView>, count: nat) -> Seq<char>
    decreases count,
{
    if count == 0 || count > ops.len() {
        Seq::empty()
    } else {
        listing(ops, (count - 1) as nat) + "    "@ + op_text(ops[count - 1]) + "\n"@
    }
}

/// A rule as it is listed: its kind, its pattern and its body.
pub open spec fn rule_text(rule: RuleView) -> Seq<char> {
    "  kind: "@ + rule_kind_text(rule.kind) + "\n  pattern\n"@ + listing(
        rule.pattern,
        rule.pattern.len(),
    ) + "body\n"@ + listing(rule.body, rule.body.len())
}

/// The first `count` rules as they are listed, one after the other.
pub open spec fn rules_listing(rules: Seq<RuleView>, count: nat) -> Seq<char>
    decreases count,
{
    if count == 0 || count > rules.len() {
        Seq::empty()
    } else {
        rules_listing(rules, (count - 1) as nat) + rule_text(rules[count - 1])
    }
}

/// The rules of a program as they are listed, under one heading.
pub open spec fn rules_text(rules: Seq<RuleView>) -> Seq<char> {
    "rule\n"@ + rules_listing(rules, rules.len())
}

/// Writes out an instruction.
pub fn format_op(op: &OpCode) -> (r: String)
    ensures
        r@ == op_text(op.deep_view()),
{
    match op {
        OpCode::GetField(s) => named("GetField ", s.as_str()),
        OpCode::PushImmediate(literal) => {
            let mut text = String::from_str("PushImmediate ");
            match literal {
                Literal::Str(s) => {
                    text.append(wrapped("Str(\"", s.as_str(), "\")").as_str());
                },
                Literal::Regex(p) => {
                    text.append(wrapped("Regex(\"", p.as_str(), "\")").as_str());
                },
                Literal::Num(digits) => {
                    text.append(wrapped("Num(", digits.as_str(), ")").as_str());
                },
            }
            text
        },
        OpCode::GetMember => String::from_str("GetMember"),
        OpCode::GetGlobal(s) => named("GetGlobal ", s.as_str()),
        OpCode::SetGlobal(s) => named("SetGlobal ", s.as_str()),
        OpCode::Equal => String::from_str("Equal"),
        OpCode::And => String::from_str("And"),
        OpCode::Or => String::from_str("Or"),
        OpCode::Add => String::from_str("Add"),
        OpCode::Subtract => String::from_str("Subtract"),
        OpCode::Multiply => String::from_str("Multiply"),
        OpCode::Divide => String::from_str("Divide"),
        OpCode::Greater => String::from_str("Greater"),
        OpCode::Match => String::from_str("Match"),
        OpCode::Negate => String::from_str("Negate"),
        OpCode::Print(n) => named("Print ", decimal_of(*n).as_str()),
    }
}

/// `name` followed by `rest`.
fn named(name: &str, rest: &str) -> (r: String)
    ensures
        r@ == name@ + rest@,
{
    let mut text = String::from_str(name);
    text.append(rest);
    text
}

/// `inner` between `open` and `close`.
fn wrapped(open: &str, inner: &str, close: &str) -> (r: String)
    ensures
        r@ == open@ + inner@ + close@,
{
    let mut text = String::from_str(open);
    text.append(inner);
    text.append(close);
    text
}

/// Appends the listing of a piece of code.
fn list_ops(out: &mut String, ops: &Vec<OpCode>)
    ensures
        final(out)@ == old(out)@ + listing(ops.deep_view(), ops.len() as nat),
{
    let mut i: usize = 0;
    assert(out@ + Seq::<char>::empty() =~= out@);
    while i < ops.len()
        invariant
            i <= ops.len(),
            out@ == old(out)@ + listing(ops.deep_view(), i as nat),
        decreases ops.len() - i,
    {
        out.append("    ");
        out.append(format_op(&ops[i]).as_str());
        out.append("\n");
        i += 1;
        assert(out@ =~= old(out)@ + listing(ops.deep_view(), i as nat));
    }
}

/// Writes out the rules of a program: a heading, then each rule with its
/// kind, the code of its pattern and the code of its body.
pub fn format_rules(rules: &Vec<JqaRule>) -> (r: String)
    ensures
        r@ == rules_text(rules.deep_view()),
{
    let mut out = String::from_str("rule\n");
    let mut i: usize = 0;
    assert(out@ + Seq::<char>::empty() =~= out@);
    while i < rules.len()
        invariant
            i <= rules.len(),
            out@ == "rule\n"@ + rules_listing(rules.deep_view(), i as nat),
        decreases rules.len() - i,
    {
        let rule = &rules[i];
        let ghost before = out@;
        out.append("  kind: ");
        match rule.kind {
            JqaRuleKind::Begin => {
                out.append("Begin");
            },
            JqaRuleKind::Match => {
                out.append("Match");
            },
            JqaRuleKind::End => {
                out.append("End");
            },
        }
        out.append("\n  pattern\n");
        list_ops(&mut out, &rule.pattern);
        out.append("body\n");
        list_ops(&mut out, &rule.body);
        i += 1;
        assert(out@ =~= before + rule_text(rule.deep_view()));
        assert(out@ =~= "rule\n"@ + rules_listing(rules.deep_view(), i as nat));
    }
    out
}

} // verus!
