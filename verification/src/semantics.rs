//! What the machine does, as mathematics: its state, one move of it, and
//! how it runs from one piece of outside work to the next.
//!
//! The machine computes no floating point arithmetic and writes no output
//! itself. Where it needs one or the other it stops with a request; the
//! host does the work and hands back a reply.
use vstd::prelude::*;
use crate::compiler::{JqaRuleKind, RuleView};
use crate::json::{JsonView, element_at, elements, json_text, member_of};
use crate::number::{EXACT, ONE, ZERO, equal, greater, index_of, is_zero, whole_bits};
use crate::pattern::{regex_fault, regex_found};
use crate::text::text_after;
use crate::vm::{LiteralView, OpView, ValueView};

verus! {

/// The four operations of arithmetic.
#[derive(Copy, Clone, PartialEq, Eq, Debug, Structural)]
pub enum NumOp {
    Add,
    Subtract,
    Multiply,
    Divide,
}

/// Where a run stands.
#[derive(Copy, Clone, PartialEq, Eq, Debug, Structural)]
pub enum Phase {
    /// Running the selector.
    Selector,
    /// Running the rules marked `BEGIN`.
    Begin,
    /// About to take the next element of the selected value.
    Fetch,
    /// About to count the element that was taken.
    Count,
    /// Running the pattern rules on the current element.
    Match,
    /// Running the rules marked `END`.
    End,
    /// At rest: no run was started, or the last one ended or failed.
    Done,
}

/// The half of a rule that is running.
#[derive(Copy, Clone, PartialEq, Eq, Debug, Structural)]
pub enum Part {
    Pattern,
    Body,
}

/// What the machine does with the reply it waits for.
#[derive(Copy, Clone, PartialEq, Eq, Debug, Structural)]
pub enum After {
    /// It waits for nothing.
    Idle,
    /// Push the number and go on to the next instruction.
    Push,
    /// Put the number in the place of the string in this stack slot.
    Coerce(usize),
    /// Make the number the current root element.
    Root,
    /// Put the number in the place of the string that `NR` holds.
    Recount,
    /// Store the number as `NR` and start on the rules.
    Tally,
    /// Replace the two operands on the stack by the number, and go on.
    Result,
    /// Put the text in the place of the number in this stack slot.
    Render(usize),
    /// Print the text as a line of its own.
    Show,
    /// The line was written: go on, or leave the code where the flag is set.
    Printed(bool),
}

/// Outside work that the machine asks for.
pub enum RequestView {
    /// Read the text as a number.
    Parse(Seq<char>),
    /// Compute `left op right`.
    Calc(NumOp, u64, u64),
    /// Write the number in decimal.
    Format(u64),
    /// Write the text to the output.
    Print(Seq<char>),
}

/// What the host hands back.
pub enum ReplyView {
    /// The number that was asked for.
    Number(u64),
    /// The text that was to be read is no number.
    NoNumber,
    /// The text that was asked for.
    Text(Seq<char>),
    /// The line is written.
    Printed,
}

/// What a call of the machine ends with.
pub enum ActionView {
    Ask(RequestView),
    Done,
    Failed(Seq<char>),
}

/// The state of the machine.
pub struct VmView {
    /// The current root element, which `$` stands for.
    pub root: ValueView,
    /// The global variables.
    pub variables: Map<Seq<char>, ValueView>,
    /// The operand stack; the top is its last item.
    pub stack: Seq<ValueView>,
    /// The code of the selector.
    pub selector: Seq<OpView>,
    /// The rules.
    pub rules: Seq<RuleView>,
    /// What the selector gave.
    pub source: ValueView,
    /// The elements of what the selector gave.
    pub items: Seq<JsonView>,
    pub phase: Phase,
    /// The index of the current element.
    pub item: nat,
    /// The index of the current rule.
    pub rule: nat,
    pub part: Part,
    /// The index of the next instruction.
    pub pc: nat,
    /// The outside work that the machine waits for.
    pub request: Option<RequestView>,
    pub after: After,
    /// Why the run failed.
    pub failure: Option<Seq<char>>,
    /// Whether the host asked to trace the run.
    pub tracing: bool,
}

/// The name of the variable that counts the elements.
pub open spec fn counter() -> Seq<char> {
    "NR"@
}

/// The number that stands for a truth value.
pub open spec fn flag(b: bool) -> ValueView {
    ValueView::Num(
        if b {
            ONE
        } else {
            ZERO
        },
    )
}

/// Whether a value counts as true: a string that is not empty, a number
/// that is not zero.
pub open spec fn truthy(v: ValueView) -> bool {
    match v {
        ValueView::Str(s) => s.len() > 0,
        ValueView::Num(n) => !is_zero(n),
        _ => false,
    }
}

/// The name of a value's type.
pub open spec fn kind_name(v: ValueView) -> Seq<char> {
    match v {
        ValueView::Str(_) => "string"@,
        ValueView::Num(_) => "number"@,
        ValueView::Array(_) => "array"@,
        ValueView::Object(_) => "object"@,
        ValueView::Regex(_) => "regex"@,
    }
}

/// The number that a value counts as in arithmetic, where no parsing is
/// needed: a number is itself, and what is no string is 0.
pub open spec fn numeric(v: ValueView) -> u64 {
    match v {
        ValueView::Num(n) => n,
        _ => ZERO,
    }
}

/// The run-time value of a JSON value. A number gives none: its text has to
/// be parsed first.
pub open spec fn value_of(j: JsonView) -> Option<ValueView> {
    match j {
        JsonView::Array(_) => Some(ValueView::Array(j)),
        JsonView::Object(_) => Some(ValueView::Object(j)),
        JsonView::String(s) => Some(ValueView::Str(s)),
        JsonView::Number(_) => None,
        _ => Some(ValueView::Num(ZERO)),
    }
}

/// The elements that iterating over a value visits, if it can be iterated.
pub open spec fn items_of(v: ValueView) -> Option<Seq<JsonView>> {
    match v {
        ValueView::Array(j) => elements(j),
        ValueView::Object(j) => elements(j),
        _ => None,
    }
}

/// Whether two values are equal: strings by their characters, numbers by
/// their values, and nothing else.
pub open spec fn same(l: ValueView, r: ValueView) -> bool {
    match (l, r) {
        (ValueView::Str(a), ValueView::Str(b)) => a == b,
        (ValueView::Num(a), ValueView::Num(b)) => equal(a, b),
        _ => false,
    }
}

/// How a value is printed. A number gives none: the host writes it.
pub open spec fn shown(v: ValueView) -> Option<Seq<char>> {
    match v {
        ValueView::Str(s) => Some(s),
        ValueView::Regex(p) => Some("/"@ + p + "/"@),
        ValueView::Num(_) => None,
        ValueView::Array(j) => Some(json_text(j)),
        ValueView::Object(j) => Some(json_text(j)),
    }
}

/// The first slot at or after `from` that holds a number.
pub open spec fn number_slot(stack: Seq<ValueView>, from: nat) -> Option<nat>
    decreases stack.len() - from,
{
    if from >= stack.len() {
        None
    } else if stack[from as int] is Num {
        Some(from)
    } else {
        number_slot(stack, from + 1)
    }
}

/// How a value is printed as an argument of `print`: a number, which the
/// host writes, gives no text here.
pub open spec fn shown_or_empty(v: ValueView) -> Seq<char> {
    match shown(v) {
        Some(t) => t,
        None => Seq::empty(),
    }
}

/// The values of the slots `from..to` as they are printed, with one space
/// between each two.
pub open spec fn joined(stack: Seq<ValueView>, from: nat, to: nat) -> Seq<char>
    decreases to,
{
    if to <= from || to > stack.len() {
        Seq::empty()
    } else if to == from + 1 {
        shown_or_empty(stack[from as int])
    } else {
        joined(stack, from, (to - 1) as nat) + " "@ + shown_or_empty(stack[to - 1])
    }
}

/// A line of output: the text and a line break.
pub open spec fn line(text: Seq<char>) -> Seq<char> {
    text + "\n"@
}

/// The message for a pop from an empty stack.
pub open spec fn empty_stack() -> Seq<char> {
    "attempted to pop an empty stack"@
}

/// The machine given up, with the reason.
pub open spec fn fail(m: VmView, msg: Seq<char>) -> VmView {
    VmView { phase: Phase::Done, request: None, after: After::Idle, failure: Some(msg), ..m }
}

/// The machine waiting for outside work.
pub open spec fn ask(m: VmView, request: RequestView, after: After) -> VmView {
    VmView { request: Some(request), after, ..m }
}

/// The machine with a new stack.
pub open spec fn with_stack(m: VmView, stack: Seq<ValueView>) -> VmView {
    VmView { stack, ..m }
}

/// The machine at the next instruction.
pub open spec fn next(m: VmView) -> VmView {
    VmView { pc: m.pc + 1, ..m }
}

/// The machine with `v` pushed, at the next instruction.
pub open spec fn produce(m: VmView, v: ValueView) -> VmView {
    next(with_stack(m, m.stack.push(v)))
}

/// The machine about to put a JSON value on the stack.
pub open spec fn produce_json(m: VmView, j: JsonView) -> VmView {
    match j {
        JsonView::Number(text) => ask(m, RequestView::Parse(text), After::Push),
        _ => produce(m, value_of(j)->0),
    }
}

/// The value of a variable: 0 where it was never set.
pub open spec fn variable(m: VmView, name: Seq<char>) -> ValueView {
    if m.variables.contains_key(name) {
        m.variables[name]
    } else {
        ValueView::Num(ZERO)
    }
}

/// The arithmetic operation of an instruction.
pub open spec fn arithmetic(op: OpView) -> Option<NumOp> {
    match op {
        OpView::Add => Some(NumOp::Add),
        OpView::Subtract => Some(NumOp::Subtract),
        OpView::Multiply => Some(NumOp::Multiply),
        OpView::Divide => Some(NumOp::Divide),
        _ => None,
    }
}

/// Member access: the key is on top of the stack, the target below it.
pub open spec fn get_member(m: VmView) -> VmView {
    if m.stack.len() < 2 {
        fail(with_stack(m, Seq::empty()), empty_stack())
    } else {
        let key = m.stack[m.stack.len() - 1];
        let target = m.stack[m.stack.len() - 2];
        let rest = with_stack(m, m.stack.take(m.stack.len() - 2));
        match target {
            ValueView::Array(a) => match key {
                ValueView::Num(n) => match element_at(a, index_of(n) as nat) {
                    Some(j) => produce_json(rest, j),
                    None => produce(rest, ValueView::Num(ZERO)),
                },
                _ => fail(rest, "cannot index an array with a "@ + kind_name(key)),
            },
            ValueView::Object(o) => match key {
                ValueView::Str(s) => match member_of(o, s) {
                    Some(j) => produce_json(rest, j),
                    None => fail(rest, "unknown key "@ + s),
                },
                ValueView::Num(n) => ask(
                    m,
                    RequestView::Format(n),
                    After::Render((m.stack.len() - 1) as usize),
                ),
                _ => fail(rest, "cannot access member on object with "@ + kind_name(key)),
            },
            _ => fail(
                rest,
                "can only access members on objects or arrays, found "@ + kind_name(target),
            ),
        }
    }
}

/// An instruction that takes two operands and gives a truth value or, for
/// arithmetic and mixed comparison, asks the host.
pub open spec fn binary(m: VmView, op: OpView) -> VmView {
    if m.stack.len() < 2 {
        fail(with_stack(m, Seq::empty()), empty_stack())
    } else {
        let top = (m.stack.len() - 1) as nat;
        let r = m.stack[top as int];
        let l = m.stack[top - 1];
        let rest = with_stack(m, m.stack.take(top - 1));
        match op {
            OpView::Equal => produce(rest, flag(same(l, r))),
            OpView::And => produce(rest, flag(truthy(l) && truthy(r))),
            OpView::Or => produce(rest, flag(truthy(l) || truthy(r))),
            OpView::Match => match (l, r) {
                (ValueView::Str(s), ValueView::Regex(p)) => match regex_fault(p) {
                    None => produce(rest, flag(regex_found(p, s))),
                    Some(e) => fail(rest, "invalid regex: "@ + e),
                },
                _ => fail(rest, "can only match a string against a regex"@),
            },
            _ => if op is Greater && l is Str && r is Str {
                produce(rest, flag(text_after(l->Str_0, r->Str_0)))
            } else if r is Str {
                ask(m, RequestView::Parse(r->Str_0), After::Coerce(top as usize))
            } else if l is Str {
                ask(m, RequestView::Parse(l->Str_0), After::Coerce((top - 1) as usize))
            } else if op is Greater {
                produce(rest, flag(greater(numeric(l), numeric(r))))
            } else {
                match arithmetic(op) {
                    Some(f) => ask(m, RequestView::Calc(f, numeric(l), numeric(r)), After::Result),
                    None => m,
                }
            },
        }
    }
}

/// Printing: with no arguments the root element, else the topmost `count`
/// values of the stack, the deepest first.
pub open spec fn print(m: VmView, count: nat) -> VmView {
    if count == 0 {
        match m.root {
            ValueView::Num(n) => ask(m, RequestView::Format(n), After::Show),
            _ => ask(m, RequestView::Print(line(shown(m.root)->0)), After::Printed(true)),
        }
    } else if m.stack.len() < count {
        fail(with_stack(m, Seq::empty()), empty_stack())
    } else {
        let base = (m.stack.len() - count) as nat;
        match number_slot(m.stack, base) {
            Some(slot) => ask(
                m,
                RequestView::Format(m.stack[slot as int]->Num_0),
                After::Render(slot as usize),
            ),
            None => ask(
                with_stack(m, m.stack.take(base as int)),
                RequestView::Print(line(joined(m.stack, base, m.stack.len()))),
                After::Printed(false),
            ),
        }
    }
}

/// One instruction.
pub open spec fn exec_op(m: VmView, op: OpView) -> VmView {
    match op {
        OpView::GetField(name) => if name.len() == 0 || name == "root"@ {
            produce(m, m.root)
        } else {
            fail(m, "unknown field: "@ + name)
        },
        OpView::PushImmediate(literal) => match literal {
            LiteralView::Str(s) => produce(m, ValueView::Str(s)),
            LiteralView::Regex(p) => produce(m, ValueView::Regex(p)),
            LiteralView::Num(digits) => ask(m, RequestView::Parse(digits), After::Push),
        },
        OpView::GetMember => get_member(m),
        OpView::GetGlobal(name) => produce(m, variable(m, name)),
        OpView::SetGlobal(name) => if m.stack.len() < 1 {
            fail(m, empty_stack())
        } else {
            next(
                VmView {
                    stack: m.stack.drop_last(),
                    variables: m.variables.insert(name, m.stack.last()),
                    ..m
                },
            )
        },
        OpView::Negate => if m.stack.len() < 1 {
            fail(m, empty_stack())
        } else {
            match m.stack.last() {
                ValueView::Num(n) => produce(with_stack(m, m.stack.drop_last()), flag(is_zero(n))),
                _ => fail(with_stack(m, m.stack.drop_last()), "can only negate a number"@),
            }
        },
        OpView::Print(count) => print(m, count),
        _ => binary(m, op),
    }
}

/// The kind of rule that a phase runs.
pub open spec fn kind_of(phase: Phase) -> Option<JqaRuleKind> {
    match phase {
        Phase::Begin => Some(JqaRuleKind::Begin),
        Phase::Match => Some(JqaRuleKind::Match),
        Phase::End => Some(JqaRuleKind::End),
        _ => None,
    }
}

/// The code that is running, if any is.
pub open spec fn code(m: VmView) -> Option<Seq<OpView>> {
    match m.phase {
        Phase::Selector => Some(m.selector),
        Phase::Begin | Phase::Match | Phase::End => if m.rule < m.rules.len() {
            match m.part {
                Part::Pattern => Some(m.rules[m.rule as int].pattern),
                Part::Body => Some(m.rules[m.rule as int].body),
            }
        } else {
            None
        },
        _ => None,
    }
}

/// The machine at the start of the rules, in the given phase.
pub open spec fn enter(m: VmView, phase: Phase) -> VmView {
    VmView { phase, rule: 0, part: Part::Pattern, pc: 0, ..m }
}

/// The machine at the start of the next rule.
pub open spec fn next_rule(m: VmView) -> VmView {
    VmView { rule: m.rule + 1, part: Part::Pattern, pc: 0, ..m }
}

/// The machine at the start of the current rule's body.
pub open spec fn enter_body(m: VmView) -> VmView {
    VmView { part: Part::Body, pc: 0, ..m }
}

/// The selector has run: its result is taken from the stack and the rules
/// marked `BEGIN` see it as their root element.
pub open spec fn select(m: VmView) -> VmView {
    if m.stack.len() < 1 {
        fail(m, "expected a value on the stack after the selector"@)
    } else {
        enter(
            VmView { stack: m.stack.drop_last(), source: m.stack.last(), root: m.stack.last(), ..m },
            Phase::Begin,
        )
    }
}

/// A pattern has run: its result is taken from the stack and decides
/// whether the body runs.
pub open spec fn decide(m: VmView) -> VmView {
    if m.stack.len() < 1 {
        fail(m, "expected one value on the stack after pattern"@)
    } else if truthy(m.stack.last()) {
        enter_body(with_stack(m, m.stack.drop_last()))
    } else {
        next_rule(with_stack(m, m.stack.drop_last()))
    }
}

/// The rules marked `END` start: they see what the selector gave as their
/// root element.
pub open spec fn enter_end(m: VmView) -> VmView {
    enter(VmView { root: m.source, ..m }, Phase::End)
}

/// The rules of a phase have run.
pub open spec fn finish(m: VmView) -> VmView {
    match m.phase {
        Phase::Begin => match items_of(m.source) {
            Some(items) => VmView { items, item: 0, phase: Phase::Fetch, ..m },
            None => fail(m, "JSON must be an object or an array, got "@ + kind_name(m.source)),
        },
        Phase::Match => if m.item < m.items.len() {
            VmView { item: m.item + 1, phase: Phase::Fetch, ..m }
        } else {
            enter_end(m)
        },
        _ => VmView { phase: Phase::Done, ..m },
    }
}

/// One move within the rules of a phase.
pub open spec fn rule_step(m: VmView) -> VmView {
    if m.rule >= m.rules.len() {
        finish(m)
    } else {
        let rule = m.rules[m.rule as int];
        if Some(rule.kind) != kind_of(m.phase) {
            next_rule(m)
        } else {
            match m.part {
                Part::Pattern => if rule.pattern.len() == 0 {
                    enter_body(m)
                } else if m.pc < rule.pattern.len() {
                    exec_op(m, rule.pattern[m.pc as int])
                } else {
                    decide(m)
                },
                Part::Body => if m.pc < rule.body.len() {
                    exec_op(m, rule.body[m.pc as int])
                } else {
                    next_rule(m)
                },
            }
        }
    }
}

/// The next element becomes the root element; after the last one the rules
/// marked `END` start.
pub open spec fn fetch(m: VmView) -> VmView {
    if m.item >= m.items.len() {
        enter_end(m)
    } else {
        match m.items[m.item as int] {
            JsonView::Number(text) => ask(m, RequestView::Parse(text), After::Root),
            j => VmView { root: value_of(j)->0, phase: Phase::Count, ..m },
        }
    }
}

/// The element is counted. Where `NR` holds the number of elements taken
/// before this one in this run, a whole number that a double holds exactly,
/// the machine stores the next whole number itself and starts on the rules.
/// Where a rule or an earlier run has left anything else in `NR`, the host
/// is asked for `NR + 1`.
pub open spec fn count(m: VmView) -> VmView {
    match variable(m, counter()) {
        ValueView::Str(s) => ask(m, RequestView::Parse(s), After::Recount),
        v => if m.item < EXACT && v == ValueView::Num(whole_bits(m.item)) {
            enter(
                VmView {
                    variables: m.variables.insert(
                        counter(),
                        ValueView::Num(whole_bits(m.item + 1)),
                    ),
                    ..m
                },
                Phase::Match,
            )
        } else {
            ask(m, RequestView::Calc(NumOp::Add, numeric(v), ONE), After::Tally)
        },
    }
}

/// One move of a machine that waits for nothing.
pub open spec fn step(m: VmView) -> VmView {
    match m.phase {
        Phase::Selector => if m.pc < m.selector.len() {
            exec_op(m, m.selector[m.pc as int])
        } else {
            select(m)
        },
        Phase::Begin | Phase::Match | Phase::End => rule_step(m),
        Phase::Fetch => fetch(m),
        Phase::Count => count(m),
        Phase::Done => m,
    }
}

/// The instruction that the next move runs, where it runs one.
pub open spec fn instruction(m: VmView) -> Option<OpView> {
    match m.phase {
        Phase::Selector => if m.pc < m.selector.len() {
            Some(m.selector[m.pc as int])
        } else {
            None
        },
        Phase::Begin | Phase::Match | Phase::End => if m.rule < m.rules.len() && Some(
            m.rules[m.rule as int].kind,
        ) == kind_of(m.phase) && m.pc < code(m)->0.len() {
            Some(code(m)->0[m.pc as int])
        } else {
            None
        },
        _ => None,
    }
}

/// Whether the machine has stopped: it is at rest or waits for the host.
pub open spec fn halted(m: VmView) -> bool {
    m.phase is Done || m.request is Some
}

/// How far a phase is from the end of a run.
pub open spec fn phase_rank(phase: Phase) -> nat {
    match phase {
        Phase::Selector => 4,
        Phase::Begin => 3,
        Phase::Fetch | Phase::Count | Phase::Match => 2,
        Phase::End => 1,
        Phase::Done => 0,
    }
}

/// How many elements are still to be taken.
pub open spec fn items_left(m: VmView) -> nat {
    if m.item < m.items.len() {
        (m.items.len() - m.item) as nat
    } else {
        0
    }
}

/// How far the work on one element is from its end.
pub open spec fn stage_rank(phase: Phase) -> nat {
    match phase {
        Phase::Fetch => 2,
        Phase::Count => 1,
        _ => 0,
    }
}

/// How many rules are still to be looked at.
pub open spec fn rules_left(m: VmView) -> nat {
    if m.rule < m.rules.len() {
        (m.rules.len() - m.rule) as nat
    } else {
        0
    }
}

/// How far the part of a rule is from the rule's end.
pub open spec fn part_rank(part: Part) -> nat {
    match part {
        Part::Pattern => 1,
        Part::Body => 0,
    }
}

/// How many instructions of the running code are still to be run.
pub open spec fn code_left(m: VmView) -> nat {
    match code(m) {
        Some(ops) => if m.pc < ops.len() {
            (ops.len() - m.pc) as nat
        } else {
            0
        },
        None => 0,
    }
}

/// Whether `n` stands at the same place of the run as `m`, one instruction
/// further, and waits for nothing.
pub open spec fn moved_on(m: VmView, n: VmView) -> bool {
    &&& n.pc == m.pc + 1
    &&& n.phase == m.phase
    &&& n.items == m.items
    &&& n.item == m.item
    &&& n.rules == m.rules
    &&& n.rule == m.rule
    &&& n.part == m.part
    &&& n.selector == m.selector
    &&& n.source == m.source
    &&& n.root == m.root
    &&& n.request is None
}

/// Whether `n` is nearer to the end of the run than `m`.
pub open spec fn nearer(n: VmView, m: VmView) -> bool {
    decreases_to!(
        phase_rank(m.phase), items_left(m), stage_rank(m.phase), rules_left(m),
        part_rank(m.part), code_left(m)
        =>
        phase_rank(n.phase), items_left(n), stage_rank(n.phase), rules_left(n),
        part_rank(n.part), code_left(n)
    )
}

/// Member access fails, asks the host, or goes on to the next instruction.
pub proof fn lemma_get_member_moves(m: VmView)
    requires
        !halted(m),
    ensures
        halted(get_member(m)) || moved_on(m, get_member(m)),
{
}

/// An instruction with two operands fails, asks the host, or goes on to
/// the next instruction.
pub proof fn lemma_binary_moves(m: VmView, op: OpView)
    requires
        !halted(m),
        op is Equal || op is And || op is Or || op is Match || op is Greater || arithmetic(op)
            is Some,
    ensures
        halted(binary(m, op)) || moved_on(m, binary(m, op)),
{
}

/// An instruction fails, asks the host, or goes on to the next instruction:
/// it changes nothing but the stack and the variables.
pub proof fn lemma_exec_op_moves(m: VmView, op: OpView)
    requires
        !halted(m),
    ensures
        halted(exec_op(m, op)) || moved_on(m, exec_op(m, op)),
{
    match op {
        OpView::GetMember => {
            lemma_get_member_moves(m);
        },
        OpView::GetField(_) | OpView::PushImmediate(_) | OpView::GetGlobal(_) | OpView::SetGlobal(
            _,
        ) | OpView::Negate | OpView::Print(_) => {},
        _ => {
            lemma_binary_moves(m, op);
        },
    }
}

/// A move of the rules of a phase stops the machine or brings it nearer to
/// the end of the run.
pub proof fn lemma_rule_step_nearer(m: VmView)
    requires
        !halted(m),
        m.phase is Begin || m.phase is Match || m.phase is End,
    ensures
        halted(rule_step(m)) || nearer(rule_step(m), m),
{
    if m.rule < m.rules.len() {
        let rule = m.rules[m.rule as int];
        if Some(rule.kind) == kind_of(m.phase) {
            match m.part {
                Part::Pattern => {
                    if rule.pattern.len() != 0 && m.pc < rule.pattern.len() {
                        lemma_exec_op_moves(m, rule.pattern[m.pc as int]);
                    }
                },
                Part::Body => {
                    if m.pc < rule.body.len() {
                        lemma_exec_op_moves(m, rule.body[m.pc as int]);
                    }
                },
            }
        }
    }
}

/// A move stops the machine or brings it nearer to the end of the run, so
/// no run goes on for ever between two requests.
pub proof fn lemma_step_nearer(m: VmView)
    requires
        !halted(m),
    ensures
        halted(step(m)) || nearer(step(m), m),
{
    match m.phase {
        Phase::Selector => {
            if m.pc < m.selector.len() {
                lemma_exec_op_moves(m, m.selector[m.pc as int]);
            }
        },
        Phase::Begin | Phase::Match | Phase::End => {
            lemma_rule_step_nearer(m);
        },
        _ => {},
    }
}

/// The machine run on until it has stopped.
pub open spec fn advance(m: VmView) -> VmView
    decreases phase_rank(m.phase), items_left(m), stage_rank(m.phase), rules_left(m), part_rank(
        m.part,
    ), code_left(m),
    via advance_ends
{
    if halted(m) {
        m
    } else {
        let n = step(m);
        if halted(n) {
            n
        } else {
            advance(n)
        }
    }
}

#[via_fn]
proof fn advance_ends(m: VmView) {
    if !halted(m) {
        lemma_step_nearer(m);
    }
}

/// The instruction count at which the running code is left.
pub open spec fn code_end(m: VmView) -> nat {
    match code(m) {
        Some(ops) => ops.len(),
        None => m.pc,
    }
}

/// The machine without a request.
pub open spec fn settle(m: VmView) -> VmView {
    VmView { request: None, after: After::Idle, ..m }
}

/// Whether the machine waits for a number that the host reads from a text.
pub open spec fn reads(after: After) -> bool {
    after is Push || after is Coerce || after is Root || after is Recount
}

/// The reply as the machine takes it: a text that is no number counts as 0.
pub open spec fn taken(after: After, reply: ReplyView) -> ReplyView {
    if reads(after) && reply is NoNumber {
        ReplyView::Number(ZERO)
    } else {
        reply
    }
}

/// The machine after the host's reply, before it runs on. A reply that does
/// not answer what was asked ends the run.
pub open spec fn deliver(m: VmView, reply: ReplyView) -> VmView {
    if m.phase is Done {
        m
    } else {
        let s = settle(m);
        match (m.after, taken(m.after, reply)) {
            (After::Push, ReplyView::Number(n)) => produce(s, ValueView::Num(n)),
            (After::Coerce(slot), ReplyView::Number(n)) if slot < m.stack.len() => with_stack(
                s,
                m.stack.update(slot as int, ValueView::Num(n)),
            ),
            (After::Root, ReplyView::Number(n)) => VmView {
                root: ValueView::Num(n),
                phase: if m.phase is Fetch {
                    Phase::Count
                } else {
                    m.phase
                },
                ..s
            },
            (After::Recount, ReplyView::Number(n)) => VmView {
                variables: m.variables.insert(counter(), ValueView::Num(n)),
                ..s
            },
            (After::Tally, ReplyView::Number(n)) => enter(
                VmView { variables: m.variables.insert(counter(), ValueView::Num(n)), ..s },
                Phase::Match,
            ),
            (After::Result, ReplyView::Number(n)) if m.stack.len() >= 2 => produce(
                with_stack(s, m.stack.take(m.stack.len() - 2)),
                ValueView::Num(n),
            ),
            (After::Render(slot), ReplyView::Text(t)) if slot < m.stack.len() => with_stack(
                s,
                m.stack.update(slot as int, ValueView::Str(t)),
            ),
            (After::Show, ReplyView::Text(t)) => ask(
                m,
                RequestView::Print(line(t)),
                After::Printed(true),
            ),
            (After::Printed(leave), ReplyView::Printed) => if leave {
                VmView { pc: code_end(m), ..s }
            } else {
                next(s)
            },
            _ => fail(m, "unexpected reply"@),
        }
    }
}

/// The machine as a new run finds it: the variables and the stack stay as
/// they are.
pub open spec fn load(
    m: VmView,
    document: Result<JsonView, Seq<char>>,
    selector: Seq<OpView>,
    rules: Seq<RuleView>,
) -> VmView {
    let fresh = VmView {
        selector,
        rules,
        source: ValueView::Num(ZERO),
        items: Seq::empty(),
        phase: Phase::Selector,
        item: 0,
        rule: 0,
        part: Part::Pattern,
        pc: 0,
        request: None,
        after: After::Idle,
        failure: None,
        ..m
    };
    match document {
        Err(e) => fail(fresh, "error parsing JSON: "@ + e),
        Ok(JsonView::Number(text)) => ask(fresh, RequestView::Parse(text), After::Root),
        Ok(j) => VmView { root: value_of(j)->0, ..fresh },
    }
}

/// What a call of the machine ends with, given where it stopped.
pub open spec fn action_of(m: VmView) -> ActionView {
    if m.phase is Done {
        match m.failure {
            Some(msg) => ActionView::Failed(msg),
            None => ActionView::Done,
        }
    } else {
        match m.request {
            Some(r) => ActionView::Ask(r),
            None => ActionView::Done,
        }
    }
}

} // verus!
