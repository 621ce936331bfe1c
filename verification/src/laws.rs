//! What holds of every run of the machine, proved from its definition.
use vstd::prelude::*;
use crate::compiler::RuleView;
use crate::grammar::{compiled, compiled_expression, operator};
use crate::json::JsonView;
use crate::lexer::TokenKind;
use crate::number::{EXACT, ZERO, whole_bits};
use crate::pattern::{regex_fault, regex_found};
use crate::semantics::{
    After, Phase, ReplyView, VmView, advance, counter, deliver, exec_op, flag, halted, items_of,
    lemma_exec_op_moves, lemma_step_nearer, load, step, truthy, value_of, variable,
};
use crate::vm::{OpView, ValueView};

verus! {

/// Compiling is deterministic: what a text compiles to depends on the text
/// alone, so two compilations of one text give the same code or the same
/// error.
pub proof fn law_compiling_is_deterministic(first: Seq<char>, second: Seq<char>)
    requires
        first == second,
    ensures
        compiled(first) == compiled(second),
        compiled_expression(first) == compiled_expression(second),
{
}

/// Whether the machine is running rules.
pub open spec fn in_rules(phase: Phase) -> bool {
    phase is Begin || phase is Match || phase is End
}

/// Whether the value `v` is what the machine makes of the element `j`: for
/// a number, a number, which the host reads from its text; else the value
/// of `j` itself.
pub open spec fn stands_for(v: ValueView, j: JsonView) -> bool {
    match j {
        JsonView::Number(_) => v is Num,
        _ => value_of(j) == Some(v),
    }
}

/// Whether what the machine waits for fits the place where it stands.
pub open spec fn coherent(m: VmView) -> bool {
    &&& m.request is None ==> m.after is Idle
    &&& match m.after {
        After::Idle => true,
        After::Root => m.phase is Selector || (m.phase is Fetch && m.item < m.items.len()
            && m.items[m.item as int] is Number),
        After::Recount | After::Tally => m.phase is Count,
        _ => m.phase is Selector || in_rules(m.phase),
    }
}

/// Whether the root element is what the phase of the run calls for: what
/// the selector gave while the rules marked `BEGIN` and `END` run, and the
/// current element of it while the pattern rules run.
pub open spec fn consistent(m: VmView) -> bool {
    &&& coherent(m)
    &&& (m.phase is Begin || m.phase is End) ==> m.root == m.source
    &&& (m.phase is Fetch || m.phase is Count || m.phase is Match) ==> items_of(m.source) == Some(
        m.items,
    )
    &&& (m.phase is Count || m.phase is Match) ==> m.item < m.items.len() && stands_for(
        m.root,
        m.items[m.item as int],
    )
}

/// A run starts in a consistent state.
pub proof fn law_load_is_consistent(
    m: VmView,
    document: Result<JsonView, Seq<char>>,
    selector: Seq<OpView>,
    rules: Seq<RuleView>,
)
    ensures
        consistent(load(m, document, selector, rules)),
{
}

/// A move keeps the state consistent.
pub proof fn law_step_keeps_consistent(m: VmView)
    requires
        consistent(m),
        !halted(m),
    ensures
        consistent(step(m)),
{
    match m.phase {
        Phase::Selector => {
            if m.pc < m.selector.len() {
                lemma_exec_op_moves(m, m.selector[m.pc as int]);
                lemma_exec_op_asks(m, m.selector[m.pc as int]);
            }
        },
        Phase::Begin | Phase::Match | Phase::End => {
            if m.rule < m.rules.len() {
                let rule = m.rules[m.rule as int];
                if m.pc < rule.pattern.len() {
                    lemma_exec_op_moves(m, rule.pattern[m.pc as int]);
                    lemma_exec_op_asks(m, rule.pattern[m.pc as int]);
                }
                if m.pc < rule.body.len() {
                    lemma_exec_op_moves(m, rule.body[m.pc as int]);
                    lemma_exec_op_asks(m, rule.body[m.pc as int]);
                }
            }
        },
        _ => {},
    }
}

/// An instruction that stops the machine leaves the place of the run, the
/// root element and what the selector gave as they are, unless it fails; and
/// it waits only for what an instruction can wait for.
pub proof fn lemma_exec_op_asks(m: VmView, op: OpView)
    requires
        !halted(m),
    ensures
        ({
            let n = exec_op(m, op);
            halted(n) && !(n.phase is Done) ==> {
                &&& n.phase == m.phase
                &&& n.root == m.root
                &&& n.source == m.source
                &&& n.items == m.items
                &&& n.item == m.item
                &&& !(n.after is Idle)
                &&& !(n.after is Root)
                &&& !(n.after is Recount)
                &&& !(n.after is Tally)
            }
        }),
        exec_op(m, op).phase is Done ==> exec_op(m, op).after is Idle && exec_op(m, op).request
            is None,
{
}

/// No instruction changes the rules, the selector or the place of the run
/// but the instruction count.
pub proof fn lemma_exec_op_keeps_code(m: VmView, op: OpView)
    requires
        !halted(m),
        !(exec_op(m, op).phase is Done),
    ensures
        crate::semantics::code(exec_op(m, op)) == crate::semantics::code(m),
{
    lemma_exec_op_moves(m, op);
    lemma_exec_op_asks(m, op);
    lemma_exec_op_keeps_rules(m, op);
}

/// No instruction changes the rules or the selector.
pub proof fn lemma_exec_op_keeps_rules(m: VmView, op: OpView)
    ensures
        exec_op(m, op).rules == m.rules,
        exec_op(m, op).selector == m.selector,
        exec_op(m, op).rule == m.rule,
        exec_op(m, op).part == m.part,
{
}

/// The host's reply keeps the state consistent.
pub proof fn law_deliver_keeps_consistent(m: VmView, reply: ReplyView)
    requires
        consistent(m),
    ensures
        consistent(deliver(m, reply)),
{
}

/// Running on keeps the state consistent.
pub proof fn law_advance_keeps_consistent(m: VmView)
    requires
        consistent(m),
    ensures
        consistent(advance(m)),
    decreases
            crate::semantics::phase_rank(m.phase),
            crate::semantics::items_left(m),
            crate::semantics::stage_rank(m.phase),
            crate::semantics::rules_left(m),
            crate::semantics::part_rank(m.part),
            crate::semantics::code_left(m),
{
    if !halted(m) {
        law_step_keeps_consistent(m);
        lemma_step_nearer(m);
        if !halted(step(m)) {
            law_advance_keeps_consistent(step(m));
        }
    }
}

/// Inside a pattern rule `$` is the current element: the instruction that
/// `$` compiles to pushes a value that stands for the element at the
/// current index of what the selector gave.
pub proof fn law_match_rules_see_the_element(m: VmView)
    requires
        consistent(m),
        !halted(m),
        m.phase is Match,
    ensures
        items_of(m.source) == Some(m.items),
        m.item < m.items.len(),
        exec_op(m, OpView::GetField(Seq::empty())).stack == m.stack.push(m.root),
        stands_for(m.root, m.items[m.item as int]),
{
}

/// The rules marked `BEGIN` and those marked `END` see the same root
/// element: what the selector gave, which no move after the selector
/// changes.
pub proof fn law_begin_and_end_see_the_selection(m: VmView, reply: ReplyView)
    requires
        consistent(m),
    ensures
        (m.phase is Begin || m.phase is End) ==> m.root == m.source,
        !halted(m) && !(m.phase is Selector) ==> step(m).source == m.source,
        !(m.phase is Selector) ==> deliver(m, reply).source == m.source,
{
    if !halted(m) {
        match m.phase {
            Phase::Begin | Phase::Match | Phase::End => {
                if m.rule < m.rules.len() {
                    let rule = m.rules[m.rule as int];
                    if m.pc < rule.pattern.len() {
                        lemma_exec_op_keeps_source(m, rule.pattern[m.pc as int]);
                    }
                    if m.pc < rule.body.len() {
                        lemma_exec_op_keeps_source(m, rule.body[m.pc as int]);
                    }
                }
            },
            _ => {},
        }
    }
}

/// No instruction changes what the selector gave, nor the root element.
pub proof fn lemma_exec_op_keeps_source(m: VmView, op: OpView)
    ensures
        exec_op(m, op).source == m.source,
        exec_op(m, op).root == m.root,
{
}

/// `x !~ r` is the negation of `x ~ r`: where the pattern `r` is accepted,
/// matching and then negating gives the truth value of "no match", and
/// the operator `!~` compiles to exactly these two instructions.
pub proof fn law_no_match_negates_match(m: VmView, x: Seq<char>, r: Seq<char>)
    requires
        !halted(m),
        m.stack.len() >= 2,
        m.stack[m.stack.len() - 2] == ValueView::Str(x),
        m.stack[m.stack.len() - 1] == ValueView::Regex(r),
        regex_fault(r) is None,
    ensures
        operator(TokenKind::BangTilde) == Some(operator(TokenKind::Tilde)->0.push(OpView::Negate)),
        exec_op(m, OpView::Match).stack.last() == flag(regex_found(r, x)),
        exec_op(exec_op(m, OpView::Match), OpView::Negate).stack.last() == flag(
            !regex_found(r, x),
        ),
        truthy(exec_op(exec_op(m, OpView::Match), OpView::Negate).stack.last()) == !truthy(
            exec_op(m, OpView::Match).stack.last(),
        ),
{
    let matched = exec_op(m, OpView::Match);
    assert(matched.stack.last() == flag(regex_found(r, x)));
    assert(matched.stack.drop_last().push(flag(!regex_found(r, x))).last() == flag(
        !regex_found(r, x),
    ));
    assert(operator(TokenKind::Tilde)->0.push(OpView::Negate) =~= operator(
        TokenKind::BangTilde,
    )->0);
}

/// Member access, the instructions with two operands and `print` leave
/// the variables as they are.
pub proof fn lemma_operands_keep_variables(m: VmView, op: OpView)
    ensures
        crate::semantics::get_member(m).variables == m.variables,
        crate::semantics::binary(m, op).variables == m.variables,
        op is Print ==> crate::semantics::print(m, op->Print_0).variables == m.variables,
{
}

/// No instruction but an assignment to `NR` changes `NR`.
pub proof fn law_counter_is_kept(m: VmView, op: OpView)
    requires
        op != OpView::SetGlobal(counter()),
    ensures
        variable(exec_op(m, op), counter()) == variable(m, counter()),
{
    lemma_operands_keep_variables(m, op);
    match op {
        OpView::SetGlobal(name) => {
            assert(name != counter());
        },
        _ => {},
    }
}

/// Where a rule or an earlier run has left in `NR` anything but the count
/// of this run, the count goes on from what `NR` holds: the machine asks the
/// host for `NR + 1`, stores the answer as `NR` and starts on the rules for
/// the element.
pub proof fn law_counter_goes_on_from_what_it_holds(m: VmView, n: u64)
    requires
        !halted(m),
        m.phase is Count,
        !(variable(m, counter()) is Str),
        !(m.item < EXACT && variable(m, counter()) == ValueView::Num(whole_bits(m.item))),
    ensures
        step(m).request == Some(
            crate::semantics::RequestView::Calc(
                crate::semantics::NumOp::Add,
                crate::semantics::numeric(variable(m, counter())),
                crate::number::ONE,
            ),
        ),
        variable(deliver(step(m), ReplyView::Number(n)), counter()) == ValueView::Num(n),
        deliver(step(m), ReplyView::Number(n)).phase is Match,
        deliver(step(m), ReplyView::Number(n)).item == m.item,
{
}

/// Whether a piece of code makes no assignment to `NR`.
pub open spec fn spares_counter(ops: Seq<OpView>) -> bool {
    forall|i: int| 0 <= i < ops.len() ==> ops[i] != OpView::SetGlobal(counter())
}

/// Whether neither the selector nor a rule makes an assignment to `NR`.
pub open spec fn quiet(selector: Seq<OpView>, rules: Seq<RuleView>) -> bool {
    &&& spares_counter(selector)
    &&& forall|r: int|
        0 <= r < rules.len() ==> spares_counter(#[trigger] rules[r].pattern) && spares_counter(
            rules[r].body,
        )
}

/// How many elements the pattern rules have been started on in this run.
pub open spec fn iterations(m: VmView) -> nat {
    match m.phase {
        Phase::Match => m.item + 1,
        Phase::Fetch | Phase::Count | Phase::End => m.item,
        _ => 0,
    }
}

/// Whether `NR` holds the number of elements that the pattern rules have
/// been started on, in a run whose code makes no assignment to `NR`.
pub open spec fn tallied(m: VmView) -> bool {
    m.phase is Done || {
        &&& quiet(m.selector, m.rules)
        &&& !(m.after is Tally)
        &&& !(m.after is Recount)
        &&& (m.phase is Fetch || m.phase is Count || m.phase is Match) ==> m.items.len() <= EXACT
        &&& (m.phase is Fetch || m.phase is End) ==> m.item <= m.items.len()
        &&& (m.phase is Count || m.phase is Match) ==> m.item < m.items.len()
        &&& variable(m, counter()) == ValueView::Num(whole_bits(iterations(m)))
    }
}

/// A run on a machine whose `NR` is 0, as it is on a new machine, starts
/// with the count in `NR`.
pub proof fn law_load_is_tallied(
    m: VmView,
    document: Result<JsonView, Seq<char>>,
    selector: Seq<OpView>,
    rules: Seq<RuleView>,
)
    requires
        quiet(selector, rules),
        variable(m, counter()) == ValueView::Num(ZERO),
    ensures
        tallied(load(m, document, selector, rules)),
{
}

/// `NR` is the number of iterations: where the code makes no assignment to
/// `NR` and the selected value has no more elements than a double can count,
/// every move keeps in `NR` the number of elements that the pattern rules
/// have been started on.
pub proof fn law_step_keeps_tally(m: VmView)
    requires
        tallied(m),
        consistent(m),
        !halted(m),
        step(m).items.len() <= EXACT,
    ensures
        tallied(step(m)),
{
    match m.phase {
        Phase::Selector => {
            if m.pc < m.selector.len() {
                lemma_instruction_keeps_tally(m, m.selector[m.pc as int]);
            }
        },
        Phase::Begin | Phase::Match | Phase::End => {
            if m.rule < m.rules.len() {
                let rule = m.rules[m.rule as int];
                if m.pc < rule.pattern.len() {
                    lemma_instruction_keeps_tally(m, rule.pattern[m.pc as int]);
                }
                if m.pc < rule.body.len() {
                    lemma_instruction_keeps_tally(m, rule.body[m.pc as int]);
                }
            }
        },
        _ => {},
    }
}

/// An instruction that makes no assignment to `NR` keeps the count.
pub proof fn lemma_instruction_keeps_tally(m: VmView, op: OpView)
    requires
        tallied(m),
        !halted(m),
        op != OpView::SetGlobal(counter()),
    ensures
        tallied(exec_op(m, op)),
{
    law_counter_is_kept(m, op);
    lemma_exec_op_moves(m, op);
    lemma_exec_op_asks(m, op);
    lemma_exec_op_keeps_rules(m, op);
}

/// The host's reply keeps the count in `NR`.
pub proof fn law_deliver_keeps_tally(m: VmView, reply: ReplyView)
    requires
        tallied(m),
        consistent(m),
    ensures
        tallied(deliver(m, reply)),
{
}

/// Once the elements of the selected value are taken, a move keeps them.
pub proof fn lemma_step_keeps_items(m: VmView)
    requires
        !halted(m),
        m.phase is Fetch || m.phase is Count || m.phase is Match || m.phase is End,
    ensures
        step(m).items == m.items,
        step(m).phase is Fetch || step(m).phase is Count || step(m).phase is Match || step(
            m,
        ).phase is End || step(m).phase is Done,
{
    if m.phase is Match || m.phase is End {
        if m.rule < m.rules.len() {
            let rule = m.rules[m.rule as int];
            if m.pc < rule.pattern.len() {
                lemma_exec_op_moves(m, rule.pattern[m.pc as int]);
                lemma_exec_op_asks(m, rule.pattern[m.pc as int]);
                lemma_exec_op_keeps_items(m, rule.pattern[m.pc as int]);
            }
            if m.pc < rule.body.len() {
                lemma_exec_op_moves(m, rule.body[m.pc as int]);
                lemma_exec_op_asks(m, rule.body[m.pc as int]);
                lemma_exec_op_keeps_items(m, rule.body[m.pc as int]);
            }
        }
    }
}

/// No instruction changes the elements, and none changes the phase unless
/// it fails.
pub proof fn lemma_exec_op_keeps_items(m: VmView, op: OpView)
    ensures
        exec_op(m, op).items == m.items,
        exec_op(m, op).phase == m.phase || exec_op(m, op).phase is Done,
{
}

/// Once the elements of the selected value are taken, running on keeps
/// them.
pub proof fn lemma_advance_keeps_items(m: VmView)
    requires
        m.phase is Fetch || m.phase is Count || m.phase is Match || m.phase is End || m.phase
            is Done,
    ensures
        advance(m).items == m.items,
    decreases
            crate::semantics::phase_rank(m.phase),
            crate::semantics::items_left(m),
            crate::semantics::stage_rank(m.phase),
            crate::semantics::rules_left(m),
            crate::semantics::part_rank(m.part),
            crate::semantics::code_left(m),
{
    if !halted(m) {
        lemma_step_keeps_items(m);
        lemma_step_nearer(m);
        if !halted(step(m)) {
            lemma_advance_keeps_items(step(m));
        }
    }
}

/// Running on keeps the count in `NR`, where the selected value turns out to
/// have no more elements than a double can count.
pub proof fn law_advance_keeps_tally(m: VmView)
    requires
        tallied(m),
        consistent(m),
        advance(m).items.len() <= EXACT,
    ensures
        tallied(advance(m)),
    decreases
            crate::semantics::phase_rank(m.phase),
            crate::semantics::items_left(m),
            crate::semantics::stage_rank(m.phase),
            crate::semantics::rules_left(m),
            crate::semantics::part_rank(m.part),
            crate::semantics::code_left(m),
{
    if !halted(m) {
        let n = step(m);
        lemma_step_nearer(m);
        law_step_keeps_consistent(m);
        if n.phase is Fetch || n.phase is Count || n.phase is Match || n.phase is End || n.phase
            is Done {
            lemma_advance_keeps_items(n);
            assert(advance(m) == advance(n)) by {
                if halted(n) {
                }
            }
            law_step_keeps_tally(m);
        } else {
            lemma_step_keeps_early(m);
            law_step_keeps_tally_early(m);
        }
        if !halted(n) {
            law_advance_keeps_tally(n);
        }
    }
}

/// A move that ends in the selector or in the rules marked `BEGIN` started
/// there.
pub proof fn lemma_step_keeps_early(m: VmView)
    requires
        !halted(m),
        step(m).phase is Selector || step(m).phase is Begin,
    ensures
        m.phase is Selector || m.phase is Begin,
{
    if m.phase is Match || m.phase is End {
        lemma_step_keeps_items(m);
    }
}

/// Before the elements are taken a move keeps the count, whatever the
/// number of elements.
pub proof fn law_step_keeps_tally_early(m: VmView)
    requires
        tallied(m),
        consistent(m),
        !halted(m),
        step(m).phase is Selector || step(m).phase is Begin,
    ensures
        tallied(step(m)),
{
    lemma_step_keeps_early(m);
    match m.phase {
        Phase::Selector => {
            if m.pc < m.selector.len() {
                lemma_instruction_keeps_tally(m, m.selector[m.pc as int]);
            }
        },
        Phase::Begin => {
            if m.rule < m.rules.len() {
                let rule = m.rules[m.rule as int];
                if m.pc < rule.pattern.len() {
                    lemma_instruction_keeps_tally(m, rule.pattern[m.pc as int]);
                }
                if m.pc < rule.body.len() {
                    lemma_instruction_keeps_tally(m, rule.body[m.pc as int]);
                }
            }
        },
        _ => {},
    }
}

/// The machine after the host's reply, run on until it stops again: what a
/// call of the machine with a reply does.
pub open spec fn resumed(m: VmView, reply: ReplyView) -> VmView {
    advance(deliver(m, reply))
}

/// The machine after a series of replies, each followed by a run to the
/// next stop.
pub open spec fn reached(m: VmView, replies: Seq<ReplyView>) -> VmView
    decreases replies.len(),
{
    if replies.len() == 0 {
        m
    } else {
        resumed(reached(m, replies.drop_last()), replies.last())
    }
}

/// The machine where a run first stops.
pub open spec fn started(
    m: VmView,
    document: Result<JsonView, Seq<char>>,
    selector: Seq<OpView>,
    rules: Seq<RuleView>,
) -> VmView {
    advance(load(m, document, selector, rules))
}

/// Every state in which a run stops is consistent, whatever the host
/// replies: the rules marked `BEGIN` and `END` see what the selector gave,
/// and the pattern rules see the current element of it.
pub proof fn law_every_stop_is_consistent(
    m: VmView,
    document: Result<JsonView, Seq<char>>,
    selector: Seq<OpView>,
    rules: Seq<RuleView>,
    replies: Seq<ReplyView>,
)
    ensures
        consistent(reached(started(m, document, selector, rules), replies)),
    decreases replies.len(),
{
    let first = started(m, document, selector, rules);
    if replies.len() == 0 {
        law_load_is_consistent(m, document, selector, rules);
        law_advance_keeps_consistent(load(m, document, selector, rules));
    } else {
        law_every_stop_is_consistent(m, document, selector, rules, replies.drop_last());
        let before = reached(first, replies.drop_last());
        law_deliver_keeps_consistent(before, replies.last());
        law_advance_keeps_consistent(deliver(before, replies.last()));
    }
}

/// At every stop of a run `NR` is the number of iterations, whatever the
/// host replies: where the run starts with `NR` at 0, its code makes no
/// assignment to `NR`, and what is iterated has no more elements than a
/// double can count.
pub proof fn law_every_stop_is_tallied(
    m: VmView,
    document: Result<JsonView, Seq<char>>,
    selector: Seq<OpView>,
    rules: Seq<RuleView>,
    replies: Seq<ReplyView>,
)
    requires
        quiet(selector, rules),
        variable(m, counter()) == ValueView::Num(ZERO),
        forall|k: int|
            0 <= k <= replies.len() ==> (#[trigger] reached(
                started(m, document, selector, rules),
                replies.take(k),
            )).items.len() <= EXACT,
    ensures
        tallied(reached(started(m, document, selector, rules), replies)),
    decreases replies.len(),
{
    let first = started(m, document, selector, rules);
    if replies.len() == 0 {
        assert(replies.take(0) =~= replies);
        law_load_is_consistent(m, document, selector, rules);
        law_load_is_tallied(m, document, selector, rules);
        law_advance_keeps_tally(load(m, document, selector, rules));
    } else {
        let shorter = replies.drop_last();
        assert forall|k: int| 0 <= k <= shorter.len() implies (#[trigger] reached(
            first,
            shorter.take(k),
        )).items.len() <= EXACT by {
            assert(shorter.take(k) =~= replies.take(k));
        }
        law_every_stop_is_tallied(m, document, selector, rules, shorter);
        law_every_stop_is_consistent(m, document, selector, rules, shorter);
        let before = reached(first, shorter);
        law_deliver_keeps_tally(before, replies.last());
        law_deliver_keeps_consistent(before, replies.last());
        assert(replies.take(replies.len() as int) =~= replies);
        law_advance_keeps_tally(deliver(before, replies.last()));
    }
}

} // verus!
