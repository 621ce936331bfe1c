//! The operand stack in balance: every instruction changes the height of
//! the stack by a fixed amount, so the height after a piece of code is known
//! from the code alone.
use vstd::prelude::*;
use crate::semantics::{
    After, ReplyView, VmView, binary, code, deliver, exec_op, get_member, halted, instruction,
    moved_on, print, step,
};
use crate::vm::OpView;

verus! {

/// By how much an instruction changes the height of the stack.
pub open spec fn effect(op: OpView) -> int {
    match op {
        OpView::GetField(_) => 1,
        OpView::PushImmediate(_) => 1,
        OpView::GetGlobal(_) => 1,
        OpView::Negate => 0,
        OpView::Print(count) => -(count as int),
        _ => -1,
    }
}

/// By how much a piece of code changes the height of the stack, where it
/// runs from its first instruction to its last.
pub open spec fn total(ops: Seq<OpView>) -> int
    decreases ops.len(),
{
    if ops.len() == 0 {
        0
    } else {
        total(ops.drop_last()) + effect(ops.last())
    }
}

/// What the reply that the machine waits for will add to the stack.
pub open spec fn owed(after: After) -> int {
    match after {
        After::Push => 1,
        After::Result => -1,
        _ => 0,
    }
}

/// Whether the reply that the machine waits for completes an instruction.
pub open spec fn completes(after: After) -> bool {
    after is Push || after is Result || after == After::Printed(false)
}

/// How many instructions of the running code are done, counting the one
/// that only waits for its reply.
pub open spec fn done(m: VmView) -> nat {
    if completes(m.after) {
        m.pc + 1
    } else {
        m.pc
    }
}

/// Whether the stack is as high as the instructions done so far make it,
/// over the height `base` at which the running code started.
pub open spec fn balanced(m: VmView, base: int) -> bool {
    &&& code(m) is Some
    &&& done(m) <= code(m)->0.len()
    &&& m.stack.len() + owed(m.after) == base + total(code(m)->0.take(done(m) as int))
}

/// The code up to and with an instruction changes the height by what the
/// code before it does and what the instruction does.
pub proof fn lemma_total_take(ops: Seq<OpView>, k: int)
    requires
        0 <= k < ops.len(),
    ensures
        total(ops.take(k + 1)) == total(ops.take(k)) + effect(ops[k]),
{
    assert(ops.take(k + 1).drop_last() =~= ops.take(k));
}

/// All of a piece of code is the code up to its length.
pub proof fn lemma_total_all(ops: Seq<OpView>)
    ensures
        total(ops.take(ops.len() as int)) == total(ops),
{
    assert(ops.take(ops.len() as int) =~= ops);
}

/// What member access does to the height of the stack.
pub proof fn lemma_get_member_height(m: VmView)
    requires
        !halted(m),
    ensures
        ({
            let n = get_member(m);
            &&& moved_on(m, n) ==> n.stack.len() == m.stack.len() - 1
            &&& halted(n) && !(n.phase is Done) ==> {
                ||| n.after is Push && n.stack.len() == m.stack.len() - 2 && n.pc == m.pc
                ||| n.after is Render && n.stack.len() == m.stack.len() && n.pc == m.pc
            }
        }),
{
}

/// What an instruction with two operands does to the height of the stack.
pub proof fn lemma_binary_height(m: VmView, op: OpView)
    requires
        !halted(m),
        op is Equal || op is And || op is Or || op is Match || op is Greater || op is Add
            || op is Subtract || op is Multiply || op is Divide,
    ensures
        ({
            let n = binary(m, op);
            &&& moved_on(m, n) ==> n.stack.len() == m.stack.len() - 1
            &&& halted(n) && !(n.phase is Done) ==> {
                ||| n.after is Result && n.stack.len() == m.stack.len() && n.pc == m.pc
                ||| n.after is Coerce && n.stack.len() == m.stack.len() && n.pc == m.pc
            }
        }),
{
}

/// What `print` does to the height of the stack.
pub proof fn lemma_print_height(m: VmView, count: nat)
    requires
        !halted(m),
    ensures
        ({
            let n = print(m, count);
            &&& halted(n)
            &&& !(n.phase is Done) ==> {
                ||| n.after == After::Printed(false) && n.stack.len() == m.stack.len() - count
                    && n.pc == m.pc
                ||| n.after is Render && n.stack.len() == m.stack.len() && n.pc == m.pc
                ||| n.after is Show
                ||| n.after == After::Printed(true)
            }
        }),
{
}

/// Every instruction has a fixed effect on the height of the stack. Where
/// it goes on to the next instruction, the height has changed by its
/// effect. Where it stops for the host, either the same instruction runs
/// again after the reply, on a stack of the same height, or the reply
/// completes it, and the height will then have changed by its effect; only
/// `print` without arguments, which leaves the code, is outside this.
pub proof fn law_instruction_effect(m: VmView, op: OpView)
    requires
        !halted(m),
    ensures
        ({
            let n = exec_op(m, op);
            &&& moved_on(m, n) ==> n.stack.len() == m.stack.len() + effect(op)
            &&& halted(n) && !(n.phase is Done) ==> n.pc == m.pc && {
                ||| completes(n.after) && n.stack.len() + owed(n.after) == m.stack.len() + effect(
                    op,
                )
                ||| (n.after is Coerce || n.after is Render) && n.stack.len() == m.stack.len()
                ||| n.after is Show
                ||| n.after == After::Printed(true)
            }
        }),
{
    match op {
        OpView::GetMember => {
            lemma_get_member_height(m);
        },
        OpView::Print(count) => {
            lemma_print_height(m, count);
        },
        OpView::GetField(_) | OpView::PushImmediate(_) | OpView::GetGlobal(_) | OpView::SetGlobal(
            _,
        ) | OpView::Negate => {},
        _ => {
            lemma_binary_height(m, op);
        },
    }
}

/// Where the next move runs an instruction, it is the instruction at the
/// instruction count of the running code, and the move is what the
/// instruction does.
pub proof fn lemma_step_runs_instruction(m: VmView)
    requires
        instruction(m) is Some,
    ensures
        code(m) is Some,
        m.pc < code(m)->0.len(),
        instruction(m) == Some(code(m)->0[m.pc as int]),
        step(m) == exec_op(m, instruction(m)->0),
{
}

/// A move that runs an instruction keeps the stack in balance, unless the
/// run fails or `print` without arguments leaves the code.
pub proof fn law_step_keeps_balance(m: VmView, base: int)
    requires
        !halted(m),
        m.after is Idle,
        instruction(m) is Some,
        balanced(m, base),
    ensures
        ({
            let n = step(m);
            n.phase is Done || n.after is Show || n.after == After::Printed(true) || (balanced(
                n,
                base,
            ) && code(n) == code(m))
        }),
{
    lemma_step_runs_instruction(m);
    let ops = code(m)->0;
    let op = ops[m.pc as int];
    law_instruction_effect(m, op);
    crate::semantics::lemma_exec_op_moves(m, op);
    crate::laws::lemma_exec_op_asks(m, op);
    lemma_total_take(ops, m.pc as int);
    let n = step(m);
    if !(n.phase is Done) {
        assert(code(n) == code(m)) by {
            crate::laws::lemma_exec_op_keeps_code(m, op);
        }
    }
}

/// The host's reply keeps the stack in balance, unless the run fails.
pub proof fn law_deliver_keeps_balance(m: VmView, reply: ReplyView, base: int)
    requires
        balanced(m, base),
        completes(m.after) || m.after is Coerce || m.after is Render,
    ensures
        ({
            let n = deliver(m, reply);
            n.phase is Done || (balanced(n, base) && code(n) == code(m) && n.after is Idle)
        }),
{
    let n = deliver(m, reply);
    if !(n.phase is Done) {
        if completes(m.after) {
            assert(n.pc == m.pc + 1);
        }
    }
}

/// Where a piece of code has run to its end in balance, the stack is as
/// high as the code makes it: its height at the start and the effects of
/// all instructions.
pub proof fn law_height_at_the_end(m: VmView, base: int)
    requires
        balanced(m, base),
        m.after is Idle,
        m.pc == code(m)->0.len(),
    ensures
        m.stack.len() == base + total(code(m)->0),
{
    lemma_total_all(code(m)->0);
}

} // verus!
