use vstd::prelude::*;

use crate::alu::{arith, condition, to_word};
use crate::instruction::{basic_cost, Instruction};
use crate::opcodes::{
    is_conditional, ADD, ADX, ASR, DIV, DVI, HWN, IAG, MDI, MLI, MOD, MUL, SBX, SHL, SHR, SPL,
    SUB,
};
use crate::processor::Processor;
use crate::register::Register;
use crate::state::{CpuState, QUEUE_CAPACITY};
use crate::value::Value;

verus! {

/// Every register and every memory cell of a well-formed processor holds a
/// 16-bit word; there are twelve registers and 65 536 cells. Each operation
/// of `Processor` keeps it well formed.
pub proof fn lemma_words_in_range(p: &Processor)
    requires
        p.wf(),
    ensures
        p@.registers.len() == 12,
        p@.memory.len() == 0x10000,
        forall|i: int| 0 <= i < 12 ==> 0 <= #[trigger] p@.registers[i] < 0x10000,
        forall|i: int| 0 <= i < 0x10000 ==> 0 <= #[trigger] p@.memory[i] < 0x10000,
{
}

/// The basic opcodes whose table entry sets `EX`.
pub open spec fn sets_ex(op: u16) -> bool {
    op == ADD || op == SUB || op == MUL || op == MLI || op == DIV || op == DVI || op == SHR
        || op == ASR || op == SHL || op == ADX || op == SBX
}

/// Whether an instruction stores into the `EX` register through an operand.
pub open spec fn writes_ex_operand(inst: Instruction) -> bool {
    if inst.op == SPL {
        (inst.special_code() == IAG || inst.special_code() == HWN) && inst.a == Value::Register(
            Register::EX,
        )
    } else {
        inst.b == Value::Register(Register::EX)
    }
}

/// Skipping instructions moves only `PC` and the cycle budget.
pub proof fn lemma_skip_chain_frame(s: CpuState, fuel: nat)
    requires
        s.wf(),
    ensures
        s.skip_chain(fuel).wf(),
        s.skip_chain(fuel).memory == s.memory,
        s.skip_chain(fuel).queue == s.queue,
        s.skip_chain(fuel).queuing == s.queuing,
        s.skip_chain(fuel).on_fire == s.on_fire,
        s.skip_chain(fuel).devices == s.devices,
        s.skip_chain(fuel).pending >= s.pending,
        forall|r: Register| r != Register::PC ==> #[trigger] s.skip_chain(fuel).reg(r) == s.reg(r),
    decreases fuel,
{
    let t = s.skip_one();
    if fuel > 0 {
        lemma_skip_chain_frame(t, (fuel - 1) as nat);
    }
}

/// `EX` changes only under an opcode that sets it or an operand that names it.
pub proof fn lemma_ex_changes_only_when_set(s: CpuState, inst: Instruction)
    requires
        s.wf(),
        !(inst.op != SPL && sets_ex(inst.op)),
        !writes_ex_operand(inst),
    ensures
        s.execute(inst).0.reg(Register::EX) == s.reg(Register::EX),
{
    if inst.is_defined() && inst.op != SPL && is_conditional(inst.op) {
        let (s1, a) = s.read_a(inst.a);
        let (s2, b) = s1.read_b(inst.b);
        lemma_skip_chain_frame(s2.charge(1), 0xFFFF);
    }
}

/// Over a whole tick, `EX` changes only when the tick executes an opcode
/// that sets it or an operand that names it: stall ticks, ticks on fire and
/// interrupt dispatch leave it alone.
pub proof fn lemma_tick_keeps_ex(s: CpuState)
    requires
        s.wf(),
        s.on_fire || s.pending > 0 || ({
            let inst = crate::instruction::decode(s.upcoming_word());
            !(inst.op != SPL && sets_ex(inst.op)) && !writes_ex_operand(inst)
        }),
    ensures
        s.tick().0.reg(Register::EX) == s.reg(Register::EX),
{
    if !s.on_fire && s.pending == 0 {
        let s1 = CpuState { cycle: (s.cycle + 1) % (usize::MAX + 1), ..s };
        let inst = crate::instruction::decode(s1.upcoming_word());
        let s2 = s1.set_reg(Register::PC, crate::state::inc_word(s1.reg(Register::PC)));
        if inst.is_defined() {
            lemma_ex_changes_only_when_set(s2, inst);
            lemma_execute_wf(s2, inst);
        }
    }
}

/// The cycles an instruction that is not a conditional charges: its base
/// cost plus one for each trailing word that its operands consume.
pub proof fn lemma_cycles_charged(s: CpuState, inst: Instruction)
    requires
        s.wf(),
        inst.is_defined(),
        !(inst.op != SPL && is_conditional(inst.op)),
    ensures
        s.execute(inst).0.pending == s.pending + inst.base_cost() + inst.extra_words(),
{
}

/// A conditional whose test holds charges its base cost plus one for each
/// trailing word of its operands; one whose test fails charges that and
/// one cycle for each trailing word it skips.
pub proof fn lemma_conditional_cycles_charged(s: CpuState, inst: Instruction)
    requires
        s.wf(),
        inst.is_defined(),
        inst.op != SPL,
        is_conditional(inst.op),
    ensures
        ({
            let (s1, a) = s.read_a(inst.a);
            let (s2, b) = s1.read_b(inst.b);
            &&& condition(inst.op, b, a) ==> s.execute(inst).0.pending == s.pending
                + inst.base_cost() + inst.extra_words()
            &&& s.execute(inst).0.pending >= s.pending + inst.base_cost() + inst.extra_words()
        }),
{
    let (s1, a) = s.read_a(inst.a);
    let (s2, b) = s1.read_b(inst.b);
    lemma_skip_chain_frame(s2.charge(1), 0xFFFF);
}

/// A push followed by a pop gives back the pushed value and leaves `SP` as
/// it was.
pub proof fn lemma_push_pop(s: CpuState, v: u16)
    requires
        s.wf(),
    ensures
        s.push(v).pop().1 == v,
        s.push(v).pop().0.reg(Register::SP) == s.reg(Register::SP),
{
}

/// One stack operation.
pub enum StackOp {
    Push(u16),
    Pop,
}

/// The state after a sequence of stack operations.
pub open spec fn run_stack(s: CpuState, ops: Seq<StackOp>) -> CpuState
    decreases ops.len(),
{
    if ops.len() == 0 {
        s
    } else {
        let t = match ops[0] {
            StackOp::Push(v) => s.push(v),
            StackOp::Pop => s.pop().0,
        };
        run_stack(t, ops.drop_first())
    }
}

/// Pushes minus pops.
pub open spec fn net_pushes(ops: Seq<StackOp>) -> int
    decreases ops.len(),
{
    if ops.len() == 0 {
        0
    } else {
        (match ops[0] {
            StackOp::Push(_) => 1int,
            StackOp::Pop => -1int,
        }) + net_pushes(ops.drop_first())
    }
}

proof fn lemma_run_stack_sp(s: CpuState, ops: Seq<StackOp>)
    requires
        s.wf(),
    ensures
        run_stack(s, ops).wf(),
        run_stack(s, ops).reg(Register::SP) == to_word(s.reg(Register::SP) - net_pushes(ops)),
    decreases ops.len(),
{
    if ops.len() > 0 {
        let t = match ops[0] {
            StackOp::Push(v) => s.push(v),
            StackOp::Pop => s.pop().0,
        };
        lemma_run_stack_sp(t, ops.drop_first());
        let d: int = match ops[0] {
            StackOp::Push(_) => 1int,
            StackOp::Pop => -1int,
        };
        let n = net_pushes(ops.drop_first());
        crate::alu::lemma_word_shift(s.reg(Register::SP) - d - n, 1);
        vstd::arithmetic::div_mod::lemma_add_mod_noop(
            s.reg(Register::SP) - d,
            -n,
            0x10000,
        );
        vstd::arithmetic::div_mod::lemma_mod_twice(s.reg(Register::SP) - d, 0x10000);
    }
}

/// After as many pops as pushes, in any order, `SP` is back where it was.
pub proof fn lemma_balanced_stack(s: CpuState, ops: Seq<StackOp>)
    requires
        s.wf(),
        net_pushes(ops) == 0,
    ensures
        run_stack(s, ops).reg(Register::SP) == s.reg(Register::SP),
{
    lemma_run_stack_sp(s, ops);
}

proof fn lemma_operand_wf(s: CpuState, v: Value, x: u16)
    requires
        s.wf(),
    ensures
        s.read_a(v).0.wf(),
        s.read_b(v).0.wf(),
        s.write_b(v, x).wf(),
        s.write_a(v, x).wf(),
{
}

proof fn lemma_special_wf(s: CpuState, inst: Instruction)
    requires
        s.wf(),
        inst.op == SPL,
    ensures
        s.execute_special(inst).0.wf(),
{
    let (s1, a) = s.read_a(inst.a);
    lemma_operand_wf(s, inst.a, s.reg(Register::IA));
    lemma_operand_wf(s.charge(1), inst.a, s.devices.len() as u16);
    assert(s1.wf());
    assert(s1.charge(3).trigger(a).wf());
    assert(s1.charge(3).query_device(a).wf());
    assert(s1.charge(2).return_from_interrupt().wf());
}

proof fn lemma_basic_wf(s: CpuState, inst: Instruction)
    requires
        s.wf(),
        inst.op != SPL,
    ensures
        s.execute_basic(inst).wf(),
{
    let (s1, a) = s.read_a(inst.a);
    lemma_operand_wf(s, inst.a, 0);
    if is_conditional(inst.op) {
        let (s2, b) = s1.read_b(inst.b);
        lemma_operand_wf(s1, inst.b, 0);
        lemma_skip_chain_frame(s2.charge(1), 0xFFFF);
    } else {
        let b = s1.peek_b(inst.b);
        let (v, ex) = arith(inst.op, b, a, s1.reg(Register::EX));
        let t = s1.charge(basic_cost(inst.op)).set_reg(Register::EX, ex);
        lemma_operand_wf(t, inst.b, v);
    }
}

/// Executing an instruction keeps the state well formed.
pub proof fn lemma_execute_wf(s: CpuState, inst: Instruction)
    requires
        s.wf(),
    ensures
        s.execute(inst).0.wf(),
{
    if inst.is_defined() {
        if inst.op == SPL {
            lemma_special_wf(s, inst);
        } else {
            lemma_basic_wf(s, inst);
        }
    }
}

/// One tick keeps the state well formed.
pub proof fn lemma_tick_wf(s: CpuState)
    requires
        s.wf(),
    ensures
        s.tick().0.wf(),
{
    let s1 = CpuState { cycle: (s.cycle + 1) % (usize::MAX + 1), ..s };
    let inst = crate::instruction::decode(s1.upcoming_word());
    lemma_execute_wf(s1.set_reg(Register::PC, crate::state::inc_word(s1.reg(Register::PC))), inst);
}

/// The state after pushing `vals`, first to last.
pub open spec fn push_all(s: CpuState, vals: Seq<u16>) -> CpuState
    decreases vals.len(),
{
    if vals.len() == 0 {
        s
    } else {
        push_all(s, vals.drop_last()).push(vals.last())
    }
}

/// The state after `n` pops, and the popped values in the order popped.
pub open spec fn pop_n(s: CpuState, n: nat) -> (CpuState, Seq<u16>)
    decreases n,
{
    if n == 0 {
        (s, Seq::empty())
    } else {
        let (t, v) = s.pop();
        let (u, rest) = pop_n(t, (n - 1) as nat);
        (u, seq![v] + rest)
    }
}

proof fn lemma_word_add(x: int, y: int)
    ensures
        to_word(to_word(x) + y) == to_word(x + y),
{
    vstd::arithmetic::div_mod::lemma_add_mod_noop(x, y, 0x10000);
    vstd::arithmetic::div_mod::lemma_add_mod_noop(x % 0x10000, y, 0x10000);
    vstd::arithmetic::div_mod::lemma_mod_twice(x, 0x10000);
}

proof fn lemma_words_distinct(x: int, d: int)
    requires
        0 < d < 0x10000,
    ensures
        to_word(x) != to_word(x + d),
{
    vstd::arithmetic::div_mod::lemma_fundamental_div_mod(x, 0x10000);
    vstd::arithmetic::div_mod::lemma_fundamental_div_mod(x + d, 0x10000);
    let q1 = x / 0x10000;
    let q2 = (x + d) / 0x10000;
    if x % 0x10000 == (x + d) % 0x10000 {
        assert(d == 0x10000 * (q2 - q1));
        assert(false) by (nonlinear_arith)
            requires
                d == 0x10000 * (q2 - q1),
                0 < d < 0x10000,
        ;
    }
}

proof fn lemma_push_all(s: CpuState, vals: Seq<u16>)
    requires
        s.wf(),
        vals.len() <= 0x10000,
    ensures
        push_all(s, vals).wf(),
        push_all(s, vals).reg(Register::SP) == to_word(s.reg(Register::SP) - vals.len()),
        forall|j: int|
            0 <= j < vals.len() ==> push_all(s, vals).memory[to_word(
                s.reg(Register::SP) - 1 - j,
            ) as int] == vals[j],
    decreases vals.len(),
{
    if vals.len() > 0 {
        let prev = vals.drop_last();
        let n = prev.len() as int;
        let sp = s.reg(Register::SP) as int;
        lemma_push_all(s, prev);
        lemma_word_add(sp - n, -1);
        assert forall|j: int| 0 <= j < vals.len() implies push_all(s, vals).memory[to_word(
            sp - 1 - j,
        ) as int] == vals[j] by {
            if j < n {
                lemma_words_distinct(sp - 1 - n, n - j);
                assert(prev[j] == vals[j]);
            }
        }
    }
}

proof fn lemma_pop_n(t: CpuState, n: nat)
    requires
        t.wf(),
    ensures
        pop_n(t, n).0.wf(),
        pop_n(t, n).0.memory == t.memory,
        pop_n(t, n).0.reg(Register::SP) == to_word(t.reg(Register::SP) + n),
        pop_n(t, n).1.len() == n,
        forall|k: int|
            0 <= k < n ==> pop_n(t, n).1[k] == t.memory[to_word(t.reg(Register::SP) + k) as int],
    decreases n,
{
    let sp = t.reg(Register::SP) as int;
    if n == 0 {
        assert(to_word(sp + 0) == sp);
    } else {
        let (t1, v) = t.pop();
        lemma_pop_n(t1, (n - 1) as nat);
        lemma_word_add(sp + 1, n - 1);
        assert(to_word(sp + 0) == sp);
        assert forall|k: int| 0 <= k < n implies pop_n(t, n).1[k] == t.memory[to_word(
            sp + k,
        ) as int] by {
            if k > 0 {
                lemma_word_add(sp + 1, k - 1);
            }
        }
    }
}

/// After pushing up to 65 536 values and popping as many, `SP` is back
/// where it was and the pops return the values last pushed first.
pub proof fn lemma_pushes_then_pops(s: CpuState, vals: Seq<u16>)
    requires
        s.wf(),
        vals.len() <= 0x10000,
    ensures
        pop_n(push_all(s, vals), vals.len()).0.reg(Register::SP) == s.reg(Register::SP),
        pop_n(push_all(s, vals), vals.len()).1.len() == vals.len(),
        forall|k: int|
            0 <= k < vals.len() ==> #[trigger] pop_n(push_all(s, vals), vals.len()).1[k]
                == vals[vals.len() - 1 - k],
{
    let t = push_all(s, vals);
    let n = vals.len() as int;
    let sp = s.reg(Register::SP) as int;
    lemma_push_all(s, vals);
    lemma_pop_n(t, vals.len());
    lemma_word_add(sp - n, n);
    assert(to_word(sp) == sp);
    assert forall|k: int| 0 <= k < n implies #[trigger] pop_n(t, vals.len()).1[k] == vals[n - 1
        - k] by {
        lemma_word_add(sp - n, k);
        assert(sp - n + k == sp - 1 - (n - 1 - k));
    }
}

/// Dividing by zero, in any operand: `b` becomes zero, `EX` becomes zero for
/// `DIV` and `DVI` and is kept for `MOD` and `MDI`, and the instruction costs
/// two cycles besides the trailing words of `b`.
pub proof fn lemma_store_divide_by_zero(s: CpuState, inst: Instruction)
    requires
        s.wf(),
        inst.op == DIV || inst.op == DVI || inst.op == MOD || inst.op == MDI,
    ensures
        s.store_b(inst, 0) == s.charge(2).set_reg(
            Register::EX,
            if inst.op == DIV || inst.op == DVI {
                0
            } else {
                s.reg(Register::EX)
            },
        ).write_b(inst.b, 0),
        s.store_b(inst, 0).pending == s.pending + 2 + inst.b.extra_words(),
{
    lemma_operand_wf(s.charge(2).set_reg(Register::EX, 0), inst.b, 0);
}

/// When the instruction that a tick executes ends queuing with messages
/// waiting, the same tick dispatches the oldest: the next word fetched is
/// the handler's, with the message in `A`.
pub proof fn lemma_unmasking_dispatches_head(s: CpuState)
    requires
        s.wf(),
        !s.on_fire,
        s.pending == 0,
        s.queuing,
        ({
            let t = CpuState { cycle: (s.cycle + 1) % (usize::MAX + 1), ..s }.step();
            t.1 == Ok::<Option<u16>, crate::instruction::Fault>(None) && !t.0.queuing
                && t.0.queue.len() > 0
        }),
    ensures
        ({
            let t = CpuState { cycle: (s.cycle + 1) % (usize::MAX + 1), ..s }.step().0;
            let u = s.tick().0;
            &&& u.reg(Register::PC) == t.reg(Register::IA)
            &&& u.reg(Register::A) == t.queue[0]
            &&& u.queue == t.queue.drop_first()
            &&& u.queuing
        }),
{
    let s1 = CpuState { cycle: (s.cycle + 1) % (usize::MAX + 1), ..s };
    let inst = crate::instruction::decode(s1.upcoming_word());
    lemma_execute_wf(s1.set_reg(Register::PC, crate::state::inc_word(s1.reg(Register::PC))), inst);
    let (t, r) = s1.step();
    assert(s.tick() == (t.service_queue(), r));
}

/// Dividing by zero stores zero, clears `EX` for `DIV` and `DVI`, keeps it
/// for `MOD` and `MDI`, and costs two extra cycles.
pub proof fn lemma_divide_by_zero(op: u16, b: u16, ex: u16)
    requires
        op == DIV || op == DVI || op == MOD || op == MDI,
    ensures
        arith(op, b, 0, ex).0 == 0,
        (op == DIV || op == DVI) ==> arith(op, b, 0, ex).1 == 0,
        (op == MOD || op == MDI) ==> arith(op, b, 0, ex).1 == ex,
        basic_cost(op) == 2,
{
}

/// Writing to a literal, `NextWord`, `Peek`, `Pick` or `NextWordPointer`, in
/// either position, changes nothing but the trailing word it consumes.
pub proof fn lemma_ignored_writes(s: CpuState, v: Value, x: u16)
    requires
        s.wf(),
        v is Literal || v is NextWord || v is Peek || v is Pick || v is NextWordPointer,
    ensures
        s.write_b(v, x) == (if v.has_extra_word() {
            s.next_word().0
        } else {
            s
        }),
        s.write_a(v, x) == s.write_b(v, x),
{
}

/// With the queue full, one more queued interrupt sets the processor on
/// fire, and from then on a tick changes nothing.
pub proof fn lemma_queue_overflow(s: CpuState, msg: u16)
    requires
        s.wf(),
        s.reg(Register::IA) != 0,
        s.queuing,
        s.queue.len() == QUEUE_CAPACITY,
    ensures
        s.trigger(msg).on_fire,
        s.trigger(msg).tick() == (s.trigger(msg), Ok::<Option<u16>, crate::instruction::Fault>(None)),
{
}

/// A processor on fire stays as it is on every tick.
pub proof fn lemma_on_fire_is_final(s: CpuState)
    requires
        s.on_fire,
    ensures
        s.tick().0 == s,
        s.tick().1 is Ok,
{
}

} // verus!
