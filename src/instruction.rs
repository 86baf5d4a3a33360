use vstd::prelude::*;

use crate::alu::{compute, evaluate_condition};
use crate::opcodes::{
    basic, conditional, is_basic, is_conditional, is_special, special, OpCode, ADD, ADX, DIV, DVI,
    HWI, HWN, HWQ, IAG, IAQ, IAS, INT, JSR, MDI, MLI, MOD, MUL, RFI, SBX, SPL, STD, STI, SUB,
};
use crate::processor::Processor;
use crate::register::Register;
use crate::state::{CYCLE_ROOM, ISSUE_LIMIT, SKIP_CHAIN_LIMIT};
use crate::value::{is_small_literal, lemma_code_round_trip, value_of_code, Value};

verus! {

/// A decoded instruction `(op, b, a)`. When `op` is zero the instruction is
/// special: `b` carries the special opcode and only `a` is an operand.
#[derive(Copy, Clone, Debug)]
pub struct Instruction {
    pub op: OpCode,
    pub b: Value,
    pub a: Value,
}

/// An encoding that the processor does not define.
#[derive(Copy, Clone, Debug, PartialEq, Eq, Structural)]
pub enum Fault {
    /// A basic opcode that is reserved or out of range.
    InvalidOpCode(OpCode),
    /// A special opcode that is reserved or out of range.
    InvalidSpecialOpCode(OpCode),
}

/// The instruction that a word encodes; trailing words are not read.
pub open spec fn decode(word: u16) -> Instruction {
    let op = word & 0x1F;
    let b = (word >> 5u16) & 0x1F;
    let a = word >> 10u16;
    if op == 0 {
        Instruction { op: SPL, b: Value::OpCode(b), a: value_of_code(a) }
    } else {
        Instruction { op, b: value_of_code(b), a: value_of_code(a) }
    }
}

impl Instruction {
    /// The primary word: opcode in bits 0-4, `b` in bits 5-9, `a` in bits 10-15.
    pub open spec fn first_word(self) -> u16 {
        self.op | (self.a.code() << 10u16) | (self.b.code() << 5u16)
    }

    /// The words of the instruction: the primary word, then the value of an
    /// `a` literal that is too large for the inline form.
    pub open spec fn encoding(self) -> Seq<u16> {
        match self.a {
            Value::Literal(l) => if is_small_literal(l) {
                seq![self.first_word()]
            } else {
                seq![self.first_word(), l]
            },
            _ => seq![self.first_word()],
        }
    }

    /// The special opcode of a special instruction.
    pub open spec fn special_code(self) -> u16 {
        self.b.code()
    }

    /// Whether the opcode (or the special opcode) is one the processor defines.
    pub open spec fn is_defined(self) -> bool {
        if self.op == SPL {
            is_special(self.special_code())
        } else {
            is_basic(self.op)
        }
    }

    /// The fault an undefined instruction raises.
    pub open spec fn fault(self) -> Fault {
        if self.op == SPL {
            Fault::InvalidSpecialOpCode(self.special_code())
        } else {
            Fault::InvalidOpCode(self.op)
        }
    }

    /// The cycles an instruction costs beyond its trailing words.
    pub open spec fn base_cost(self) -> int {
        if self.op == SPL {
            let c = self.special_code();
            if c == JSR || c == RFI {
                2
            } else if c == INT || c == HWQ || c == HWI {
                3
            } else if c == IAQ || c == HWN {
                1
            } else {
                0
            }
        } else {
            basic_cost(self.op)
        }
    }

    /// The trailing words the operands of the instruction consume.
    pub open spec fn extra_words(self) -> int {
        if self.op == SPL {
            self.a.extra_words()
        } else {
            self.a.extra_words() + self.b.extra_words()
        }
    }

    pub fn new(op: OpCode, b: Value, a: Value) -> (r: Instruction)
        ensures
            r == (Instruction { op, b, a }),
    {
        Instruction { op, b, a }
    }

    /// Decodes one word; trailing words are left to the operands.
    pub fn decode(word: u16) -> (r: Instruction)
        ensures
            r == decode(word),
    {
        let op = word & 0x1F;
        let b = (word >> 5u16) & 0x1F;
        let a = word >> 10u16;
        assert(a < 0x40) by (bit_vector)
            requires
                a == word >> 10u16,
        ;
        assert(b < 0x20) by (bit_vector)
            requires
                b == (word >> 5u16) & 0x1F,
        ;
        if op == 0 {
            Instruction::new(SPL, Value::OpCode(b), Value::from_code(a))
        } else {
            Instruction::new(op, Value::from_code(b), Value::from_code(a))
        }
    }

    /// The words that encode this instruction.
    pub fn words(&self) -> (r: Vec<u16>)
        ensures
            r@ == self.encoding(),
    {
        let mut words: Vec<u16> = Vec::with_capacity(2);
        let a = self.a.get_a();
        let b = self.b.get_b();
        let word = self.op | a | b;
        words.push(word);
        // A literal outside the inline range follows as a trailing word.
        match self.a {
            Value::Literal(val) => {
                if !(val == 0xFFFF || val <= 0x1E) {
                    words.push(val);
                }
            },
            _ => {},
        }
        proof {
            assert(word == self.first_word());
            assert(words@ =~= self.encoding());
        }
        words
    }
}

impl From<u16> for Instruction {
    fn from(word: u16) -> (r: Instruction) {
        Instruction::decode(word)
    }
}

impl vstd::std_specs::convert::FromSpecImpl<u16> for Instruction {
    open spec fn obeys_from_spec() -> bool {
        true
    }

    open spec fn from_spec(word: u16) -> Instruction {
        decode(word)
    }
}

/// Reads an operand in the `a` position.
fn read_a(processor: &mut Processor, v: Value) -> (r: u16)
    requires
        old(processor).wf(),
        old(processor)@.pending < u64::MAX,
    ensures
        final(processor).wf(),
        (final(processor)@, r) == old(processor)@.read_a(v),
{
    match v {
        Value::Register(reg) => processor.get_register(reg),
        Value::RegisterPointer(reg) => {
            let addr = processor.get_register(reg);
            processor.get_memory(addr)
        },
        Value::RegisterPointerOffset(reg) => {
            let base = processor.get_register(reg);
            let offset = processor.next_word();
            processor.get_memory(base.wrapping_add(offset))
        },
        Value::Push | Value::Pop => processor.pop(),
        Value::Peek => processor.peek(),
        Value::Pick => {
            let base = processor.get_register(Register::SP);
            let offset = processor.next_word();
            processor.get_memory(base.wrapping_add(offset))
        },
        Value::NextWordPointer => {
            let addr = processor.next_word();
            processor.get_memory(addr)
        },
        Value::NextWord => processor.next_word(),
        Value::Literal(literal) => literal,
        Value::OpCode(op) => op,
    }
}

/// Writes an operand in the `b` position.
fn write_b(processor: &mut Processor, target: Value, value: u16)
    requires
        old(processor).wf(),
        old(processor)@.pending < u64::MAX,
    ensures
        final(processor).wf(),
        final(processor)@ == old(processor)@.write_b(target, value),
{
    match target {
        Value::Register(reg) => processor.set_register(reg, value),
        Value::RegisterPointer(reg) => {
            let addr = processor.get_register(reg);
            processor.set_memory(addr, value);
        },
        Value::RegisterPointerOffset(reg) => {
            let base = processor.get_register(reg);
            let offset = processor.next_word();
            processor.set_memory(base.wrapping_add(offset), value);
        },
        Value::Push | Value::Pop => processor.push(value),
        Value::Pick | Value::NextWordPointer | Value::NextWord => {
            // Not writable: only the trailing word is consumed.
            processor.next_word();
        },
        Value::Peek | Value::Literal(_) | Value::OpCode(_) => {},
    }
}

/// Cycles charged by a basic opcode beyond its trailing words.
fn cost(op: OpCode) -> (r: u64)
    ensures
        r == basic_cost(op),
{
    if op == ADD || op == SUB || op == MUL || op == MLI || op == STI || op == STD || conditional(op) {
        1
    } else if op == DIV || op == DVI || op == MOD || op == MDI || op == ADX || op == SBX {
        2
    } else {
        0
    }
}

impl Instruction {
    /// `Ok` for a defined instruction, else the fault it raises.
    pub fn check(&self) -> (r: Result<(), Fault>)
        ensures
            r == (if self.is_defined() {
                Ok(())
            } else {
                Err(self.fault())
            }),
    {
        if self.op == SPL {
            let code = self.b.to_u16();
            if special(code) {
                Ok(())
            } else {
                Err(Fault::InvalidSpecialOpCode(code))
            }
        } else if basic(self.op) {
            Ok(())
        } else {
            Err(Fault::InvalidOpCode(self.op))
        }
    }

    /// Reads the `a` operand; the stack operand pops.
    pub fn get_a(&self, processor: &mut Processor) -> (r: u16)
        requires
            old(processor).wf(),
            old(processor)@.pending < u64::MAX,
        ensures
            final(processor).wf(),
            (final(processor)@, r) == old(processor)@.read_a(self.a),
    {
        read_a(processor, self.a)
    }

    /// Reads the `b` operand for a test, consuming its trailing word; the
    /// stack operand reads the word at `SP`.
    pub fn get_b(&self, processor: &mut Processor) -> (r: u16)
        requires
            old(processor).wf(),
            old(processor)@.pending < u64::MAX,
        ensures
            final(processor).wf(),
            (final(processor)@, r) == old(processor)@.read_b(self.b),
    {
        match self.b {
            Value::Push | Value::Pop => processor.peek(),
            _ => read_a(processor, self.b),
        }
    }

    /// The current value of `b`, read without consuming anything.
    pub fn peek_b(&self, processor: &Processor) -> (r: u16)
        requires
            processor.wf(),
        ensures
            r == processor@.peek_b(self.b),
    {
        match self.b {
            Value::Register(reg) => processor.get_register(reg),
            Value::RegisterPointer(reg) => {
                let addr = processor.get_register(reg);
                processor.get_memory(addr)
            },
            Value::RegisterPointerOffset(reg) => {
                let addr = processor.get_register(reg).wrapping_add(processor.peek_next_word());
                processor.get_memory(addr)
            },
            Value::Push | Value::Pop | Value::Peek => processor.peek(),
            Value::Pick => {
                let addr = processor.get_register(Register::SP).wrapping_add(
                    processor.peek_next_word(),
                );
                processor.get_memory(addr)
            },
            Value::NextWordPointer => {
                let addr = processor.peek_next_word();
                processor.get_memory(addr)
            },
            Value::NextWord => processor.peek_next_word(),
            Value::Literal(literal) => literal,
            Value::OpCode(op) => op,
        }
    }

    /// Computes and stores the new `b` of an opcode that writes `b`, given the
    /// value of `a`.
    pub fn set_b(&self, processor: &mut Processor, a: u16)
        requires
            old(processor).wf(),
            old(processor)@.pending <= u64::MAX - 3,
            is_basic(self.op),
            !is_conditional(self.op),
        ensures
            final(processor).wf(),
            final(processor)@ == old(processor)@.store_b(*self, a),
    {
        let b = self.peek_b(processor);
        let ex = processor.get_register(Register::EX);
        let (value, new_ex) = compute(self.op, b, a, ex);
        processor.charge(cost(self.op));
        processor.set_register(Register::EX, new_ex);
        write_b(processor, self.b, value);
        if self.op == STI {
            processor.inc(Register::I);
            processor.inc(Register::J);
        } else if self.op == STD {
            processor.dec(Register::I);
            processor.dec(Register::J);
        }
    }

    /// Writes an operand in the `b` position: the stack operand pushes, and
    /// writes to operands that are not locations are dropped.
    pub fn set_value(&self, processor: &mut Processor, target: Value, value: u16)
        requires
            old(processor).wf(),
            old(processor)@.pending < u64::MAX,
        ensures
            final(processor).wf(),
            final(processor)@ == old(processor)@.write_b(target, value),
    {
        write_b(processor, target, value)
    }

    /// Reads `b`, charges the test, and skips the next instruction when the
    /// test fails.
    pub fn test_condition(&self, processor: &mut Processor, a: u16)
        requires
            old(processor).wf(),
            old(processor)@.pending <= CYCLE_ROOM,
            is_conditional(self.op),
        ensures
            final(processor).wf(),
            final(processor)@ == old(processor)@.test_b(*self, a),
    {
        let b = self.get_b(processor);
        processor.charge(1);
        if !evaluate_condition(self.op, b, a) {
            self.condition_failure(processor);
        }
    }

    /// Skips the instruction at `PC` with the trailing words of its
    /// `RegisterPointerOffset`, `NextWordPointer` and `NextWord` operands, and
    /// keeps skipping while the skipped instruction is a conditional.
    pub fn condition_failure(&self, processor: &mut Processor)
        requires
            old(processor).wf(),
            old(processor)@.pending <= CYCLE_ROOM + 2,
        ensures
            final(processor).wf(),
            final(processor)@ == old(processor)@.skip(),
            final(processor)@.pending <= old(processor)@.pending + 0x40000,
    {
        let ghost goal = processor@.skip();
        let ghost start = processor@.pending;
        let mut fuel: u16 = SKIP_CHAIN_LIMIT;
        loop
            invariant_except_break
                processor@.skip_chain(fuel as nat) == goal,
                processor@.pending <= start + 2 * (SKIP_CHAIN_LIMIT - fuel),
            invariant
                processor.wf(),
                start <= CYCLE_ROOM + 2,
            ensures
                processor.wf(),
                processor@ == goal,
                processor@.pending <= start + 2 * (SKIP_CHAIN_LIMIT + 1),
            decreases fuel,
        {
            let addr = processor.get_register(Register::PC);
            let inst = Instruction::decode(processor.get_memory(addr));
            let mut n: u16 = 0;
            match inst.b {
                Value::RegisterPointerOffset(_) | Value::NextWordPointer | Value::NextWord => n = n
                    + 1,
                _ => {},
            }
            match inst.a {
                Value::RegisterPointerOffset(_) | Value::NextWordPointer | Value::NextWord => n = n
                    + 1,
                _ => {},
            }
            processor.set_register(Register::PC, addr.wrapping_add(1).wrapping_add(n));
            processor.charge(n as u64);
            proof {
                crate::alu::lemma_word_sum(addr, n);
            }
            if conditional(inst.op) && fuel > 0 {
                fuel = fuel - 1;
            } else {
                break ;
            }
        }
    }

    /// Executes a defined special instruction; the result names the device
    /// that `HWI` addressed, when it is attached.
    pub fn execute_special(&self, processor: &mut Processor) -> (r: Option<u16>)
        requires
            old(processor).wf(),
            old(processor)@.pending <= ISSUE_LIMIT,
            self.op == SPL,
            is_special(self.special_code()),
        ensures
            final(processor).wf(),
            (final(processor)@, r) == old(processor)@.execute_special(*self),
    {
        let code = self.b.to_u16();
        if code == IAG {
            let value = processor.get_register(Register::IA);
            write_a(processor, self.a, value);
            return None;
        }
        if code == HWN {
            processor.charge(1);
            let count = processor.hardware_count();
            write_a(processor, self.a, count);
            return None;
        }
        let a = self.get_a(processor);
        if code == JSR {
            processor.charge(2);
            let pc = processor.get_register(Register::PC);
            processor.push(pc);
            processor.set_register(Register::PC, a);
        } else if code == INT {
            processor.charge(3);
            processor.trigger_interrupt(a);
        } else if code == IAS {
            processor.set_register(Register::IA, a);
        } else if code == RFI {
            processor.charge(2);
            processor.return_from_interrupt();
        } else if code == IAQ {
            processor.charge(1);
            processor.set_queuing(a != 0);
        } else if code == HWQ {
            processor.charge(3);
            match processor.get_hardware(a) {
                Some(device) => {
                    processor.set_register(Register::A, (device.id % 0x10000) as u16);
                    processor.set_register(Register::B, (device.id / 0x10000) as u16);
                    processor.set_register(Register::C, device.version);
                    processor.set_register(Register::X, (device.manufacturer % 0x10000) as u16);
                    processor.set_register(Register::Y, (device.manufacturer / 0x10000) as u16);
                },
                None => {
                    processor.set_register(Register::A, 0);
                    processor.set_register(Register::B, 0);
                    processor.set_register(Register::C, 0);
                    processor.set_register(Register::X, 0);
                    processor.set_register(Register::Y, 0);
                },
            }
        } else {
            processor.charge(3);
            if a < processor.hardware_count() {
                return Some(a);
            }
        }
        None
    }

    /// Executes this instruction, its primary word already consumed. An
    /// undefined instruction changes nothing and returns its fault; `HWI`
    /// returns the index of the attached device it addressed.
    pub fn execute(&self, processor: &mut Processor) -> (r: Result<Option<u16>, Fault>)
        requires
            old(processor).wf(),
            old(processor)@.pending <= ISSUE_LIMIT,
        ensures
            final(processor).wf(),
            (final(processor)@, r) == old(processor)@.execute(*self),
    {
        match self.check() {
            Err(fault) => Err(fault),
            Ok(()) => {
                if self.op == SPL {
                    Ok(self.execute_special(processor))
                } else {
                    let a = self.get_a(processor);
                    if conditional(self.op) {
                        self.test_condition(processor, a);
                    } else {
                        self.set_b(processor, a);
                    }
                    Ok(None)
                }
            },
        }
    }
}

/// Writes an operand in the `a` position, where the stack operand is not
/// written.
fn write_a(processor: &mut Processor, target: Value, value: u16)
    requires
        old(processor).wf(),
        old(processor)@.pending < u64::MAX,
    ensures
        final(processor).wf(),
        final(processor)@ == old(processor)@.write_a(target, value),
{
    match target {
        Value::Push | Value::Pop => {},
        _ => write_b(processor, target, value),
    }
}

/// Cycles charged by a basic opcode beyond its trailing words.
pub open spec fn basic_cost(op: OpCode) -> int {
    if op == ADD || op == SUB || op == MUL || op == MLI || op == STI || op == STD
        || is_conditional(op) {
        1
    } else if op == DIV || op == DVI || op == MOD || op == MDI || op == ADX || op == SBX {
        2
    } else {
        0
    }
}

/// Decoding a word and encoding the instruction gives back the same single
/// word: every decoded operand is representable.
pub proof fn lemma_decode_encode(word: u16)
    ensures
        decode(word).first_word() == word,
        decode(word).encoding() == seq![word],
{
    let op = word & 0x1F;
    let b = (word >> 5u16) & 0x1F;
    let a = word >> 10u16;
    assert(a < 0x40 && b < 0x20) by (bit_vector)
        requires
            a == word >> 10u16,
            b == (word >> 5u16) & 0x1F,
    ;
    lemma_code_round_trip(a);
    lemma_code_round_trip(b);
    assert(op | (a << 10u16) | (b << 5u16) == word) by (bit_vector)
        requires
            op == word & 0x1F,
            b == (word >> 5u16) & 0x1F,
            a == word >> 10u16,
    ;
}

} // verus!
