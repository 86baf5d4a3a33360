use vstd::prelude::*;

use crate::alu::{arith, condition, to_word};
use crate::hardware::DeviceInfo;
use crate::instruction::{basic_cost, decode, Fault, Instruction};
use crate::opcodes::{
    is_conditional, HWN, HWQ, IAG, IAQ, IAS, INT, JSR, RFI, SPL, STD, STI,
};
use crate::register::Register;
use crate::value::Value;

verus! {

/// The most interrupts the queue holds.
pub const QUEUE_CAPACITY: usize = 256;

/// The most pending cycles with which an instruction may be issued directly;
/// `tick` issues them with none.
pub const ISSUE_LIMIT: u64 = 0x1_0000_0000_0000;

/// The most pending cycles that any step inside an instruction starts from.
pub const CYCLE_ROOM: u64 = 0x2_0000_0000_0000;

/// The most instructions that one failed conditional skips beyond the first:
/// a chain of conditionals is cut after one pass over memory.
pub const SKIP_CHAIN_LIMIT: u16 = 0xFFFF;

pub open spec fn inc_word(x: u16) -> u16 {
    to_word(x + 1)
}

pub open spec fn dec_word(x: u16) -> u16 {
    to_word(x - 1)
}

pub open spec fn add_word(x: u16, y: u16) -> u16 {
    to_word(x + y)
}

/// The state of a processor as the contracts see it.
pub struct CpuState {
    /// The 65 536 words of memory.
    pub memory: Seq<u16>,
    /// `A, B, C, X, Y, Z, I, J, SP, PC, EX, IA`, in that order.
    pub registers: Seq<u16>,
    /// Cycles that later ticks absorb before the next instruction is issued.
    pub pending: int,
    /// Whether triggered interrupts are queued rather than dispatched.
    pub queuing: bool,
    /// Ticks so far, wrapping.
    pub cycle: int,
    /// Queued interrupt messages, oldest first.
    pub queue: Seq<u16>,
    /// Set when the interrupt queue overflows; no tick does anything after.
    pub on_fire: bool,
    /// The identities of the attached devices, by index.
    pub devices: Seq<DeviceInfo>,
}

impl CpuState {
    /// A processor just built: everything zero, no device.
    pub open spec fn initial() -> CpuState {
        CpuState {
            memory: Seq::new(0x10000, |i: int| 0u16),
            registers: Seq::new(12, |i: int| 0u16),
            pending: 0,
            queuing: false,
            cycle: 0,
            queue: Seq::empty(),
            on_fire: false,
            devices: Seq::empty(),
        }
    }

    pub open spec fn wf(self) -> bool {
        &&& self.memory.len() == 0x10000
        &&& self.registers.len() == 12
        &&& self.queue.len() <= QUEUE_CAPACITY
        &&& self.devices.len() <= 0xFFFF
        &&& 0 <= self.pending
        &&& 0 <= self.cycle <= usize::MAX
    }

    pub open spec fn reg(self, r: Register) -> u16 {
        self.registers[r.num()]
    }

    pub open spec fn set_reg(self, r: Register, v: u16) -> CpuState {
        CpuState { registers: self.registers.update(r.num(), v), ..self }
    }

    pub open spec fn read(self, addr: u16) -> u16 {
        self.memory[addr as int]
    }

    pub open spec fn write(self, addr: u16, v: u16) -> CpuState {
        CpuState { memory: self.memory.update(addr as int, v), ..self }
    }

    pub open spec fn charge(self, n: int) -> CpuState {
        CpuState { pending: self.pending + n, ..self }
    }

    pub open spec fn set_queuing(self, q: bool) -> CpuState {
        CpuState { queuing: q, ..self }
    }

    /// Decrements `SP`, then stores at the new `SP`.
    pub open spec fn push(self, v: u16) -> CpuState {
        let sp = dec_word(self.reg(Register::SP));
        self.set_reg(Register::SP, sp).write(sp, v)
    }

    /// Reads at `SP`, then increments `SP`.
    pub open spec fn pop(self) -> (CpuState, u16) {
        let sp = self.reg(Register::SP);
        (self.set_reg(Register::SP, inc_word(sp)), self.read(sp))
    }

    /// The word at `SP`.
    pub open spec fn top(self) -> u16 {
        self.read(self.reg(Register::SP))
    }

    /// Consumes the word at `PC`, for one cycle.
    pub open spec fn next_word(self) -> (CpuState, u16) {
        let pc = self.reg(Register::PC);
        (self.set_reg(Register::PC, inc_word(pc)).charge(1), self.read(pc))
    }

    /// The word at `PC`, not consumed.
    pub open spec fn upcoming_word(self) -> u16 {
        self.read(self.reg(Register::PC))
    }

    /// Reads an operand in the `a` position, where the stack operand pops.
    pub open spec fn read_a(self, v: Value) -> (CpuState, u16) {
        match v {
            Value::Register(r) => (self, self.reg(r)),
            Value::RegisterPointer(r) => (self, self.read(self.reg(r))),
            Value::RegisterPointerOffset(r) => {
                let (s, w) = self.next_word();
                (s, s.read(add_word(self.reg(r), w)))
            },
            Value::Push | Value::Pop => self.pop(),
            Value::Peek => (self, self.top()),
            Value::Pick => {
                let (s, w) = self.next_word();
                (s, s.read(add_word(self.reg(Register::SP), w)))
            },
            Value::NextWordPointer => {
                let (s, w) = self.next_word();
                (s, s.read(w))
            },
            Value::NextWord => self.next_word(),
            Value::Literal(l) => (self, l),
            Value::OpCode(op) => (self, op),
        }
    }

    /// The current value of an operand in the `b` position, read without
    /// consuming anything; the stack operand reads the word at `SP`.
    pub open spec fn peek_b(self, v: Value) -> u16 {
        match v {
            Value::Register(r) => self.reg(r),
            Value::RegisterPointer(r) => self.read(self.reg(r)),
            Value::RegisterPointerOffset(r) => self.read(add_word(self.reg(r), self.upcoming_word())),
            Value::Push | Value::Pop | Value::Peek => self.top(),
            Value::Pick => self.read(add_word(self.reg(Register::SP), self.upcoming_word())),
            Value::NextWordPointer => self.read(self.upcoming_word()),
            Value::NextWord => self.upcoming_word(),
            Value::Literal(l) => l,
            Value::OpCode(op) => op,
        }
    }

    /// Reads an operand in the `b` position, consuming its trailing word;
    /// the stack operand reads the word at `SP` and leaves `SP` alone.
    pub open spec fn read_b(self, v: Value) -> (CpuState, u16) {
        match v {
            Value::Push | Value::Pop => (self, self.top()),
            _ => self.read_a(v),
        }
    }

    /// Writes an operand in the `b` position, where the stack operand pushes.
    /// Writes to `Peek`, `Pick`, `NextWordPointer`, `NextWord` and literals are
    /// dropped; a trailing word is still consumed.
    pub open spec fn write_b(self, v: Value, x: u16) -> CpuState {
        match v {
            Value::Register(r) => self.set_reg(r, x),
            Value::RegisterPointer(r) => self.write(self.reg(r), x),
            Value::RegisterPointerOffset(r) => {
                let (s, w) = self.next_word();
                s.write(add_word(self.reg(r), w), x)
            },
            Value::Push | Value::Pop => self.push(x),
            Value::Pick | Value::NextWordPointer | Value::NextWord => self.next_word().0,
            Value::Peek | Value::Literal(_) | Value::OpCode(_) => self,
        }
    }

    /// Writes an operand in the `a` position, where writing the stack operand
    /// does nothing.
    pub open spec fn write_a(self, v: Value, x: u16) -> CpuState {
        match v {
            Value::Push | Value::Pop => self,
            _ => self.write_b(v, x),
        }
    }

    /// Enters an interrupt handler: queue from now on, push `PC` and `A`,
    /// jump to `IA` with the message in `A`.
    pub open spec fn dispatch(self, msg: u16) -> CpuState {
        let s = self.set_queuing(true);
        s.push(s.reg(Register::PC)).push(s.reg(Register::A)).set_reg(
            Register::PC,
            self.reg(Register::IA),
        ).set_reg(Register::A, msg)
    }

    /// Appends a message to the queue; a full queue sets the processor on fire.
    pub open spec fn enqueue(self, msg: u16) -> CpuState {
        if self.queue.len() >= QUEUE_CAPACITY {
            CpuState { on_fire: true, ..self }
        } else {
            CpuState { queue: self.queue.push(msg), ..self }
        }
    }

    /// An interrupt is dropped while `IA` is zero, queued while queuing, and
    /// dispatched at once otherwise.
    pub open spec fn trigger(self, msg: u16) -> CpuState {
        if self.reg(Register::IA) == 0 {
            self
        } else if self.queuing {
            self.enqueue(msg)
        } else {
            self.dispatch(msg)
        }
    }

    /// Stops queuing, pops `A`, then pops `PC`.
    pub open spec fn return_from_interrupt(self) -> CpuState {
        let (s1, a) = self.set_queuing(false).pop();
        let (s2, pc) = s1.pop();
        s2.set_reg(Register::A, a).set_reg(Register::PC, pc)
    }

    /// Dispatches the oldest queued interrupt unless queuing.
    pub open spec fn service_queue(self) -> CpuState {
        if self.queuing || self.queue.len() == 0 {
            self
        } else {
            CpuState { queue: self.queue.drop_first(), ..self }.dispatch(self.queue[0])
        }
    }

    /// Passes over the instruction at `PC` and the trailing words of its
    /// `RegisterPointerOffset`, `NextWordPointer` and `NextWord` operands, one
    /// cycle for each such word.
    pub open spec fn skip_one(self) -> CpuState {
        let inst = decode(self.upcoming_word());
        let n = inst.a.skipped_words() + inst.b.skipped_words();
        self.set_reg(Register::PC, to_word(self.reg(Register::PC) + 1 + n)).charge(n)
    }

    /// Skips the instruction at `PC`, and the one after each skipped
    /// conditional, for at most `fuel` more instructions.
    pub open spec fn skip_chain(self, fuel: nat) -> CpuState
        decreases fuel,
    {
        let chained = is_conditional(decode(self.upcoming_word()).op);
        if chained && fuel > 0 {
            self.skip_one().skip_chain((fuel - 1) as nat)
        } else {
            self.skip_one()
        }
    }

    /// What a failed conditional does.
    pub open spec fn skip(self) -> CpuState {
        self.skip_chain(SKIP_CHAIN_LIMIT as nat)
    }

    /// The rest of a conditional once `a` is read: `b` is read, one cycle is
    /// charged, and the next instruction is skipped when the test fails.
    pub open spec fn test_b(self, inst: Instruction, a: u16) -> CpuState {
        let (s, b) = self.read_b(inst.b);
        let t = s.charge(1);
        if condition(inst.op, b, a) {
            t
        } else {
            t.skip()
        }
    }

    /// The rest of an opcode that writes `b` once `a` is read: `EX` is set,
    /// `b` is written, and then `STI` steps `I` and `J` up, `STD` down.
    pub open spec fn store_b(self, inst: Instruction, a: u16) -> CpuState {
        let b = self.peek_b(inst.b);
        let (v, ex) = arith(inst.op, b, a, self.reg(Register::EX));
        let s = self.charge(basic_cost(inst.op)).set_reg(Register::EX, ex).write_b(inst.b, v);
        if inst.op == STI {
            s.set_reg(Register::I, inc_word(s.reg(Register::I))).set_reg(
                Register::J,
                inc_word(s.reg(Register::J)),
            )
        } else if inst.op == STD {
            s.set_reg(Register::I, dec_word(s.reg(Register::I))).set_reg(
                Register::J,
                dec_word(s.reg(Register::J)),
            )
        } else {
            s
        }
    }

    /// Executes a defined basic opcode, its primary word already consumed.
    pub open spec fn execute_basic(self, inst: Instruction) -> CpuState {
        let (s, a) = self.read_a(inst.a);
        if is_conditional(inst.op) {
            s.test_b(inst, a)
        } else {
            s.store_b(inst, a)
        }
    }

    /// `HWQ`: the identity of device `index` in `A, B, C, X, Y`, zeros when absent.
    pub open spec fn query_device(self, index: u16) -> CpuState {
        if index < self.devices.len() {
            let d = self.devices[index as int];
            self.set_reg(Register::A, to_word(d.id as int)).set_reg(
                Register::B,
                to_word(d.id as int / 0x10000),
            ).set_reg(Register::C, d.version).set_reg(
                Register::X,
                to_word(d.manufacturer as int),
            ).set_reg(Register::Y, to_word(d.manufacturer as int / 0x10000))
        } else {
            self.set_reg(Register::A, 0).set_reg(Register::B, 0).set_reg(Register::C, 0).set_reg(
                Register::X,
                0,
            ).set_reg(Register::Y, 0)
        }
    }

    /// Executes a defined special opcode, its primary word already consumed;
    /// the second part is the device that `HWI` addressed, if attached.
    pub open spec fn execute_special(self, inst: Instruction) -> (CpuState, Option<u16>) {
        let code = inst.special_code();
        if code == IAG {
            (self.write_a(inst.a, self.reg(Register::IA)), None)
        } else if code == HWN {
            (self.charge(1).write_a(inst.a, self.devices.len() as u16), None)
        } else {
            let (s, a) = self.read_a(inst.a);
            if code == JSR {
                (s.charge(2).push(s.reg(Register::PC)).set_reg(Register::PC, a), None)
            } else if code == INT {
                (s.charge(3).trigger(a), None)
            } else if code == IAS {
                (s.set_reg(Register::IA, a), None)
            } else if code == RFI {
                (s.charge(2).return_from_interrupt(), None)
            } else if code == IAQ {
                (s.charge(1).set_queuing(a != 0), None)
            } else if code == HWQ {
                (s.charge(3).query_device(a), None)
            } else {
                (
                    s.charge(3),
                    if a < s.devices.len() {
                        Some(a)
                    } else {
                        None
                    },
                )
            }
        }
    }

    /// Executes an instruction whose primary word is already consumed.
    pub open spec fn execute(self, inst: Instruction) -> (CpuState, Result<Option<u16>, Fault>) {
        if !inst.is_defined() {
            (self, Err(inst.fault()))
        } else if inst.op == SPL {
            let (s, device) = self.execute_special(inst);
            (s, Ok(device))
        } else {
            (self.execute_basic(inst), Ok(None))
        }
    }

    /// Fetches, decodes and executes the instruction at `PC`. An undefined
    /// encoding changes nothing.
    pub open spec fn step(self) -> (CpuState, Result<Option<u16>, Fault>) {
        let inst = decode(self.upcoming_word());
        if !inst.is_defined() {
            (self, Err(inst.fault()))
        } else {
            self.set_reg(Register::PC, inc_word(self.reg(Register::PC))).execute(inst)
        }
    }

    /// One clock tick. After `HWI` on an attached device the queue is left
    /// for the host to service once the device's handler has run.
    pub open spec fn tick(self) -> (CpuState, Result<Option<u16>, Fault>) {
        if self.on_fire {
            (self, Ok(None))
        } else {
            let s = CpuState { cycle: (self.cycle + 1) % (usize::MAX + 1), ..self };
            if s.pending > 0 {
                (CpuState { pending: s.pending - 1, ..s }, Ok(None))
            } else {
                let (t, r) = s.step();
                match r {
                    Ok(None) => (t.service_queue(), Ok(None)),
                    // The device's handler runs first; the host then services the queue.
                    Ok(Some(device)) => (t, Ok(Some(device))),
                    Err(f) => (t, Err(f)),
                }
            }
        }
    }
}

} // verus!
