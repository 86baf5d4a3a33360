use vstd::prelude::*;

use std::collections::VecDeque;

use crate::hardware::DeviceInfo;
use crate::instruction::Fault;
use crate::memory::{loaded, Memory};
use crate::program::Program;
use crate::register::Register;
use crate::state::{dec_word, inc_word, CpuState, ISSUE_LIMIT, QUEUE_CAPACITY};
use crate::value::{value_of_code, Value};

verus! {

/// A DCPU-16 processor: registers, memory, the cycle budget, the interrupt
/// queue and the identities of the attached devices.
pub struct Processor {
    memory: Memory,
    registers: [u16; 12],
    cycle_wait: u64,
    is_queuing_interrupts: bool,
    cycle: usize,
    interrupt_queue: VecDeque<u16>,
    is_on_fire: bool,
    hardware: Vec<DeviceInfo>,
}

impl View for Processor {
    type V = CpuState;

    closed spec fn view(&self) -> CpuState {
        CpuState {
            memory: self.memory@,
            registers: self.registers@,
            pending: self.cycle_wait as int,
            queuing: self.is_queuing_interrupts,
            cycle: self.cycle as int,
            queue: self.interrupt_queue@,
            on_fire: self.is_on_fire,
            devices: self.hardware@,
        }
    }
}

impl Processor {
    pub open spec fn wf(&self) -> bool {
        self@.wf()
    }

    /// A processor with zeroed registers and memory, no device, an empty
    /// queue, not on fire.
    pub fn new() -> (p: Processor)
        ensures
            p.wf(),
            p@ == CpuState::initial(),
    {
        let p = Processor {
            memory: Memory::new(),
            registers: [0u16; 12],
            cycle_wait: 0,
            is_queuing_interrupts: false,
            cycle: 0,
            interrupt_queue: VecDeque::with_capacity(QUEUE_CAPACITY),
            is_on_fire: false,
            hardware: Vec::new(),
        };
        assert(p@.registers =~= Seq::new(12, |i: int| 0u16));
        assert(p@.queue =~= Seq::<u16>::empty());
        assert(p@.devices =~= Seq::<DeviceInfo>::empty());
        p
    }

    /// Returns to the state of a new processor; attached devices stay.
    pub fn reset(&mut self)
        requires
            old(self).wf(),
        ensures
            final(self).wf(),
            final(self)@ == (CpuState { devices: old(self)@.devices, ..CpuState::initial() }),
    {
        self.memory = Memory::new();
        self.registers = [0u16; 12];
        self.cycle_wait = 0;
        self.is_queuing_interrupts = false;
        self.cycle = 0;
        self.interrupt_queue = VecDeque::with_capacity(QUEUE_CAPACITY);
        self.is_on_fire = false;
        assert(self@.registers =~= Seq::new(12, |i: int| 0u16));
        assert(self@.queue =~= Seq::<u16>::empty());
    }

    /// Ticks so far, wrapping.
    pub fn cycle(&self) -> (r: usize)
        ensures
            r == self@.cycle,
    {
        self.cycle
    }

    /// Cycles still to be absorbed before the next instruction is issued.
    pub fn cycle_wait(&self) -> (r: u64)
        ensures
            r == self@.pending,
    {
        self.cycle_wait
    }

    pub fn is_queuing_interrupts(&self) -> (r: bool)
        ensures
            r == self@.queuing,
    {
        self.is_queuing_interrupts
    }

    pub fn is_on_fire(&self) -> (r: bool)
        ensures
            r == self@.on_fire,
    {
        self.is_on_fire
    }

    /// The number of queued interrupts.
    pub fn queued_interrupts(&self) -> (r: usize)
        ensures
            r == self@.queue.len(),
    {
        self.interrupt_queue.len()
    }

    pub fn get_memory(&self, addr: u16) -> (r: u16)
        requires
            self.wf(),
        ensures
            r == self@.read(addr),
    {
        self.memory.get(addr)
    }

    pub fn set_memory(&mut self, addr: u16, value: u16)
        requires
            old(self).wf(),
        ensures
            final(self)@ == old(self)@.write(addr, value),
    {
        self.memory.set(addr, value);
    }

    /// Stores the words of a program from `addr` on, addresses wrapping.
    pub fn load_program(&mut self, addr: u16, program: &Program)
        requires
            old(self).wf(),
        ensures
            final(self).wf(),
            final(self)@ == (CpuState { memory: loaded(old(self)@.memory, addr, program@), ..old(self)@ }),
    {
        self.memory.load_program(addr, program);
    }

    /// Records the identity of a newly attached device; its index is the
    /// number of devices attached before it.
    pub fn connect_hardware(&mut self, device: DeviceInfo)
        requires
            old(self).wf(),
            old(self)@.devices.len() < 0xFFFF,
        ensures
            final(self)@ == (CpuState { devices: old(self)@.devices.push(device), ..old(self)@ }),
    {
        self.hardware.push(device);
    }

    pub fn hardware_count(&self) -> (r: u16)
        requires
            self.wf(),
        ensures
            r == self@.devices.len(),
    {
        self.hardware.len() as u16
    }

    /// The identity of the device at `index`, if one is attached there.
    pub fn get_hardware(&self, index: u16) -> (r: Option<DeviceInfo>)
        ensures
            r == (if index < self@.devices.len() {
                Some(self@.devices[index as int])
            } else {
                None
            }),
    {
        if (index as usize) < self.hardware.len() {
            Some(self.hardware[index as usize])
        } else {
            None
        }
    }

    pub fn get_register(&self, register: Register) -> (r: u16)
        ensures
            r == self@.reg(register),
    {
        self.registers[register.index()]
    }

    pub fn set_register(&mut self, register: Register, value: u16)
        ensures
            final(self)@ == old(self)@.set_reg(register, value),
    {
        self.registers[register.index()] = value;
    }

    /// The register read as a two's-complement number.
    pub fn get_signed_register(&self, register: Register) -> (r: i16)
        ensures
            r as u16 == self@.reg(register),
    {
        let v = self.registers[register.index()];
        proof {
            assert(v as i16 as u16 == v) by (bit_vector);
        }
        v as i16
    }

    /// Stores the two's-complement bits of a number.
    pub fn set_signed_register(&mut self, register: Register, value: i16)
        ensures
            final(self)@ == old(self)@.set_reg(register, value as u16),
    {
        self.registers[register.index()] = value as u16;
    }

    /// Adds one to a register, wrapping.
    pub fn inc(&mut self, register: Register)
        ensures
            final(self)@ == old(self)@.set_reg(register, inc_word(old(self)@.reg(register))),
    {
        let old_value = self.registers[register.index()];
        self.registers[register.index()] = old_value.wrapping_add(1);
    }

    /// Subtracts one from a register, wrapping.
    pub fn dec(&mut self, register: Register)
        ensures
            final(self)@ == old(self)@.set_reg(register, dec_word(old(self)@.reg(register))),
    {
        let old_value = self.registers[register.index()];
        self.registers[register.index()] = old_value.wrapping_sub(1);
    }

    /// Adds cycles for later ticks to absorb.
    pub(crate) fn charge(&mut self, cycles: u64)
        requires
            old(self)@.pending + cycles <= u64::MAX,
        ensures
            final(self)@ == old(self)@.charge(cycles as int),
    {
        self.cycle_wait = self.cycle_wait + cycles;
    }

    pub(crate) fn set_queuing(&mut self, queuing: bool)
        ensures
            final(self)@ == old(self)@.set_queuing(queuing),
    {
        self.is_queuing_interrupts = queuing;
    }

    /// Decrements `SP`, then stores the value at the new `SP`.
    pub fn push(&mut self, value: u16)
        requires
            old(self).wf(),
        ensures
            final(self)@ == old(self)@.push(value),
    {
        self.dec(Register::SP);
        let addr = self.get_register(Register::SP);
        self.memory.set(addr, value);
    }

    /// Reads the value at `SP`, then increments `SP`.
    pub fn pop(&mut self) -> (r: u16)
        requires
            old(self).wf(),
        ensures
            (final(self)@, r) == old(self)@.pop(),
    {
        let addr = self.get_register(Register::SP);
        self.inc(Register::SP);
        self.memory.get(addr)
    }

    /// The value at `SP`.
    pub fn peek(&self) -> (r: u16)
        requires
            self.wf(),
        ensures
            r == self@.top(),
    {
        let addr = self.get_register(Register::SP);
        self.memory.get(addr)
    }

    /// Consumes the word at `PC`, for one cycle.
    pub fn next_word(&mut self) -> (r: u16)
        requires
            old(self).wf(),
            old(self)@.pending < u64::MAX,
        ensures
            (final(self)@, r) == old(self)@.next_word(),
    {
        let word = self.peek_next_word();
        self.inc(Register::PC);
        self.charge(1);
        word
    }

    /// The word at `PC`, not consumed.
    pub fn peek_next_word(&self) -> (r: u16)
        requires
            self.wf(),
        ensures
            r == self@.upcoming_word(),
    {
        let addr = self.get_register(Register::PC);
        self.memory.get(addr)
    }

    /// Consumes the word at `PC` and reads it as an operand code; `None` when
    /// it is no operand code.
    pub fn next_value(&mut self) -> (r: Option<Value>)
        requires
            old(self).wf(),
            old(self)@.pending < u64::MAX,
        ensures
            final(self)@ == old(self)@.next_word().0,
            r == (if old(self)@.next_word().1 < 0x40 {
                Some(value_of_code(old(self)@.next_word().1))
            } else {
                None
            }),
    {
        let word = self.next_word();
        if word < 0x40 {
            Some(Value::from_code(word))
        } else {
            None
        }
    }

    /// Enters the interrupt handler at `IA` with `message` in `A`: queuing
    /// starts, `PC` then `A` are pushed.
    pub fn handle_interrupt(&mut self, message: u16)
        requires
            old(self).wf(),
        ensures
            final(self)@ == old(self)@.dispatch(message),
    {
        let handler_addr = self.get_register(Register::IA);
        self.set_queuing(true);
        let pc = self.get_register(Register::PC);
        let a = self.get_register(Register::A);
        self.push(pc);
        self.push(a);
        self.set_register(Register::PC, handler_addr);
        self.set_register(Register::A, message);
    }

    /// Raises an interrupt: dropped while `IA` is zero, queued while queuing,
    /// dispatched at once otherwise.
    pub fn trigger_interrupt(&mut self, message: u16)
        requires
            old(self).wf(),
        ensures
            final(self)@ == old(self)@.trigger(message),
            final(self).wf(),
    {
        if self.get_register(Register::IA) == 0 {
            return ;
        }
        if self.is_queuing_interrupts {
            self.queue_interrupt(message);
            return ;
        }
        self.handle_interrupt(message);
    }

    /// Leaves an interrupt handler: queuing stops, `A` then `PC` are popped.
    pub fn return_from_interrupt(&mut self)
        requires
            old(self).wf(),
        ensures
            final(self)@ == old(self)@.return_from_interrupt(),
    {
        self.set_queuing(false);
        let a = self.pop();
        let pc = self.pop();
        self.set_register(Register::A, a);
        self.set_register(Register::PC, pc);
    }

    /// Appends a message to the queue; when the queue is full the processor
    /// is set on fire instead.
    pub fn queue_interrupt(&mut self, message: u16)
        requires
            old(self).wf(),
        ensures
            final(self)@ == old(self)@.enqueue(message),
            final(self).wf(),
    {
        if self.interrupt_queue.len() >= QUEUE_CAPACITY {
            self.is_on_fire = true;
            return ;
        }
        self.interrupt_queue.push_back(message);
    }

    /// Dispatches the oldest queued interrupt, unless queuing.
    pub fn process_interrupt_queue(&mut self)
        requires
            old(self).wf(),
        ensures
            final(self)@ == old(self)@.service_queue(),
            final(self).wf(),
    {
        if self.is_queuing_interrupts {
            return ;
        }
        let ghost before = self@;
        if let Some(message) = self.interrupt_queue.pop_front() {
            assert(self@ == CpuState { queue: before.queue.drop_first(), ..before });
            self.handle_interrupt(message);
        }
    }

    /// Fetches the instruction at `PC`, advances `PC` past it and executes
    /// it. An undefined encoding changes nothing and returns its fault; `HWI`
    /// returns the index of the attached device it addressed.
    pub fn execute_next(&mut self) -> (r: Result<Option<u16>, Fault>)
        requires
            old(self).wf(),
            old(self)@.pending <= ISSUE_LIMIT,
        ensures
            final(self).wf(),
            (final(self)@, r) == old(self)@.step(),
    {
        let addr = self.get_register(Register::PC);
        let instruction = self.memory.get_instruction(addr);
        if let Err(fault) = instruction.check() {
            return Err(fault);
        }
        self.inc(Register::PC);
        instruction.execute(self)
    }

    /// One clock tick: nothing once on fire; otherwise the cycle counter
    /// advances and either one pending cycle is absorbed or the next
    /// instruction is executed and then at most one queued interrupt is
    /// dispatched. `Ok(Some(i))` asks the host to run the interrupt handler of
    /// device `i` and then to call `process_interrupt_queue`, which this tick
    /// has not done; an undefined encoding stops the tick with its fault.
    pub fn tick(&mut self) -> (r: Result<Option<u16>, Fault>)
        requires
            old(self).wf(),
        ensures
            final(self).wf(),
            (final(self)@, r) == old(self)@.tick(),
    {
        if self.is_on_fire {
            return Ok(None);
        }
        let ghost before = self.cycle as int;
        self.cycle = self.cycle.wrapping_add(1);
        proof {
            if before < usize::MAX {
                vstd::arithmetic::div_mod::lemma_small_mod(
                    (before + 1) as nat,
                    (usize::MAX + 1) as nat,
                );
            } else {
                vstd::arithmetic::div_mod::lemma_mod_self_0(usize::MAX + 1);
            }
        }
        if self.cycle_wait > 0 {
            self.cycle_wait = self.cycle_wait - 1;
            return Ok(None);
        }
        let result = self.execute_next();
        if let Ok(None) = result {
            self.process_interrupt_queue();
        }
        result
    }
}

} // verus!
