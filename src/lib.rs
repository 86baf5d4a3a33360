// An emulator core for the DCPU-16: instruction decoding and execution,
// cycle accounting, interrupts and the device bus, verified against a
// model of the processor state (`CpuState`).

mod alu;
mod hardware;
mod instruction;
pub mod laws;
mod memory;
mod monitor;
pub mod opcodes;
mod processor;
mod program;
mod register;
mod state;
mod value;

pub use self::hardware::DeviceInfo;
pub use self::instruction::{Fault, Instruction};
pub use self::memory::Memory;
pub use self::monitor::Monitor;
pub use self::processor::Processor;
pub use self::program::Program;
pub use self::register::Register;
pub use self::state::CpuState;
pub use self::value::Value;
