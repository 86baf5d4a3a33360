use vstd::prelude::*;

verus! {

/// A basic opcode (the low five bits of an instruction word) or a special
/// opcode (carried in the `b` field when the basic opcode is zero).
pub type OpCode = u16;

pub const SPL: OpCode = 0x0000;
pub const SET: OpCode = 0x0001;
pub const ADD: OpCode = 0x0002;
pub const SUB: OpCode = 0x0003;
pub const MUL: OpCode = 0x0004;
pub const MLI: OpCode = 0x0005;
pub const DIV: OpCode = 0x0006;
pub const DVI: OpCode = 0x0007;
pub const MOD: OpCode = 0x0008;
pub const MDI: OpCode = 0x0009;
pub const AND: OpCode = 0x000A;
pub const BOR: OpCode = 0x000B;
pub const XOR: OpCode = 0x000C;
pub const SHR: OpCode = 0x000D;
pub const ASR: OpCode = 0x000E;
pub const SHL: OpCode = 0x000F;
pub const IFB: OpCode = 0x0010;
pub const IFC: OpCode = 0x0011;
pub const IFE: OpCode = 0x0012;
pub const IFN: OpCode = 0x0013;
pub const IFG: OpCode = 0x0014;
pub const IFA: OpCode = 0x0015;
pub const IFL: OpCode = 0x0016;
pub const IFU: OpCode = 0x0017;
pub const ADX: OpCode = 0x001A;
pub const SBX: OpCode = 0x001B;
pub const STI: OpCode = 0x001E;
pub const STD: OpCode = 0x001F;

// Special opcodes
pub const JSR: OpCode = 0x0001;
pub const INT: OpCode = 0x0008;
pub const IAG: OpCode = 0x0009;
pub const IAS: OpCode = 0x000A;
pub const RFI: OpCode = 0x000B;
pub const IAQ: OpCode = 0x000C;
pub const HWN: OpCode = 0x0010;
pub const HWQ: OpCode = 0x0011;
pub const HWI: OpCode = 0x0012;

/// The conditional opcodes `IFB` through `IFU`.
pub open spec fn is_conditional(op: OpCode) -> bool {
    IFB <= op <= IFU
}

/// The basic opcodes that are defined (0x18, 0x19, 0x1C and 0x1D are reserved).
pub open spec fn is_basic(op: OpCode) -> bool {
    (SET <= op <= IFU) || op == ADX || op == SBX || op == STI || op == STD
}

/// The special opcodes that are defined.
pub open spec fn is_special(code: OpCode) -> bool {
    code == JSR || code == INT || code == IAG || code == IAS || code == RFI || code == IAQ
        || code == HWN || code == HWQ || code == HWI
}

pub fn conditional(op: OpCode) -> (r: bool)
    ensures
        r == is_conditional(op),
{
    IFB <= op && op <= IFU
}

pub fn basic(op: OpCode) -> (r: bool)
    ensures
        r == is_basic(op),
{
    (SET <= op && op <= IFU) || op == ADX || op == SBX || op == STI || op == STD
}

pub fn special(code: OpCode) -> (r: bool)
    ensures
        r == is_special(code),
{
    code == JSR || code == INT || code == IAG || code == IAS || code == RFI || code == IAQ
        || code == HWN || code == HWQ || code == HWI
}

} // verus!
