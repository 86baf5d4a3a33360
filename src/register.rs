use vstd::prelude::*;

verus! {

/// The twelve addressable registers: eight general-purpose ones followed by
/// the stack pointer, program counter, overflow register and interrupt address.
#[derive(Copy, Clone, Debug, PartialEq, Eq, Structural)]
pub enum Register {
    A,
    B,
    C,
    X,
    Y,
    Z,
    I,
    J,
    SP,
    PC,
    EX,
    IA,
}

/// The general register numbered `n` (0 for `A` up to 7 for `J`).
pub open spec fn general_register(n: int) -> Register {
    if n == 0 {
        Register::A
    } else if n == 1 {
        Register::B
    } else if n == 2 {
        Register::C
    } else if n == 3 {
        Register::X
    } else if n == 4 {
        Register::Y
    } else if n == 5 {
        Register::Z
    } else if n == 6 {
        Register::I
    } else {
        Register::J
    }
}

impl Register {
    /// Position of the register in the register file.
    pub open spec fn num(self) -> int {
        match self {
            Register::A => 0,
            Register::B => 1,
            Register::C => 2,
            Register::X => 3,
            Register::Y => 4,
            Register::Z => 5,
            Register::I => 6,
            Register::J => 7,
            Register::SP => 8,
            Register::PC => 9,
            Register::EX => 10,
            Register::IA => 11,
        }
    }

    pub fn index(self) -> (r: usize)
        ensures
            r as int == self.num(),
            r < 12,
    {
        match self {
            Register::A => 0,
            Register::B => 1,
            Register::C => 2,
            Register::X => 3,
            Register::Y => 4,
            Register::Z => 5,
            Register::I => 6,
            Register::J => 7,
            Register::SP => 8,
            Register::PC => 9,
            Register::EX => 10,
            Register::IA => 11,
        }
    }

    /// The general register numbered `n`.
    pub fn general(n: u16) -> (r: Register)
        requires
            n < 8,
        ensures
            r == general_register(n as int),
            r.num() == n as int,
    {
        if n == 0 {
            Register::A
        } else if n == 1 {
            Register::B
        } else if n == 2 {
            Register::C
        } else if n == 3 {
            Register::X
        } else if n == 4 {
            Register::Y
        } else if n == 5 {
            Register::Z
        } else if n == 6 {
            Register::I
        } else {
            Register::J
        }
    }
}

} // verus!
