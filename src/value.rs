use vstd::prelude::*;

use crate::opcodes::OpCode;
use crate::register::{general_register, Register};

verus! {

/// An operand of an instruction.
///
/// In the `b` position the stack operand is always a push and in the `a`
/// position always a pop, whichever of `Push` and `Pop` names it.
#[derive(Copy, Clone, Debug, PartialEq, Eq, Structural)]
pub enum Value {
    Register(Register),
    RegisterPointer(Register),
    RegisterPointerOffset(Register),
    Push,
    Pop,
    Peek,
    Pick,
    NextWordPointer,
    NextWord,
    Literal(u16),
    OpCode(OpCode),
}

/// Whether a literal fits the inline form: -1 up to 30.
pub open spec fn is_small_literal(l: u16) -> bool {
    l == 0xFFFF || l <= 0x1E
}

impl Value {
    /// The operand code of this value in an instruction word. A literal
    /// outside -1..=30 is encoded as a trailing word, under code 0x1F.
    pub open spec fn code(self) -> u16 {
        match self {
            Value::Register(r) => if r.num() < 8 {
                r.num() as u16
            } else {
                (r.num() - 8 + 0x1B) as u16
            },
            Value::RegisterPointer(r) => (r.num() + 0x08) as u16,
            Value::RegisterPointerOffset(r) => (r.num() + 0x10) as u16,
            Value::Push | Value::Pop => 0x18,
            Value::Peek => 0x19,
            Value::Pick => 0x1A,
            Value::NextWordPointer => 0x1E,
            Value::NextWord => 0x1F,
            Value::Literal(l) => if l == 0xFFFF {
                0x20
            } else if l <= 0x1E {
                (l + 0x21) as u16
            } else {
                0x1F
            },
            Value::OpCode(op) => op,
        }
    }

    /// Whether evaluating this operand consumes a word that follows the
    /// instruction (one extra cycle each).
    pub open spec fn has_extra_word(self) -> bool {
        match self {
            Value::RegisterPointerOffset(_) | Value::Pick | Value::NextWordPointer
            | Value::NextWord => true,
            _ => false,
        }
    }

    /// The number of trailing words this operand consumes.
    pub open spec fn extra_words(self) -> int {
        if self.has_extra_word() {
            1
        } else {
            0
        }
    }

    /// The trailing words that a failed conditional passes over for this
    /// operand of the skipped instruction: one for `RegisterPointerOffset`,
    /// `NextWordPointer` and `NextWord`, none otherwise (`Pick` included).
    pub open spec fn skipped_words(self) -> int {
        match self {
            Value::RegisterPointerOffset(_) | Value::NextWordPointer | Value::NextWord => 1,
            _ => 0,
        }
    }

    /// Whether this operand reads and writes as written when encoded, that
    /// is, its code fits the six bits of the `a` field and means this value.
    pub open spec fn is_representable(self) -> bool {
        match self {
            Value::Register(r) => r != Register::IA,
            Value::RegisterPointer(r) => r.num() < 8,
            Value::RegisterPointerOffset(r) => r.num() < 8,
            Value::Pop => false,
            Value::Literal(l) => is_small_literal(l),
            Value::OpCode(_) => false,
            _ => true,
        }
    }
}

/// The operand that a six-bit operand code stands for.
pub open spec fn value_of_code(c: u16) -> Value {
    if c < 0x08 {
        Value::Register(general_register(c as int))
    } else if c < 0x10 {
        Value::RegisterPointer(general_register(c - 0x08))
    } else if c < 0x18 {
        Value::RegisterPointerOffset(general_register(c - 0x10))
    } else if c == 0x18 {
        Value::Push
    } else if c == 0x19 {
        Value::Peek
    } else if c == 0x1A {
        Value::Pick
    } else if c == 0x1B {
        Value::Register(Register::SP)
    } else if c == 0x1C {
        Value::Register(Register::PC)
    } else if c == 0x1D {
        Value::Register(Register::EX)
    } else if c == 0x1E {
        Value::NextWordPointer
    } else if c == 0x1F {
        Value::NextWord
    } else if c == 0x20 {
        Value::Literal(0xFFFF)
    } else {
        Value::Literal((c - 0x21) as u16)
    }
}

impl Value {
    /// The operand code of this value.
    pub fn to_u16(&self) -> (r: u16)
        ensures
            r == self.code(),
    {
        match *self {
            Value::Register(reg) => {
                let n = reg.index() as u16;
                if n < 8 {
                    n
                } else {
                    n - 0x08 + 0x1B
                }
            },
            Value::RegisterPointer(reg) => reg.index() as u16 + 0x08,
            Value::RegisterPointerOffset(reg) => reg.index() as u16 + 0x10,
            Value::Push | Value::Pop => 0x18,
            Value::Peek => 0x19,
            Value::Pick => 0x1A,
            Value::NextWordPointer => 0x1E,
            Value::NextWord => 0x1F,
            Value::Literal(literal) => {
                if literal == 0xFFFF {
                    0x20
                } else if literal <= 0x1E {
                    literal + 0x21
                } else {
                    0x1F
                }
            },
            Value::OpCode(op) => op,
        }
    }

    /// The operand code placed in the `a` field (bits 10 to 15) of a word.
    pub fn get_a(&self) -> (r: u16)
        ensures
            r == self.code() << 10u16,
    {
        self.to_u16() << 10u16
    }

    /// The operand code placed in the `b` field (bits 5 to 9) of a word.
    pub fn get_b(&self) -> (r: u16)
        ensures
            r == self.code() << 5u16,
    {
        self.to_u16() << 5u16
    }

    /// The operand that a six-bit operand code stands for.
    pub fn from_code(code: u16) -> (v: Value)
        requires
            code < 0x40,
        ensures
            v == value_of_code(code),
    {
        if code < 0x08 {
            Value::Register(Register::general(code))
        } else if code < 0x10 {
            Value::RegisterPointer(Register::general(code - 0x08))
        } else if code < 0x18 {
            Value::RegisterPointerOffset(Register::general(code - 0x10))
        } else if code == 0x18 {
            Value::Push
        } else if code == 0x19 {
            Value::Peek
        } else if code == 0x1A {
            Value::Pick
        } else if code == 0x1B {
            Value::Register(Register::SP)
        } else if code == 0x1C {
            Value::Register(Register::PC)
        } else if code == 0x1D {
            Value::Register(Register::EX)
        } else if code == 0x1E {
            Value::NextWordPointer
        } else if code == 0x1F {
            Value::NextWord
        } else if code == 0x20 {
            Value::Literal(0xFFFF)
        } else {
            Value::Literal(code - 0x21)
        }
    }
}

impl From<Value> for u16 {
    fn from(value: Value) -> (r: u16) {
        value.to_u16()
    }
}

impl vstd::std_specs::convert::FromSpecImpl<Value> for u16 {
    open spec fn obeys_from_spec() -> bool {
        true
    }

    open spec fn from_spec(value: Value) -> u16 {
        value.code()
    }
}

/// Decoding an operand code and encoding the result gives the code back.
pub proof fn lemma_code_round_trip(c: u16)
    requires
        c < 0x40,
    ensures
        value_of_code(c).code() == c,
        value_of_code(c).is_representable(),
{
}

/// Encoding a representable operand and decoding its code gives it back;
/// `Pop` comes back as `Push`, which stands for the same stack slot.
pub proof fn lemma_value_round_trip(v: Value)
    requires
        v.is_representable(),
    ensures
        v.code() < 0x40,
        value_of_code(v.code()) == v,
{
}

} // verus!
