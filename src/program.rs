use vstd::prelude::*;

use crate::instruction::Instruction;
use crate::opcodes::OpCode;
use crate::value::Value;

verus! {

/// Words packed big-endian from bytes: the high byte first. An odd last
/// byte is left out.
pub open spec fn words_of_bytes(bytes: Seq<u8>) -> Seq<u16> {
    Seq::new(bytes.len() / 2, |i: int| (bytes[2 * i] * 0x100 + bytes[2 * i + 1]) as u16)
}

/// A sequence of words built instruction by instruction.
pub struct Program {
    words: Vec<u16>,
}

impl View for Program {
    type V = Seq<u16>;

    closed spec fn view(&self) -> Seq<u16> {
        self.words@
    }
}

impl Program {
    pub fn new() -> (p: Program)
        ensures
            p@ == Seq::<u16>::empty(),
    {
        Program { words: Vec::with_capacity(64) }
    }

    /// Appends the words that encode `(op, b, a)`.
    pub fn add(&mut self, op: OpCode, b: Value, a: Value)
        ensures
            final(self)@ == old(self)@ + (Instruction { op, b, a }).encoding(),
    {
        let inst = Instruction::new(op, b, a);
        let mut words = inst.words();
        self.words.append(&mut words);
    }

    /// Appends one word.
    pub fn add_word(&mut self, word: u16)
        ensures
            final(self)@ == old(self)@.push(word),
    {
        self.words.push(word);
    }

    pub fn words(&self) -> (r: &Vec<u16>)
        ensures
            r@ == self@,
    {
        &self.words
    }

    /// A program read from a byte image, two bytes to a word, high byte first.
    pub fn from_bytes(bytes: &[u8]) -> (p: Program)
        ensures
            p@ == words_of_bytes(bytes@),
    {
        let len = bytes.len();
        let n = len / 2;
        let mut words: Vec<u16> = Vec::with_capacity(n);
        let mut i: usize = 0;
        while i < n
            invariant
                len == bytes@.len(),
                n == len / 2,
                i <= n,
                words@ == words_of_bytes(bytes@).subrange(0, i as int),
            decreases n - i,
        {
            assert(2 * i + 1 < bytes@.len());
            let high = bytes[2 * i] as u16;
            let low = bytes[2 * i + 1] as u16;
            assert(high * 0x100 + low <= 0xFFFF) by (nonlinear_arith)
                requires
                    high <= 0xFF,
                    low <= 0xFF,
            ;
            let word = high * 0x100 + low;
            words.push(word);
            i += 1;
            assert(words@ =~= words_of_bytes(bytes@).subrange(0, i as int));
        }
        assert(words@ =~= words_of_bytes(bytes@));
        Program { words }
    }
}

} // verus!
