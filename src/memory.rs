use vstd::prelude::*;

use crate::instruction::{decode, Instruction};
use crate::program::Program;

verus! {

/// Memory after `words` are stored one after another from `base` on,
/// addresses wrapping; where a long program wraps onto itself the later
/// word stays.
pub open spec fn loaded(memory: Seq<u16>, base: u16, words: Seq<u16>) -> Seq<u16>
    decreases words.len(),
{
    if words.len() == 0 {
        memory
    } else {
        let n = words.len() - 1;
        loaded(memory, base, words.take(n)).update((base + n) % 0x10000, words[n])
    }
}

/// A flat memory of 65 536 words.
pub struct Memory {
    words: Vec<u16>,
}

impl View for Memory {
    type V = Seq<u16>;

    closed spec fn view(&self) -> Seq<u16> {
        self.words@
    }
}

impl Memory {
    pub open spec fn wf(&self) -> bool {
        self@.len() == 0x10000
    }

    /// A memory of zeros.
    pub fn new() -> (m: Memory)
        ensures
            m.wf(),
            m@ == Seq::new(0x10000, |i: int| 0u16),
    {
        let words = vec![0u16; 0x10000];
        let m = Memory { words };
        assert(m@ =~= Seq::new(0x10000, |i: int| 0u16));
        m
    }

    pub fn set(&mut self, addr: u16, value: u16)
        requires
            old(self).wf(),
        ensures
            final(self)@ == old(self)@.update(addr as int, value),
    {
        self.words.set(addr as usize, value);
    }

    pub fn get(&self, addr: u16) -> (r: u16)
        requires
            self.wf(),
        ensures
            r == self@[addr as int],
    {
        self.words[addr as usize]
    }

    /// Decodes the word at `addr`; trailing words are not read.
    pub fn get_instruction(&self, addr: u16) -> (r: Instruction)
        requires
            self.wf(),
        ensures
            r == decode(self@[addr as int]),
    {
        Instruction::decode(self.get(addr))
    }

    /// Stores the words of a program from `addr` on, addresses wrapping.
    pub fn load_program(&mut self, addr: u16, program: &Program)
        requires
            old(self).wf(),
        ensures
            final(self).wf(),
            final(self)@ == loaded(old(self)@, addr, program@),
    {
        let words = program.words();
        let n = words.len();
        let mut i: usize = 0;
        while i < n
            invariant
                self.wf(),
                words@ == program@,
                n == words@.len(),
                i <= n,
                self@ == loaded(old(self)@, addr, words@.take(i as int)),
            decreases n - i,
        {
            let target = ((addr as usize + i % 0x10000) % 0x10000) as u16;
            proof {
                vstd::arithmetic::div_mod::lemma_add_mod_noop_right(addr as int, i as int, 0x10000);
            }
            self.set(target, words[i]);
            proof {
                assert(words@.take(i + 1).take(i as int) =~= words@.take(i as int));
            }
            i += 1;
        }
        assert(words@.take(n as int) =~= words@);
    }
}

} // verus!
