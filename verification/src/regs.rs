//! The sixteen general registers, `V0` to `VF`.

use vstd::prelude::*;
use crate::debug::{row_text, write_row};

verus! {

/// The number of general registers.
pub const COUNT: u8 = 16;

/// The index of the register that doubles as carry, borrow and collision flag.
pub const FLAG: u8 = 0xf;

/// Sixteen 8-bit registers, addressed by a 4-bit index.
#[derive(Clone, Copy, Debug)]
pub struct Regs {
    regs: [u8; 16],
}

impl View for Regs {
    type V = Seq<u8>;

    closed spec fn view(&self) -> Seq<u8> {
        self.regs@
    }
}

impl Regs {
    /// Sixteen registers, all zero.
    pub fn new() -> (r: Self)
        ensures
            r@ == Seq::new(16, |x: int| 0u8),
    {
        let r = Self { regs: [0; 16] };
        assert(r@ =~= Seq::new(16, |x: int| 0u8));
        r
    }

    /// There are always sixteen registers.
    pub proof fn lemma_len(&self)
        ensures
            self@.len() == 16,
    {
    }

    /// The value of register `index`.
    pub fn get(&self, index: u8) -> (value: u8)
        requires
            index < COUNT,
        ensures
            value == self@[index as int],
    {
        self.regs[index as usize]
    }

    /// Stores `value` in register `index` and leaves the others as they were.
    pub fn set(&mut self, index: u8, value: u8)
        requires
            index < COUNT,
        ensures
            final(self)@ == old(self)@.update(index as int, value),
    {
        self.regs[index as usize] = value;
    }

    /// The registers as text: their sixteen bytes as hexadecimal digits, in
    /// square brackets.
    pub fn render(&self) -> (text: String)
        ensures
            text@ == seq!['[', ' '] + row_text(self@) + seq![' ', ']'],
    {
        let mut out = String::new();
        out.push('[');
        out.push(' ');
        write_row(&mut out, &self.regs);
        out.push(' ');
        out.push(']');
        assert(out@ =~= seq!['[', ' '] + row_text(self@) + seq![' ', ']']);
        out
    }
}

} // verus!
