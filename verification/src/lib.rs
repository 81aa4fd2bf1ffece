//! An interpreter for the CHIP-8 virtual machine.
//!
//! The machine has 4 KiB of memory, sixteen 8-bit registers, a call stack of
//! sixteen return addresses and a 64x32 monochrome display. Every function of
//! this crate is verified against a mathematical model of that machine.

use vstd::prelude::*;

pub mod cpu;
pub mod debug;
pub mod fault;
pub mod instr;
pub mod io;
pub mod keyboard;
pub mod mem;
pub mod model;
pub mod regs;
pub mod screen;
pub mod stack;
pub mod terminal_io;

pub use cpu::Chip8;
pub use fault::Fault;
pub use instr::Instr;
pub use io::{Chip8Io, DrawSprite, Reply, Request};
pub use mem::Mem;
pub use regs::Regs;
pub use screen::{Flip, Point, Screen};
pub use stack::Stack;
pub use terminal_io::TerminalIo;

verus! {

/// Loads `rom` into a fresh machine that talks to `io`, and executes
/// instructions until the program is done, a fault is met or `budget`
/// instructions were executed. Tells whether the program is done.
pub fn run<IO: Chip8Io + ?Sized>(rom: &[u8], io: &mut IO, budget: u64) -> (r: Result<bool, Fault>)
    ensures
        Mem::ROM_START + rom@.len() > Mem::LEN ==> r == Err::<bool, Fault>(
            Fault::ProgramTooLarge { len: rom@.len() as usize },
        ),
        Mem::ROM_START + rom@.len() <= Mem::LEN ==> exists|t: model::State|
            model::run_ends(model::initial(rom@), budget, t, r),
{
    let mut chip = match Chip8::new(rom, io) {
        Ok(chip) => chip,
        Err(f) => {
            return Err(f);
        },
    };
    let r = chip.run(budget);
    assert(model::run_ends(model::initial(rom@), budget, chip@, r));
    r
}

} // verus!
