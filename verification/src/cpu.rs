//! The interpreter: fetch, decode and execute, one instruction at a time.

use vstd::prelude::*;
use crate::fault::Fault;
use crate::instr::{bcd_from_u8, decode, decoded, Instr};
use crate::io::{answers, Chip8Io, DrawSprite, Reply, Request};
use crate::mem::{range_fault, Mem};
use crate::model::{
    combined, executed, fault, fetched, halted, initial, instr_fault, origin, request, run_ends,
    is_run, lemma_run_extends, lemma_run_starts, runs_to, steps_to, State,
};
use crate::regs::{Regs, FLAG};
use crate::screen::{wrapped, Point};
use crate::stack::Stack;

verus! {

/// A CHIP-8 machine, with the outside world that it talks to.
pub struct Chip8<'a, IO: Chip8Io + ?Sized> {
    pc: u16,
    i: u16,
    stack: Stack,
    v: Regs,
    mem: Mem,
    io: &'a mut IO,
}

impl<'a, IO: Chip8Io + ?Sized> View for Chip8<'a, IO> {
    type V = State;

    closed spec fn view(&self) -> State {
        State { pc: self.pc, i: self.i, stack: self.stack@, v: self.v@, mem: self.mem@ }
    }
}

impl<'a, IO: Chip8Io + ?Sized> Chip8<'a, IO> {
    /// A machine with `rom` loaded at the start of the program area and the
    /// program counter on its first instruction. A program that does not
    /// fit into memory is refused.
    pub fn new(rom: &[u8], io: &'a mut IO) -> (r: Result<Self, Fault>)
        ensures
            r is Ok <==> Mem::ROM_START + rom@.len() <= Mem::LEN,
            r is Ok ==> r->Ok_0@ == initial(rom@) && r->Ok_0@.well_formed(),
            r is Err ==> r->Err_0 == (Fault::ProgramTooLarge { len: rom@.len() as usize }),
    {
        let mem = match Mem::new(rom) {
            Ok(mem) => mem,
            Err(f) => {
                return Err(f);
            },
        };
        Ok(Self { pc: Mem::ROM_START, i: 0, stack: Stack::new(), v: Regs::new(), mem, io })
    }

    /// The program counter.
    pub fn pc(&self) -> (pc: u16)
        ensures
            pc == self@.pc,
    {
        self.pc
    }

    /// The index register `I`.
    pub fn index(&self) -> (i: u16)
        ensures
            i == self@.i,
    {
        self.i
    }

    /// The general registers.
    pub fn registers(&self) -> (v: &Regs)
        ensures
            v@ == self@.v,
    {
        &self.v
    }

    /// The memory.
    pub fn memory(&self) -> (mem: &Mem)
        ensures
            mem@ == self@.mem,
    {
        &self.mem
    }

    /// The call stack.
    pub fn stack(&self) -> (stack: &Stack)
        ensures
            stack@ == self@.stack,
    {
        &self.stack
    }

    /// The word at the program counter, or the fault of a program counter
    /// that points outside memory.
    pub fn fetch(&self) -> (r: Result<u16, Fault>)
        ensures
            r is Ok <==> range_fault(self@.pc as int, 2) is None,
            r is Ok ==> r->Ok_0 == fetched(self@),
            r is Err ==> Some(r->Err_0) == range_fault(self@.pc as int, 2),
    {
        proof {
            self.lemma_well_formed();
        }
        match Mem::check_range(self.pc, 2) {
            Ok(()) => {},
            Err(f) => {
                return Err(f);
            },
        }
        let j = self.mem.get(self.pc);
        let k = self.mem.get(self.pc + 1);
        Ok((j as u16) * 0x100 + (k as u16))
    }

    /// Whether the next instruction is a jump to itself: the way in which a
    /// program says that it is done.
    pub fn would_halt(&self) -> (b: bool)
        ensures
            b == halted(self@),
    {
        match self.fetch() {
            Ok(word) => word == 0x1000 + self.pc,
            Err(_) => false,
        }
    }

    /// A machine's state always has the right shape.
    pub proof fn lemma_well_formed(&self)
        ensures
            self@.well_formed(),
    {
        self.mem.lemma_len();
        self.v.lemma_len();
        self.stack.lemma_bounded();
    }

    /// The fault, if any, that keeps `instr` from being executed now.
    pub fn check(&self, instr: Instr) -> (r: Result<(), Fault>)
        requires
            instr.well_formed(),
        ensures
            r is Ok <==> instr_fault(self@, instr) is None,
            r is Err ==> Some(r->Err_0) == instr_fault(self@, instr),
    {
        match instr {
            Instr::Return => if self.stack.len() == 0 {
                Err(Fault::StackUnderflow)
            } else {
                Ok(())
            },
            Instr::Call { .. } => if self.stack.len() >= crate::stack::CAPACITY {
                Err(Fault::StackOverflow)
            } else {
                Ok(())
            },
            Instr::Draw { n, .. } => Mem::check_range(self.i, n as u16),
            Instr::StoreBcd { .. } => Mem::check_range(self.i, 3),
            Instr::StoreRegs { x } => Mem::check_range(self.i, x as u16 + 1),
            Instr::LoadRegs { x } => Mem::check_range(self.i, x as u16 + 1),
            _ => Ok(()),
        }
    }

    /// What `instr` asks of the outside world in the machine's present
    /// state.
    pub fn request(&self, instr: Instr) -> (req: Request)
        requires
            instr.well_formed(),
        ensures
            req == request(self@, instr),
    {
        match instr {
            Instr::ClearScreen => Request::ClearScreen,
            Instr::Random { .. } => Request::RandomByte,
            Instr::Draw { x, y, n } => Request::DrawSprite {
                origin: sprite_origin(self.v.get(x), self.v.get(y)),
                start: self.i,
                rows: n,
            },
            Instr::SkipKey { x } => Request::KeyPressed { key: self.v.get(x) },
            Instr::SkipNotKey { x } => Request::KeyPressed { key: self.v.get(x) },
            Instr::ReadDelay { .. } => Request::ReadDelay,
            Instr::WaitKey { .. } => Request::WaitKey,
            Instr::WriteDelay { x } => Request::WriteDelay { value: self.v.get(x) },
            Instr::WriteSound { x } => Request::WriteSound { value: self.v.get(x) },
            _ => Request::Nothing,
        }
    }

    /// Fetches and decodes the next instruction and tells what it asks of the
    /// outside world, or reports the fault that the step would end in. The
    /// machine is left as it was.
    pub fn next(&self) -> (r: Result<(Instr, Request), Fault>)
        ensures
            r is Ok <==> fault(self@) is None,
            r is Err ==> Some(r->Err_0) == fault(self@),
            r is Ok ==> decoded(fetched(self@)) == Some(r->Ok_0.0) && r->Ok_0.0.well_formed()
                && r->Ok_0.1 == request(self@, r->Ok_0.0),
    {
        let word = match self.fetch() {
            Ok(word) => word,
            Err(f) => {
                return Err(f);
            },
        };
        let instr = match decode(word) {
            Some(instr) => instr,
            None => {
                return Err(Fault::DecodeError { word, pc: self.pc });
            },
        };
        match self.check(instr) {
            Ok(()) => {},
            Err(f) => {
                return Err(f);
            },
        }
        Ok((instr, self.request(instr)))
    }

    /// Executes `instr`, where the outside world answered the instruction's
    /// request with `reply`: the program counter moves past the instruction,
    /// then the instruction takes effect. An instruction that cannot be
    /// executed leaves the machine as it was.
    pub fn execute(&mut self, instr: Instr, reply: Reply) -> (r: Result<(), Fault>)
        requires
            instr.well_formed(),
        ensures
            r is Ok <==> instr_fault(old(self)@, instr) is None,
            r is Ok ==> final(self)@ == executed(old(self)@, instr, reply),
            r is Err ==> Some(r->Err_0) == instr_fault(old(self)@, instr),
            r is Err ==> final(self)@ == old(self)@,
    {
        match self.check(instr) {
            Ok(()) => {},
            Err(f) => {
                return Err(f);
            },
        }
        match instr {
            Instr::ClearScreen
            | Instr::Return
            | Instr::Jump { .. }
            | Instr::Call { .. }
            | Instr::SkipEqImm { .. }
            | Instr::SkipNeImm { .. }
            | Instr::SkipEqReg { .. }
            | Instr::SkipNeReg { .. }
            | Instr::JumpOffset { .. }
            | Instr::SkipKey { .. }
            | Instr::SkipNotKey { .. }
            | Instr::WriteDelay { .. }
            | Instr::WriteSound { .. } => self.execute_flow(instr, reply),
            Instr::StoreBcd { .. }
            | Instr::StoreRegs { .. }
            | Instr::LoadRegs { .. }
            | Instr::LoadIndex { .. }
            | Instr::AddIndex { .. }
            | Instr::LoadGlyph { .. } => self.execute_memory(instr, reply),
            _ => self.execute_register(instr, reply),
        }
        Ok(())
    }

    /// Hands `req` to the outside world and returns its answer. The machine
    /// itself is left as it was.
    fn perform(&mut self, req: Request) -> (reply: Reply)
        requires
            req matches Request::DrawSprite { start, rows, .. } ==> start + rows <= Mem::LEN,
        ensures
            answers(req, reply),
            final(self)@ == old(self)@,
    {
        match req {
            Request::Nothing => Reply::Nothing,
            Request::ClearScreen => {
                self.io.clear_screen();
                Reply::Nothing
            },
            Request::RandomByte => Reply::Byte(self.io.get_random_byte()),
            Request::DrawSprite { origin, start, rows } => {
                let sprite = self.mem.slice(start, rows as u16);
                match self.io.draw_sprite(origin, sprite) {
                    DrawSprite::Collision => Reply::Flag(true),
                    DrawSprite::NoCollision => Reply::Flag(false),
                }
            },
            Request::KeyPressed { key } => Reply::Flag(self.io.is_key_pressed(key)),
            Request::WaitKey => Reply::Byte(self.io.blocking_get_key()),
            Request::ReadDelay => Reply::Byte(self.io.read_delay_timer()),
            Request::WriteDelay { value } => {
                self.io.write_delay_timer(value);
                Reply::Nothing
            },
            Request::WriteSound { value } => {
                self.io.write_sound_timer(value);
                Reply::Nothing
            },
        }
    }

    /// Executes one instruction: fetches the word at the program counter,
    /// decodes it, asks the outside world for what the instruction needs and
    /// lets the instruction take effect. A fault is found before anything is
    /// asked or changed.
    pub fn step(&mut self) -> (r: Result<(), Fault>)
        ensures
            r is Ok <==> fault(old(self)@) is None,
            r is Ok ==> steps_to(old(self)@, final(self)@),
            r is Err ==> Some(r->Err_0) == fault(old(self)@),
            r is Err ==> final(self)@ == old(self)@,
    {
        let (instr, req) = match self.next() {
            Ok(found) => found,
            Err(f) => {
                return Err(f);
            },
        };
        let reply = self.perform(req);
        proof {
            reveal(steps_to);
        }
        self.execute(instr, reply)
    }

    /// Executes instructions until the program is done, a fault is met or
    /// `budget` instructions were executed, whichever comes first. After each
    /// instruction the outside world is given its turn. Tells whether the
    /// program is done.
    pub fn run(&mut self, budget: u64) -> (r: Result<bool, Fault>)
        ensures
            run_ends(old(self)@, budget, final(self)@, r),
    {
        let mut steps: u64 = 0;
        let ghost mut trace: Seq<State> = seq![self@];
        proof {
            lemma_run_starts(self@);
        }
        while steps < budget
            invariant
                steps <= budget,
                is_run(trace),
                trace.len() == steps + 1,
                trace.first() == old(self)@,
                trace.last() == self@,
            decreases budget - steps,
        {
            if self.would_halt() {
                assert(runs_to(old(self)@, self@, steps as nat));
                return Ok(true);
            }
            match self.step() {
                Ok(()) => {},
                Err(f) => {
                    assert(runs_to(old(self)@, self@, steps as nat));
                    return Err(f);
                },
            }
            self.io.update();
            steps = steps + 1;
            proof {
                lemma_run_extends(trace, self@);
                trace = trace.push(self@);
            }
        }
        assert(runs_to(old(self)@, self@, steps as nat));
        Ok(self.would_halt())
    }

    /// The instructions that change nothing but the program counter and the
    /// stack.
    fn execute_flow(&mut self, instr: Instr, reply: Reply)
        requires
            instr.well_formed(),
            instr_fault(old(self)@, instr) is None,
            instr is ClearScreen || instr is Return || instr is Jump || instr is Call
                || instr is SkipEqImm || instr is SkipNeImm || instr is SkipEqReg
                || instr is SkipNeReg || instr is JumpOffset || instr is SkipKey
                || instr is SkipNotKey || instr is WriteDelay || instr is WriteSound,
        ensures
            final(self)@ == executed(old(self)@, instr, reply),
    {
        proof {
            self.lemma_well_formed();
        }
        let next = self.pc.wrapping_add(2);
        let skip = next.wrapping_add(2);
        let flag = match reply {
            Reply::Flag(f) => f,
            _ => false,
        };
        self.pc = next;
        match instr {
            Instr::Return => {
                match self.stack.pop() {
                    Ok(addr) => {
                        self.pc = addr;
                    },
                    Err(_) => {},
                }
            },
            Instr::Jump { addr } => {
                self.pc = addr;
            },
            Instr::Call { addr } => {
                match self.stack.push(next) {
                    Ok(()) => {
                        self.pc = addr;
                    },
                    Err(_) => {},
                }
            },
            Instr::SkipEqImm { x, k } => {
                if self.v.get(x) == k {
                    self.pc = skip;
                }
            },
            Instr::SkipNeImm { x, k } => {
                if self.v.get(x) != k {
                    self.pc = skip;
                }
            },
            Instr::SkipEqReg { x, y } => {
                if self.v.get(x) == self.v.get(y) {
                    self.pc = skip;
                }
            },
            Instr::SkipNeReg { x, y } => {
                if self.v.get(x) != self.v.get(y) {
                    self.pc = skip;
                }
            },
            Instr::JumpOffset { addr } => {
                self.pc = addr + self.v.get(0) as u16;
            },
            Instr::SkipKey { .. } => {
                if flag {
                    self.pc = skip;
                }
            },
            Instr::SkipNotKey { .. } => {
                if !flag {
                    self.pc = skip;
                }
            },
            _ => {},
        }
    }

    /// The instructions that store into the general registers.
    fn execute_register(&mut self, instr: Instr, reply: Reply)
        requires
            instr.well_formed(),
            instr is LoadImm || instr is AddImm || instr is Move || instr is Or || instr is And
                || instr is Xor || instr is Add || instr is Sub || instr is SubFrom
                || instr is ShiftRight || instr is ShiftLeft || instr is Random || instr is Draw
                || instr is ReadDelay || instr is WaitKey,
        ensures
            final(self)@ == executed(old(self)@, instr, reply),
    {
        proof {
            self.lemma_well_formed();
        }
        let byte = match reply {
            Reply::Byte(b) => b,
            _ => 0,
        };
        let flag = match reply {
            Reply::Flag(f) => f,
            _ => false,
        };
        self.pc = self.pc.wrapping_add(2);
        match instr {
            Instr::LoadImm { x, k } => {
                self.v.set(x, k);
            },
            Instr::AddImm { x, k } => {
                let sum = self.v.get(x).wrapping_add(k);
                self.v.set(x, sum);
            },
            Instr::Move { x, y } => {
                let value = self.v.get(y);
                self.v.set(x, value);
            },
            Instr::Or { x, y }
            | Instr::And { x, y }
            | Instr::Xor { x, y }
            | Instr::Add { x, y }
            | Instr::Sub { x, y }
            | Instr::SubFrom { x, y }
            | Instr::ShiftRight { x, y }
            | Instr::ShiftLeft { x, y } => {
                let (value, flag) = combine(instr, self.v.get(x), self.v.get(y));
                self.v.set(x, value);
                self.v.set(FLAG, flag);
            },
            Instr::Random { x, k } => {
                self.v.set(x, byte & k);
            },
            Instr::Draw { .. } => {
                self.v.set(FLAG, if flag { 1 } else { 0 });
            },
            Instr::ReadDelay { x } => {
                self.v.set(x, byte);
            },
            Instr::WaitKey { x } => {
                self.v.set(x, byte);
            },
            _ => {},
        }
    }

    /// The instructions that work on the index register and on the memory
    /// that it points to.
    fn execute_memory(&mut self, instr: Instr, reply: Reply)
        requires
            instr.well_formed(),
            instr_fault(old(self)@, instr) is None,
            instr is StoreBcd || instr is StoreRegs || instr is LoadRegs || instr is LoadIndex
                || instr is AddIndex || instr is LoadGlyph,
        ensures
            final(self)@ == executed(old(self)@, instr, reply),
    {
        proof {
            self.lemma_well_formed();
        }
        self.pc = self.pc.wrapping_add(2);
        match instr {
            Instr::LoadIndex { addr } => {
                self.i = addr;
            },
            Instr::AddIndex { x } => {
                self.i = self.i.wrapping_add(self.v.get(x) as u16);
            },
            Instr::LoadGlyph { x } => {
                self.i = Mem::sprite_offset(self.v.get(x));
            },
            Instr::StoreBcd { x } => {
                let digits = bcd_from_u8(self.v.get(x));
                self.mem.set(self.i, digits[0]);
                self.mem.set(self.i + 1, digits[1]);
                self.mem.set(self.i + 2, digits[2]);
            },
            Instr::StoreRegs { x } => {
                self.store_registers(x);
            },
            Instr::LoadRegs { x } => {
                self.load_registers(x);
            },
            _ => {},
        }
    }

    /// Copies `V0..=Vx` to memory, from the address in `I` on.
    fn store_registers(&mut self, x: u8)
        requires
            x < 16,
            old(self)@.i + x < Mem::LEN,
        ensures
            final(self)@ == (State {
                mem: Seq::new(
                    old(self)@.mem.len(),
                    |a: int|
                        if old(self)@.i <= a <= old(self)@.i + x {
                            old(self)@.v[a - old(self)@.i]
                        } else {
                            old(self)@.mem[a]
                        },
                ),
                ..old(self)@
            }),
    {
        proof {
            self.lemma_well_formed();
        }
        let ghost before = self@;
        let mut reg: u8 = 0;
        while reg <= x
            invariant
                x < 16,
                reg <= x + 1,
                self.i + x < Mem::LEN,
                before.well_formed(),
                self@.pc == before.pc,
                self@.i == before.i,
                self@.stack == before.stack,
                self@.v == before.v,
                self@.mem =~= Seq::new(
                    before.mem.len(),
                    |a: int|
                        if before.i <= a < before.i + reg {
                            before.v[a - before.i]
                        } else {
                            before.mem[a]
                        },
                ),
            decreases x + 1 - reg,
        {
            self.mem.set(self.i + reg as u16, self.v.get(reg));
            reg = reg + 1;
        }
        assert(self@.mem =~= Seq::new(
            before.mem.len(),
            |a: int|
                if before.i <= a <= before.i + x {
                    before.v[a - before.i]
                } else {
                    before.mem[a]
                },
        ));
    }

    /// Copies memory, from the address in `I` on, to `V0..=Vx`.
    fn load_registers(&mut self, x: u8)
        requires
            x < 16,
            old(self)@.i + x < Mem::LEN,
        ensures
            final(self)@ == (State {
                v: Seq::new(
                    old(self)@.v.len(),
                    |r: int|
                        if r <= x {
                            old(self)@.mem[old(self)@.i + r]
                        } else {
                            old(self)@.v[r]
                        },
                ),
                ..old(self)@
            }),
    {
        proof {
            self.lemma_well_formed();
        }
        let ghost before = self@;
        let mut reg: u8 = 0;
        while reg <= x
            invariant
                x < 16,
                reg <= x + 1,
                self.i + x < Mem::LEN,
                before.well_formed(),
                self@.pc == before.pc,
                self@.i == before.i,
                self@.stack == before.stack,
                self@.mem == before.mem,
                self@.v =~= Seq::new(
                    before.v.len(),
                    |r: int| if r < reg { before.mem[before.i + r] } else { before.v[r] },
                ),
            decreases x + 1 - reg,
        {
            self.v.set(reg, self.mem.get(self.i + reg as u16));
            reg = reg + 1;
        }
        assert(self@.v =~= Seq::new(
            before.v.len(),
            |r: int| if r <= x { before.mem[before.i + r] } else { before.v[r] },
        ));
    }
}

/// What an instruction that combines two registers makes of `a`, the value of
/// `Vx`, and `b`, the value of `Vy`: the new value of `Vx` and the flag.
pub fn combine(instr: Instr, a: u8, b: u8) -> (r: (u8, u8))
    ensures
        r == combined(instr, a, b),
{
    match instr {
        Instr::Or { .. } => (a | b, 0),
        Instr::And { .. } => (a & b, 0),
        Instr::Xor { .. } => (a ^ b, 0),
        Instr::Add { .. } => (a.wrapping_add(b), if a as u16 + b as u16 > 0xff { 1 } else { 0 }),
        Instr::Sub { .. } => (a.wrapping_sub(b), if a >= b { 1 } else { 0 }),
        Instr::SubFrom { .. } => (b.wrapping_sub(a), if b >= a { 1 } else { 0 }),
        Instr::ShiftRight { .. } => (b / 2, b % 2),
        Instr::ShiftLeft { .. } => ((b % 0x80) * 2, b / 0x80),
        _ => (a, 0),
    }
}

/// The byte `b` read as a signed number in two's complement.
pub fn signed(b: u8) -> (v: i8)
    ensures
        v == b as i8,
        v == if b < 128 { b as int } else { b - 256 },
{
    assert(b as i8 == if b < 128 { b as int } else { b - 256 }) by (bit_vector);
    if b < 128 {
        b as i8
    } else {
        (b as i16 - 256) as i8
    }
}

/// The point on the display at which a sprite drawn at `(vx, vy)` has its top
/// left corner: the two bytes are read as signed coordinates and wrapped
/// around the display's edges.
pub fn sprite_origin(vx: u8, vy: u8) -> (p: Point)
    ensures
        p == origin(vx, vy),
        p == wrapped(Point { x: vx as i8, y: vy as i8 }),
{
    Point::new(signed(vx), signed(vy)).wrap()
}

} // verus!
