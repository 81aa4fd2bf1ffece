//! The machine as mathematics: its state, and what one instruction makes of
//! a state. The interpreter is verified against these definitions.

use vstd::prelude::*;
use crate::fault::Fault;
use crate::instr::{bcd, decoded, Instr};
use crate::io::{answers, Reply, Request};
use crate::mem::{image, range_fault, Mem};
use crate::screen::{on_grid, wrapped, Point};
use crate::stack::CAPACITY;

verus! {

/// The state of the machine.
pub struct State {
    /// The program counter: the address of the next instruction.
    pub pc: u16,
    /// The index register `I`.
    pub i: u16,
    /// The return addresses of the subroutines that are running, the most
    /// recent last.
    pub stack: Seq<u16>,
    /// The sixteen general registers.
    pub v: Seq<u8>,
    /// The 4096 bytes of memory.
    pub mem: Seq<u8>,
}

impl State {
    /// Whether the state has sixteen registers, 4096 bytes of memory and a
    /// stack within its capacity.
    pub open spec fn well_formed(self) -> bool {
        &&& self.v.len() == 16
        &&& self.mem.len() == Mem::LEN
        &&& self.stack.len() <= CAPACITY
    }
}

/// The state in which a machine starts when `rom` was loaded: the program
/// counter at the start of the program, everything else zero or empty.
pub open spec fn initial(rom: Seq<u8>) -> State {
    State {
        pc: Mem::ROM_START,
        i: 0,
        stack: Seq::empty(),
        v: Seq::new(16, |x: int| 0u8),
        mem: image(rom),
    }
}

/// The address that follows `pc` by one instruction. Addresses have 16 bits.
pub open spec fn after(pc: u16) -> u16 {
    ((pc + 2) % 0x1_0000) as u16
}

/// The big-endian word that the two bytes at `addr` make.
pub open spec fn word_at(mem: Seq<u8>, addr: int) -> u16 {
    (mem[addr] * 0x100 + mem[addr + 1]) as u16
}

/// The word at the program counter.
pub open spec fn fetched(s: State) -> u16 {
    word_at(s.mem, s.pc as int)
}

/// The point on the display at which a sprite drawn at `(vx, vy)` has its
/// top left corner: each coordinate wraps around the display's edges.
pub open spec fn origin(vx: u8, vy: u8) -> Point {
    Point { x: (vx % 64) as i8, y: (vy % 32) as i8 }
}

/// The fault, if any, that keeps `instr` from being executed in state `s`.
pub open spec fn instr_fault(s: State, instr: Instr) -> Option<Fault> {
    match instr {
        Instr::Return => if s.stack.len() == 0 {
            Some(Fault::StackUnderflow)
        } else {
            None
        },
        Instr::Call { .. } => if s.stack.len() >= CAPACITY {
            Some(Fault::StackOverflow)
        } else {
            None
        },
        Instr::Draw { n, .. } => range_fault(s.i as int, n as int),
        Instr::StoreBcd { .. } => range_fault(s.i as int, 3),
        Instr::StoreRegs { x } | Instr::LoadRegs { x } => range_fault(s.i as int, x + 1),
        _ => None,
    }
}

/// The fault, if any, that a step from state `s` ends in: the program
/// counter points outside memory, the word there is no instruction, or the
/// instruction cannot be executed.
pub open spec fn fault(s: State) -> Option<Fault> {
    if range_fault(s.pc as int, 2) is Some {
        range_fault(s.pc as int, 2)
    } else {
        match decoded(fetched(s)) {
            None => Some(Fault::DecodeError { word: fetched(s), pc: s.pc }),
            Some(instr) => instr_fault(s, instr),
        }
    }
}

/// What `instr` asks of the outside world in state `s`.
pub open spec fn request(s: State, instr: Instr) -> Request {
    match instr {
        Instr::ClearScreen => Request::ClearScreen,
        Instr::Random { .. } => Request::RandomByte,
        Instr::Draw { x, y, n } => Request::DrawSprite {
            origin: origin(s.v[x as int], s.v[y as int]),
            start: s.i,
            rows: n,
        },
        Instr::SkipKey { x } | Instr::SkipNotKey { x } => Request::KeyPressed {
            key: s.v[x as int],
        },
        Instr::ReadDelay { .. } => Request::ReadDelay,
        Instr::WaitKey { .. } => Request::WaitKey,
        Instr::WriteDelay { x } => Request::WriteDelay { value: s.v[x as int] },
        Instr::WriteSound { x } => Request::WriteSound { value: s.v[x as int] },
        _ => Request::Nothing,
    }
}

/// The registers after an instruction that stores `value` in `Vx` and then
/// `flag` in `VF`.
pub open spec fn with_flag(v: Seq<u8>, x: u8, value: u8, flag: u8) -> Seq<u8> {
    v.update(x as int, value).update(0xf, flag)
}

/// One or zero.
pub open spec fn bit(b: bool) -> u8 {
    if b {
        1
    } else {
        0
    }
}

/// What an instruction that combines two registers makes of `a`, the value of
/// `Vx`, and `b`, the value of `Vy`: the value that it stores in `Vx`, and
/// the flag that it then stores in `VF`.
///
/// The logical operations reset the flag. Addition sets it on a carry, the
/// two subtractions set it where nothing was borrowed, and the shifts, which
/// shift `b` and not `a`, set it to the bit that was shifted out.
pub open spec fn combined(instr: Instr, a: u8, b: u8) -> (u8, u8) {
    match instr {
        Instr::Or { .. } => (a | b, 0),
        Instr::And { .. } => (a & b, 0),
        Instr::Xor { .. } => (a ^ b, 0),
        Instr::Add { .. } => (((a + b) % 0x100) as u8, bit(a + b >= 0x100)),
        Instr::Sub { .. } => (((a - b) % 0x100) as u8, bit(a >= b)),
        Instr::SubFrom { .. } => (((b - a) % 0x100) as u8, bit(b >= a)),
        Instr::ShiftRight { .. } => (b / 2, b % 2),
        Instr::ShiftLeft { .. } => (((b * 2) % 0x100) as u8, b / 0x80),
        _ => (a, 0),
    }
}

/// The state after `instr` was executed in state `s`, where the outside
/// world answered the instruction's request with `reply`. The program counter
/// moves past the instruction before the instruction takes effect.
pub open spec fn executed(s: State, instr: Instr, reply: Reply) -> State {
    let next = after(s.pc);
    let skip = after(next);
    let t = State { pc: next, ..s };
    match instr {
        Instr::ClearScreen => t,
        Instr::Return => State { pc: s.stack.last(), stack: s.stack.drop_last(), ..s },
        Instr::Jump { addr } => State { pc: addr, ..s },
        Instr::Call { addr } => State { pc: addr, stack: s.stack.push(next), ..s },
        Instr::SkipEqImm { x, k } => State { pc: if s.v[x as int] == k { skip } else { next }, ..s },
        Instr::SkipNeImm { x, k } => State { pc: if s.v[x as int] != k { skip } else { next }, ..s },
        Instr::SkipEqReg { x, y } => State {
            pc: if s.v[x as int] == s.v[y as int] { skip } else { next },
            ..s
        },
        Instr::SkipNeReg { x, y } => State {
            pc: if s.v[x as int] != s.v[y as int] { skip } else { next },
            ..s
        },
        Instr::LoadImm { x, k } => State { v: s.v.update(x as int, k), ..t },
        Instr::AddImm { x, k } => State {
            v: s.v.update(x as int, ((s.v[x as int] + k) % 0x100) as u8),
            ..t
        },
        Instr::Move { x, y } => State { v: s.v.update(x as int, s.v[y as int]), ..t },
        Instr::Or { x, y }
        | Instr::And { x, y }
        | Instr::Xor { x, y }
        | Instr::Add { x, y }
        | Instr::Sub { x, y }
        | Instr::SubFrom { x, y }
        | Instr::ShiftRight { x, y }
        | Instr::ShiftLeft { x, y } => State {
            v: with_flag(
                s.v,
                x,
                combined(instr, s.v[x as int], s.v[y as int]).0,
                combined(instr, s.v[x as int], s.v[y as int]).1,
            ),
            ..t
        },
        Instr::LoadIndex { addr } => State { i: addr, ..t },
        Instr::JumpOffset { addr } => State { pc: ((addr + s.v[0]) % 0x1_0000) as u16, ..s },
        Instr::Random { x, k } => State { v: s.v.update(x as int, reply.byte() & k), ..t },
        Instr::Draw { .. } => State { v: s.v.update(0xf, bit(reply.flag())), ..t },
        Instr::SkipKey { .. } => State { pc: if reply.flag() { skip } else { next }, ..s },
        Instr::SkipNotKey { .. } => State { pc: if !reply.flag() { skip } else { next }, ..s },
        Instr::ReadDelay { x } | Instr::WaitKey { x } => State {
            v: s.v.update(x as int, reply.byte()),
            ..t
        },
        Instr::WriteDelay { .. } | Instr::WriteSound { .. } => t,
        Instr::AddIndex { x } => State { i: ((s.i + s.v[x as int]) % 0x1_0000) as u16, ..t },
        Instr::LoadGlyph { x } => State { i: (5 * s.v[x as int]) as u16, ..t },
        Instr::StoreBcd { x } => State {
            mem: s.mem.update(s.i as int, bcd(s.v[x as int])[0]).update(
                s.i + 1,
                bcd(s.v[x as int])[1],
            ).update(s.i + 2, bcd(s.v[x as int])[2]),
            ..t
        },
        Instr::StoreRegs { x } => State {
            mem: Seq::new(
                s.mem.len(),
                |a: int| if s.i <= a <= s.i + x { s.v[a - s.i] } else { s.mem[a] },
            ),
            ..t
        },
        Instr::LoadRegs { x } => State {
            v: Seq::new(s.v.len(), |r: int| if r <= x { s.mem[s.i + r] } else { s.v[r] }),
            ..t
        },
    }
}

/// Whether the instruction at the program counter is a jump to itself, by
/// which a program says that it is done.
pub open spec fn halted(s: State) -> bool {
    range_fault(s.pc as int, 2) is None && fetched(s) == 0x1000 + s.pc
}

/// Whether one step can lead from state `s` to state `t`: no fault stands in
/// the way, and `t` is what the instruction at the program counter makes of
/// `s` for some answer of the outside world that fits the instruction's
/// request. Where the instruction asks for no value, `t` is determined.
#[verifier::opaque]
pub open spec fn steps_to(s: State, t: State) -> bool {
    &&& fault(s) is None
    &&& exists|reply: Reply| #[trigger]
        answers(request(s, decoded(fetched(s))->Some_0), reply) && t == executed(
            s,
            decoded(fetched(s))->Some_0,
            reply,
        )
}

/// Whether `trace` is a run of the machine: each of its states but the last
/// is one in which the program is not done, and one step leads from it to the
/// state that follows.
pub open spec fn is_run(trace: Seq<State>) -> bool {
    &&& trace.len() > 0
    &&& forall|k: int|
        0 <= k < trace.len() - 1 ==> !halted(#[trigger] trace[k]) && steps_to(
            trace[k],
            trace[k + 1],
        )
}

/// Whether `n` steps can lead from state `s` to state `t`, none of them taken
/// from a state in which the program is done.
pub open spec fn runs_to(s: State, t: State, n: nat) -> bool {
    exists|trace: Seq<State>|
        is_run(trace) && trace.len() == n + 1 && trace.first() == s && trace.last() == t
}

/// Whether a run of at most `budget` steps from state `s` can end in state
/// `t` with result `r`. The run ends with `Ok(true)` in a state in which the
/// program is done, with `Ok(false)` after `budget` steps in a state in which
/// it is not, and with a fault in the state in which the next step meets it.
pub open spec fn run_ends(s: State, budget: u64, t: State, r: Result<bool, Fault>) -> bool {
    exists|n: nat| #[trigger]
        runs_to(s, t, n) && n <= budget && match r {
            Ok(done) => done == halted(t) && (done || n == budget),
            Err(f) => !halted(t) && fault(t) == Some(f) && n < budget,
        }
}

/// A run that one more step continues is a run of one step more.
pub proof fn lemma_run_extends(trace: Seq<State>, t: State)
    requires
        is_run(trace),
        !halted(trace.last()),
        steps_to(trace.last(), t),
    ensures
        is_run(trace.push(t)),
{
}

/// A run of no step leads from a state to itself.
pub proof fn lemma_run_starts(s: State)
    ensures
        is_run(seq![s]),
        runs_to(s, s, 0),
{
    assert(seq![s].len() == 1);
    assert(is_run(seq![s]) && seq![s].len() == 0 + 1 && seq![s].first() == s && seq![s].last()
        == s);
}

/// The logical operations store their result in `Vx` and leave zero in the
/// flag register, whatever the registers held before.
pub proof fn lemma_logic_resets_flag(s: State, x: u8, y: u8, reply: Reply)
    requires
        s.well_formed(),
        x < 16,
        y < 16,
    ensures
        executed(s, Instr::Or { x, y }, reply).v[0xf] == 0,
        executed(s, Instr::And { x, y }, reply).v[0xf] == 0,
        executed(s, Instr::Xor { x, y }, reply).v[0xf] == 0,
        x != 0xf ==> executed(s, Instr::Or { x, y }, reply).v[x as int] == s.v[x as int]
            | s.v[y as int],
        x != 0xf ==> executed(s, Instr::And { x, y }, reply).v[x as int] == s.v[x as int]
            & s.v[y as int],
        x != 0xf ==> executed(s, Instr::Xor { x, y }, reply).v[x as int] == s.v[x as int]
            ^ s.v[y as int],
{
}

/// Addition wraps modulo 256, and the flag register holds one exactly when
/// the sum of the two registers does not fit into a byte, else zero.
pub proof fn lemma_add_sets_carry(s: State, x: u8, y: u8, reply: Reply)
    requires
        s.well_formed(),
        x < 16,
        y < 16,
    ensures
        executed(s, Instr::Add { x, y }, reply).v[0xf] == 1 <==> s.v[x as int] + s.v[y as int]
            >= 256,
        executed(s, Instr::Add { x, y }, reply).v[0xf] == 0 <==> s.v[x as int] + s.v[y as int]
            < 256,
        x != 0xf ==> executed(s, Instr::Add { x, y }, reply).v[x as int] == (s.v[x as int]
            + s.v[y as int]) % 256,
{
}

/// Subtraction wraps modulo 256, and the flag register holds one exactly
/// when nothing was borrowed, that is when the register taken from was not
/// the smaller one, else zero. This holds of both directions of subtraction.
pub proof fn lemma_sub_sets_no_borrow(s: State, x: u8, y: u8, reply: Reply)
    requires
        s.well_formed(),
        x < 16,
        y < 16,
    ensures
        executed(s, Instr::Sub { x, y }, reply).v[0xf] == 1 <==> s.v[x as int] >= s.v[y as int],
        executed(s, Instr::Sub { x, y }, reply).v[0xf] == 0 <==> s.v[x as int] < s.v[y as int],
        x != 0xf ==> executed(s, Instr::Sub { x, y }, reply).v[x as int] == (s.v[x as int]
            - s.v[y as int]) % 256,
        executed(s, Instr::SubFrom { x, y }, reply).v[0xf] == 1 <==> s.v[y as int]
            >= s.v[x as int],
        executed(s, Instr::SubFrom { x, y }, reply).v[0xf] == 0 <==> s.v[y as int]
            < s.v[x as int],
        x != 0xf ==> executed(s, Instr::SubFrom { x, y }, reply).v[x as int] == (s.v[y as int]
            - s.v[x as int]) % 256,
{
}

/// The shifts take their operand from `Vy`, not from `Vx`. The flag register
/// holds the bit that was shifted out: the lowest bit of `Vy` for the shift
/// to the right, its highest bit for the shift to the left.
pub proof fn lemma_shift_reads_vy(s: State, x: u8, y: u8, reply: Reply)
    requires
        s.well_formed(),
        x < 16,
        y < 16,
    ensures
        executed(s, Instr::ShiftRight { x, y }, reply).v[0xf] == s.v[y as int] & 1,
        x != 0xf ==> executed(s, Instr::ShiftRight { x, y }, reply).v[x as int] == s.v[y as int]
            >> 1,
        executed(s, Instr::ShiftLeft { x, y }, reply).v[0xf] == (s.v[y as int] >> 7) & 1,
        x != 0xf ==> executed(s, Instr::ShiftLeft { x, y }, reply).v[x as int] == s.v[y as int]
            << 1,
{
    let b = s.v[y as int];
    assert(b / 2 == b >> 1 && b % 2 == b & 1) by (bit_vector);
    assert(b / 0x80 == (b >> 7) & 1) by (bit_vector);
    assert(((b * 2) % 0x100) as u8 == b << 1) by (bit_vector);
}

/// Every step keeps the shape of the state: sixteen registers, 4096 bytes of
/// memory, a stack within its capacity.
pub proof fn lemma_executed_well_formed(s: State, instr: Instr, reply: Reply)
    requires
        s.well_formed(),
        instr.well_formed(),
        instr_fault(s, instr) is None,
    ensures
        executed(s, instr, reply).well_formed(),
{
}

/// A program that is done meets no fault, and the step that it could take
/// leads back to the same state.
pub proof fn lemma_halted_is_fixed(s: State, reply: Reply)
    requires
        s.well_formed(),
        halted(s),
    ensures
        fault(s) is None,
        decoded(fetched(s)) == Some(Instr::Jump { addr: s.pc }),
        executed(s, Instr::Jump { addr: s.pc }, reply) == s,
{
}

/// Where the instruction at the program counter asks the outside world for no
/// value, one step leads to one state only: the outside world decides
/// nothing.
pub proof fn lemma_step_determined(s: State, t: State, u: State)
    requires
        steps_to(s, t),
        steps_to(s, u),
        answers(request(s, decoded(fetched(s))->Some_0), Reply::Nothing),
    ensures
        t == u,
        t == executed(s, decoded(fetched(s))->Some_0, Reply::Nothing),
{
    reveal(steps_to);
}

/// The origin of a sprite is the point on the display to which the two
/// register values, read as signed coordinates, wrap. Register values that
/// differ by a multiple of the display's width or height give one origin:
/// a sprite at column -4 is a sprite at column 60.
pub proof fn lemma_origin_wraps(vx: u8, vy: u8)
    ensures
        origin(vx, vy) == wrapped(Point { x: vx as i8, y: vy as i8 }),
        on_grid(origin(vx, vy).x as int, origin(vx, vy).y as int),
        forall|wx: u8, wy: u8|
            (vx - wx) % 64 == 0 && (vy - wy) % 32 == 0 ==> #[trigger] origin(wx, wy) == origin(
                vx,
                vy,
            ),
{
    assert(vx as i8 == if vx < 128 { vx as int } else { vx - 256 }) by (bit_vector);
    assert(vy as i8 == if vy < 128 { vy as int } else { vy - 256 }) by (bit_vector);
}

} // verus!
