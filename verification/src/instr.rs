//! The instruction set: what each 16-bit word of a program means.

use vstd::prelude::*;

verus! {

/// One instruction of the machine. `x` and `y` name registers, `k` is an
/// immediate byte, `n` a nibble and `addr` a 12-bit address.
#[derive(Debug, Clone, Copy, PartialEq, Eq, Structural)]
pub enum Instr {
    /// `00E0`: unset every pixel of the display.
    ClearScreen,
    /// `00EE`: return from a subroutine.
    Return,
    /// `1nnn`: jump to `addr`.
    Jump { addr: u16 },
    /// `2nnn`: call the subroutine at `addr`.
    Call { addr: u16 },
    /// `3xkk`: skip the next instruction if `Vx == k`.
    SkipEqImm { x: u8, k: u8 },
    /// `4xkk`: skip the next instruction if `Vx != k`.
    SkipNeImm { x: u8, k: u8 },
    /// `5xy0`: skip the next instruction if `Vx == Vy`.
    SkipEqReg { x: u8, y: u8 },
    /// `6xkk`: `Vx = k`.
    LoadImm { x: u8, k: u8 },
    /// `7xkk`: `Vx = Vx + k`, wrapping, flag untouched.
    AddImm { x: u8, k: u8 },
    /// `8xy0`: `Vx = Vy`.
    Move { x: u8, y: u8 },
    /// `8xy1`: `Vx = Vx | Vy`, `VF = 0`.
    Or { x: u8, y: u8 },
    /// `8xy2`: `Vx = Vx & Vy`, `VF = 0`.
    And { x: u8, y: u8 },
    /// `8xy3`: `Vx = Vx ^ Vy`, `VF = 0`.
    Xor { x: u8, y: u8 },
    /// `8xy4`: `Vx = Vx + Vy`, wrapping, `VF` = carry.
    Add { x: u8, y: u8 },
    /// `8xy5`: `Vx = Vx - Vy`, wrapping, `VF` = no borrow.
    Sub { x: u8, y: u8 },
    /// `8xy6`: `Vx = Vy >> 1`, `VF` = the bit shifted out.
    ShiftRight { x: u8, y: u8 },
    /// `8xy7`: `Vx = Vy - Vx`, wrapping, `VF` = no borrow.
    SubFrom { x: u8, y: u8 },
    /// `8xyE`: `Vx = Vy << 1`, `VF` = the bit shifted out.
    ShiftLeft { x: u8, y: u8 },
    /// `9xy0`: skip the next instruction if `Vx != Vy`.
    SkipNeReg { x: u8, y: u8 },
    /// `Annn`: `I = addr`.
    LoadIndex { addr: u16 },
    /// `Bnnn`: jump to `addr + V0`.
    JumpOffset { addr: u16 },
    /// `Cxkk`: `Vx` = a random byte masked with `k`.
    Random { x: u8, k: u8 },
    /// `Dxyn`: draw the `n` rows at `I` as a sprite at `(Vx, Vy)`, `VF` =
    /// collision.
    Draw { x: u8, y: u8, n: u8 },
    /// `Ex9E`: skip the next instruction if key `Vx` is down.
    SkipKey { x: u8 },
    /// `ExA1`: skip the next instruction if key `Vx` is not down.
    SkipNotKey { x: u8 },
    /// `Fx07`: `Vx` = the delay timer.
    ReadDelay { x: u8 },
    /// `Fx0A`: wait until a key is released, `Vx` = that key.
    WaitKey { x: u8 },
    /// `Fx15`: the delay timer = `Vx`.
    WriteDelay { x: u8 },
    /// `Fx18`: the sound timer = `Vx`.
    WriteSound { x: u8 },
    /// `Fx1E`: `I = I + Vx`.
    AddIndex { x: u8 },
    /// `Fx29`: `I` = the address of the sprite of digit `Vx`.
    LoadGlyph { x: u8 },
    /// `Fx33`: store the three decimal digits of `Vx` at `I`.
    StoreBcd { x: u8 },
    /// `Fx55`: store `V0..=Vx` at `I`.
    StoreRegs { x: u8 },
    /// `Fx65`: load `V0..=Vx` from `I`.
    LoadRegs { x: u8 },
}

impl Instr {
    /// Whether every register index and nibble is below 16 and every address
    /// below 4096, as in every instruction that a word encodes.
    pub open spec fn well_formed(self) -> bool {
        match self {
            Instr::ClearScreen | Instr::Return => true,
            Instr::Jump { addr }
            | Instr::Call { addr }
            | Instr::LoadIndex { addr }
            | Instr::JumpOffset { addr } => addr < 0x1000,
            Instr::SkipEqImm { x, .. }
            | Instr::SkipNeImm { x, .. }
            | Instr::LoadImm { x, .. }
            | Instr::AddImm { x, .. }
            | Instr::Random { x, .. }
            | Instr::SkipKey { x }
            | Instr::SkipNotKey { x }
            | Instr::ReadDelay { x }
            | Instr::WaitKey { x }
            | Instr::WriteDelay { x }
            | Instr::WriteSound { x }
            | Instr::AddIndex { x }
            | Instr::LoadGlyph { x }
            | Instr::StoreBcd { x }
            | Instr::StoreRegs { x }
            | Instr::LoadRegs { x } => x < 16,
            Instr::SkipEqReg { x, y }
            | Instr::Move { x, y }
            | Instr::Or { x, y }
            | Instr::And { x, y }
            | Instr::Xor { x, y }
            | Instr::Add { x, y }
            | Instr::Sub { x, y }
            | Instr::ShiftRight { x, y }
            | Instr::SubFrom { x, y }
            | Instr::ShiftLeft { x, y }
            | Instr::SkipNeReg { x, y } => x < 16 && y < 16,
            Instr::Draw { x, y, n } => x < 16 && y < 16 && n < 16,
        }
    }
}

/// The four nibbles of `word`, the most significant first.
pub open spec fn nibbles(word: u16) -> Seq<u8> {
    seq![
        (word / 0x1000) as u8,
        (word / 0x100 % 16) as u8,
        (word / 0x10 % 16) as u8,
        (word % 16) as u8,
    ]
}

/// The instruction that `word` encodes, if it encodes one.
pub open spec fn decoded(word: u16) -> Option<Instr> {
    let op = nibbles(word)[0];
    let x = nibbles(word)[1];
    let y = nibbles(word)[2];
    let n = nibbles(word)[3];
    let k = (word % 0x100) as u8;
    let addr = (word % 0x1000) as u16;
    if op == 0x0 {
        if word == 0x00e0 {
            Some(Instr::ClearScreen)
        } else if word == 0x00ee {
            Some(Instr::Return)
        } else {
            None
        }
    } else if op == 0x1 {
        Some(Instr::Jump { addr })
    } else if op == 0x2 {
        Some(Instr::Call { addr })
    } else if op == 0x3 {
        Some(Instr::SkipEqImm { x, k })
    } else if op == 0x4 {
        Some(Instr::SkipNeImm { x, k })
    } else if op == 0x5 {
        if n == 0 {
            Some(Instr::SkipEqReg { x, y })
        } else {
            None
        }
    } else if op == 0x6 {
        Some(Instr::LoadImm { x, k })
    } else if op == 0x7 {
        Some(Instr::AddImm { x, k })
    } else if op == 0x8 {
        if n == 0x0 {
            Some(Instr::Move { x, y })
        } else if n == 0x1 {
            Some(Instr::Or { x, y })
        } else if n == 0x2 {
            Some(Instr::And { x, y })
        } else if n == 0x3 {
            Some(Instr::Xor { x, y })
        } else if n == 0x4 {
            Some(Instr::Add { x, y })
        } else if n == 0x5 {
            Some(Instr::Sub { x, y })
        } else if n == 0x6 {
            Some(Instr::ShiftRight { x, y })
        } else if n == 0x7 {
            Some(Instr::SubFrom { x, y })
        } else if n == 0xe {
            Some(Instr::ShiftLeft { x, y })
        } else {
            None
        }
    } else if op == 0x9 {
        if n == 0 {
            Some(Instr::SkipNeReg { x, y })
        } else {
            None
        }
    } else if op == 0xa {
        Some(Instr::LoadIndex { addr })
    } else if op == 0xb {
        Some(Instr::JumpOffset { addr })
    } else if op == 0xc {
        Some(Instr::Random { x, k })
    } else if op == 0xd {
        Some(Instr::Draw { x, y, n })
    } else if op == 0xe {
        if k == 0x9e {
            Some(Instr::SkipKey { x })
        } else if k == 0xa1 {
            Some(Instr::SkipNotKey { x })
        } else {
            None
        }
    } else {
        if k == 0x07 {
            Some(Instr::ReadDelay { x })
        } else if k == 0x0a {
            Some(Instr::WaitKey { x })
        } else if k == 0x15 {
            Some(Instr::WriteDelay { x })
        } else if k == 0x18 {
            Some(Instr::WriteSound { x })
        } else if k == 0x1e {
            Some(Instr::AddIndex { x })
        } else if k == 0x29 {
            Some(Instr::LoadGlyph { x })
        } else if k == 0x33 {
            Some(Instr::StoreBcd { x })
        } else if k == 0x55 {
            Some(Instr::StoreRegs { x })
        } else if k == 0x65 {
            Some(Instr::LoadRegs { x })
        } else {
            None
        }
    }
}

/// Splits `x` into its four nibbles, the most significant first.
pub fn nibbles_from_u16(x: u16) -> (r: [u8; 4])
    ensures
        r@ == nibbles(x),
{
    let a = (x & 0xf000) >> 12;
    let b = (x & 0x0f00) >> 8;
    let c = (x & 0x00f0) >> 4;
    let d = x & 0x000f;
    assert((x & 0xf000) >> 12 == x / 0x1000) by (bit_vector);
    assert((x & 0x0f00) >> 8 == x / 0x100 % 16) by (bit_vector);
    assert((x & 0x00f0) >> 4 == x / 0x10 % 16) by (bit_vector);
    assert(x & 0x000f == x % 16) by (bit_vector);
    let r = [a as u8, b as u8, c as u8, d as u8];
    assert(r@ =~= nibbles(x));
    r
}

/// The instruction that `word` encodes, or `None` where the word is no
/// instruction of the machine.
pub fn decode(word: u16) -> (r: Option<Instr>)
    ensures
        r == decoded(word),
        r is Some ==> r->Some_0.well_formed(),
{
    let ns = nibbles_from_u16(word);
    let op = ns[0];
    let x = ns[1];
    let y = ns[2];
    let n = ns[3];
    assert(word & 0x00ff == word % 0x100) by (bit_vector);
    assert(word & 0x0fff == word % 0x1000) by (bit_vector);
    let k = (word & 0x00ff) as u8;
    let addr = word & 0x0fff;
    match op {
        0x0 => match word {
            0x00e0 => Some(Instr::ClearScreen),
            0x00ee => Some(Instr::Return),
            _ => None,
        },
        0x1 => Some(Instr::Jump { addr }),
        0x2 => Some(Instr::Call { addr }),
        0x3 => Some(Instr::SkipEqImm { x, k }),
        0x4 => Some(Instr::SkipNeImm { x, k }),
        0x5 => if n == 0 {
            Some(Instr::SkipEqReg { x, y })
        } else {
            None
        },
        0x6 => Some(Instr::LoadImm { x, k }),
        0x7 => Some(Instr::AddImm { x, k }),
        0x8 => match n {
            0x0 => Some(Instr::Move { x, y }),
            0x1 => Some(Instr::Or { x, y }),
            0x2 => Some(Instr::And { x, y }),
            0x3 => Some(Instr::Xor { x, y }),
            0x4 => Some(Instr::Add { x, y }),
            0x5 => Some(Instr::Sub { x, y }),
            0x6 => Some(Instr::ShiftRight { x, y }),
            0x7 => Some(Instr::SubFrom { x, y }),
            0xe => Some(Instr::ShiftLeft { x, y }),
            _ => None,
        },
        0x9 => if n == 0 {
            Some(Instr::SkipNeReg { x, y })
        } else {
            None
        },
        0xa => Some(Instr::LoadIndex { addr }),
        0xb => Some(Instr::JumpOffset { addr }),
        0xc => Some(Instr::Random { x, k }),
        0xd => Some(Instr::Draw { x, y, n }),
        0xe => match k {
            0x9e => Some(Instr::SkipKey { x }),
            0xa1 => Some(Instr::SkipNotKey { x }),
            _ => None,
        },
        _ => match k {
            0x07 => Some(Instr::ReadDelay { x }),
            0x0a => Some(Instr::WaitKey { x }),
            0x15 => Some(Instr::WriteDelay { x }),
            0x18 => Some(Instr::WriteSound { x }),
            0x1e => Some(Instr::AddIndex { x }),
            0x29 => Some(Instr::LoadGlyph { x }),
            0x33 => Some(Instr::StoreBcd { x }),
            0x55 => Some(Instr::StoreRegs { x }),
            0x65 => Some(Instr::LoadRegs { x }),
            _ => None,
        },
    }
}

/// Every instruction that a word encodes is well formed.
pub proof fn lemma_decoded_well_formed(word: u16)
    ensures
        decoded(word) is Some ==> decoded(word)->Some_0.well_formed(),
{
}

/// The word made of the nibble `op`, then `x`, `y` and `n`.
pub open spec fn word_of(op: int, x: int, y: int, n: int) -> u16 {
    (op * 0x1000 + x * 0x100 + y * 0x10 + n) as u16
}

/// The word that encodes `instr`.
pub open spec fn encoded(instr: Instr) -> u16 {
    match instr {
        Instr::ClearScreen => 0x00e0,
        Instr::Return => 0x00ee,
        Instr::Jump { addr } => (0x1000 + addr) as u16,
        Instr::Call { addr } => (0x2000 + addr) as u16,
        Instr::SkipEqImm { x, k } => (0x3000 + x * 0x100 + k) as u16,
        Instr::SkipNeImm { x, k } => (0x4000 + x * 0x100 + k) as u16,
        Instr::SkipEqReg { x, y } => word_of(0x5, x as int, y as int, 0),
        Instr::LoadImm { x, k } => (0x6000 + x * 0x100 + k) as u16,
        Instr::AddImm { x, k } => (0x7000 + x * 0x100 + k) as u16,
        Instr::Move { x, y } => word_of(0x8, x as int, y as int, 0x0),
        Instr::Or { x, y } => word_of(0x8, x as int, y as int, 0x1),
        Instr::And { x, y } => word_of(0x8, x as int, y as int, 0x2),
        Instr::Xor { x, y } => word_of(0x8, x as int, y as int, 0x3),
        Instr::Add { x, y } => word_of(0x8, x as int, y as int, 0x4),
        Instr::Sub { x, y } => word_of(0x8, x as int, y as int, 0x5),
        Instr::ShiftRight { x, y } => word_of(0x8, x as int, y as int, 0x6),
        Instr::SubFrom { x, y } => word_of(0x8, x as int, y as int, 0x7),
        Instr::ShiftLeft { x, y } => word_of(0x8, x as int, y as int, 0xe),
        Instr::SkipNeReg { x, y } => word_of(0x9, x as int, y as int, 0),
        Instr::LoadIndex { addr } => (0xa000 + addr) as u16,
        Instr::JumpOffset { addr } => (0xb000 + addr) as u16,
        Instr::Random { x, k } => (0xc000 + x * 0x100 + k) as u16,
        Instr::Draw { x, y, n } => word_of(0xd, x as int, y as int, n as int),
        Instr::SkipKey { x } => (0xe09e + x * 0x100) as u16,
        Instr::SkipNotKey { x } => (0xe0a1 + x * 0x100) as u16,
        Instr::ReadDelay { x } => (0xf007 + x * 0x100) as u16,
        Instr::WaitKey { x } => (0xf00a + x * 0x100) as u16,
        Instr::WriteDelay { x } => (0xf015 + x * 0x100) as u16,
        Instr::WriteSound { x } => (0xf018 + x * 0x100) as u16,
        Instr::AddIndex { x } => (0xf01e + x * 0x100) as u16,
        Instr::LoadGlyph { x } => (0xf029 + x * 0x100) as u16,
        Instr::StoreBcd { x } => (0xf033 + x * 0x100) as u16,
        Instr::StoreRegs { x } => (0xf055 + x * 0x100) as u16,
        Instr::LoadRegs { x } => (0xf065 + x * 0x100) as u16,
    }
}

/// The nibbles of a word that was made of four nibbles are those nibbles.
proof fn lemma_nibbles_of_word(op: int, x: int, y: int, n: int)
    requires
        0 <= op < 16,
        0 <= x < 16,
        0 <= y < 16,
        0 <= n < 16,
    ensures
        nibbles(word_of(op, x, y, n)) =~= seq![op as u8, x as u8, y as u8, n as u8],
        word_of(op, x, y, n) % 0x100 == y * 0x10 + n,
        word_of(op, x, y, n) % 0x1000 == x * 0x100 + y * 0x10 + n,
        word_of(op, x, y, n) == op * 0x1000 + x * 0x100 + y * 0x10 + n,
{
    let w: int = op * 0x1000 + x * 0x100 + y * 0x10 + n;
    let q1: int = op * 0x100 + x * 0x10 + y;
    let q2: int = op * 0x10 + x;
    assert(w == 16 * q1 + n);
    assert(w / 16 == q1 && w % 16 == n);
    assert(q1 == 16 * q2 + y);
    assert(q1 / 16 == q2 && q1 % 16 == y);
    assert(q2 / 16 == op && q2 % 16 == x);
    assert(w / 0x10 == q1);
    assert(w / 0x100 == q2) by {
        assert(w == 0x100 * q2 + (y * 0x10 + n));
    }
    assert(w / 0x1000 == op) by {
        assert(w == 0x1000 * op + (x * 0x100 + y * 0x10 + n));
    }
    assert(w % 0x100 == y * 0x10 + n) by {
        assert(w == 0x100 * q2 + (y * 0x10 + n));
    }
    assert(w % 0x1000 == x * 0x100 + y * 0x10 + n) by {
        assert(w == 0x1000 * op + (x * 0x100 + y * 0x10 + n));
    }
    assert(word_of(op, x, y, n) == w);
}

/// A word is made of its four nibbles.
proof fn lemma_word_of_nibbles(word: u16)
    ensures
        word == word_of(
            nibbles(word)[0] as int,
            nibbles(word)[1] as int,
            nibbles(word)[2] as int,
            nibbles(word)[3] as int,
        ),
        nibbles(word)[0] < 16,
        nibbles(word)[1] < 16,
        nibbles(word)[2] < 16,
        nibbles(word)[3] < 16,
        word % 0x100 == nibbles(word)[2] * 0x10 + nibbles(word)[3],
        word % 0x1000 == nibbles(word)[1] * 0x100 + nibbles(word)[2] * 0x10 + nibbles(word)[3],
{
}

/// Decoding undoes encoding: a well-formed instruction is what its word
/// decodes to.
pub proof fn lemma_decode_encoded(instr: Instr)
    requires
        instr.well_formed(),
    ensures
        decoded(encoded(instr)) == Some(instr),
{
    match instr {
        Instr::ClearScreen => {
            lemma_nibbles_of_word(0, 0, 0xe, 0);
        },
        Instr::Return => {
            lemma_nibbles_of_word(0, 0, 0xe, 0xe);
        },
        Instr::Jump { addr } => {
            lemma_nibbles_of_word(0x1, addr as int / 0x100, addr as int / 0x10 % 16, addr as int % 16);
        },
        Instr::Call { addr } => {
            lemma_nibbles_of_word(0x2, addr as int / 0x100, addr as int / 0x10 % 16, addr as int % 16);
        },
        Instr::LoadIndex { addr } => {
            lemma_nibbles_of_word(0xa, addr as int / 0x100, addr as int / 0x10 % 16, addr as int % 16);
        },
        Instr::JumpOffset { addr } => {
            lemma_nibbles_of_word(0xb, addr as int / 0x100, addr as int / 0x10 % 16, addr as int % 16);
        },
        Instr::SkipEqImm { x, k } => {
            lemma_nibbles_of_word(0x3, x as int, k as int / 16, k as int % 16);
        },
        Instr::SkipNeImm { x, k } => {
            lemma_nibbles_of_word(0x4, x as int, k as int / 16, k as int % 16);
        },
        Instr::LoadImm { x, k } => {
            lemma_nibbles_of_word(0x6, x as int, k as int / 16, k as int % 16);
        },
        Instr::AddImm { x, k } => {
            lemma_nibbles_of_word(0x7, x as int, k as int / 16, k as int % 16);
        },
        Instr::Random { x, k } => {
            lemma_nibbles_of_word(0xc, x as int, k as int / 16, k as int % 16);
        },
        Instr::SkipEqReg { x, y } => {
            lemma_nibbles_of_word(0x5, x as int, y as int, 0);
        },
        Instr::SkipNeReg { x, y } => {
            lemma_nibbles_of_word(0x9, x as int, y as int, 0);
        },
        Instr::Move { x, y } => {
            lemma_nibbles_of_word(0x8, x as int, y as int, 0x0);
        },
        Instr::Or { x, y } => {
            lemma_nibbles_of_word(0x8, x as int, y as int, 0x1);
        },
        Instr::And { x, y } => {
            lemma_nibbles_of_word(0x8, x as int, y as int, 0x2);
        },
        Instr::Xor { x, y } => {
            lemma_nibbles_of_word(0x8, x as int, y as int, 0x3);
        },
        Instr::Add { x, y } => {
            lemma_nibbles_of_word(0x8, x as int, y as int, 0x4);
        },
        Instr::Sub { x, y } => {
            lemma_nibbles_of_word(0x8, x as int, y as int, 0x5);
        },
        Instr::ShiftRight { x, y } => {
            lemma_nibbles_of_word(0x8, x as int, y as int, 0x6);
        },
        Instr::SubFrom { x, y } => {
            lemma_nibbles_of_word(0x8, x as int, y as int, 0x7);
        },
        Instr::ShiftLeft { x, y } => {
            lemma_nibbles_of_word(0x8, x as int, y as int, 0xe);
        },
        Instr::Draw { x, y, n } => {
            lemma_nibbles_of_word(0xd, x as int, y as int, n as int);
        },
        Instr::SkipKey { x } => {
            lemma_nibbles_of_word(0xe, x as int, 0x9, 0xe);
        },
        Instr::SkipNotKey { x } => {
            lemma_nibbles_of_word(0xe, x as int, 0xa, 0x1);
        },
        Instr::ReadDelay { x } => {
            lemma_nibbles_of_word(0xf, x as int, 0x0, 0x7);
        },
        Instr::WaitKey { x } => {
            lemma_nibbles_of_word(0xf, x as int, 0x0, 0xa);
        },
        Instr::WriteDelay { x } => {
            lemma_nibbles_of_word(0xf, x as int, 0x1, 0x5);
        },
        Instr::WriteSound { x } => {
            lemma_nibbles_of_word(0xf, x as int, 0x1, 0x8);
        },
        Instr::AddIndex { x } => {
            lemma_nibbles_of_word(0xf, x as int, 0x1, 0xe);
        },
        Instr::LoadGlyph { x } => {
            lemma_nibbles_of_word(0xf, x as int, 0x2, 0x9);
        },
        Instr::StoreBcd { x } => {
            lemma_nibbles_of_word(0xf, x as int, 0x3, 0x3);
        },
        Instr::StoreRegs { x } => {
            lemma_nibbles_of_word(0xf, x as int, 0x5, 0x5);
        },
        Instr::LoadRegs { x } => {
            lemma_nibbles_of_word(0xf, x as int, 0x6, 0x5);
        },
    }
}

/// Encoding undoes decoding: a word that is an instruction is the word that
/// encodes that instruction, so no two words stand for the same instruction.
pub proof fn lemma_encode_decoded(word: u16)
    requires
        decoded(word) is Some,
    ensures
        encoded(decoded(word)->Some_0) == word,
{
    lemma_word_of_nibbles(word);
}

/// The decimal digits of `x`: hundreds, tens, ones.
pub open spec fn bcd(x: u8) -> Seq<u8> {
    seq![x / 100, (x / 10 % 10) as u8, x % 10]
}

/// The three decimal digits of `x`, the hundreds first.
pub fn bcd_from_u8(x: u8) -> (digits: [u8; 3])
    ensures
        digits@ == bcd(x),
{
    let digits = [x / 100, (x / 10) % 10, x % 10];
    assert(digits@ =~= bcd(x));
    digits
}

} // verus!
