//! The machine's memory: 4 KiB of bytes, with the hex digit sprites at the
//! bottom and the program at `0x200`.

use vstd::prelude::*;
use crate::debug::{hex_byte, row_text, write_hex_byte, write_row};
use crate::fault::Fault;

verus! {

/// Bitmaps of the hex digits `0` to `F`, five rows each, one byte per row.
pub const DIGITS: [[u8; 5]; 16] = [
    [0xF0, 0x90, 0x90, 0x90, 0xF0],
    [0x20, 0x60, 0x20, 0x20, 0x70],
    [0xF0, 0x10, 0xF0, 0x80, 0xF0],
    [0xF0, 0x10, 0xF0, 0x10, 0xF0],
    [0x90, 0x90, 0xF0, 0x10, 0x10],
    [0xF0, 0x80, 0xF0, 0x10, 0xF0],
    [0xF0, 0x80, 0xF0, 0x90, 0xF0],
    [0xF0, 0x10, 0x20, 0x40, 0x40],
    [0xF0, 0x90, 0xF0, 0x90, 0xF0],
    [0xF0, 0x90, 0xF0, 0x10, 0xF0],
    [0xF0, 0x90, 0xF0, 0x90, 0x90],
    [0xE0, 0x90, 0xE0, 0x90, 0xE0],
    [0xF0, 0x80, 0x80, 0x80, 0xF0],
    [0xE0, 0x90, 0x90, 0x90, 0xE0],
    [0xF0, 0x80, 0xF0, 0x80, 0xF0],
    [0xF0, 0x80, 0xF0, 0x80, 0x80],
];

/// The number of rows of a digit sprite.
pub const DIGIT_ROWS: u16 = 5;

/// The number of bytes that the digit sprites take at the bottom of memory.
pub const DIGITS_LEN: u16 = 80;

/// The byte that a fresh memory holds at address `addr` when `rom` was loaded:
/// a row of a digit sprite below `DIGITS_LEN`, a byte of the program from
/// `ROM_START` on, and zero everywhere else.
pub open spec fn image_byte(rom: Seq<u8>, addr: int) -> u8 {
    if 0 <= addr < DIGITS_LEN {
        DIGITS@[addr / 5]@[addr % 5]
    } else if Mem::ROM_START <= addr < Mem::ROM_START + rom.len() {
        rom[addr - Mem::ROM_START]
    } else {
        0
    }
}

/// The contents of a fresh memory into which `rom` was loaded.
pub open spec fn image(rom: Seq<u8>) -> Seq<u8> {
    Seq::new(Mem::LEN as nat, |addr: int| image_byte(rom, addr))
}

/// The first address at which an access to the `len` bytes from `start` on
/// leaves memory, if it does.
pub open spec fn range_fault(start: int, len: int) -> Option<Fault> {
    if start + len <= Mem::LEN {
        None
    } else if start >= Mem::LEN {
        Some(Fault::OutOfBounds { addr: start as u16 })
    } else {
        Some(Fault::OutOfBounds { addr: Mem::LEN })
    }
}

/// The number of bytes of `mem` up to and including the last that is not
/// zero; zero where every byte is zero.
pub open spec fn used(mem: Seq<u8>) -> int
    decreases mem.len(),
{
    if mem.len() == 0 || mem.last() != 0 {
        mem.len() as int
    } else {
        used(mem.drop_last())
    }
}

/// The bytes `bytes` as hexadecimal digits, a comma and a space between two
/// of them.
pub open spec fn listed(bytes: Seq<u8>) -> Seq<char>
    decreases bytes.len(),
{
    if bytes.len() == 0 {
        Seq::empty()
    } else if bytes.len() == 1 {
        hex_byte(bytes[0])
    } else {
        listed(bytes.drop_last()) + seq![',', ' '] + hex_byte(bytes.last())
    }
}

/// Memory on one line: its bytes up to the last that is not zero, in square
/// brackets.
pub open spec fn compact_text(mem: Seq<u8>) -> Seq<char> {
    seq!['['] + listed(mem.take(used(mem))) + seq![']']
}

/// The sixteen bytes of row `row` of `mem`.
pub open spec fn row_of(mem: Seq<u8>, row: int) -> Seq<u8> {
    mem.subrange(16 * row, 16 * row + 16)
}

/// Whether every byte of `line` is zero.
pub open spec fn blank(line: Seq<u8>) -> bool {
    forall|j: int| 0 <= j < line.len() ==> line[j] == 0
}

/// What a dump of `mem` shows of row `row`: the row's address and its bytes,
/// or, for a row of zeros, three dots where the row is the first of a run of
/// such rows and nothing where it is not.
pub open spec fn row_dump(mem: Seq<u8>, row: int) -> Seq<char> {
    if !blank(row_of(mem, row)) {
        hex_byte(row as u8) + seq!['0', ':', ' '] + row_text(row_of(mem, row)) + seq!['\n']
    } else if row > 0 && blank(row_of(mem, row - 1)) {
        Seq::empty()
    } else {
        seq!['.', '.', '.', '\n']
    }
}

/// A dump of the first `rows` rows of `mem`, after a line feed.
pub open spec fn dump_text(mem: Seq<u8>, rows: int) -> Seq<char>
    decreases rows,
{
    if rows <= 0 {
        seq!['\n']
    } else {
        dump_text(mem, rows - 1) + row_dump(mem, rows - 1)
    }
}

/// 4096 bytes, addressed from `0x000` to `0xFFF`.
#[derive(Debug, Clone)]
pub struct Mem {
    bytes: [u8; 4096],
}

impl View for Mem {
    type V = Seq<u8>;

    closed spec fn view(&self) -> Seq<u8> {
        self.bytes@
    }
}

impl Mem {
    /// The size of memory in bytes.
    pub const LEN: u16 = 4 * 1024;

    /// The address at which a program is loaded and starts to run.
    pub const ROM_START: u16 = 0x0200;

    /// Memory always holds `LEN` bytes.
    pub proof fn lemma_len(&self)
        ensures
            self@.len() == Self::LEN,
    {
    }

    /// A memory with the digit sprites at the bottom and `rom` at
    /// `ROM_START`. A program that would reach past the end of memory is
    /// refused.
    pub fn new(rom: &[u8]) -> (r: Result<Self, Fault>)
        ensures
            r is Ok <==> Self::ROM_START + rom@.len() <= Self::LEN,
            r is Ok ==> r->Ok_0@ == image(rom@),
            r is Err ==> r->Err_0 == (Fault::ProgramTooLarge { len: rom@.len() as usize }),
    {
        let room: usize = (Self::LEN - Self::ROM_START) as usize;
        if rom.len() > room {
            return Err(Fault::ProgramTooLarge { len: rom.len() });
        }
        let mut bytes: [u8; 4096] = [0; 4096];
        let mut k: usize = 0;
        while k < rom.len()
            invariant
                k <= rom@.len() <= 3584,
                forall|a: int|
                    0 <= a < 4096 ==> #[trigger] bytes@[a] == if 0x200 <= a < 0x200 + k {
                        rom@[a - 0x200]
                    } else {
                        0u8
                    },
            decreases rom@.len() - k,
        {
            bytes[0x200 + k] = rom[k];
            k = k + 1;
        }
        let mut d: usize = 0;
        while d < 16
            invariant
                d <= 16,
                rom@.len() <= 3584,
                forall|a: int|
                    0 <= a < 4096 ==> #[trigger] bytes@[a] == if a < 5 * d {
                        DIGITS@[a / 5]@[a % 5]
                    } else if 0x200 <= a < 0x200 + rom@.len() {
                        rom@[a - 0x200]
                    } else {
                        0u8
                    },
            decreases 16 - d,
        {
            let mut row: usize = 0;
            while row < 5
                invariant
                    d < 16,
                    row <= 5,
                    rom@.len() <= 3584,
                    forall|a: int|
                        0 <= a < 4096 ==> #[trigger] bytes@[a] == if a < 5 * d + row {
                            DIGITS@[a / 5]@[a % 5]
                        } else if 0x200 <= a < 0x200 + rom@.len() {
                            rom@[a - 0x200]
                        } else {
                            0u8
                        },
                decreases 5 - row,
            {
                bytes[5 * d + row] = DIGITS[d][row];
                row = row + 1;
            }
            d = d + 1;
        }
        let mem = Self { bytes };
        assert(mem@ =~= image(rom@));
        Ok(mem)
    }

    /// The address of the sprite of hex digit `digit`: five bytes per digit,
    /// from address zero on.
    pub fn sprite_offset(digit: u8) -> (addr: u16)
        ensures
            addr == DIGIT_ROWS * digit,
    {
        DIGIT_ROWS * (digit as u16)
    }

    /// The byte at `addr`.
    pub fn get(&self, addr: u16) -> (value: u8)
        requires
            addr < Self::LEN,
        ensures
            value == self@[addr as int],
    {
        self.bytes[addr as usize]
    }

    /// Stores `value` at `addr` and leaves every other byte as it was.
    pub fn set(&mut self, addr: u16, value: u8)
        requires
            addr < Self::LEN,
        ensures
            final(self)@ == old(self)@.update(addr as int, value),
    {
        self.bytes[addr as usize] = value;
    }

    /// The byte at `addr`, or the fault of an address past the end of memory.
    pub fn read(&self, addr: u16) -> (r: Result<u8, Fault>)
        ensures
            r is Ok <==> addr < Self::LEN,
            r is Ok ==> r->Ok_0 == self@[addr as int],
            r is Err ==> r->Err_0 == (Fault::OutOfBounds { addr }),
    {
        if addr < Self::LEN {
            Ok(self.bytes[addr as usize])
        } else {
            Err(Fault::OutOfBounds { addr })
        }
    }

    /// Stores `value` at `addr`, or reports the fault of an address past the
    /// end of memory and changes nothing.
    pub fn write(&mut self, addr: u16, value: u8) -> (r: Result<(), Fault>)
        ensures
            r is Ok <==> addr < Self::LEN,
            r is Ok ==> final(self)@ == old(self)@.update(addr as int, value),
            r is Err ==> r->Err_0 == (Fault::OutOfBounds { addr }) && final(self)@ == old(self)@,
    {
        if addr < Self::LEN {
            self.bytes[addr as usize] = value;
            Ok(())
        } else {
            Err(Fault::OutOfBounds { addr })
        }
    }

    /// Whether the `len` bytes from `start` on all lie in memory; if not, the
    /// fault names the first address that does not.
    pub fn check_range(start: u16, len: u16) -> (r: Result<(), Fault>)
        ensures
            r is Ok <==> range_fault(start as int, len as int) is None,
            r is Err ==> Some(r->Err_0) == range_fault(start as int, len as int),
    {
        if start >= Self::LEN {
            if len == 0 && start == Self::LEN {
                Ok(())
            } else {
                Err(Fault::OutOfBounds { addr: start })
            }
        } else if len > Self::LEN - start {
            Err(Fault::OutOfBounds { addr: Self::LEN })
        } else {
            Ok(())
        }
    }

    /// The `len` bytes from `start` on.
    pub fn slice(&self, start: u16, len: u16) -> (bytes: &[u8])
        requires
            start + len <= Self::LEN,
        ensures
            bytes@ == self@.subrange(start as int, start + len),
    {
        let all = self.bytes.as_slice();
        vstd::slice::slice_subrange(all, start as usize, (start + len) as usize)
    }

    /// The length of memory up to and including its last non-zero byte; zero
    /// where every byte is zero.
    pub fn used_len(&self) -> (n: usize)
        ensures
            n == used(self@),
            n <= Self::LEN,
            n > 0 ==> self@[n - 1] != 0,
            forall|a: int| n <= a < Self::LEN ==> self@[a] == 0,
    {
        let mut n: usize = 4096;
        assert(self@.take(4096) =~= self@);
        while n > 0 && self.bytes[n - 1] == 0
            invariant
                n <= 4096,
                used(self@) == used(self@.take(n as int)),
                forall|a: int| n <= a < 4096 ==> self.bytes@[a] == 0,
            decreases n,
        {
            assert(self@.take(n as int).drop_last() =~= self@.take(n - 1));
            n = n - 1;
        }
        n
    }

    /// Memory on one line: the bytes up to the last that is not zero as
    /// hexadecimal digits, in square brackets and with commas between them.
    pub fn debug_compact(&self) -> (text: String)
        ensures
            text@ == compact_text(self@),
    {
        let end = self.used_len();
        let mut out = String::new();
        out.push('[');
        let mut a: usize = 0;
        assert(self@.take(end as int).take(0) =~= Seq::<u8>::empty());
        assert(out@ =~= seq!['['] + listed(self@.take(end as int).take(0)));
        while a < end
            invariant
                a <= end <= 4096,
                out@ == seq!['['] + listed(self@.take(end as int).take(a as int)),
            decreases end - a,
        {
            if a > 0 {
                out.push(',');
                out.push(' ');
            }
            write_hex_byte(&mut out, self.bytes[a]);
            a = a + 1;
            proof {
                let done = self@.take(end as int).take(a as int);
                assert(done.drop_last() =~= self@.take(end as int).take(a - 1));
                assert(done.last() == self@[a - 1]);
                assert(out@ =~= seq!['['] + listed(done));
            }
        }
        assert(self@.take(end as int).take(end as int) =~= self@.take(end as int));
        out.push(']');
        out
    }

    /// The sixteen bytes of row `row`, and whether all of them are zero.
    fn row(&self, row: usize) -> (r: ([u8; 16], bool))
        requires
            row < 256,
        ensures
            r.0@ == row_of(self@, row as int),
            r.1 == blank(row_of(self@, row as int)),
    {
        let mut line: [u8; 16] = [0; 16];
        let mut zeros = true;
        let ghost mut witness: int = 0;
        let mut j: usize = 0;
        while j < 16
            invariant
                row < 256,
                j <= 16,
                forall|k: int| 0 <= k < j ==> #[trigger] line@[k] == self.bytes@[16 * row + k],
                zeros ==> forall|k: int| 0 <= k < j ==> #[trigger] line@[k] == 0,
                !zeros ==> 0 <= witness < j && line@[witness] != 0,
            decreases 16 - j,
        {
            let b = self.bytes[16 * row + j];
            line[j] = b;
            if b != 0 {
                zeros = false;
                proof {
                    witness = j as int;
                }
            }
            j = j + 1;
        }
        assert(line@ =~= row_of(self@, row as int));
        (line, zeros)
    }

    /// A dump of memory in rows of sixteen bytes: after a line feed, each
    /// row on a line of its own behind its address. Rows of zeros are left
    /// out; three dots stand for each run of them.
    pub fn dump(&self) -> (text: String)
        ensures
            text@ == dump_text(self@, 256),
    {
        let mut out = String::new();
        out.push('\n');
        let mut prev_blank = false;
        let mut i: usize = 0;
        assert(out@ =~= dump_text(self@, 0));
        while i < 256
            invariant
                i <= 256,
                out@ == dump_text(self@, i as int),
                prev_blank == (i > 0 && blank(row_of(self@, i - 1))),
            decreases 256 - i,
        {
            let ghost before = out@;
            let (line, zeros) = self.row(i);
            if zeros {
                if !prev_blank {
                    out.push('.');
                    out.push('.');
                    out.push('.');
                    out.push('\n');
                }
                prev_blank = true;
            } else {
                prev_blank = false;
                write_hex_byte(&mut out, i as u8);
                out.push('0');
                out.push(':');
                out.push(' ');
                write_row(&mut out, &line);
                out.push('\n');
            }
            assert(out@ =~= before + row_dump(self@, i as int));
            i = i + 1;
        }
        out
    }
}

} // verus!
