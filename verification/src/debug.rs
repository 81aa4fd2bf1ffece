//! Text for people: bytes as hexadecimal digits, rows of bytes.

use vstd::prelude::*;

verus! {

/// `String::push` appends one character to the end of the string.
pub assume_specification[ String::push ](s: &mut String, c: char)
    ensures
        final(s)@ == old(s)@.push(c),
;

/// The hexadecimal digit, in lower case, of a number below sixteen.
pub open spec fn hex_char(n: int) -> char {
    seq!['0', '1', '2', '3', '4', '5', '6', '7', '8', '9', 'a', 'b', 'c', 'd', 'e', 'f'][n]
}

/// The two hexadecimal digits of a byte.
pub open spec fn hex_byte(b: u8) -> Seq<char> {
    seq![hex_char(b as int / 16), hex_char(b as int % 16)]
}

/// The bytes `bytes` as hexadecimal digits, a space before each.
pub open spec fn spaced(bytes: Seq<u8>) -> Seq<char>
    decreases bytes.len(),
{
    if bytes.len() == 0 {
        Seq::empty()
    } else {
        spaced(bytes.drop_last()) + seq![' '] + hex_byte(bytes.last())
    }
}

/// A row of sixteen bytes as hexadecimal digits: a space between two bytes,
/// and one more between the eighth and the ninth.
pub open spec fn row_text(line: Seq<u8>) -> Seq<char> {
    hex_byte(line[0]) + spaced(line.subrange(1, 8)) + seq![' '] + spaced(line.subrange(8, 16))
}

/// The hexadecimal digit, in lower case, of a number below sixteen.
pub fn hex_digit(n: u8) -> (c: char)
    requires
        n < 16,
    ensures
        c == hex_char(n as int),
{
    let digits = ['0', '1', '2', '3', '4', '5', '6', '7', '8', '9', 'a', 'b', 'c', 'd', 'e', 'f'];
    digits[n as usize]
}

/// Appends the two hexadecimal digits of `b` to `out`.
pub fn write_hex_byte(out: &mut String, b: u8)
    ensures
        final(out)@ == old(out)@ + hex_byte(b),
{
    out.push(hex_digit(b / 16));
    out.push(hex_digit(b % 16));
    assert(out@ =~= old(out)@ + hex_byte(b));
}

/// Appends the bytes of `line` from index `from` up to `to` to `out`, a
/// space before each.
fn write_spaced(out: &mut String, line: &[u8; 16], from: usize, to: usize)
    requires
        from <= to <= 16,
    ensures
        final(out)@ == old(out)@ + spaced(line@.subrange(from as int, to as int)),
{
    let mut j = from;
    assert(line@.subrange(from as int, from as int) =~= Seq::<u8>::empty());
    assert(out@ =~= old(out)@ + spaced(line@.subrange(from as int, j as int)));
    while j < to
        invariant
            from <= j <= to <= 16,
            out@ == old(out)@ + spaced(line@.subrange(from as int, j as int)),
        decreases to - j,
    {
        let ghost before = out@;
        out.push(' ');
        write_hex_byte(out, line[j]);
        j = j + 1;
        proof {
            let done = line@.subrange(from as int, j as int);
            assert(done.drop_last() =~= line@.subrange(from as int, j - 1));
            assert(done.last() == line@[j - 1]);
            assert(out@ =~= old(out)@ + spaced(done));
        }
    }
}

/// Appends a row of sixteen bytes to `out`, as hexadecimal digits.
pub fn write_row(out: &mut String, line: &[u8; 16])
    ensures
        final(out)@ == old(out)@ + row_text(line@),
{
    write_hex_byte(out, line[0]);
    write_spaced(out, line, 1, 8);
    out.push(' ');
    write_spaced(out, line, 8, 16);
    assert(out@ =~= old(out)@ + row_text(line@));
}

} // verus!
