//! The machine as text: a register in hexadecimal, and RAM as a hexdump of
//! sixteen bytes to the line.  The text is made of ASCII bytes.

use vstd::prelude::*;
use crate::ram::Ram;
use crate::register::Register;

verus! {

/// The character of a digit: `0` to `9`, then `a` to `f`.
pub open spec fn digit_char(digit: int) -> u8 {
    if digit < 10 {
        (0x30 + digit) as u8
    } else {
        (0x61 + digit - 10) as u8
    }
}

/// A number written to a base between 2 and 16, most significant digit
/// first, with zeros in front of it where it has fewer than `min_digits`
/// digits.
pub open spec fn numeral(value: nat, base: nat, min_digits: nat) -> Seq<u8>
    decreases value, min_digits,
    via numeral_decreases
{
    if base < 2 {
        Seq::empty()
    } else if value < base && min_digits <= 1 {
        seq![digit_char(value as int)]
    } else {
        numeral(value / base, base, one_less(min_digits)).push(digit_char((value % base) as int))
    }
}

/// One less than `count`, and 0 for 0.
pub open spec fn one_less(count: nat) -> nat {
    if count > 0 {
        (count - 1) as nat
    } else {
        0
    }
}

#[via_fn]
proof fn numeral_decreases(value: nat, base: nat, min_digits: nat) {
    if base >= 2 && !(value < base && min_digits <= 1) {
        assert(value / base <= value && (value >= 1 ==> value / base < value))
            by (nonlinear_arith)
            requires
                base >= 2,
        ;
    }
}

/// A run of `count` spaces.
pub open spec fn spaces(count: nat) -> Seq<u8> {
    Seq::new(count, |i: int| 0x20u8)
}

/// The first `n` bytes of a line in hexadecimal, two digits each, with a
/// space before every eighth.
pub open spec fn hex_bytes(line: Seq<u8>, n: int) -> Seq<u8>
    decreases n,
{
    if n <= 0 || n > line.len() {
        Seq::empty()
    } else {
        hex_bytes(line, n - 1) + (if (n - 1) % 8 == 0 {
            spaces(1)
        } else {
            Seq::empty()
        }) + numeral(line[n - 1] as nat, 16, 2)
    }
}

/// A byte as a character of the text column: itself if it is printable, a
/// dot if it is not.
pub open spec fn text_char(byte: u8) -> u8 {
    if 0x20 <= byte <= 0x7e {
        byte
    } else {
        0x2e
    }
}

/// The bytes of a line as characters.
pub open spec fn text_bytes(line: Seq<u8>) -> Seq<u8> {
    Seq::new(line.len(), |i: int| text_char(line[i]))
}

/// The bytes of line `index` of a hexdump: up to sixteen from `16 * index`
/// on.
pub open spec fn line_bytes(mem: Seq<u8>, index: int) -> Seq<u8> {
    if 16 * index + 16 <= mem.len() {
        mem.subrange(16 * index, 16 * index + 16)
    } else {
        mem.subrange(16 * index, mem.len() as int)
    }
}

/// Line `index` of a hexdump: the address of its first byte in at least
/// eight hexadecimal digits, its bytes in hexadecimal, and between bars its
/// bytes as characters.  A line of fewer than sixteen bytes has four spaces
/// for each byte that it lacks, and one more.
pub open spec fn dump_line(mem: Seq<u8>, index: int) -> Seq<u8> {
    let line = line_bytes(mem, index);
    numeral((16 * index) as nat, 16, 8) + hex_bytes(line, line.len() as int) + (if line.len()
        < 16 {
        spaces((4 * (16 - line.len()) + 1) as nat)
    } else {
        Seq::empty()
    }) + seq![0x20u8, 0x7cu8] + text_bytes(line) + seq![0x7cu8, 0x0au8]
}

/// The first `n` lines of a hexdump.
pub open spec fn dump_lines(mem: Seq<u8>, n: int) -> Seq<u8>
    decreases n,
{
    if n <= 0 {
        Seq::empty()
    } else {
        dump_lines(mem, n - 1) + dump_line(mem, n - 1)
    }
}

/// The words `Ram(size: `.
pub open spec fn dump_title() -> Seq<u8> {
    seq![0x52u8, 0x61u8, 0x6du8, 0x28u8, 0x73u8, 0x69u8, 0x7au8, 0x65u8, 0x3au8, 0x20u8]
}

/// The hexdump of a memory: a heading with its size, a line for every
/// sixteen bytes and one for what is left, which may be nothing, and an
/// empty line.
pub open spec fn dump(mem: Seq<u8>) -> Seq<u8> {
    dump_title() + numeral(mem.len(), 10, 1) + seq![0x29u8, 0x3au8, 0x0au8] + dump_lines(
        mem,
        (mem.len() / 16 + 1) as int,
    ) + seq![0x0au8]
}

/// A word as `0x` and eight hexadecimal digits.
pub open spec fn hex_word(value: u32) -> Seq<u8> {
    seq![0x30u8, 0x78u8] + numeral(value as nat, 16, 8)
}

/// The character of a digit.
fn digit_to_char(digit: usize) -> (c: u8)
    requires
        digit < 16,
    ensures
        c == digit_char(digit as int),
{
    if digit < 10 {
        0x30 + digit as u8
    } else {
        0x61 + (digit - 10) as u8
    }
}

/// Appends a number to a text.
pub fn push_numeral(out: &mut Vec<u8>, value: usize, base: usize, min_digits: usize)
    requires
        2 <= base <= 16,
    ensures
        final(out)@ == old(out)@ + numeral(value as nat, base as nat, min_digits as nat),
{
    let start: usize = out.len();
    let mut rest: usize = value;
    let mut wanted: usize = min_digits;
    loop
        invariant
            2 <= base <= 16,
            start == old(out)@.len(),
            start <= out@.len(),
            out@.subrange(0, start as int) == old(out)@,
            numeral(value as nat, base as nat, min_digits as nat) == numeral(
                rest as nat,
                base as nat,
                wanted as nat,
            ) + out@.subrange(start as int, out@.len() as int),
        decreases rest, wanted,
    {
        let ghost before = out@;
        let ghost tail = before.subrange(start as int, before.len() as int);
        if rest < base && wanted <= 1 {
            out.insert(start, digit_to_char(rest));
            assert(out@.subrange(start as int, out@.len() as int) =~= seq![
                digit_char(rest as int),
            ] + tail);
            assert(out@.subrange(0, start as int) =~= before.subrange(0, start as int));
            assert(out@ =~= old(out)@ + out@.subrange(start as int, out@.len() as int));
            return ;
        }
        out.insert(start, digit_to_char(rest % base));
        assert(out@.subrange(start as int, out@.len() as int) =~= seq![
            digit_char((rest % base) as int),
        ] + tail);
        assert(out@.subrange(0, start as int) =~= before.subrange(0, start as int));
        let ghost more = numeral((rest / base) as nat, base as nat, one_less(wanted as nat));
        assert(more.push(digit_char((rest % base) as int)) + tail =~= more + (seq![
            digit_char((rest % base) as int),
        ] + tail));
        assert(rest / base <= rest && (rest >= 1 ==> rest / base < rest)) by (nonlinear_arith)
            requires
                base >= 2,
        ;
        rest = rest / base;
        if wanted > 0 {
            wanted = wanted - 1;
        }
    }
}

/// Appends a run of spaces to a text.
pub fn push_spaces(out: &mut Vec<u8>, count: usize)
    ensures
        final(out)@ == old(out)@ + spaces(count as nat),
{
    let mut i: usize = 0;
    while i < count
        invariant
            i <= count,
            out@ == old(out)@ + spaces(i as nat),
        decreases count - i,
    {
        out.push(0x20);
        i += 1;
        assert(out@ =~= old(out)@ + spaces(i as nat));
    }
    assert(out@ =~= old(out)@ + spaces(count as nat));
}

/// Appends line `index` of the hexdump of `mem` to a text.
pub fn push_dump_line(out: &mut Vec<u8>, mem: &Vec<u8>, index: usize)
    requires
        16 * index <= mem@.len(),
    ensures
        final(out)@ == old(out)@ + dump_line(mem@, index as int),
{
    let len: usize = mem.len();
    let first: usize = 16 * index;
    let count: usize = if len - first >= 16 {
        16
    } else {
        len - first
    };
    let ghost line = line_bytes(mem@, index as int);
    assert(line.len() == count);
    push_numeral(out, first, 16, 8);
    let ghost head = out@;
    let mut j: usize = 0;
    while j < count
        invariant
            j <= count,
            count <= 16,
            first + count <= mem@.len(),
            line == line_bytes(mem@, index as int),
            line.len() == count,
            first == 16 * index,
            out@ == head + hex_bytes(line, j as int),
        decreases count - j,
    {
        let ghost before = out@;
        if j % 8 == 0 {
            out.push(0x20);
            assert(out@ =~= before + spaces(1));
        }
        let byte: u8 = mem[first + j];
        assert(byte == line[j as int]);
        push_numeral(out, byte as usize, 16, 2);
        j += 1;
        assert(out@ =~= head + hex_bytes(line, j as int));
    }
    let ghost hexed = out@;
    if count < 16 {
        push_spaces(out, 4 * (16 - count) + 1);
    }
    out.push(0x20);
    out.push(0x7c);
    let ghost barred = out@;
    let mut k: usize = 0;
    while k < count
        invariant
            k <= count,
            first + count <= mem@.len(),
            line == line_bytes(mem@, index as int),
            line.len() == count,
            first == 16 * index,
            out@ == barred + text_bytes(line).subrange(0, k as int),
        decreases count - k,
    {
        let byte: u8 = mem[first + k];
        assert(byte == line[k as int]);
        if byte >= 0x20 && byte <= 0x7e {
            out.push(byte);
        } else {
            out.push(0x2e);
        }
        k += 1;
        assert(out@ =~= barred + text_bytes(line).subrange(0, k as int));
    }
    assert(text_bytes(line).subrange(0, count as int) =~= text_bytes(line));
    out.push(0x7c);
    out.push(0x0a);
    assert(out@ =~= old(out)@ + dump_line(mem@, index as int));
}

impl Register {
    /// The word of the register as text: `0x` and eight hexadecimal digits.
    pub fn hex(&self) -> (text: Vec<u8>)
        ensures
            text@ == hex_word(self.value()),
    {
        let mut text: Vec<u8> = Vec::new();
        text.push(0x30);
        text.push(0x78);
        push_numeral(&mut text, self.load() as usize, 16, 8);
        assert(text@ =~= hex_word(self.value()));
        text
    }
}

impl Ram {
    /// The memory as text: a hexdump of sixteen bytes to the line.
    pub fn hexdump(&self) -> (text: Vec<u8>)
        ensures
            text@ == dump(self@),
    {
        let len: usize = self.0.len();
        let mut text: Vec<u8> = Vec::new();
        text.push(0x52);
        text.push(0x61);
        text.push(0x6d);
        text.push(0x28);
        text.push(0x73);
        text.push(0x69);
        text.push(0x7a);
        text.push(0x65);
        text.push(0x3a);
        text.push(0x20);
        assert(text@ =~= dump_title());
        push_numeral(&mut text, len, 10, 1);
        text.push(0x29);
        text.push(0x3a);
        text.push(0x0a);
        let ghost heading = text@;
        assert(heading =~= dump_title() + numeral(self@.len(), 10, 1) + seq![
            0x29u8,
            0x3au8,
            0x0au8,
        ]);
        let lines: usize = len / 16;
        let mut i: usize = 0;
        while i <= lines
            invariant
                i <= lines + 1,
                lines == self@.len() / 16,
                len == self@.len(),
                text@ == heading + dump_lines(self@, i as int),
            decreases lines + 1 - i,
        {
            push_dump_line(&mut text, &self.0, i);
            i += 1;
            assert(text@ =~= heading + dump_lines(self@, i as int));
        }
        text.push(0x0a);
        assert(text@ =~= dump(self@));
        text
    }
}

} // verus!
