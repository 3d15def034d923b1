//! The termination frame: one zero byte, a little-endian signed 32-bit exit
//! status, and a newline.

use vstd::prelude::*;

verus! {

/// Length of a termination frame in bytes.
pub const FRAME_LEN: usize = 6;

/// The byte that ends every line.
pub const NEWLINE: u8 = 0x0A;

/// The unsigned value of four bytes in little-endian order.
pub open spec fn le_value(a: u8, b: u8, c: u8, d: u8) -> int {
    a + 0x100 * b + 0x1_0000 * c + 0x100_0000 * d
}

/// A 32-bit pattern read as a two's complement number.
pub open spec fn as_signed(value: int) -> int {
    if value < 0x8000_0000 {
        value
    } else {
        value - 0x1_0000_0000
    }
}

/// The exit status that the four payload bytes of a termination frame carry.
pub open spec fn status_of(a: u8, b: u8, c: u8, d: u8) -> int {
    as_signed(le_value(a, b, c, d))
}

/// The exit status as the machine integer that carries it.
pub open spec fn signed_status(a: u8, b: u8, c: u8, d: u8) -> i32 {
    status_of(a, b, c, d) as i32
}

/// Every payload stands for a status that fits 32 signed bits, so
/// `signed_status` loses nothing.
pub proof fn lemma_status_fits(a: u8, b: u8, c: u8, d: u8)
    ensures
        i32::MIN <= status_of(a, b, c, d) <= i32::MAX,
        signed_status(a, b, c, d) == status_of(a, b, c, d),
{
}

/// The status is the 32-bit pattern with `a` in its lowest and `d` in its
/// highest byte, read as a signed number.
pub proof fn lemma_status_is_bit_pattern(a: u8, b: u8, c: u8, d: u8)
    ensures
        status_of(a, b, c, d) == ((d as u32) << 24 | (c as u32) << 16 | (b as u32) << 8
            | a as u32) as i32,
{
    let pattern: u32 = (d as u32) << 24 | (c as u32) << 16 | (b as u32) << 8 | a as u32;
    assert(pattern == a + 0x100 * b + 0x1_0000 * c + 0x100_0000 * d) by (bit_vector)
        requires
            pattern == (d as u32) << 24 | (c as u32) << 16 | (b as u32) << 8 | a as u32,
    ;
    assert(pattern as i32 == if pattern < 0x8000_0000u32 {
        pattern as int
    } else {
        pattern - 0x1_0000_0000
    }) by (bit_vector);
}

/// Recovers the exit status from the payload bytes, least significant first.
pub fn get_retcode(a: u8, b: u8, c: u8, d: u8) -> (code: i32)
    ensures
        code == status_of(a, b, c, d),
        code == signed_status(a, b, c, d),
{
    let mut number: u32 = d as u32;
    number = number << 8 | c as u32;
    number = number << 8 | b as u32;
    number = number << 8 | a as u32;
    assert(number == a + 0x100 * b + 0x1_0000 * c + 0x100_0000 * d) by (bit_vector)
        requires
            number == (((d as u32) << 8 | c as u32) << 8 | b as u32) << 8 | a as u32,
    ;
    let code = number as i32;
    assert(code == if number < 0x8000_0000u32 {
        number as int
    } else {
        number - 0x1_0000_0000
    }) by (bit_vector)
        requires
            code == number as i32,
    ;
    code
}

/// A line is the termination frame when it has exactly six bytes, starts with
/// a zero byte and ends with the newline.
pub open spec fn is_termination_frame(line: Seq<u8>) -> bool {
    &&& line.len() == FRAME_LEN
    &&& line[0] == 0
    &&& line[5] == NEWLINE
}

/// The exit status carried by a termination frame.
pub open spec fn frame_status(line: Seq<u8>) -> i32
    recommends
        is_termination_frame(line),
{
    signed_status(line[1], line[2], line[3], line[4])
}

/// Tells the termination frame from every other line, and reads its status.
pub fn termination_status(line: &[u8]) -> (status: Option<i32>)
    ensures
        status is Some <==> is_termination_frame(line@),
        status matches Some(code) ==> code == frame_status(line@),
{
    if line.len() == FRAME_LEN && line[0] == 0 && line[5] == NEWLINE {
        Some(get_retcode(line[1], line[2], line[3], line[4]))
    } else {
        None
    }
}

} // verus!
