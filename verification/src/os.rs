//! The computations around the operating system's positioned read and write
//! calls; the calls themselves are made by the caller.
use crate::error::{Error, Result};
use vstd::prelude::*;

verus! {

/// What a positioned read or write system call that returned `r` means: the
/// number of bytes transferred when `r` is not negative, and otherwise the
/// error `last_error` that the system reported for the call.
pub fn into_io_result(r: isize, last_error: Error) -> (res: Result<usize>)
    ensures
        r >= 0 ==> res == Ok::<usize, Error>(r as usize),
        r < 0 ==> res == Err::<usize, Error>(last_error),
{
    if r >= 0 {
        Ok(r as usize)
    } else {
        Err(last_error)
    }
}

/// What an overlapped (positioned) Windows read or write that returned `r`
/// and reported `transferred` bytes means: the number of bytes transferred
/// when `r` is not zero, and otherwise the error `last_error` that the
/// system reported for the call.
pub fn overlapped_io_result(r: i32, transferred: u32, last_error: Error) -> (res: Result<usize>)
    ensures
        r != 0 ==> res == Ok::<usize, Error>(transferred as usize),
        r == 0 ==> res == Err::<usize, Error>(last_error),
{
    if r != 0 {
        Ok(transferred as usize)
    } else {
        Err(last_error)
    }
}

/// A 64-bit file offset split into the two 32-bit halves that an overlapped
/// (positioned) Windows read or write takes.
#[derive(Debug, Clone, Copy, PartialEq, Eq, Structural)]
pub struct OverlappedOffset {
    /// The low 32 bits of the offset.
    pub offset: u32,
    /// The high 32 bits of the offset.
    pub offset_high: u32,
}

/// Splits `offs` into its low and high 32-bit halves.
pub fn ov(offs: u64) -> (o: OverlappedOffset)
    ensures
        o.offset == offs % 0x1_0000_0000,
        o.offset_high == offs / 0x1_0000_0000,
        o.offset_high * 0x1_0000_0000 + o.offset == offs,
{
    let low = offs as u32;
    let high = (offs >> 32u64) as u32;
    assert(low == offs % 0x1_0000_0000) by (bit_vector)
        requires
            low == offs as u32,
    ;
    assert(high == offs / 0x1_0000_0000) by (bit_vector)
        requires
            high == (offs >> 32u64) as u32,
    ;
    OverlappedOffset { offset: low, offset_high: high }
}

} // verus!
