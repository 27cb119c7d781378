//! Reading the memory image of a coredump.

use crate::varint::{le_number, u32_of_le_bytes};
use vstd::prelude::*;
use vstd::slice::slice_subrange;

verus! {

/// Why the memory could not be read.
#[derive(Debug, Clone, Copy, PartialEq, Eq, Structural)]
pub enum MemoryError {
    /// The bytes that were asked for do not all lie in the image.
    OutOfBounds,
}

/// The `size` bytes of the image at the address `addr`.
pub fn read<'a>(coredump: &'a [u8], addr: u32, size: u64) -> (r: Result<&'a [u8], MemoryError>)
    ensures
        match r {
            Ok(bytes) => addr + size <= coredump@.len() && bytes@ == coredump@.subrange(
                addr as int,
                addr + size,
            ),
            Err(e) => addr + size > coredump@.len() && e == MemoryError::OutOfBounds,
        },
{
    let len = coredump.len();
    if addr as u64 > len as u64 || size > len as u64 - addr as u64 {
        return Err(MemoryError::OutOfBounds);
    }
    Ok(slice_subrange(coredump, addr as usize, addr as usize + size as usize))
}

/// The 32-bit number that the image holds at the address `addr`, the least
/// significant byte first.
pub fn read_ptr(coredump: &[u8], addr: u32) -> (r: Result<u32, MemoryError>)
    ensures
        match r {
            Ok(v) => addr + 4 <= coredump@.len() && v == le_number(
                coredump@.subrange(addr as int, addr + 4),
                0,
            ),
            Err(e) => addr + 4 > coredump@.len() && e == MemoryError::OutOfBounds,
        },
{
    match read(coredump, addr, 4) {
        Ok(bytes) => Ok(u32_of_le_bytes(bytes)),
        Err(e) => Err(e),
    }
}

} // verus!
