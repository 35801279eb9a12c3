//! The fatal conditions. Every one of them aborts the machine; none is ever
//! reported back to the hosted program.

use vstd::prelude::*;

verus! {

/// A fatal condition, with what identifies it: the machine stops and the
/// surrounding process reports it.
#[derive(Clone, Copy, PartialEq, Eq, Structural, Debug)]
pub enum VmError {
    /// The program image's byte length is not a multiple of four.
    MalformedImage,
    /// The fetched word's top nibble (carried here) names no operation.
    IllegalOpcode(u8),
    /// A read, write or abandon named an identifier that is not live.
    BadArrayId(u32),
    /// An access at the carried identifier and offset lies past the
    /// array's length; fetching past the end of array 0 carries the
    /// cursor as the offset.
    OutOfBounds(u32, u64),
    /// An abandon named identifier 0, which is reserved.
    AbandonReserved,
    /// A divide met a zero divisor.
    DivideByZero,
    /// An output met a register value (carried here) above 255.
    OutputOverflow(u32),
    /// The input stream failed in a way other than ending.
    InputError,
    /// An allocate found every 32-bit identifier live at once.
    HeapExhausted,
}

} // verus!
