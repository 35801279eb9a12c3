//! Narrow unsigned integer types used by the instruction encoding: register
//! selectors are 3 bits, opcodes 4 bits, the packed selector group 9 bits,
//! and the load-immediate literal 25 bits.

use vstd::prelude::*;

verus! {

/// A 3-bit unsigned value, held in the low bits of a `u8`.
#[allow(non_camel_case_types)]
#[derive(Clone, Copy, PartialEq, Eq, Structural, Debug)]
pub struct u3(pub u8);

impl u3 {
    /// The stored byte uses only its low three bits.
    pub open spec fn wf(self) -> bool {
        self.0 < 8
    }

    pub fn new(n: u8) -> (r: u3)
        requires
            n < 8,
        ensures
            r.0 == n,
            r.wf(),
    {
        u3(n)
    }

    /// Keeps only the low three bits of `n`.
    pub fn masked(n: u8) -> (r: u3)
        ensures
            r.0 == n & 7,
            r.wf(),
    {
        proof {
            assert(n & 7 < 8) by (bit_vector);
        }
        u3(n & 7)
    }

    pub fn value(self) -> (r: u8)
        ensures
            r == self.0,
    {
        self.0
    }
}

/// A 4-bit unsigned value: an opcode, held in the low bits of a `u8`.
#[allow(non_camel_case_types)]
#[derive(Clone, Copy, PartialEq, Eq, Structural, Debug)]
pub struct u4(pub u8);

impl u4 {
    pub open spec fn wf(self) -> bool {
        self.0 < 16
    }

    pub fn new(n: u8) -> (r: u4)
        requires
            n < 16,
        ensures
            r.0 == n,
            r.wf(),
    {
        u4(n)
    }

    /// Keeps only the low four bits of `n`.
    pub fn masked(n: u8) -> (r: u4)
        ensures
            r.0 == n & 15,
            r.wf(),
    {
        proof {
            assert(n & 15 < 16) by (bit_vector);
        }
        u4(n & 15)
    }

    pub fn value(self) -> (r: u8)
        ensures
            r == self.0,
    {
        self.0
    }
}

/// A 9-bit unsigned value: the packed group of three register selectors,
/// held in the low bits of a `u16`.
#[allow(non_camel_case_types)]
#[derive(Clone, Copy, PartialEq, Eq, Structural, Debug)]
pub struct u9(pub u16);

impl u9 {
    pub open spec fn wf(self) -> bool {
        self.0 < 512
    }

    pub fn new(n: u16) -> (r: u9)
        requires
            n < 512,
        ensures
            r.0 == n,
            r.wf(),
    {
        u9(n)
    }

    /// Keeps only the low nine bits of `n`.
    pub fn masked(n: u16) -> (r: u9)
        ensures
            r.0 == n & 511,
            r.wf(),
    {
        proof {
            assert(n & 511 < 512) by (bit_vector);
        }
        u9(n & 511)
    }

    pub fn value(self) -> (r: u16)
        ensures
            r == self.0,
    {
        self.0
    }
}

/// A 25-bit unsigned value: the load-immediate literal, held in the low
/// bits of a `u32`.
#[allow(non_camel_case_types)]
#[derive(Clone, Copy, PartialEq, Eq, Structural, Debug)]
pub struct u25(pub u32);

impl u25 {
    pub open spec fn wf(self) -> bool {
        self.0 < 0x200_0000
    }

    pub fn new(n: u32) -> (r: u25)
        requires
            n < 0x200_0000,
        ensures
            r.0 == n,
            r.wf(),
    {
        u25(n)
    }

    /// Keeps only the low twenty-five bits of `n`.
    pub fn masked(n: u32) -> (r: u25)
        ensures
            r.0 == n & 0x1FF_FFFF,
            r.wf(),
    {
        proof {
            assert(n & 0x1FF_FFFF < 0x200_0000) by (bit_vector);
        }
        u25(n & 0x1FF_FFFF)
    }

    pub fn value(self) -> (r: u32)
        ensures
            r == self.0,
    {
        self.0
    }
}

} // verus!
