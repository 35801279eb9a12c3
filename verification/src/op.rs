//! The fourteen opcodes, and their mapping to and from the 4-bit numeric
//! codes that the instruction words carry in their top nibble.

use vstd::prelude::*;
use crate::types::u4;

verus! {

/// One of the fourteen defined operations. The numeric codes 14 and 15 name
/// no operation; a word carrying them is rejected at dispatch.
#[derive(Clone, Copy, PartialEq, Eq, Structural, Debug)]
pub enum Op {
    /// Conditional move: `A <- B` unless `C` is zero.
    Move,
    /// Array read: `A <- heap[B][C]`.
    Index,
    /// Array write: `heap[A][B] <- C`.
    Amend,
    /// `A <- (B + C) mod 2^32`.
    Add,
    /// `A <- (B * C) mod 2^32`.
    Mult,
    /// `A <- B / C`, unsigned; `C = 0` is fatal.
    Div,
    /// `A <- !(B & C)`, bit for bit.
    NotAnd,
    /// Stop execution cleanly.
    Halt,
    /// Allocate a zeroed array of `C` words; its identifier goes into `B`.
    Alloc,
    /// Abandon the array identified by `C`.
    Aband,
    /// Emit the low byte of `C`; `C > 255` is fatal.
    Output,
    /// Read one byte into `C`; end of input stores `0xFFFF_FFFF`.
    Input,
    /// Replace array 0 with a copy of array `B`, then jump to `C`.
    Load,
    /// Load-immediate: a 25-bit literal into the register named by the
    /// dedicated selector field.
    Orth,
}

impl Op {
    /// The numeric code of the operation, as the top nibble of an
    /// instruction word carries it.
    pub open spec fn spec_code(self) -> u8 {
        match self {
            Op::Move => 0,
            Op::Index => 1,
            Op::Amend => 2,
            Op::Add => 3,
            Op::Mult => 4,
            Op::Div => 5,
            Op::NotAnd => 6,
            Op::Halt => 7,
            Op::Alloc => 8,
            Op::Aband => 9,
            Op::Output => 10,
            Op::Input => 11,
            Op::Load => 12,
            Op::Orth => 13,
        }
    }

    /// The operation named by a numeric code, if any.
    pub open spec fn spec_from_code(code: u8) -> Option<Op> {
        if code == 0 {
            Some(Op::Move)
        } else if code == 1 {
            Some(Op::Index)
        } else if code == 2 {
            Some(Op::Amend)
        } else if code == 3 {
            Some(Op::Add)
        } else if code == 4 {
            Some(Op::Mult)
        } else if code == 5 {
            Some(Op::Div)
        } else if code == 6 {
            Some(Op::NotAnd)
        } else if code == 7 {
            Some(Op::Halt)
        } else if code == 8 {
            Some(Op::Alloc)
        } else if code == 9 {
            Some(Op::Aband)
        } else if code == 10 {
            Some(Op::Output)
        } else if code == 11 {
            Some(Op::Input)
        } else if code == 12 {
            Some(Op::Load)
        } else if code == 13 {
            Some(Op::Orth)
        } else {
            None
        }
    }

    pub fn code(self) -> (r: u4)
        ensures
            r.0 == self.spec_code(),
            r.wf(),
    {
        let n: u8 = match self {
            Op::Move => 0,
            Op::Index => 1,
            Op::Amend => 2,
            Op::Add => 3,
            Op::Mult => 4,
            Op::Div => 5,
            Op::NotAnd => 6,
            Op::Halt => 7,
            Op::Alloc => 8,
            Op::Aband => 9,
            Op::Output => 10,
            Op::Input => 11,
            Op::Load => 12,
            Op::Orth => 13,
        };
        u4::new(n)
    }

    pub fn from_code(code: u8) -> (r: Option<Op>)
        ensures
            r == Op::spec_from_code(code),
    {
        match code {
            0 => Some(Op::Move),
            1 => Some(Op::Index),
            2 => Some(Op::Amend),
            3 => Some(Op::Add),
            4 => Some(Op::Mult),
            5 => Some(Op::Div),
            6 => Some(Op::NotAnd),
            7 => Some(Op::Halt),
            8 => Some(Op::Alloc),
            9 => Some(Op::Aband),
            10 => Some(Op::Output),
            11 => Some(Op::Input),
            12 => Some(Op::Load),
            13 => Some(Op::Orth),
            _ => None,
        }
    }
}

/// Every defined code names exactly one operation, and the two mappings
/// invert each other.
pub proof fn lemma_op_code_round_trip(op: Op)
    ensures
        Op::spec_from_code(op.spec_code()) == Some(op),
        op.spec_code() <= 13,
{
}

} // verus!
