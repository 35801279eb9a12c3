//! The instruction word and its decoding. Every word decodes the same way:
//! the opcode sits in bits 28..31, the three register selectors in the low
//! nine bits, and — for the load-immediate form only — a dedicated selector
//! in bits 25..27 above a 25-bit literal in bits 0..24.

use vstd::prelude::*;
use crate::op::Op;
use crate::register::Index;
use crate::types::u25;
use crate::types::u3;

verus! {

/// Bits 28..31 of a word: the opcode.
pub open spec fn spec_opcode(w: u32) -> u32 {
    w >> 28
}

/// Bits 6..8 of a word: the A selector.
pub open spec fn spec_sel_a(w: u32) -> u32 {
    (w >> 6) & 7
}

/// Bits 3..5 of a word: the B selector.
pub open spec fn spec_sel_b(w: u32) -> u32 {
    (w >> 3) & 7
}

/// Bits 0..2 of a word: the C selector.
pub open spec fn spec_sel_c(w: u32) -> u32 {
    w & 7
}

/// Bits 25..27 of a word: the load-immediate target selector.
pub open spec fn spec_sel_sa(w: u32) -> u32 {
    (w >> 25) & 7
}

/// Bits 0..24 of a word: the load-immediate literal.
pub open spec fn spec_immediate(w: u32) -> u32 {
    w & 0x1FF_FFFF
}

/// A decoded instruction: the operation together with every operand field.
/// The selector fields `a`, `b`, `c` are meaningful for all operations but
/// load-immediate, which uses `sa` and `value` instead; the decoder fills
/// all of them regardless.
#[derive(Clone, Copy, PartialEq, Eq, Structural, Debug)]
pub struct Instruction {
    pub op: Op,
    pub a: Index,
    pub b: Index,
    pub c: Index,
    pub sa: Index,
    pub value: u25,
}

/// One undecoded 32-bit instruction word.
#[derive(Clone, Copy, PartialEq, Eq, Structural, Debug)]
pub struct RawInstruction(pub u32);

/// The decoding of a word, defined field by field over its bits; `None`
/// exactly when the top nibble names no operation.
pub open spec fn spec_decode(w: u32) -> Option<Instruction> {
    match Op::spec_from_code(spec_opcode(w) as u8) {
        Some(op) => Some(
            Instruction {
                op,
                a: Index(u3(spec_sel_a(w) as u8)),
                b: Index(u3(spec_sel_b(w) as u8)),
                c: Index(u3(spec_sel_c(w) as u8)),
                sa: Index(u3(spec_sel_sa(w) as u8)),
                value: u25(spec_immediate(w)),
            },
        ),
        None => None,
    }
}

impl Instruction {
    /// Every operand field holds a value of its width.
    pub open spec fn wf(self) -> bool {
        &&& self.a.wf()
        &&& self.b.wf()
        &&& self.c.wf()
        &&& self.sa.wf()
        &&& self.value.wf()
    }

    /// The word that encodes this instruction: the load-immediate form
    /// packs the dedicated selector and the literal, every other form
    /// packs the three register selectors into the low nine bits.
    pub open spec fn spec_encode(self) -> u32 {
        if self.op is Orth {
            ((self.op.spec_code() as u32) << 28) | ((self.sa.0.0 as u32) << 25) | self.value.0
        } else {
            ((self.op.spec_code() as u32) << 28) | ((self.a.0.0 as u32) << 6) | ((self.b.0.0
                as u32) << 3) | (self.c.0.0 as u32)
        }
    }

    pub fn encode(self) -> (r: RawInstruction)
        ensures
            r.0 == self.spec_encode(),
    {
        let code: u32 = self.op.code().value() as u32;
        if matches!(self.op, Op::Orth) {
            RawInstruction(
                (code << 28) | ((self.sa.value() as u32) << 25) | self.value.value(),
            )
        } else {
            RawInstruction(
                (code << 28) | ((self.a.value() as u32) << 6) | ((self.b.value() as u32) << 3) | (
                self.c.value() as u32),
            )
        }
    }
}

impl RawInstruction {
    pub fn new(w: u32) -> (r: RawInstruction)
        ensures
            r.0 == w,
    {
        RawInstruction(w)
    }

    pub fn value(self) -> (r: u32)
        ensures
            r == self.0,
    {
        self.0
    }

    /// Splits the word into its fields. Decoding never fails on the fields
    /// themselves; only an undefined opcode gives `None`.
    pub fn decode(self) -> (r: Option<Instruction>)
        ensures
            r == spec_decode(self.0),
            r matches Some(i) ==> i.wf(),
    {
        let w = self.0;
        proof {
            assert(w >> 28 < 16 && (w >> 6) & 7 < 8 && (w >> 3) & 7 < 8 && w & 7 < 8 && (w >> 25)
                & 7 < 8 && w & 0x1FF_FFFF < 0x200_0000) by (bit_vector);
        }
        let code: u8 = (w >> 28) as u8;
        match Op::from_code(code) {
            Some(op) => Some(
                Instruction {
                    op,
                    a: Index(u3(((w >> 6) & 7) as u8)),
                    b: Index(u3(((w >> 3) & 7) as u8)),
                    c: Index(u3((w & 7) as u8)),
                    sa: Index(u3(((w >> 25) & 7) as u8)),
                    value: u25(w & 0x1FF_FFFF),
                },
            ),
            None => None,
        }
    }
}

/// Every decoded field fits its width: selectors are below 8, the opcode
/// below 16, the literal below 2^25.
pub proof fn lemma_field_bounds(w: u32)
    ensures
        spec_opcode(w) < 16,
        spec_sel_a(w) < 8,
        spec_sel_b(w) < 8,
        spec_sel_c(w) < 8,
        spec_sel_sa(w) < 8,
        spec_immediate(w) < 0x200_0000,
{
    assert(w >> 28 < 16 && (w >> 6) & 7 < 8 && (w >> 3) & 7 < 8 && w & 7 < 8 && (w >> 25) & 7 < 8
        && w & 0x1FF_FFFF < 0x200_0000) by (bit_vector);
}

/// Decoding a word and re-encoding the result gives the word back, up to
/// the bits the encoding does not use: the load-immediate form uses every
/// bit, every other form leaves bits 9..27 clear.
pub proof fn lemma_decode_encode_round_trip(w: u32)
    ensures
        spec_decode(w) matches Some(i) ==> i.spec_encode() == (
            if spec_opcode(w) == 13 { w } else { w & 0xF000_01FF }
        ),
{
    if let Some(i) = spec_decode(w) {
        let n: u8 = spec_opcode(w) as u8;
        assert(n == w >> 28 && n <= 13) by {
            assert(w >> 28 < 16) by (bit_vector);
        }
        assert(i.op.spec_code() == n);
        if i.op is Orth {
            assert(((w >> 28) << 28) | ((((w >> 25) & 7) as u8 as u32) << 25) | (w & 0x1FF_FFFF)
                == w) by (bit_vector);
            assert(i.spec_encode() == ((n as u32) << 28) | ((((w >> 25) & 7) as u8 as u32) << 25)
                | (w & 0x1FF_FFFF));
            assert((n as u32) == w >> 28) by (bit_vector)
                requires n == (w >> 28) as u8 && w >> 28 < 16;
        } else {
            assert(((w >> 28) << 28) | ((((w >> 6) & 7) as u8 as u32) << 6) | ((((w >> 3) & 7)
                as u8 as u32) << 3) | ((w & 7) as u8 as u32) == (w & 0xF000_01FF)) by (bit_vector);
            assert(i.spec_encode() == ((n as u32) << 28) | ((((w >> 6) & 7) as u8 as u32) << 6) | (
                (((w >> 3) & 7) as u8 as u32) << 3) | ((w & 7) as u8 as u32));
            assert((n as u32) == w >> 28) by (bit_vector)
                requires n == (w >> 28) as u8 && w >> 28 < 16;
        }
    }
}

/// Encoding a well-formed instruction and decoding the word back recovers
/// the operation and the operand fields the operation reads.
pub proof fn lemma_encode_decode_round_trip(i: Instruction)
    requires
        i.wf(),
    ensures
        spec_decode(i.spec_encode()) matches Some(j) && j.op == i.op && (i.op is Orth ==> j.sa
            == i.sa && j.value == i.value) && (!(i.op is Orth) ==> j.a == i.a && j.b == i.b && j.c
            == i.c),
{
    let n: u8 = i.op.spec_code();
    crate::op::lemma_op_code_round_trip(i.op);
    if i.op is Orth {
        let sa: u8 = i.sa.0.0;
        let imm: u32 = i.value.0;
        let w = ((n as u32) << 28) | ((sa as u32) << 25) | imm;
        assert(w >> 28 == n && (w >> 25) & 7 == sa && w & 0x1FF_FFFF == imm) by (bit_vector)
            requires
                n <= 13,
                sa < 8,
                imm < 0x200_0000,
                w == ((n as u32) << 28) | ((sa as u32) << 25) | imm,
        ;
        assert(spec_opcode(w) as u8 == n);
    } else {
        let fa: u8 = i.a.0.0;
        let fb: u8 = i.b.0.0;
        let fc: u8 = i.c.0.0;
        let w = ((n as u32) << 28) | ((fa as u32) << 6) | ((fb as u32) << 3) | (fc as u32);
        assert(w >> 28 == n && (w >> 6) & 7 == fa && (w >> 3) & 7 == fb && w & 7 == fc)
            by (bit_vector)
            requires
                n <= 13,
                fa < 8,
                fb < 8,
                fc < 8,
                w == ((n as u32) << 28) | ((fa as u32) << 6) | ((fb as u32) << 3) | (fc as u32),
        ;
        assert(spec_opcode(w) as u8 == n);
    }
}

} // verus!
