//! The register file: eight 32-bit general registers, indexed by a 3-bit
//! selector, together with the wrap-around arithmetic defined on register
//! values.

use vstd::prelude::*;
use crate::types::u3;

verus! {

/// `(x + y) mod 2^32`.
pub open spec fn wrap_add(x: u32, y: u32) -> u32 {
    ((x + y) % 0x1_0000_0000) as u32
}

/// `(x * y) mod 2^32`.
pub open spec fn wrap_mul(x: u32, y: u32) -> u32 {
    ((x * y) % 0x1_0000_0000) as u32
}

/// One 32-bit register value.
#[derive(Clone, Copy, PartialEq, Eq, Structural, Debug)]
pub struct Register(pub u32);

impl Register {
    pub fn new(n: u32) -> (r: Register)
        ensures
            r.0 == n,
    {
        Register(n)
    }

    pub fn value(self) -> (r: u32)
        ensures
            r == self.0,
    {
        self.0
    }

    /// Addition modulo 2^32.
    pub fn add(self, other: Register) -> (r: Register)
        ensures
            r.0 == wrap_add(self.0, other.0),
    {
        Register(self.0.wrapping_add(other.0))
    }

    /// Multiplication modulo 2^32.
    pub fn mul(self, other: Register) -> (r: Register)
        ensures
            r.0 == wrap_mul(self.0, other.0),
    {
        proof {
            vstd::arithmetic::mul::lemma_mul_nonnegative(self.0 as int, other.0 as int);
        }
        Register(self.0.wrapping_mul(other.0))
    }

    /// Unsigned division; the divisor must not be zero.
    pub fn div(self, other: Register) -> (r: Register)
        requires
            other.0 != 0,
        ensures
            r.0 == self.0 as int / other.0 as int,
    {
        Register(self.0 / other.0)
    }

    /// Bitwise conjunction.
    pub fn bitand(self, other: Register) -> (r: Register)
        ensures
            r.0 == (self.0 & other.0),
    {
        Register(self.0 & other.0)
    }

    /// Bitwise complement.
    pub fn not(self) -> (r: Register)
        ensures
            r.0 == !self.0,
    {
        Register(!self.0)
    }
}

/// A register selector: one of the eight register positions.
#[derive(Clone, Copy, PartialEq, Eq, Structural, Debug)]
pub struct Index(pub u3);

impl Index {
    pub open spec fn wf(self) -> bool {
        self.0.wf()
    }

    /// The selected position, as a specification-level integer.
    pub open spec fn spec_sel(self) -> int {
        self.0.0 as int
    }

    pub fn new(n: u8) -> (r: Index)
        requires
            n < 8,
        ensures
            r.0.0 == n,
            r.wf(),
    {
        Index(u3::new(n))
    }

    pub fn value(self) -> (r: u8)
        ensures
            r == self.0.0,
    {
        self.0.value()
    }
}

/// The eight general registers. Every register starts at zero.
pub struct Registers {
    cells: Vec<Register>,
}

impl View for Registers {
    type V = Seq<u32>;

    /// The register values in selector order.
    closed spec fn view(&self) -> Seq<u32> {
        self.cells@.map_values(|r: Register| r.0)
    }
}

impl Registers {
    /// There are always exactly eight registers.
    pub open spec fn wf(&self) -> bool {
        self@.len() == 8
    }

    pub fn new() -> (r: Registers)
        ensures
            r.wf(),
            r@ == Seq::new(8, |_i: int| 0u32),
    {
        let mut cells: Vec<Register> = Vec::new();
        let mut k: usize = 0;
        while k < 8
            invariant
                k <= 8,
                cells@.len() == k,
                forall|i: int| 0 <= i < k ==> cells@[i] == Register(0u32),
            decreases 8 - k,
        {
            cells.push(Register(0));
            k = k + 1;
        }
        let r = Registers { cells };
        proof {
            assert(r@ =~= Seq::new(8, |_i: int| 0u32));
        }
        r
    }

    /// The value held at position `i`.
    pub fn read(&self, i: Index) -> (r: Register)
        requires
            self.wf(),
            i.wf(),
        ensures
            r.0 == self@[i.spec_sel()],
    {
        self.cells[i.value() as usize]
    }

    /// Stores `val` at position `i`, leaving the other registers unchanged.
    pub fn write(&mut self, i: Index, val: Register)
        requires
            old(self).wf(),
            i.wf(),
        ensures
            final(self).wf(),
            final(self)@ == old(self)@.update(i.spec_sel(), val.0),
    {
        self.cells.set(i.value() as usize, val);
        proof {
            assert(self@ =~= old(self)@.update(i.spec_sel(), val.0));
        }
    }
}

} // verus!
