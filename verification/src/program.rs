//! The program image: a byte stream packed big-endian into 32-bit words,
//! four bytes to a word. A stream whose length is not a multiple of four is
//! malformed and rejected before execution starts.

use vstd::prelude::*;
use crate::errors::VmError;

verus! {

/// The word packed from the `i`-th four-byte group of `bytes`: the first
/// byte of the group is the most significant.
pub open spec fn spec_word_at(bytes: Seq<u8>, i: int) -> u32 {
    (bytes[4 * i] * 0x100_0000 + bytes[4 * i + 1] * 0x1_0000 + bytes[4 * i + 2] * 0x100 + bytes[4
        * i + 3]) as u32
}

/// The whole image: one word per complete four-byte group.
pub open spec fn spec_words(bytes: Seq<u8>) -> Seq<u32> {
    Seq::new(bytes.len() / 4, |i: int| spec_word_at(bytes, i))
}

/// Packs a byte stream into the initial contents of array 0, or rejects it
/// when its length is not a multiple of four.
pub fn get_program(source: Vec<u8>) -> (r: Result<Vec<u32>, VmError>)
    ensures
        source@.len() % 4 == 0 ==> (r matches Ok(words) && words@ == spec_words(source@)),
        source@.len() % 4 != 0 ==> r == Err::<Vec<u32>, VmError>(VmError::MalformedImage),
{
    if source.len() % 4 != 0 {
        return Err(VmError::MalformedImage);
    }
    let n = source.len() / 4;
    proof {
        assert(4 * n == source@.len());
    }
    let mut words: Vec<u32> = Vec::new();
    let mut k: usize = 0;
    while k < n
        invariant
            source@.len() <= usize::MAX,
            4 * n == source@.len(),
            k <= n,
            words@.len() == k,
            forall|i: int| 0 <= i < k ==> words@[i] == spec_word_at(source@, i),
        decreases n - k,
    {
        let b0 = source[4 * k] as u32;
        let b1 = source[4 * k + 1] as u32;
        let b2 = source[4 * k + 2] as u32;
        let b3 = source[4 * k + 3] as u32;
        let w = b0 * 0x100_0000 + b1 * 0x1_0000 + b2 * 0x100 + b3;
        words.push(w);
        k = k + 1;
    }
    proof {
        assert(words@ =~= spec_words(source@));
    }
    Ok(words)
}

} // verus!
