use vstd::prelude::*;

verus! {

/// Number of bytes in one scoring parameter block.
pub const SCORE_DATA_SIZE: usize = 20;

/// One scoring parameter block handed to a scoring kernel.
pub type ScoreData = [u8; 20];

/// One slot of a device's result buffer. The slot's index is the score that
/// the recorded candidate reached.
#[derive(Debug, Clone, Copy, PartialEq, Eq)]
pub struct HashResult {
    /// Non-zero when a candidate was recorded in this slot.
    pub found: u32,
    /// Position of the candidate inside the device's batch.
    pub found_id: u32,
    /// The 20-byte identifier that the candidate hashes to.
    pub found_hash: [u8; 20],
}

impl HashResult {
    /// The empty slot: nothing found, all bytes zero.
    pub open spec fn empty() -> HashResult {
        HashResult {
            found: 0,
            found_id: 0,
            found_hash: vstd::array::spec_array_fill_for_copy_type::<u8, 20>(0u8),
        }
    }

    /// An empty slot: nothing found, all bytes zero.
    pub fn new() -> (r: Self)
        ensures
            r == Self::empty(),
            r.found == 0,
            r.found_id == 0,
            r.found_hash@ == Seq::new(20, |i: int| 0u8),
    {
        let r = HashResult { found: 0, found_id: 0, found_hash: [0u8; 20] };
        proof {
            assert(r.found_hash@ =~= Seq::new(20, |i: int| 0u8));
        }
        r
    }
}

impl Default for HashResult {
    /// The empty slot.
    fn default() -> (r: Self)
        ensures
            r == Self::empty(),
    {
        HashResult::new()
    }
}

} // verus!
