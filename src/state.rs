use vstd::prelude::*;

verus! {

/// A 32-byte identifier of an account or a token mint.
#[derive(Debug, Clone, Copy, PartialEq, Eq)]
pub struct Pubkey {
    pub bytes: [u8; 32],
}

impl Pubkey {
    pub open spec fn view(&self) -> Seq<u8> {
        self.bytes@
    }

    /// Whether two identifiers hold the same bytes.
    pub fn same_as(&self, other: &Pubkey) -> (r: bool)
        ensures
            r == (self@ == other@),
    {
        let mut i: usize = 0;
        while i < 32
            invariant
                0 <= i <= 32,
                self@.len() == 32,
                other@.len() == 32,
                forall|j: int| 0 <= j < i ==> self@[j] == other@[j],
            decreases 32 - i,
        {
            if self.bytes[i] != other.bytes[i] {
                return false;
            }
            i = i + 1;
        }
        assert(self@ =~= other@);
        true
    }

    /// Whether `self` comes strictly before `other` in byte order.
    pub fn precedes(&self, other: &Pubkey) -> (r: bool)
        ensures
            r == bytes_precede(self@, other@),
    {
        let mut i: usize = 0;
        while i < 32
            invariant
                0 <= i <= 32,
                self@.len() == 32,
                other@.len() == 32,
                forall|j: int| 0 <= j < i ==> self@[j] == other@[j],
            decreases 32 - i,
        {
            if self.bytes[i] != other.bytes[i] {
                assert(first_difference(self@, other@, i as int));
                return self.bytes[i] < other.bytes[i];
            }
            i = i + 1;
        }
        assert(self@ =~= other@);
        false
    }
}

/// `i` is the first index at which `a` and `b` differ.
pub open spec fn first_difference(a: Seq<u8>, b: Seq<u8>, i: int) -> bool {
    0 <= i < a.len() && i < b.len() && a[i] != b[i] && forall|j: int| 0 <= j < i ==> a[j] == b[j]
}

/// Lexicographic byte order, strict.
pub open spec fn bytes_precede(a: Seq<u8>, b: Seq<u8>) -> bool {
    exists|i: int| first_difference(a, b, i) && a[i] < b[i]
}

/// The record of one pool: its two mints, in the order fixed at creation, and the
/// number of pool-share units outstanding.
#[derive(Debug, Clone, Copy, PartialEq, Eq)]
pub struct PoolState {
    pub mint0: Pubkey,
    pub mint1: Pubkey,
    pub total_amount_minted: u64,
}

impl PoolState {
    /// Bytes reserved for a pool record: twice the 72 bytes that its fields take.
    pub fn init_size() -> (r: usize)
        ensures
            r == 2 * (32 + 32 + 8),
    {
        let total_amount_minted_size: usize = 8;
        let mint0_size: usize = 32;
        let mint1_size: usize = 32;
        (total_amount_minted_size + mint0_size + mint1_size) * 2
    }
}

} // verus!
