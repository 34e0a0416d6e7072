use vstd::prelude::*;

verus! {

/// A 32-byte account or asset identifier.
#[derive(Debug, Clone, Copy)]
pub struct Pubkey {
    pub bytes: [u8; 32],
}

/// `a` sorts strictly before `b`, comparing bytes from the first.
pub open spec fn key_lt(a: Seq<u8>, b: Seq<u8>) -> bool {
    exists|i: int|
        0 <= i < a.len() && i < b.len() && a[i] < b[i] && (forall|j: int|
            0 <= j < i ==> a[j] == b[j])
}

impl Pubkey {
    pub open spec fn view(&self) -> Seq<u8> {
        self.bytes@
    }

    /// Lexicographic byte order, the order the pool's asset pair is kept in.
    pub fn less_than(&self, other: &Pubkey) -> (r: bool)
        ensures
            r == key_lt(self@, other@),
    {
        let mut i: usize = 0;
        while i < 32
            invariant
                0 <= i <= 32,
                self@.len() == 32,
                other@.len() == 32,
                forall|j: int| 0 <= j < i ==> self@[j] == other@[j],
            decreases 32 - i,
        {
            if self.bytes[i] != other.bytes[i] {
                let r = self.bytes[i] < other.bytes[i];
                proof {
                    if !r {
                        assert forall|k: int|
                            !(0 <= k < 32 && self@[k] < other@[k] && (forall|j: int|
                                0 <= j < k ==> self@[j] == other@[j])) by {
                            if 0 <= k < 32 && k > i && (forall|j: int|
                                0 <= j < k ==> self@[j] == other@[j]) {
                                assert(self@[i as int] == other@[i as int]);
                            }
                        }
                    } else {
                        assert(self@[i as int] < other@[i as int]);
                    }
                }
                return r;
            }
            i = i + 1;
        }
        proof {
            assert forall|k: int|
                !(0 <= k < 32 && self@[k] < other@[k] && (forall|j: int|
                    0 <= j < k ==> self@[j] == other@[j])) by {
                if 0 <= k < 32 {
                    assert(self@[k] == other@[k]);
                }
            }
        }
        false
    }
}

impl PartialEq for Pubkey {
    fn eq(&self, other: &Pubkey) -> (r: bool) {
        let mut i: usize = 0;
        while i < 32
            invariant
                0 <= i <= 32,
                self@.len() == 32,
                other@.len() == 32,
                forall|j: int| 0 <= j < i ==> self@[j] == other@[j],
            decreases 32 - i,
        {
            if self.bytes[i] != other.bytes[i] {
                return false;
            }
            i = i + 1;
        }
        proof {
            assert(self@ =~= other@);
        }
        true
    }
}

impl vstd::std_specs::cmp::PartialEqSpecImpl for Pubkey {
    open spec fn obeys_eq_spec() -> bool {
        true
    }

    open spec fn eq_spec(&self, other: &Pubkey) -> bool {
        self@ == other@
    }
}

impl Eq for Pubkey {

}

/// Persisted state of one pool.
#[derive(Debug, Clone, Copy, PartialEq, Eq)]
pub struct PoolState {
    pub token_a: Pubkey,
    pub token_b: Pubkey,
    pub token_a_vault: Pubkey,
    pub token_b_vault: Pubkey,
    pub lp_mint: Pubkey,
    pub fee_numerator: u64,
    pub fee_denominator: u64,
    pub pool_bump: u8,
    pub auth_bump: u8,
    /// Time of the last oracle update.
    pub block_timestamp_last: u64,
    /// Q64.64 integral of the price of A in units of B.
    pub price_a_cumulative_last: u128,
    /// Q64.64 integral of the price of B in units of A.
    pub price_b_cumulative_last: u128,
    pub admin: Pubkey,
    /// Identity that may claim the admin role, if a handover is under way.
    pub pending_admin: Option<Pubkey>,
    pub protocol_fee_recipient: Pubkey,
    /// Share of invariant growth minted to the protocol, in basis points.
    pub protocol_fee_share: u64,
    /// `reserve_a * reserve_b` at the last withdrawal settlement.
    pub k_last: u128,
}

/// Upper bound of the protocol fee share, in basis points.
pub const MAX_PROTOCOL_FEE_SHARE: u64 = 500;

impl PoolState {
    /// Bytes of storage the record takes, with its 8-byte type tag.
    pub const LEN: usize = 8 + 32 * 5 + 8 * 2 + 1 * 2 + 16 * 2 + 8 + 32 + (1 + 32) + 32 + 8 + 16;

    /// The pool's standing invariant.
    pub open spec fn wf(&self) -> bool {
        &&& key_lt(self.token_a@, self.token_b@)
        &&& self.fee_denominator > 0
        &&& self.fee_numerator < self.fee_denominator
        &&& self.protocol_fee_share <= MAX_PROTOCOL_FEE_SHARE
    }

    /// The storage size, summed field by field.
    pub fn calculate_len() -> (r: usize)
        ensures
            r == Self::LEN,
    {
        let discriminator: usize = 8;
        let pubkey_size: usize = 32;
        let u64_size: usize = 8;
        let u128_size: usize = 16;
        let u8_size: usize = 1;
        discriminator
            + pubkey_size  // token_a
            + pubkey_size  // token_b
            + pubkey_size  // token_a_vault
            + pubkey_size  // token_b_vault
            + pubkey_size  // lp_mint
            + u64_size  // fee_numerator
            + u64_size  // fee_denominator
            + u8_size  // pool_bump
            + u8_size  // auth_bump
            + u128_size  // price_a_cumulative_last
            + u128_size  // price_b_cumulative_last
            + u64_size  // block_timestamp_last
            + pubkey_size  // admin
            + (1 + pubkey_size)  // pending_admin: tag and key
            + pubkey_size  // protocol_fee_recipient
            + u64_size  // protocol_fee_share
            + u128_size  // k_last
    }
}

} // verus!
