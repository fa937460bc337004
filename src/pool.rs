use vstd::prelude::*;

use crate::error::AmmError;
use crate::key::{push_key, read_key};
use crate::le::{
    le_bytes, le_value, lemma_le_bytes_len, lemma_le_bytes_of_value, lemma_le_value_bound,
    lemma_le_value_of_bytes, lemma_pow256_16, push_u128_le, read_u128_le,
};

verus! {

/// Length in bytes of an encoded pool record.
pub const POOL_LEN: usize = 113;

/// The persistent record of one pool: its two assets, their reserves and
/// the product of the reserves.
#[derive(Clone, Copy, Debug, PartialEq, Eq)]
pub struct Pool {
    pub is_initialized: bool,
    pub token_a_mint: [u8; 32],
    pub token_b_mint: [u8; 32],
    pub token_a_amount: u128,
    pub token_b_amount: u128,
    pub k: u128,
}

/// The stored form of a pool: a flag byte, the two asset identifiers, then
/// the two reserves and the product as 16-byte little-endian integers.
pub open spec fn pool_bytes(p: Pool) -> Seq<u8> {
    seq![if p.is_initialized { 1u8 } else { 0u8 }] + p.token_a_mint@ + p.token_b_mint@
        + le_bytes(p.token_a_amount as nat, 16) + le_bytes(p.token_b_amount as nat, 16)
        + le_bytes(p.k as nat, 16)
}

/// Whether `s` is the stored form of some pool.
pub open spec fn record_well_formed(s: Seq<u8>) -> bool {
    s.len() == POOL_LEN && s[0] <= 1
}

/// The record that storage holds before a pool is initialized.
pub open spec fn empty_pool(p: Pool) -> bool {
    !p.is_initialized && p.token_a_amount == 0 && p.token_b_amount == 0 && p.k == 0
}

proof fn lemma_pool_bytes_parts(p: Pool)
    ensures
        pool_bytes(p).len() == POOL_LEN,
        pool_bytes(p)[0] == (if p.is_initialized { 1u8 } else { 0u8 }),
        pool_bytes(p).subrange(1, 33) == p.token_a_mint@,
        pool_bytes(p).subrange(33, 65) == p.token_b_mint@,
        pool_bytes(p).subrange(65, 81) == le_bytes(p.token_a_amount as nat, 16),
        pool_bytes(p).subrange(81, 97) == le_bytes(p.token_b_amount as nat, 16),
        pool_bytes(p).subrange(97, 113) == le_bytes(p.k as nat, 16),
{
    lemma_le_bytes_len(p.token_a_amount as nat, 16);
    lemma_le_bytes_len(p.token_b_amount as nat, 16);
    lemma_le_bytes_len(p.k as nat, 16);
    let s = pool_bytes(p);
    assert(s.subrange(1, 33) =~= p.token_a_mint@);
    assert(s.subrange(33, 65) =~= p.token_b_mint@);
    assert(s.subrange(65, 81) =~= le_bytes(p.token_a_amount as nat, 16));
    assert(s.subrange(81, 97) =~= le_bytes(p.token_b_amount as nat, 16));
    assert(s.subrange(97, 113) =~= le_bytes(p.k as nat, 16));
}

proof fn lemma_u128_of_bytes(x: u128)
    ensures
        le_value(le_bytes(x as nat, 16)) == x,
{
    lemma_pow256_16();
    lemma_le_value_of_bytes(x as nat, 16);
}

/// Round-trip stability of the stored form: the encoding of every pool is a
/// well-formed record, two pools with the same encoding are the same pool,
/// so decoding an encoded pool gives it back and re-encoding a decoded
/// record gives back the stored bytes.
pub proof fn lemma_record_round_trip(p: Pool, q: Pool)
    ensures
        record_well_formed(pool_bytes(p)),
        pool_bytes(q) == pool_bytes(p) ==> q == p,
{
    lemma_pool_bytes_parts(p);
    lemma_pool_bytes_parts(q);
    if pool_bytes(q) == pool_bytes(p) {
        lemma_u128_of_bytes(p.token_a_amount);
        lemma_u128_of_bytes(q.token_a_amount);
        lemma_u128_of_bytes(p.token_b_amount);
        lemma_u128_of_bytes(q.token_b_amount);
        lemma_u128_of_bytes(p.k);
        lemma_u128_of_bytes(q.k);
        assert(p.token_a_mint =~= q.token_a_mint);
        assert(p.token_b_mint =~= q.token_b_mint);
    }
}

impl Pool {
    /// Encodes the record into its stored form.
    pub fn encode(&self) -> (r: Vec<u8>)
        ensures
            r@ == pool_bytes(*self),
    {
        let mut out: Vec<u8> = Vec::new();
        out.push(if self.is_initialized { 1u8 } else { 0u8 });
        push_key(&mut out, &self.token_a_mint);
        push_key(&mut out, &self.token_b_mint);
        push_u128_le(&mut out, self.token_a_amount);
        push_u128_le(&mut out, self.token_b_amount);
        push_u128_le(&mut out, self.k);
        assert(out@ =~= pool_bytes(*self));
        out
    }

    /// Decodes a stored record; fails with `InvalidRecord` unless `data` is
    /// exactly the stored form of some pool.
    pub fn decode(data: &[u8]) -> (r: Result<Pool, AmmError>)
        ensures
            r is Ok <==> record_well_formed(data@),
            r matches Ok(p) ==> pool_bytes(p) == data@,
            r matches Err(e) ==> e == AmmError::InvalidRecord,
    {
        if data.len() != POOL_LEN || data[0] > 1 {
            return Err(AmmError::InvalidRecord);
        }
        let p = Pool {
            is_initialized: data[0] == 1,
            token_a_mint: read_key(data, 1),
            token_b_mint: read_key(data, 33),
            token_a_amount: read_u128_le(data, 65),
            token_b_amount: read_u128_le(data, 81),
            k: read_u128_le(data, 97),
        };
        proof {
            let s = data@;
            lemma_pool_bytes_parts(p);
            lemma_pow256_16();
            lemma_le_value_bound(s.subrange(65, 81));
            lemma_le_value_bound(s.subrange(81, 97));
            lemma_le_value_bound(s.subrange(97, 113));
            lemma_le_bytes_of_value(s.subrange(65, 81));
            lemma_le_bytes_of_value(s.subrange(81, 97));
            lemma_le_bytes_of_value(s.subrange(97, 113));
            let t = pool_bytes(p);
            assert(t[0] == s[0]);
            assert forall|i: int| 0 <= i < POOL_LEN implies t[i] == s[i] by {
                if 1 <= i < 33 {
                    assert(t.subrange(1, 33)[i - 1] == s.subrange(1, 33)[i - 1]);
                } else if 33 <= i < 65 {
                    assert(t.subrange(33, 65)[i - 33] == s.subrange(33, 65)[i - 33]);
                } else if 65 <= i < 81 {
                    assert(t.subrange(65, 81)[i - 65] == s.subrange(65, 81)[i - 65]);
                } else if 81 <= i < 97 {
                    assert(t.subrange(81, 97)[i - 81] == s.subrange(81, 97)[i - 81]);
                } else if 97 <= i < 113 {
                    assert(t.subrange(97, 113)[i - 97] == s.subrange(97, 113)[i - 97]);
                }
            }
            assert(t =~= s);
        }
        Ok(p)
    }
}

impl Default for Pool {
    /// The all-zero record that storage holds before initialization.
    fn default() -> (r: Pool)
        ensures
            empty_pool(r),
            r.token_a_mint@ == Seq::new(32, |i: int| 0u8),
            r.token_b_mint@ == Seq::new(32, |i: int| 0u8),
    {
        let r = Pool {
            is_initialized: false,
            token_a_mint: [0u8; 32],
            token_b_mint: [0u8; 32],
            token_a_amount: 0,
            token_b_amount: 0,
            k: 0,
        };
        assert(r.token_a_mint@ =~= Seq::new(32, |i: int| 0u8));
        assert(r.token_b_mint@ =~= Seq::new(32, |i: int| 0u8));
        r
    }
}

} // verus!
