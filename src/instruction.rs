use vstd::prelude::*;

use crate::error::AmmError;
use crate::key::read_key;
use crate::le::{le_value, read_u128_le};

verus! {

/// A decoded request.
#[derive(Clone, Copy, Debug, PartialEq, Eq)]
pub enum AmmInstruction {
    /// Opcode 0: set up the pool for two assets.
    Initialize { token_a_mint: [u8; 32], token_b_mint: [u8; 32] },
    /// Opcode 1: deposit both assets.
    AddLiquidity { amount_a: u128, amount_b: u128 },
    /// Opcodes 2 (sell asset A) and 3 (sell asset B).
    Swap { a_to_b: bool, amount_in: u128 },
}

/// The payload length that each opcode takes, the opcode byte included.
pub open spec fn payload_well_formed(data: Seq<u8>) -> bool {
    &&& data.len() >= 1
    &&& {
        ||| data[0] == 0 && data.len() == 65
        ||| data[0] == 1 && data.len() == 33
        ||| (data[0] == 2 || data[0] == 3) && data.len() == 17
    }
}

/// The identifier whose bytes are `s`.
pub open spec fn key_of(s: Seq<u8>) -> [u8; 32] {
    choose|k: [u8; 32]| k@ == s
}

/// The 16-byte little-endian amount that starts at `start`.
pub open spec fn amount_at(data: Seq<u8>, start: int) -> u128 {
    le_value(data.subrange(start, start + 16)) as u128
}

/// The request that a well-formed payload encodes.
pub open spec fn instruction_of(data: Seq<u8>) -> AmmInstruction {
    if data[0] == 0 {
        AmmInstruction::Initialize {
            token_a_mint: key_of(data.subrange(1, 33)),
            token_b_mint: key_of(data.subrange(33, 65)),
        }
    } else if data[0] == 1 {
        AmmInstruction::AddLiquidity { amount_a: amount_at(data, 1), amount_b: amount_at(data, 17) }
    } else {
        AmmInstruction::Swap { a_to_b: data[0] == 2, amount_in: amount_at(data, 1) }
    }
}

/// An identifier is the one its bytes name.
pub proof fn lemma_key_of(k: [u8; 32])
    ensures
        key_of(k@) == k,
{
    let c = key_of(k@);
    assert(c@ == k@);
    assert(c =~= k);
}

impl AmmInstruction {
    /// Decodes a request: the opcode byte, then its fixed-width payload.
    /// Fails with `MalformedPayload` on an unknown opcode or a payload of
    /// the wrong length.
    pub fn decode(data: &[u8]) -> (r: Result<AmmInstruction, AmmError>)
        ensures
            r is Ok <==> payload_well_formed(data@),
            r matches Ok(ins) ==> ins == instruction_of(data@),
            r matches Err(e) ==> e == AmmError::MalformedPayload,
    {
        let len: usize = data.len();
        if len == 0 {
            return Err(AmmError::MalformedPayload);
        }
        let tag: u8 = data[0];
        if tag == 0 && len == 65 {
            let token_a_mint = read_key(data, 1);
            let token_b_mint = read_key(data, 33);
            proof {
                lemma_key_of(token_a_mint);
                lemma_key_of(token_b_mint);
            }
            Ok(AmmInstruction::Initialize { token_a_mint, token_b_mint })
        } else if tag == 1 && len == 33 {
            let amount_a = read_u128_le(data, 1);
            let amount_b = read_u128_le(data, 17);
            Ok(AmmInstruction::AddLiquidity { amount_a, amount_b })
        } else if (tag == 2 || tag == 3) && len == 17 {
            let amount_in = read_u128_le(data, 1);
            Ok(AmmInstruction::Swap { a_to_b: tag == 2, amount_in })
        } else {
            Err(AmmError::MalformedPayload)
        }
    }
}

} // verus!
