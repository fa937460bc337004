use vstd::prelude::*;

use solana_program::program_pack::Pack;
use solana_program::pubkey::Pubkey;

verus! {

/// The address and nonce that the runtime derives from `seeds` for
/// `program_id`, or `None` where no nonce gives an address off the curve.
pub uninterp spec fn derived_address(seeds: Seq<Seq<u8>>, program_id: Seq<u8>) -> Option<(Seq<u8>, u8)>;

/// Whether `data` is the stored form of an initialized token account.
pub uninterp spec fn is_token_account(data: Seq<u8>) -> bool;

/// The identifier of the token ledger program.
pub open spec fn token_program_key() -> Seq<u8> {
    seq![
        6u8, 221, 246, 225, 215, 101, 161, 147, 217, 203, 225, 70, 206, 235, 121, 172, 28, 180,
        133, 237, 95, 91, 55, 145, 58, 140, 245, 133, 126, 255, 0, 169,
    ]
}

/// Relies on `spl_token::id`: the token ledger program's identifier
/// (`TokenkegQfeZyiNwAJbNbGKPFXCWuBvf9Ss623VQ5DA` in base58).
#[verifier::external_body]
pub(crate) fn ledger_program_id() -> (r: [u8; 32])
    ensures
        r@ == token_program_key(),
{
    spl_token::id().to_bytes()
}

/// Relies on `Pubkey::try_find_program_address`: searches the nonces from
/// 255 down for the first derived address off the curve; the result depends
/// on the seeds and the program id alone.
#[verifier::external_body]
pub(crate) fn find_program_address(
    seed0: &[u8],
    seed1: &[u8],
    seed2: &[u8],
    program_id: &[u8; 32],
) -> (r: Option<([u8; 32], u8)>)
    ensures
        match r {
            Some((k, bump)) => derived_address(seq![seed0@, seed1@, seed2@], program_id@) == Some(
                (k@, bump),
            ),
            None => derived_address(seq![seed0@, seed1@, seed2@], program_id@) is None,
        },
{
    let program = Pubkey::new_from_array(*program_id);
    match Pubkey::try_find_program_address(&[seed0, seed1, seed2], &program) {
        Some((k, bump)) => Some((k.to_bytes(), bump)),
        None => None,
    }
}

/// Relies on `spl_token::state::Account::unpack`: it accepts exactly 165
/// bytes holding an initialized account, whose first 32 bytes are the mint.
#[verifier::external_body]
pub(crate) fn token_account_mint(data: &[u8]) -> (r: Option<[u8; 32]>)
    ensures
        r is Some <==> is_token_account(data@),
        r matches Some(m) ==> data@.len() == 165 && m@ == data@.subrange(0, 32),
{
    match spl_token::state::Account::unpack(data) {
        Ok(account) => Some(account.mint.to_bytes()),
        Err(_) => None,
    }
}

} // verus!
