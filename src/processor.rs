use vstd::prelude::*;

use crate::error::AmmError;
use crate::instruction::{instruction_of, payload_well_formed, AmmInstruction};
use crate::key::same_key;
use crate::ledger::{
    derived_address, find_program_address, is_token_account, ledger_program_id,
    token_account_mint, token_program_key,
};
use crate::math::{lemma_swap_product_grows, quote};
use crate::ops::{deposit_result, reserves_in_out, swap_result};
use crate::pool::{lemma_record_round_trip, pool_bytes, record_well_formed, Pool, POOL_LEN};

verus! {

/// What the runtime shows of one account passed with a request.
pub struct AccountSnapshot {
    pub key: [u8; 32],
    pub owner: [u8; 32],
    pub is_signer: bool,
    pub lamports: u64,
    pub data: Vec<u8>,
}

/// The accounts of a request, in the order the request lists them.
pub struct RequestAccounts {
    /// The caller, who must sign.
    pub user: AccountSnapshot,
    /// The account that stores the pool record.
    pub pool: AccountSnapshot,
    /// The pool's reserve of asset A.
    pub pool_token_a: AccountSnapshot,
    /// The pool's reserve of asset B.
    pub pool_token_b: AccountSnapshot,
    /// The authority over the caller's asset A, who must sign.
    pub user_authority_a: AccountSnapshot,
    /// The authority over the caller's asset B, who must sign.
    pub user_authority_b: AccountSnapshot,
    /// The caller's asset A account.
    pub user_token_a: AccountSnapshot,
    /// The caller's asset B account.
    pub user_token_b: AccountSnapshot,
    /// The token ledger program.
    pub token_program: AccountSnapshot,
}

/// One transfer on the token ledger. With `pool_bump` set, the pool signs
/// as `authority` with its derivation seeds and that nonce; otherwise
/// `authority` signs itself.
#[derive(Clone, Copy, Debug, PartialEq, Eq)]
pub struct Transfer {
    pub source: [u8; 32],
    pub destination: [u8; 32],
    pub authority: [u8; 32],
    pub amount: u64,
    pub pool_bump: Option<u8>,
}

/// What a successful request asks of its caller: run the transfers in
/// order, and only once all of them succeeded store `record` (the encoding
/// of `pool`) in the pool account.
pub struct Settlement {
    pub pool: Pool,
    pub record: Vec<u8>,
    pub transfers: Vec<Transfer>,
}

/// The next step of a request.
pub enum Outcome {
    /// The pool account holds nothing yet: fund it, allocate `space` bytes
    /// and assign it to this program, signing with the pool's seeds and
    /// `bump`, then submit the request again.
    Bootstrap { space: u64, bump: u8 },
    /// Settle the request.
    Settle(Settlement),
}

/// The step a request leads to, as a value of the model.
pub enum Plan {
    Bootstrap { space: u64, bump: u8 },
    Settle { pool: Pool, transfers: Seq<Transfer> },
}

/// Whether `r` is the step that `plan` describes.
pub open spec fn outcome_matches(r: Result<Outcome, AmmError>, plan: Result<Plan, AmmError>) -> bool {
    match plan {
        Err(e) => match r {
            Err(e2) => e2 == e,
            _ => false,
        },
        Ok(Plan::Bootstrap { space, bump }) => match r {
            Ok(Outcome::Bootstrap { space: s2, bump: b2 }) => s2 == space && b2 == bump,
            _ => false,
        },
        Ok(Plan::Settle { pool, transfers }) => match r {
            Ok(Outcome::Settle(s)) => s.pool == pool && s.record@ == pool_bytes(pool)
                && s.transfers@ == transfers,
            _ => false,
        },
    }
}

/// The domain tag of pool addresses: the bytes of "amm".
pub open spec fn pool_seed_tag() -> Seq<u8> {
    seq![97u8, 109u8, 109u8]
}

/// The seeds of the pool for two assets.
pub open spec fn pool_seeds(token_a_mint: Seq<u8>, token_b_mint: Seq<u8>) -> Seq<Seq<u8>> {
    seq![pool_seed_tag(), token_a_mint, token_b_mint]
}

/// The pool that a well-formed stored record holds.
pub open spec fn stored_pool(s: Seq<u8>) -> Pool {
    choose|p: Pool| pool_bytes(p) == s
}

/// The first failed account check of a request, if any.
pub open spec fn binding_error(acc: RequestAccounts) -> Option<AmmError> {
    let ledger = token_program_key();
    if acc.pool_token_a.owner@ != ledger || acc.pool_token_b.owner@ != ledger {
        Some(AmmError::InvalidAccountOwner)
    } else if !acc.user.is_signer {
        Some(AmmError::MissingSignature)
    } else if acc.user_token_a.owner@ != ledger || acc.user_token_b.owner@ != ledger {
        Some(AmmError::InvalidAccountOwner)
    } else if acc.token_program.key@ != ledger {
        Some(AmmError::WrongProgramId)
    } else if !acc.user_authority_a.is_signer || !acc.user_authority_b.is_signer {
        Some(AmmError::MissingSignature)
    } else {
        None
    }
}

/// The first failed check of the pool's reserve accounts against the two
/// assets, if any.
pub open spec fn reserve_asset_error(acc: RequestAccounts, a: [u8; 32], b: [u8; 32]) -> Option<AmmError> {
    if !is_token_account(acc.pool_token_a.data@) || !is_token_account(acc.pool_token_b.data@) {
        Some(AmmError::InvalidTokenAccount)
    } else if acc.pool_token_a.data@.subrange(0, 32) != a@ || acc.pool_token_b.data@.subrange(0, 32)
        != b@ {
        Some(AmmError::AssetMismatch)
    } else {
        None
    }
}

/// The step that Initialize leads to.
pub open spec fn initialize_result(program_id: [u8; 32], acc: RequestAccounts, a: [u8; 32], b: [u8; 32]) -> Result<Plan, AmmError> {
    match derived_address(pool_seeds(a@, b@), program_id@) {
        None => Err(AmmError::AddressDerivationFailed),
        Some((address, bump)) => if acc.pool.key@ != address {
            Err(AmmError::AddressMismatch)
        } else if acc.pool.lamports == 0 {
            Ok(Plan::Bootstrap { space: POOL_LEN as u64, bump })
        } else if acc.pool.owner@ != program_id@ {
            Err(AmmError::WrongProgramId)
        } else if !record_well_formed(acc.pool.data@) {
            Err(AmmError::InvalidRecord)
        } else if stored_pool(acc.pool.data@).is_initialized {
            Err(AmmError::AlreadyInitialized)
        } else {
            match reserve_asset_error(acc, a, b) {
                Some(e) => Err(e),
                None => Ok(
                    Plan::Settle {
                        pool: Pool {
                            is_initialized: true,
                            token_a_mint: a,
                            token_b_mint: b,
                            token_a_amount: 0,
                            token_b_amount: 0,
                            k: 0,
                        },
                        transfers: Seq::empty(),
                    },
                ),
            }
        },
    }
}

/// The step that AddLiquidity leads to.
pub open spec fn add_liquidity_result(acc: RequestAccounts, amount_a: u128, amount_b: u128) -> Result<Plan, AmmError> {
    let stored = stored_pool(acc.pool.data@);
    if !record_well_formed(acc.pool.data@) {
        Err(AmmError::InvalidRecord)
    } else if !stored.is_initialized {
        Err(AmmError::NotInitialized)
    } else {
        match reserve_asset_error(acc, stored.token_a_mint, stored.token_b_mint) {
            Some(e) => Err(e),
            None => match deposit_result(stored, amount_a, amount_b) {
                Err(e) => Err(e),
                Ok(pool) => Ok(
                    Plan::Settle {
                        pool,
                        transfers: seq![
                            Transfer {
                                source: acc.user_token_a.key,
                                destination: acc.pool_token_a.key,
                                authority: acc.user_authority_a.key,
                                amount: amount_a as u64,
                                pool_bump: None,
                            },
                            Transfer {
                                source: acc.user_token_b.key,
                                destination: acc.pool_token_b.key,
                                authority: acc.user_authority_b.key,
                                amount: amount_b as u64,
                                pool_bump: None,
                            },
                        ],
                    },
                ),
            },
        }
    }
}

/// The two legs of a swap: the caller pays in, then the pool pays out,
/// signing with its seeds and `bump`.
pub open spec fn swap_transfers(acc: RequestAccounts, a_to_b: bool, amount_in: u64, amount_out: u64, bump: u8) -> Seq<Transfer> {
    if a_to_b {
        seq![
            Transfer {
                source: acc.user_token_a.key,
                destination: acc.pool_token_a.key,
                authority: acc.user_authority_a.key,
                amount: amount_in,
                pool_bump: None,
            },
            Transfer {
                source: acc.pool_token_b.key,
                destination: acc.user_token_b.key,
                authority: acc.pool.key,
                amount: amount_out,
                pool_bump: Some(bump),
            },
        ]
    } else {
        seq![
            Transfer {
                source: acc.user_token_b.key,
                destination: acc.pool_token_b.key,
                authority: acc.user_authority_b.key,
                amount: amount_in,
                pool_bump: None,
            },
            Transfer {
                source: acc.pool_token_a.key,
                destination: acc.user_token_a.key,
                authority: acc.pool.key,
                amount: amount_out,
                pool_bump: Some(bump),
            },
        ]
    }
}

/// The step that a swap leads to.
pub open spec fn swap_plan_result(program_id: [u8; 32], acc: RequestAccounts, a_to_b: bool, amount_in: u128) -> Result<Plan, AmmError> {
    let stored = stored_pool(acc.pool.data@);
    if !record_well_formed(acc.pool.data@) {
        Err(AmmError::InvalidRecord)
    } else if !stored.is_initialized {
        Err(AmmError::NotInitialized)
    } else {
        match derived_address(pool_seeds(stored.token_a_mint@, stored.token_b_mint@), program_id@) {
            None => Err(AmmError::AddressDerivationFailed),
            Some((_, bump)) => match swap_result(stored, a_to_b, amount_in) {
                Err(e) => Err(e),
                Ok(o) => Ok(
                    Plan::Settle {
                        pool: o.pool,
                        transfers: swap_transfers(acc, a_to_b, o.amount_in, o.amount_out, bump),
                    },
                ),
            },
        }
    }
}

/// The step that a request leads to: the account checks, then the payload,
/// then the operation it names.
pub open spec fn process_result(program_id: [u8; 32], acc: RequestAccounts, data: Seq<u8>) -> Result<Plan, AmmError> {
    match binding_error(acc) {
        Some(e) => Err(e),
        None => if !payload_well_formed(data) {
            Err(AmmError::MalformedPayload)
        } else {
            match instruction_of(data) {
                AmmInstruction::Initialize { token_a_mint, token_b_mint } => initialize_result(
                    program_id,
                    acc,
                    token_a_mint,
                    token_b_mint,
                ),
                AmmInstruction::AddLiquidity { amount_a, amount_b } => add_liquidity_result(
                    acc,
                    amount_a,
                    amount_b,
                ),
                AmmInstruction::Swap { a_to_b, amount_in } => swap_plan_result(
                    program_id,
                    acc,
                    a_to_b,
                    amount_in,
                ),
            }
        },
    }
}

proof fn lemma_stored_pool(p: Pool)
    ensures
        stored_pool(pool_bytes(p)) == p,
{
    let q = stored_pool(pool_bytes(p));
    assert(pool_bytes(q) == pool_bytes(p));
    lemma_record_round_trip(p, q);
}

/// Runs the account checks that every request must pass first.
pub fn check_bindings(acc: &RequestAccounts) -> (r: Result<(), AmmError>)
    ensures
        match binding_error(*acc) {
            Some(e) => r == Err::<(), AmmError>(e),
            None => r is Ok,
        },
{
    let ledger = ledger_program_id();
    if !same_key(&acc.pool_token_a.owner, &ledger) || !same_key(&acc.pool_token_b.owner, &ledger) {
        return Err(AmmError::InvalidAccountOwner);
    }
    if !acc.user.is_signer {
        return Err(AmmError::MissingSignature);
    }
    if !same_key(&acc.user_token_a.owner, &ledger) || !same_key(&acc.user_token_b.owner, &ledger) {
        return Err(AmmError::InvalidAccountOwner);
    }
    if !same_key(&acc.token_program.key, &ledger) {
        return Err(AmmError::WrongProgramId);
    }
    if !acc.user_authority_a.is_signer || !acc.user_authority_b.is_signer {
        return Err(AmmError::MissingSignature);
    }
    Ok(())
}

/// Checks that the pool's reserve accounts are token accounts of the two
/// assets.
fn check_reserve_assets(acc: &RequestAccounts, a: &[u8; 32], b: &[u8; 32]) -> (r: Result<(), AmmError>)
    ensures
        match reserve_asset_error(*acc, *a, *b) {
            Some(e) => r == Err::<(), AmmError>(e),
            None => r is Ok,
        },
{
    let mint_a = match token_account_mint(acc.pool_token_a.data.as_slice()) {
        Some(m) => m,
        None => return Err(AmmError::InvalidTokenAccount),
    };
    let mint_b = match token_account_mint(acc.pool_token_b.data.as_slice()) {
        Some(m) => m,
        None => return Err(AmmError::InvalidTokenAccount),
    };
    if !same_key(&mint_a, a) || !same_key(&mint_b, b) {
        return Err(AmmError::AssetMismatch);
    }
    Ok(())
}

/// The bytes of the pool address domain tag.
fn pool_seed_tag_bytes() -> (r: Vec<u8>)
    ensures
        r@ == pool_seed_tag(),
{
    let mut tag: Vec<u8> = Vec::new();
    tag.push(97u8);
    tag.push(109u8);
    tag.push(109u8);
    assert(tag@ =~= pool_seed_tag());
    tag
}

/// Derives the pool address and its nonce from the two assets.
pub fn derive_pool_address(token_a_mint: &[u8; 32], token_b_mint: &[u8; 32], program_id: &[u8; 32]) -> (r: Option<([u8; 32], u8)>)
    ensures
        match r {
            Some((k, bump)) => derived_address(pool_seeds(token_a_mint@, token_b_mint@), program_id@)
                == Some((k@, bump)),
            None => derived_address(pool_seeds(token_a_mint@, token_b_mint@), program_id@) is None,
        },
{
    let tag = pool_seed_tag_bytes();
    find_program_address(tag.as_slice(), token_a_mint.as_slice(), token_b_mint.as_slice(), program_id)
}

/// Decodes the stored pool record.
fn load_pool(acc: &RequestAccounts) -> (r: Result<Pool, AmmError>)
    ensures
        r is Ok <==> record_well_formed(acc.pool.data@),
        r matches Ok(p) ==> p == stored_pool(acc.pool.data@),
        r matches Err(e) ==> e == AmmError::InvalidRecord,
{
    let r = Pool::decode(acc.pool.data.as_slice());
    proof {
        if let Ok(p) = r {
            lemma_stored_pool(p);
        }
    }
    r
}

fn settle(pool: Pool, transfers: Vec<Transfer>) -> (r: Result<Outcome, AmmError>)
    ensures
        r matches Ok(Outcome::Settle(s)) && s.pool == pool && s.record@ == pool_bytes(pool)
            && s.transfers@ == transfers@,
{
    let record = pool.encode();
    Ok(Outcome::Settle(Settlement { pool, record, transfers }))
}

/// Initialize: checks the pool address, asks for the pool account to be set
/// up where it holds nothing, then records a fresh pool for the two assets.
pub fn initialize(program_id: &[u8; 32], acc: &RequestAccounts, token_a_mint: [u8; 32], token_b_mint: [u8; 32]) -> (r: Result<Outcome, AmmError>)
    ensures
        outcome_matches(r, initialize_result(*program_id, *acc, token_a_mint, token_b_mint)),
{
    let (address, bump) = match derive_pool_address(&token_a_mint, &token_b_mint, program_id) {
        Some(found) => found,
        None => return Err(AmmError::AddressDerivationFailed),
    };
    if !same_key(&acc.pool.key, &address) {
        return Err(AmmError::AddressMismatch);
    }
    if acc.pool.lamports == 0 {
        return Ok(Outcome::Bootstrap { space: POOL_LEN as u64, bump });
    }
    if !same_key(&acc.pool.owner, program_id) {
        return Err(AmmError::WrongProgramId);
    }
    let stored = match load_pool(acc) {
        Ok(p) => p,
        Err(e) => return Err(e),
    };
    if stored.is_initialized {
        return Err(AmmError::AlreadyInitialized);
    }
    match check_reserve_assets(acc, &token_a_mint, &token_b_mint) {
        Ok(()) => {},
        Err(e) => return Err(e),
    }
    let pool = Pool::initialized(token_a_mint, token_b_mint);
    let transfers: Vec<Transfer> = Vec::new();
    proof {
        assert(transfers@ =~= Seq::<Transfer>::empty());
    }
    settle(pool, transfers)
}

/// AddLiquidity: the caller deposits both amounts into the pool's reserves.
pub fn add_liquidity(acc: &RequestAccounts, amount_a: u128, amount_b: u128) -> (r: Result<Outcome, AmmError>)
    ensures
        outcome_matches(r, add_liquidity_result(*acc, amount_a, amount_b)),
{
    let stored = match load_pool(acc) {
        Ok(p) => p,
        Err(e) => return Err(e),
    };
    if !stored.is_initialized {
        return Err(AmmError::NotInitialized);
    }
    match check_reserve_assets(acc, &stored.token_a_mint, &stored.token_b_mint) {
        Ok(()) => {},
        Err(e) => return Err(e),
    }
    let pool = match stored.add_liquidity(amount_a, amount_b) {
        Ok(p) => p,
        Err(e) => return Err(e),
    };
    let mut transfers: Vec<Transfer> = Vec::new();
    transfers.push(
        Transfer {
            source: acc.user_token_a.key,
            destination: acc.pool_token_a.key,
            authority: acc.user_authority_a.key,
            amount: amount_a as u64,
            pool_bump: None,
        },
    );
    transfers.push(
        Transfer {
            source: acc.user_token_b.key,
            destination: acc.pool_token_b.key,
            authority: acc.user_authority_b.key,
            amount: amount_b as u64,
            pool_bump: None,
        },
    );
    proof {
        let expected = add_liquidity_result(*acc, amount_a, amount_b);
        assert(expected matches Ok(Plan::Settle { transfers: t, .. }) && transfers@ =~= t);
    }
    settle(pool, transfers)
}

/// Swap: the caller sells `amount_in` of one asset for the quoted amount of
/// the other, paid out by the pool under its derived authority.
pub fn swap(program_id: &[u8; 32], acc: &RequestAccounts, a_to_b: bool, amount_in: u128) -> (r: Result<Outcome, AmmError>)
    ensures
        outcome_matches(r, swap_plan_result(*program_id, *acc, a_to_b, amount_in)),
{
    let stored = match load_pool(acc) {
        Ok(p) => p,
        Err(e) => return Err(e),
    };
    if !stored.is_initialized {
        return Err(AmmError::NotInitialized);
    }
    let bump = match derive_pool_address(&stored.token_a_mint, &stored.token_b_mint, program_id) {
        Some((_, bump)) => bump,
        None => return Err(AmmError::AddressDerivationFailed),
    };
    let settled = match stored.swap(a_to_b, amount_in) {
        Ok(o) => o,
        Err(e) => return Err(e),
    };
    let (pay_in, pay_out) = if a_to_b {
        (
            Transfer {
                source: acc.user_token_a.key,
                destination: acc.pool_token_a.key,
                authority: acc.user_authority_a.key,
                amount: settled.amount_in,
                pool_bump: None,
            },
            Transfer {
                source: acc.pool_token_b.key,
                destination: acc.user_token_b.key,
                authority: acc.pool.key,
                amount: settled.amount_out,
                pool_bump: Some(bump),
            },
        )
    } else {
        (
            Transfer {
                source: acc.user_token_b.key,
                destination: acc.pool_token_b.key,
                authority: acc.user_authority_b.key,
                amount: settled.amount_in,
                pool_bump: None,
            },
            Transfer {
                source: acc.pool_token_a.key,
                destination: acc.user_token_a.key,
                authority: acc.pool.key,
                amount: settled.amount_out,
                pool_bump: Some(bump),
            },
        )
    };
    let mut transfers: Vec<Transfer> = Vec::new();
    transfers.push(pay_in);
    transfers.push(pay_out);
    proof {
        assert(transfers@ =~= swap_transfers(*acc, a_to_b, settled.amount_in, settled.amount_out, bump));
    }
    settle(settled.pool, transfers)
}

/// Handles one request: the account checks, the payload, then the
/// operation it names. Nothing is stored here: the caller runs the
/// settlement's transfers and then stores its record.
pub fn process_instruction(program_id: &[u8; 32], accounts: &RequestAccounts, data: &[u8]) -> (r: Result<Outcome, AmmError>)
    ensures
        outcome_matches(r, process_result(*program_id, *accounts, data@)),
{
    match check_bindings(accounts) {
        Ok(()) => {},
        Err(e) => return Err(e),
    }
    match AmmInstruction::decode(data) {
        Err(e) => Err(e),
        Ok(AmmInstruction::Initialize { token_a_mint, token_b_mint }) => initialize(
            program_id,
            accounts,
            token_a_mint,
            token_b_mint,
        ),
        Ok(AmmInstruction::AddLiquidity { amount_a, amount_b }) => add_liquidity(
            accounts,
            amount_a,
            amount_b,
        ),
        Ok(AmmInstruction::Swap { a_to_b, amount_in }) => swap(
            program_id,
            accounts,
            a_to_b,
            amount_in,
        ),
    }
}

/// A settled Initialize records an initialized pool with empty reserves and
/// no transfers, for the two assets of the payload, and the pool account is
/// the address derived from those assets.
pub proof fn lemma_initialize_settles_fresh_pool(program_id: [u8; 32], acc: RequestAccounts, data: Seq<u8>)
    requires
        data.len() >= 1,
        data[0] == 0,
        process_result(program_id, acc, data) is Ok,
        !(process_result(program_id, acc, data) matches Ok(Plan::Bootstrap { .. })),
    ensures
        process_result(program_id, acc, data) matches Ok(Plan::Settle { pool, transfers }) && {
            &&& pool.is_initialized
            &&& pool.token_a_amount == 0
            &&& pool.token_b_amount == 0
            &&& pool.k == 0
            &&& transfers.len() == 0
            &&& instruction_of(data) == (AmmInstruction::Initialize {
                token_a_mint: pool.token_a_mint,
                token_b_mint: pool.token_b_mint,
            })
            &&& derived_address(pool_seeds(pool.token_a_mint@, pool.token_b_mint@), program_id@)
                matches Some((address, _)) && acc.pool.key@ == address
        },
{
}

/// Initialize on a funded pool account whose record is already initialized
/// never settles, and once the account checks, the address and the owner
/// pass, it fails with `AlreadyInitialized`.
pub proof fn lemma_initialize_only_once(program_id: [u8; 32], acc: RequestAccounts, data: Seq<u8>)
    requires
        payload_well_formed(data),
        data[0] == 0,
        acc.pool.lamports > 0,
        record_well_formed(acc.pool.data@),
        stored_pool(acc.pool.data@).is_initialized,
    ensures
        process_result(program_id, acc, data) is Err,
        ({
            &&& binding_error(acc) is None
            &&& instruction_of(data) matches AmmInstruction::Initialize { token_a_mint, token_b_mint }
                && derived_address(pool_seeds(token_a_mint@, token_b_mint@), program_id@)
                matches Some((address, _)) && acc.pool.key@ == address
            &&& acc.pool.owner@ == program_id@
        }) ==> process_result(program_id, acc, data) == Err::<Plan, AmmError>(
            AmmError::AlreadyInitialized,
        ),
{
}

/// A settled AddLiquidity adds each deposited amount to its reserve and
/// records the exact product of the new reserves.
pub proof fn lemma_add_liquidity_settles_sums(program_id: [u8; 32], acc: RequestAccounts, data: Seq<u8>)
    requires
        data.len() >= 1,
        data[0] == 1,
        process_result(program_id, acc, data) matches Ok(Plan::Settle { .. }),
    ensures
        process_result(program_id, acc, data) matches Ok(Plan::Settle { pool, .. }) && {
            let stored = stored_pool(acc.pool.data@);
            instruction_of(data) matches AmmInstruction::AddLiquidity { amount_a, amount_b } && {
                &&& amount_a > 0 && amount_b > 0
                &&& pool.token_a_amount == stored.token_a_amount + amount_a
                &&& pool.token_b_amount == stored.token_b_amount + amount_b
                &&& pool.k == pool.token_a_amount * pool.token_b_amount
            }
        },
{
}

/// A settled swap never lowers the product of the reserves: where the
/// stored product was exact, the new one is at least as large.
pub proof fn lemma_swap_settles_growing_product(program_id: [u8; 32], acc: RequestAccounts, data: Seq<u8>)
    requires
        data.len() >= 1,
        data[0] == 2 || data[0] == 3,
        process_result(program_id, acc, data) matches Ok(Plan::Settle { .. }),
    ensures
        process_result(program_id, acc, data) matches Ok(Plan::Settle { pool, .. }) && {
            let stored = stored_pool(acc.pool.data@);
            &&& pool.k == pool.token_a_amount * pool.token_b_amount
            &&& pool.k >= stored.token_a_amount * stored.token_b_amount
            &&& stored.k == stored.token_a_amount * stored.token_b_amount ==> pool.k >= stored.k
        },
{
    let stored = stored_pool(acc.pool.data@);
    let ins = instruction_of(data);
    if let AmmInstruction::Swap { a_to_b, amount_in } = ins {
        let (r_in, r_out) = reserves_in_out(stored, a_to_b);
        lemma_swap_product_grows(amount_in as int, r_in as int, r_out as int);
        let out = quote(amount_in as int, r_in as int, r_out as int);
        assert(r_in * r_out == stored.token_a_amount * stored.token_b_amount) by (nonlinear_arith)
            requires
                (a_to_b && r_in == stored.token_a_amount && r_out == stored.token_b_amount) || (!a_to_b
                    && r_in == stored.token_b_amount && r_out == stored.token_a_amount),
        ;
        assert((r_in + amount_in) * (r_out - out) == (r_out - out) * (r_in + amount_in))
            by (nonlinear_arith);
    }
}

} // verus!
