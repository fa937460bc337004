use amm::math::swap_quote;
use amm::{
    process_instruction, AccountSnapshot, AmmError, AmmInstruction, Outcome, Pool, RequestAccounts,
    POOL_LEN,
};
use solana_program::pubkey::Pubkey;

const PROGRAM: [u8; 32] = [7u8; 32];
const MINT_A: [u8; 32] = [1u8; 32];
const MINT_B: [u8; 32] = [2u8; 32];

fn ledger() -> [u8; 32] {
    spl_token::id().to_bytes()
}

fn pool_address(a: &[u8; 32], b: &[u8; 32]) -> ([u8; 32], u8) {
    let (k, bump) =
        Pubkey::find_program_address(&[b"amm", a, b], &Pubkey::new_from_array(PROGRAM));
    (k.to_bytes(), bump)
}

fn token_account_data(mint: &[u8; 32]) -> Vec<u8> {
    let mut data = vec![0u8; 165];
    data[..32].copy_from_slice(mint);
    data[108] = 1;
    data
}

fn snapshot(key: u8, owner: [u8; 32], is_signer: bool, data: Vec<u8>) -> AccountSnapshot {
    AccountSnapshot { key: [key; 32], owner, is_signer, lamports: 1_000_000, data }
}

fn stored(pool: &Pool) -> Vec<u8> {
    pool.encode()
}

fn live_pool(a: u128, b: u128) -> Pool {
    Pool {
        is_initialized: true,
        token_a_mint: MINT_A,
        token_b_mint: MINT_B,
        token_a_amount: a,
        token_b_amount: b,
        k: a * b,
    }
}

fn accounts(pool_data: Vec<u8>) -> RequestAccounts {
    let (address, _) = pool_address(&MINT_A, &MINT_B);
    RequestAccounts {
        user: snapshot(10, [0u8; 32], true, vec![]),
        pool: AccountSnapshot {
            key: address,
            owner: PROGRAM,
            is_signer: false,
            lamports: 1_000_000,
            data: pool_data,
        },
        pool_token_a: snapshot(11, ledger(), false, token_account_data(&MINT_A)),
        pool_token_b: snapshot(12, ledger(), false, token_account_data(&MINT_B)),
        user_authority_a: snapshot(13, [0u8; 32], true, vec![]),
        user_authority_b: snapshot(14, [0u8; 32], true, vec![]),
        user_token_a: snapshot(15, ledger(), false, token_account_data(&MINT_A)),
        user_token_b: snapshot(16, ledger(), false, token_account_data(&MINT_B)),
        token_program: snapshot(0, [0u8; 32], false, vec![]),
    }
}

fn with_ledger_key(mut acc: RequestAccounts) -> RequestAccounts {
    acc.token_program.key = ledger();
    acc
}

fn request_accounts(pool_data: Vec<u8>) -> RequestAccounts {
    with_ledger_key(accounts(pool_data))
}

fn init_payload(a: &[u8; 32], b: &[u8; 32]) -> Vec<u8> {
    let mut data = vec![0u8];
    data.extend_from_slice(a);
    data.extend_from_slice(b);
    data
}

fn add_payload(a: u128, b: u128) -> Vec<u8> {
    let mut data = vec![1u8];
    data.extend_from_slice(&a.to_le_bytes());
    data.extend_from_slice(&b.to_le_bytes());
    data
}

fn swap_payload(opcode: u8, amount: u128) -> Vec<u8> {
    let mut data = vec![opcode];
    data.extend_from_slice(&amount.to_le_bytes());
    data
}

fn expect_err(r: Result<Outcome, AmmError>) -> AmmError {
    match r {
        Err(e) => e,
        Ok(_) => panic!("expected an error"),
    }
}

fn expect_settle(r: Result<Outcome, AmmError>) -> amm::Settlement {
    match r {
        Ok(Outcome::Settle(s)) => s,
        Ok(Outcome::Bootstrap { .. }) => panic!("unexpected bootstrap"),
        Err(e) => panic!("unexpected error {:?}", e),
    }
}

#[test]
fn swap_scenario_one_thousand_in() {
    let pool = live_pool(1_000_000, 1_000_000);
    let acc = request_accounts(stored(&pool));
    let s = expect_settle(process_instruction(&PROGRAM, &acc, &swap_payload(2, 1_000)));
    assert_eq!(s.pool.token_a_amount, 1_001_000);
    assert_eq!(s.pool.token_b_amount, 999_004);
    assert_eq!(s.pool.k, 1_001_000u128 * 999_004u128);
    assert_eq!(s.record, s.pool.encode());
    assert_eq!(s.transfers.len(), 2);
    assert_eq!(s.transfers[0].amount, 1_000);
    assert_eq!(s.transfers[0].source, [15u8; 32]);
    assert_eq!(s.transfers[0].destination, [11u8; 32]);
    assert_eq!(s.transfers[0].authority, [13u8; 32]);
    assert_eq!(s.transfers[0].pool_bump, None);
    let (address, bump) = pool_address(&MINT_A, &MINT_B);
    assert_eq!(s.transfers[1].amount, 996);
    assert_eq!(s.transfers[1].source, [12u8; 32]);
    assert_eq!(s.transfers[1].destination, [16u8; 32]);
    assert_eq!(s.transfers[1].authority, address);
    assert_eq!(s.transfers[1].pool_bump, Some(bump));
}

#[test]
fn swap_b_to_a_mirrors_reserves() {
    let pool = live_pool(1_000_000, 1_000_000);
    let acc = request_accounts(stored(&pool));
    let s = expect_settle(process_instruction(&PROGRAM, &acc, &swap_payload(3, 1_000)));
    assert_eq!(s.pool.token_a_amount, 999_004);
    assert_eq!(s.pool.token_b_amount, 1_001_000);
    assert_eq!(s.transfers[0].source, [16u8; 32]);
    assert_eq!(s.transfers[1].source, [11u8; 32]);
    assert_eq!(s.transfers[1].amount, 996);
}

#[test]
fn swap_keeps_product_growing() {
    let pool = live_pool(5_000, 7_000_000);
    let o = pool.swap(false, 123_456).unwrap();
    assert!(o.pool.k >= pool.k);
    assert_eq!(o.pool.k, o.pool.token_a_amount * o.pool.token_b_amount);
}

#[test]
fn swap_quote_closed_form() {
    assert_eq!(swap_quote(1_000, 1_000_000, 1_000_000), Ok(996));
    assert_eq!(swap_quote(10_000, 50_000, 2_000), Ok(332));
    assert_eq!(swap_quote(1, 0, 100), Err(AmmError::ArithmeticOverflow));
}

#[test]
fn swap_zero_amount_fails() {
    let pool = live_pool(1_000_000, 1_000_000);
    let acc = request_accounts(stored(&pool));
    for opcode in [2u8, 3u8] {
        let e = expect_err(process_instruction(&PROGRAM, &acc, &swap_payload(opcode, 0)));
        assert_eq!(e, AmmError::InvalidAmount);
    }
}

#[test]
fn swap_input_sum_overflow_fails() {
    let pool = live_pool(u128::MAX - 10, 1);
    assert_eq!(pool.swap(true, 1_000), Err(AmmError::ArithmeticOverflow));
}

#[test]
fn swap_output_zero_is_insufficient_liquidity() {
    let pool = live_pool(1_000_000, 1);
    assert_eq!(pool.swap(true, 1_000), Err(AmmError::InsufficientLiquidity));
}

#[test]
fn swap_amount_beyond_transfer_width_fails() {
    let pool = live_pool(1_000_000, 1_000_000);
    assert_eq!(
        pool.swap(true, u64::MAX as u128 + 1),
        Err(AmmError::AmountTooLarge)
    );
}

#[test]
fn swap_fee_product_overflow_fails() {
    let pool = live_pool(1_000_000, 1_000_000);
    assert_eq!(pool.swap(true, u128::MAX / 2), Err(AmmError::ArithmeticOverflow));
}

#[test]
fn add_liquidity_adds_reserves() {
    let pool = live_pool(100, 200);
    let acc = request_accounts(stored(&pool));
    let s = expect_settle(process_instruction(&PROGRAM, &acc, &add_payload(50, 70)));
    assert_eq!(s.pool.token_a_amount, 150);
    assert_eq!(s.pool.token_b_amount, 270);
    assert_eq!(s.pool.k, 150 * 270);
    assert_eq!(s.transfers.len(), 2);
    assert_eq!(s.transfers[0].amount, 50);
    assert_eq!(s.transfers[0].destination, [11u8; 32]);
    assert_eq!(s.transfers[1].amount, 70);
    assert_eq!(s.transfers[1].destination, [12u8; 32]);
}

#[test]
fn add_liquidity_zero_fails_and_keeps_reserves() {
    let pool = live_pool(100, 200);
    let acc = request_accounts(stored(&pool));
    let e = expect_err(process_instruction(&PROGRAM, &acc, &add_payload(0, 70)));
    assert_eq!(e, AmmError::InvalidAmount);
    assert_eq!(Pool::decode(&acc.pool.data), Ok(pool));
    assert_eq!(pool.add_liquidity(0, 70), Err(AmmError::InvalidAmount));
}

#[test]
fn add_liquidity_too_large_fails() {
    let pool = live_pool(100, 200);
    assert_eq!(
        pool.add_liquidity(u64::MAX as u128 + 1, 1),
        Err(AmmError::AmountTooLarge)
    );
}

#[test]
fn add_liquidity_product_overflow_fails() {
    let pool = live_pool(u64::MAX as u128 * 1_000_000, u64::MAX as u128 * 1_000_000);
    assert_eq!(pool.add_liquidity(1, 1), Err(AmmError::ArithmeticOverflow));
}

#[test]
fn add_liquidity_uninitialized_fails() {
    let acc = request_accounts(stored(&Pool::default()));
    let e = expect_err(process_instruction(&PROGRAM, &acc, &add_payload(1, 1)));
    assert_eq!(e, AmmError::NotInitialized);
}

#[test]
fn add_liquidity_asset_mismatch_fails() {
    let pool = live_pool(100, 200);
    let mut acc = request_accounts(stored(&pool));
    acc.pool_token_b.data = token_account_data(&[9u8; 32]);
    let e = expect_err(process_instruction(&PROGRAM, &acc, &add_payload(1, 1)));
    assert_eq!(e, AmmError::AssetMismatch);
}

#[test]
fn add_liquidity_uninitialized_token_account_fails() {
    let pool = live_pool(100, 200);
    let mut acc = request_accounts(stored(&pool));
    acc.pool_token_a.data[108] = 0;
    let e = expect_err(process_instruction(&PROGRAM, &acc, &add_payload(1, 1)));
    assert_eq!(e, AmmError::InvalidTokenAccount);
}

#[test]
fn initialize_empty_account_asks_for_bootstrap() {
    let mut acc = request_accounts(vec![]);
    acc.pool.lamports = 0;
    let (_, bump) = pool_address(&MINT_A, &MINT_B);
    match process_instruction(&PROGRAM, &acc, &init_payload(&MINT_A, &MINT_B)) {
        Ok(Outcome::Bootstrap { space, bump: b }) => {
            assert_eq!(space, POOL_LEN as u64);
            assert_eq!(space, 113);
            assert_eq!(b, bump);
        }
        _ => panic!("expected bootstrap"),
    }
}

#[test]
fn initialize_records_fresh_pool() {
    let acc = request_accounts(vec![0u8; POOL_LEN]);
    let s = expect_settle(process_instruction(&PROGRAM, &acc, &init_payload(&MINT_A, &MINT_B)));
    assert_eq!(s.pool, Pool::initialized(MINT_A, MINT_B));
    assert!(s.pool.is_initialized);
    assert_eq!(s.pool.token_a_amount, 0);
    assert_eq!(s.pool.token_b_amount, 0);
    assert_eq!(s.pool.k, 0);
    assert!(s.transfers.is_empty());
    assert_eq!(s.record.len(), POOL_LEN);
    assert_eq!(s.record[0], 1);
}

#[test]
fn initialize_twice_fails() {
    let pool = live_pool(0, 0);
    let acc = request_accounts(stored(&pool));
    let e = expect_err(process_instruction(&PROGRAM, &acc, &init_payload(&MINT_A, &MINT_B)));
    assert_eq!(e, AmmError::AlreadyInitialized);
}

#[test]
fn initialize_wrong_address_fails() {
    let acc = request_accounts(vec![0u8; POOL_LEN]);
    let e = expect_err(process_instruction(&PROGRAM, &acc, &init_payload(&MINT_B, &MINT_A)));
    assert_eq!(e, AmmError::AddressMismatch);
}

#[test]
fn initialize_pool_owned_elsewhere_fails() {
    let mut acc = request_accounts(vec![0u8; POOL_LEN]);
    acc.pool.owner = [3u8; 32];
    let e = expect_err(process_instruction(&PROGRAM, &acc, &init_payload(&MINT_A, &MINT_B)));
    assert_eq!(e, AmmError::WrongProgramId);
}

#[test]
fn reserve_owner_must_be_ledger() {
    let mut acc = request_accounts(vec![0u8; POOL_LEN]);
    acc.pool_token_a.owner = [3u8; 32];
    let e = expect_err(process_instruction(&PROGRAM, &acc, &add_payload(1, 1)));
    assert_eq!(e, AmmError::InvalidAccountOwner);
}

#[test]
fn user_token_owner_must_be_ledger() {
    let mut acc = request_accounts(vec![0u8; POOL_LEN]);
    acc.user_token_b.owner = [3u8; 32];
    let e = expect_err(process_instruction(&PROGRAM, &acc, &add_payload(1, 1)));
    assert_eq!(e, AmmError::InvalidAccountOwner);
}

#[test]
fn caller_must_sign() {
    let mut acc = request_accounts(vec![0u8; POOL_LEN]);
    acc.user.is_signer = false;
    let e = expect_err(process_instruction(&PROGRAM, &acc, &add_payload(1, 1)));
    assert_eq!(e, AmmError::MissingSignature);
}

#[test]
fn authority_must_sign() {
    let mut acc = request_accounts(vec![0u8; POOL_LEN]);
    acc.user_authority_b.is_signer = false;
    let e = expect_err(process_instruction(&PROGRAM, &acc, &add_payload(1, 1)));
    assert_eq!(e, AmmError::MissingSignature);
}

#[test]
fn ledger_program_must_match() {
    let acc = accounts(vec![0u8; POOL_LEN]);
    let e = expect_err(process_instruction(&PROGRAM, &acc, &add_payload(1, 1)));
    assert_eq!(e, AmmError::WrongProgramId);
}

#[test]
fn malformed_payloads_fail() {
    let acc = request_accounts(stored(&live_pool(10, 10)));
    let bad: Vec<Vec<u8>> = vec![
        vec![],
        vec![4u8; 17],
        vec![0u8; 64],
        vec![1u8; 32],
        vec![2u8; 18],
        vec![3u8; 16],
    ];
    for data in bad {
        let e = expect_err(process_instruction(&PROGRAM, &acc, &data));
        assert_eq!(e, AmmError::MalformedPayload);
    }
}

#[test]
fn corrupt_record_fails() {
    let mut data = stored(&live_pool(10, 10));
    data[0] = 2;
    let acc = request_accounts(data);
    let e = expect_err(process_instruction(&PROGRAM, &acc, &add_payload(1, 1)));
    assert_eq!(e, AmmError::InvalidRecord);
    assert_eq!(Pool::decode(&[1u8; 112]), Err(AmmError::InvalidRecord));
}

#[test]
fn record_round_trip() {
    let pool = Pool {
        is_initialized: true,
        token_a_mint: MINT_A,
        token_b_mint: [0xabu8; 32],
        token_a_amount: 0x0102_0304_0506_0708_090a_0b0c_0d0e_0f10,
        token_b_amount: u128::MAX,
        k: 12_345,
    };
    let bytes = pool.encode();
    assert_eq!(bytes.len(), POOL_LEN);
    assert_eq!(bytes[0], 1);
    assert_eq!(&bytes[1..33], &MINT_A);
    assert_eq!(bytes[65], 0x10);
    assert_eq!(bytes[80], 0x01);
    assert_eq!(&bytes[97..99], &[0x39, 0x30]);
    let back = Pool::decode(&bytes).unwrap();
    assert_eq!(back, pool);
    assert_eq!(back.encode(), bytes);
}

#[test]
fn decode_instruction_payloads() {
    assert_eq!(
        AmmInstruction::decode(&init_payload(&MINT_A, &MINT_B)),
        Ok(AmmInstruction::Initialize { token_a_mint: MINT_A, token_b_mint: MINT_B })
    );
    assert_eq!(
        AmmInstruction::decode(&add_payload(5, 1 << 100)),
        Ok(AmmInstruction::AddLiquidity { amount_a: 5, amount_b: 1 << 100 })
    );
    assert_eq!(
        AmmInstruction::decode(&swap_payload(3, 258)),
        Ok(AmmInstruction::Swap { a_to_b: false, amount_in: 258 })
    );
}

#[test]
fn default_pool_is_empty() {
    let p = Pool::default();
    assert!(!p.is_initialized);
    assert_eq!(p.encode(), vec![0u8; POOL_LEN]);
}
