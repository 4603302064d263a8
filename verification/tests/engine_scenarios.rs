//! End-to-end scenarios over the state engine and the processor's
//! decision functions, plus checks of the trusted derivations against
//! the outside crates they rely on.

use eva_liquidator::accounts::Address;
use eva_liquidator::accounts::Balance;
use eva_liquidator::accounts::Bank;
use eva_liquidator::accounts::LendingAccount;
use eva_liquidator::accounts::PriceAdapter;
use eva_liquidator::accounts::RequirementType;
use eva_liquidator::accounts::RiskTier;
use eva_liquidator::engine::BankUpdateResult;
use eva_liquidator::engine::StateEngineConfig;
use eva_liquidator::engine::StateEngineService;
use eva_liquidator::engine::TokenUpdateResult;
use eva_liquidator::engine::UpdateRoute;
use eva_liquidator::fixed_point::Fixed;
use eva_liquidator::valuation;
use sha2::Digest;

const S: i128 = 281474976710656;
const BANK_DISC: u64 = 111;
const ACCT_DISC: u64 = 222;

fn addr(n: u128) -> Address {
    Address { lo: n, hi: 0 }
}

fn adapter(price: u64, conf_num: u64, conf_den: u64) -> PriceAdapter {
    let p = Fixed::from_u64(price);
    let c = Fixed::from_ratio(conf_num, conf_den);
    PriceAdapter { rt_price: p, rt_conf: c, tw_price: p, tw_conf: c }
}

fn bank(mint: Address, oracle: Address, decimals: u8, awi: (u64, u64), awm: (u64, u64)) -> Bank {
    Bank {
        mint,
        mint_decimals: decimals,
        asset_weight_init: Fixed::from_ratio(awi.0, awi.1),
        asset_weight_maint: Fixed::from_ratio(awm.0, awm.1),
        liability_weight_init: Fixed::from_u64(1),
        liability_weight_maint: Fixed::from_u64(1),
        risk_tier: RiskTier::Collateral,
        oracle_key: oracle,
        asset_share_value: Fixed::from_u64(1),
        liability_share_value: Fixed::from_u64(1),
        total_asset_shares: Fixed::from_u64(0),
        total_asset_value_init_limit: Fixed::from_u64(0),
    }
}

fn config() -> StateEngineConfig {
    StateEngineConfig {
        rpc_url: String::new(),
        yellowstone_endpoint: String::new(),
        yellowstone_x_token: None,
        marginfi_program_id: addr(1000),
        marginfi_group_address: addr(1001),
        signer_pubkey: addr(1002),
        bank_discriminator: BANK_DISC,
        marginfi_account_discriminator: ACCT_DISC,
    }
}

fn deposit_balance(bank_pk: Address, native: u64) -> Balance {
    Balance {
        active: true,
        bank_pk,
        asset_shares: Fixed::from_u64(native),
        liability_shares: Fixed::from_u64(0),
    }
}

fn liability_balance(bank_pk: Address, native: u64) -> Balance {
    Balance {
        active: true,
        bank_pk,
        asset_shares: Fixed::from_u64(0),
        liability_shares: Fixed::from_u64(native),
    }
}

/// Engine with a USDC bank, a SOL bank and a BONK bank, plus the
/// liquidator's account holding a USDC deposit.
fn standard_engine() -> (StateEngineService, Address, Address, Address, Address) {
    let usdc_bank = addr(10);
    let sol_bank = addr(11);
    let bonk_bank = addr(12);
    let liq = addr(20);
    let mut engine = StateEngineService::new(config());
    engine.install_bank(&usdc_bank, bank(addr(110), addr(210), 6, (1, 1), (1, 1)), adapter(1, 0, 1));
    engine.install_bank(&sol_bank, bank(addr(111), addr(211), 9, (8, 10), (9, 10)), adapter(100, 0, 1));
    engine.install_bank(&bonk_bank, bank(addr(112), addr(212), 5, (5, 10), (6, 10)), adapter(1, 0, 1));
    // the liquidator holds ten thousand USDC
    let acct = LendingAccount { balances: vec![deposit_balance(usdc_bank, 10_000_000_000)] };
    assert!(engine.update_marginfi_account(&liq, acct));
    (engine, usdc_bank, sol_bank, bonk_bank, liq)
}

#[test]
fn classifier_routes_by_owner_discriminator_and_tracking() {
    let (engine, _, _, _, _) = standard_engine();
    let program = addr(1000);
    let other = addr(999);
    let mut bank_data = [0u8; 16];
    bank_data[0..8].copy_from_slice(&BANK_DISC.to_le_bytes());
    let mut acct_data = [0u8; 16];
    acct_data[0..8].copy_from_slice(&ACCT_DISC.to_le_bytes());
    assert_eq!(
        engine.classify_account_update(&addr(5), &program, &bank_data),
        UpdateRoute::BankUpdate
    );
    assert_eq!(
        engine.classify_account_update(&addr(5), &program, &acct_data),
        UpdateRoute::MarginfiAccountUpdate
    );
    // a tracked oracle address routes to the oracle path
    assert_eq!(
        engine.classify_account_update(&addr(210), &other, &bank_data[..4]),
        UpdateRoute::OracleUpdate
    );
    assert_eq!(
        engine.classify_account_update(&addr(5), &other, &bank_data),
        UpdateRoute::Dropped
    );
}

#[test]
fn bank_updates_keep_oracle_and_report_new_banks() {
    let (mut engine, usdc_bank, _, _, _) = standard_engine();
    let mut changed = bank(addr(110), addr(210), 6, (1, 1), (1, 1));
    changed.total_asset_shares = Fixed::from_u64(5);
    assert_eq!(engine.update_bank(&usdc_bank, changed), BankUpdateResult::Updated);
    // an unknown bank asks for its oracle before it can be installed
    let fresh = bank(addr(113), addr(213), 6, (1, 1), (1, 1));
    assert_eq!(
        engine.update_bank(&addr(55), fresh),
        BankUpdateResult::NeedsOracle { oracle_address: addr(213) }
    );
}

#[test]
fn oracle_update_fans_out_to_sharing_banks() {
    // two banks share one oracle; a third has its own
    let shared_oracle = addr(300);
    let mut engine = StateEngineService::new(config());
    engine.install_bank(&addr(1), bank(addr(101), shared_oracle, 6, (1, 1), (1, 1)), adapter(1, 0, 1));
    engine.install_bank(&addr(2), bank(addr(102), shared_oracle, 9, (8, 10), (9, 10)), adapter(1, 0, 1));
    engine.install_bank(&addr(3), bank(addr(103), addr(301), 9, (8, 10), (9, 10)), adapter(7, 0, 1));
    let fresh = adapter(42, 0, 1);
    assert!(engine.update_oracle(&shared_oracle, fresh));
    assert_eq!(engine.banks[0].oracle_adapter.price_adapter, fresh);
    assert_eq!(engine.banks[1].oracle_adapter.price_adapter, fresh);
    assert_eq!(engine.banks[2].oracle_adapter.price_adapter, adapter(7, 0, 1));
    // an unknown oracle changes nothing
    assert!(!engine.update_oracle(&addr(999), adapter(9, 0, 1)));
}

#[test]
fn account_update_applied_twice_is_bit_identical() {
    let (mut engine, usdc_bank, sol_bank, _, _) = standard_engine();
    let acct = LendingAccount {
        balances: vec![deposit_balance(sol_bank, 5), liability_balance(usdc_bank, 3)],
    };
    assert!(engine.update_marginfi_account(&addr(77), acct.clone()));
    let once = engine.marginfi_accounts.clone();
    assert!(engine.update_marginfi_account(&addr(77), acct));
    assert_eq!(engine.marginfi_accounts, once);
}

#[test]
fn invalid_account_updates_are_dropped() {
    let (mut engine, usdc_bank, _, _, _) = standard_engine();
    let before = engine.marginfi_accounts.clone();
    // both sides populated on one balance breaks the invariant
    let bad = LendingAccount {
        balances: vec![Balance {
            active: true,
            bank_pk: usdc_bank,
            asset_shares: Fixed::from_u64(1),
            liability_shares: Fixed::from_u64(1),
        }],
    };
    assert!(!engine.update_marginfi_account(&addr(88), bad));
    assert_eq!(engine.marginfi_accounts, before);
}

#[test]
fn token_updates_parse_offsets_and_ask_for_decimals() {
    let (mut engine, _, _, _, _) = standard_engine();
    // register the account for mint 400, then stream an update for it
    engine.register_token_account(&addr(400), 5, 6);
    let mut data = [0u8; 72];
    data[0..16].copy_from_slice(&400u128.to_le_bytes());
    data[64..72].copy_from_slice(&999u64.to_le_bytes());
    let at = engine.token_accounts[0].address;
    assert_eq!(engine.update_token_account(&at, &data), TokenUpdateResult::Applied);
    assert_eq!(engine.token_accounts[0].balance, 999);
    // an unknown mint asks for decimals
    let mut data2 = [0u8; 72];
    data2[0..16].copy_from_slice(&401u128.to_le_bytes());
    data2[64..72].copy_from_slice(&7u64.to_le_bytes());
    assert_eq!(
        engine.update_token_account(&addr(9), &data2),
        TokenUpdateResult::NeedsDecimals { mint: addr(401), balance: 7 }
    );
    // undecodable data is dropped
    assert_eq!(engine.update_token_account(&addr(9), &data2[..10]), TokenUpdateResult::Dropped);
}

#[test]
fn token_account_addresses_match_the_spl_derivation() {
    let (mut engine, _, _, _, _) = standard_engine();
    let mint = addr(400);
    engine.register_token_account(&mint, 5, 6);
    let stored = engine.token_accounts[0];
    assert_eq!(stored.mint, mint);
    // recompute with the outside crate directly
    let mut wallet_bytes = [0u8; 32];
    wallet_bytes[0..16].copy_from_slice(&1002u128.to_le_bytes());
    let mut mint_bytes = [0u8; 32];
    mint_bytes[0..16].copy_from_slice(&400u128.to_le_bytes());
    let expected = spl_associated_token_account::get_associated_token_address(
        &solana_program::pubkey::Pubkey::new_from_array(wallet_bytes),
        &solana_program::pubkey::Pubkey::new_from_array(mint_bytes),
    );
    let eb = expected.to_bytes();
    assert_eq!(stored.address.lo, u128::from_le_bytes(eb[0..16].try_into().unwrap()));
    assert_eq!(stored.address.hi, u128::from_le_bytes(eb[16..32].try_into().unwrap()));
    assert_ne!(stored.address, mint);
    assert_ne!(stored.address, addr(1002));
}

#[test]
fn vault_pda_matches_the_program_derivation() {
    let bank_pk = addr(11);
    let program = addr(1000);
    let got = eva_liquidator::derivation::find_bank_vault_pda(
        &bank_pk,
        eva_liquidator::derivation::BankVaultType::Liquidity,
        &program,
    )
    .unwrap();
    let mut bank_bytes = [0u8; 32];
    bank_bytes[0..16].copy_from_slice(&11u128.to_le_bytes());
    let mut program_bytes = [0u8; 32];
    program_bytes[0..16].copy_from_slice(&1000u128.to_le_bytes());
    let expected = solana_program::pubkey::Pubkey::try_find_program_address(
        &[b"liquidity_vault", &bank_bytes],
        &solana_program::pubkey::Pubkey::new_from_array(program_bytes),
    )
    .unwrap();
    let eb = expected.0.to_bytes();
    assert_eq!(got.0.lo, u128::from_le_bytes(eb[0..16].try_into().unwrap()));
    assert_eq!(got.0.hi, u128::from_le_bytes(eb[16..32].try_into().unwrap()));
    assert_eq!(got.1, expected.1);
}

#[test]
fn liquidator_seed_matches_sha256_of_the_parts() {
    let signer = addr(1002);
    let mint = addr(400);
    let seed = eva_liquidator::derivation::get_liquidator_seed(&signer, &mint, b"token");
    assert_eq!(seed.len(), 32);
    let mut data = Vec::new();
    data.extend_from_slice(&1002u128.to_le_bytes());
    data.extend_from_slice(&0u128.to_le_bytes());
    data.extend_from_slice(&400u128.to_le_bytes());
    data.extend_from_slice(&0u128.to_le_bytes());
    data.extend_from_slice(b"token");
    let expected = sha2::Sha256::digest(&data).to_vec();
    assert_eq!(seed, expected);
    let other = eva_liquidator::derivation::get_liquidator_seed(&signer, &addr(401), b"token");
    assert_ne!(seed, other);
}

#[test]
fn installed_banks_and_token_accounts_are_tracked() {
    let (mut engine, _, _, _, _) = standard_engine();
    // every installed bank's oracle is tracked and fanned out
    assert!(engine.is_tracked_oracle(&addr(210)));
    assert!(engine.is_tracked_oracle(&addr(211)));
    assert!(engine.is_tracked_oracle(&addr(212)));
    assert!(!engine.is_tracked_oracle(&addr(999)));
    // a registered token account is tracked under its derived address
    engine.register_token_account(&addr(400), 1, 6);
    let at = engine.token_accounts[0].address;
    assert!(engine.is_tracked_token_account(&at));
    assert!(!engine.is_tracked_token_account(&addr(400)));
    let to_track = engine.get_accounts_to_track();
    assert!(to_track.contains(&addr(210)));
    assert!(to_track.contains(&at));
}
