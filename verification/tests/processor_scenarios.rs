//! Scenarios over the processor: health monotonicity, free collateral,
//! dust handling, rebalance steps, candidate selection and liquidation
//! sizing with exact fixed-point expectations.

use eva_liquidator::accounts::Address;
use eva_liquidator::accounts::Balance;
use eva_liquidator::accounts::Bank;
use eva_liquidator::accounts::LendingAccount;
use eva_liquidator::accounts::PriceAdapter;
use eva_liquidator::accounts::RequirementType;
use eva_liquidator::accounts::RiskTier;
use eva_liquidator::engine::StateEngineConfig;
use eva_liquidator::engine::StateEngineService;
use eva_liquidator::fixed_point::Fixed;
use eva_liquidator::processor::EvaLiquidator;
use eva_liquidator::processor::EvaLiquidatorCfg;
use eva_liquidator::processor::ProcessorError;
use eva_liquidator::valuation;
use std::str::FromStr;

const S: i128 = 281474976710656;


/// Decodes a base58 account address into the library's limb form.
fn address_of_base58(s: &str) -> Address {
    let b = solana_program::pubkey::Pubkey::from_str(s).unwrap().to_bytes();
    Address {
        lo: u128::from_le_bytes(b[0..16].try_into().unwrap()),
        hi: u128::from_le_bytes(b[16..32].try_into().unwrap()),
    }
}

fn addr(n: u128) -> Address {
    Address { lo: n, hi: 0 }
}

fn adapter(price: u64, conf_num: u64, conf_den: u64) -> PriceAdapter {
    let p = Fixed::from_u64(price);
    let c = Fixed::from_ratio(conf_num, conf_den);
    PriceAdapter { rt_price: p, rt_conf: c, tw_price: p, tw_conf: c }
}

fn bank(mint: Address, oracle: Address, decimals: u8, awi: (u64, u64), awm: (u64, u64)) -> Bank {
    Bank {
        mint,
        mint_decimals: decimals,
        asset_weight_init: Fixed::from_ratio(awi.0, awi.1),
        asset_weight_maint: Fixed::from_ratio(awm.0, awm.1),
        liability_weight_init: Fixed::from_u64(1),
        liability_weight_maint: Fixed::from_u64(1),
        risk_tier: RiskTier::Collateral,
        oracle_key: oracle,
        asset_share_value: Fixed::from_u64(1),
        liability_share_value: Fixed::from_u64(1),
        total_asset_shares: Fixed::from_u64(0),
        total_asset_value_init_limit: Fixed::from_u64(0),
    }
}

fn config() -> StateEngineConfig {
    StateEngineConfig {
        rpc_url: String::new(),
        yellowstone_endpoint: String::new(),
        yellowstone_x_token: None,
        marginfi_program_id: addr(1000),
        marginfi_group_address: addr(1001),
        signer_pubkey: addr(1002),
        bank_discriminator: 111,
        marginfi_account_discriminator: 222,
    }
}

fn deposit_balance(bank_pk: Address, native: u64) -> Balance {
    Balance {
        active: true,
        bank_pk,
        asset_shares: Fixed::from_u64(native),
        liability_shares: Fixed::from_u64(0),
    }
}

fn liability_balance(bank_pk: Address, native: u64) -> Balance {
    Balance {
        active: true,
        bank_pk,
        asset_shares: Fixed::from_u64(0),
        liability_shares: Fixed::from_u64(native),
    }
}

fn cfg(liquidator_account: Address, usdc_mint: Address) -> EvaLiquidatorCfg {
    EvaLiquidatorCfg {
        keypair_path: String::new(),
        liquidator_account,
        token_account_dust_threshold: EvaLiquidatorCfg::default_token_account_dust_threshold(),
        max_sol_balance: EvaLiquidatorCfg::default_max_sol_balance(),
        preferred_mints: vec![usdc_mint],
        swap_mint: usdc_mint,
        jup_swap_api_url: EvaLiquidatorCfg::default_jup_swap_api_url(),
        slippage_bps: EvaLiquidatorCfg::default_slippage_bps(),
        compute_unit_price_micro_lamports:
            EvaLiquidatorCfg::default_compute_unit_price_micro_lamports(),
    }
}

const USDC_BANK: u128 = 10;
const SOL_BANK: u128 = 11;
const BONK_BANK: u128 = 12;
const LIQ: u128 = 20;
const USDC_MINT: u128 = 110;
const SOL_MINT: u128 = 111;
const BONK_MINT: u128 = 112;

fn standard_engine() -> StateEngineService {
    let mut engine = StateEngineService::new(config());
    engine.install_bank(
        &addr(USDC_BANK),
        bank(addr(USDC_MINT), addr(210), 6, (1, 1), (1, 1)),
        adapter(1, 0, 1),
    );
    engine.install_bank(
        &addr(SOL_BANK),
        bank(addr(SOL_MINT), addr(211), 9, (8, 10), (9, 10)),
        adapter(100, 0, 1),
    );
    engine.install_bank(
        &addr(BONK_BANK),
        bank(addr(BONK_MINT), addr(212), 5, (5, 10), (6, 10)),
        adapter(1, 0, 1),
    );
    let liq_acct = LendingAccount { balances: vec![deposit_balance(addr(USDC_BANK), 10_000_000_000)] };
    assert!(engine.update_marginfi_account(&addr(LIQ), liq_acct));
    engine
}

fn processor(engine: &StateEngineService) -> EvaLiquidator {
    EvaLiquidator::new(engine, cfg(addr(LIQ), addr(USDC_MINT))).unwrap()
}

#[test]
fn setup_fails_without_the_liquidator_account() {
    let engine = standard_engine();
    let r = EvaLiquidator::new(&engine, cfg(addr(9999), addr(USDC_MINT)));
    assert!(matches!(r, Err(ProcessorError::SetupFailed)));
    let r2 = EvaLiquidator::new(&engine, cfg(addr(LIQ), addr(9999)));
    assert!(matches!(r2, Err(ProcessorError::BankNotFound)));
}

#[test]
fn health_is_monotone_across_requirements() {
    let mut engine = standard_engine();
    // widen the SOL confidence band so the biases actually differ
    engine.update_oracle(&addr(211), adapter(100, 1, 1));
    let acct = LendingAccount {
        balances: vec![
            deposit_balance(addr(SOL_BANK), 1_000_000_000),
            liability_balance(addr(USDC_BANK), 50_000_000),
        ],
    };
    let (ae, le) = valuation::calc_health(&acct, &engine.banks, RequirementType::Equity).unwrap();
    let (am, lm) =
        valuation::calc_health(&acct, &engine.banks, RequirementType::Maintenance).unwrap();
    let (ai, li) = valuation::calc_health(&acct, &engine.banks, RequirementType::Initial).unwrap();
    assert!(ae.bits >= am.bits && am.bits >= ai.bits);
    assert!(le.bits <= lm.bits && lm.bits <= li.bits);
    // one exact value: equity assets are one SOL at the midpoint price
    assert_eq!(ae.bits, 100 * S);
}

#[test]
fn isolated_risk_tier_contributes_no_collateral() {
    let mut engine = standard_engine();
    let mut iso = bank(addr(113), addr(213), 9, (8, 10), (9, 10));
    iso.risk_tier = RiskTier::Isolated;
    engine.install_bank(&addr(13), iso, adapter(100, 0, 1));
    let acct = LendingAccount { balances: vec![deposit_balance(addr(13), 1_000_000_000)] };
    for req in [RequirementType::Equity, RequirementType::Maintenance, RequirementType::Initial] {
        let (a, l) = valuation::calc_health(&acct, &engine.banks, req).unwrap();
        assert_eq!(a.bits, 0);
        assert_eq!(l.bits, 0);
    }
}

#[test]
fn init_discount_applies_only_past_the_threshold() {
    let mut engine = standard_engine();
    // a bank with unit weights, a 500 USD limit, and 1000 USD deposited
    let mut capped = bank(addr(114), addr(214), 6, (1, 1), (1, 1));
    capped.total_asset_value_init_limit = Fixed::from_u64(500);
    capped.total_asset_shares = Fixed::from_u64(1_000_000_000);
    engine.install_bank(&addr(14), capped, adapter(1, 0, 1));
    let acct = LendingAccount { balances: vec![deposit_balance(addr(14), 100_000_000)] };
    let (maint, _) =
        valuation::calc_health(&acct, &engine.banks, RequirementType::Maintenance).unwrap();
    let (init, _) = valuation::calc_health(&acct, &engine.banks, RequirementType::Initial).unwrap();
    // the 100 USD deposit is discounted by limit/total = one half
    assert_eq!(maint.bits, 100 * S);
    assert_eq!(init.bits, 50 * S);
    // below the limit the initial weight applies unchanged
    let mut uncapped = capped;
    uncapped.total_asset_shares = Fixed::from_u64(400_000_000);
    engine.install_bank(&addr(14), uncapped, adapter(1, 0, 1));
    let (init2, _) =
        valuation::calc_health(&acct, &engine.banks, RequirementType::Initial).unwrap();
    assert_eq!(init2.bits, 100 * S);
}

#[test]
fn free_collateral_is_never_negative() {
    let mut engine = standard_engine();
    // an underwater liquidator: 100 USDC deposit, 500 USDC owed
    let acct = LendingAccount {
        balances: vec![
            deposit_balance(addr(USDC_BANK), 100_000_000),
            liability_balance(addr(SOL_BANK), 5_000_000_000),
        ],
    };
    assert!(engine.update_marginfi_account(&addr(LIQ), acct));
    let p = processor(&engine);
    let fc = p.get_free_collateral(&engine).unwrap();
    assert_eq!(fc.bits, 0);
    // the healthy liquidator has exactly its deposit as headroom
    let engine2 = standard_engine();
    let p2 = processor(&engine2);
    assert_eq!(p2.get_free_collateral(&engine2).unwrap().bits, 10_000 * S);
}

#[test]
fn dust_threshold_is_strict() {
    // value of one native unit at price 1 with two decimals is exactly
    // the default dust threshold: floor(2^48 / 100)
    let mut engine = standard_engine();
    engine.install_bank(
        &addr(15),
        bank(addr(115), addr(215), 2, (1, 1), (1, 1)),
        adapter(1, 0, 1),
    );
    let p = processor(&engine);
    engine.register_token_account(&addr(115), 1, 2);
    assert_eq!(p.handle_token_in_token_account(&engine, &addr(15)).unwrap(), None);
    assert!(!p.has_tokens_in_token_accounts(&engine));
    // one more unit crosses the threshold
    engine.register_token_account(&addr(115), 2, 2);
    let act = p.handle_token_in_token_account(&engine, &addr(15)).unwrap().unwrap();
    assert_eq!(act.amount, 2);
    assert_eq!(act.input_mint, addr(115));
    assert_eq!(act.output_mint, addr(USDC_MINT));
    assert!(p.has_tokens_in_token_accounts(&engine));
}

#[test]
fn rebalance_swaps_sol_then_deposits_usdc() {
    let mut engine = standard_engine();
    let p = processor(&engine);
    // half a SOL in the SOL token account, worth fifty dollars
    engine.register_token_account(&addr(SOL_MINT), 500_000_000, 9);
    assert!(p.needs_to_be_rebalanced(&engine));
    let swap = p.handle_token_in_token_account(&engine, &addr(SOL_BANK)).unwrap().unwrap();
    assert_eq!(swap.amount, 500_000_000);
    assert_eq!(swap.input_mint, addr(SOL_MINT));
    assert_eq!(swap.output_mint, addr(USDC_MINT));
    assert_eq!(swap.slippage_bps, 250);
    // once the swap lands as fifty USDC, the deposit clears the account
    engine.register_token_account(&addr(SOL_MINT), 0, 9);
    engine.register_token_account(&addr(USDC_MINT), 50_000_000, 6);
    let dep = p.deposit_preferred_tokens(&engine).unwrap();
    assert_eq!(dep.bank, addr(USDC_BANK));
    assert_eq!(dep.amount.bits, 50_000_000 * S);
}

#[test]
fn rebalance_is_idle_when_nothing_qualifies() {
    let engine = standard_engine();
    let p = processor(&engine);
    assert!(!p.needs_to_be_rebalanced(&engine));
    assert!(p.non_preferred_deposit_banks(&engine).is_empty());
    assert_eq!(p.deposit_preferred_tokens(&engine), None);
    assert_eq!(p.liquidator_account.get_liabilities(), Vec::<Address>::new());
}

#[test]
fn non_preferred_deposits_are_listed_for_unwinding() {
    let mut engine = standard_engine();
    let acct = LendingAccount {
        balances: vec![
            deposit_balance(addr(USDC_BANK), 10_000_000_000),
            deposit_balance(addr(SOL_BANK), 1_000_000_000),
        ],
    };
    assert!(engine.update_marginfi_account(&addr(LIQ), acct));
    let p = processor(&engine);
    assert!(p.has_non_preferred_deposits(&engine));
    assert_eq!(p.non_preferred_deposit_banks(&engine), vec![addr(SOL_BANK)]);
    let w = p.withdraw_step(&engine, &addr(SOL_BANK)).unwrap();
    assert_eq!(w.bank, addr(SOL_BANK));
    // the whole position fits inside free collateral, so it closes;
    // the withdrawn amount carries the 0.8 initial weight
    assert!(w.withdraw_all);
    assert_eq!(w.amount.bits, 225179981368524 * 1_000_000_000);
}

#[test]
fn healthy_scan_issues_no_liquidation() {
    let mut engine = standard_engine();
    for i in 0..100u128 {
        let acct = LendingAccount {
            balances: vec![deposit_balance(addr(SOL_BANK), 1_000_000_000 + i as u64)],
        };
        assert!(engine.update_marginfi_account(&addr(5000 + i), acct));
    }
    let p = processor(&engine);
    assert_eq!(p.select_liquidation_candidate(&engine), None);
}

#[test]
fn underwater_target_is_selected_and_sized() {
    let mut engine = standard_engine();
    // target: ten SOL deposited, 950 USDC owed
    let target = LendingAccount {
        balances: vec![
            deposit_balance(addr(SOL_BANK), 10_000_000_000),
            liability_balance(addr(USDC_BANK), 950_000_000),
        ],
    };
    assert!(engine.update_marginfi_account(&addr(777), target));
    let p = processor(&engine);
    let (who, amount, profit) = p.select_liquidation_candidate(&engine).unwrap();
    assert_eq!(who, addr(777));
    // the full deficit closes within the ten-SOL holding
    assert_eq!(amount.bits, 2814749767106400000000000);
    assert_eq!(profit.bits, 7036874417765600);
    // sizing against the liquidator's own capacity, with the safety margin
    let idx = eva_liquidator::processor::find_account(&engine.marginfi_accounts, &addr(777))
        .unwrap();
    let act = p
        .liquidation_plan(&engine.marginfi_accounts[idx], &engine, &addr(SOL_BANK), &addr(USDC_BANK))
        .unwrap();
    assert_eq!(act.target, addr(777));
    assert_eq!(act.asset_bank, addr(SOL_BANK));
    assert_eq!(act.liab_bank, addr(USDC_BANK));
    assert_eq!(act.asset_amount.bits, 2758454771764263200000000);
}

#[test]
fn max_borrow_uses_only_the_second_term_at_zero_weight() {
    let mut engine = standard_engine();
    // a bank whose deposits cannot collateralize: zero initial weight
    engine.install_bank(
        &addr(16),
        bank(addr(116), addr(216), 6, (0, 1), (1, 2)),
        adapter(1, 0, 1),
    );
    let p = processor(&engine);
    // free collateral is 10,000; nothing is tied to this bank, so the
    // whole headroom converts at the high price and unit liability weight
    let mb = p.get_max_borrow_for_bank(&engine, &addr(16)).unwrap();
    assert_eq!(mb.bits, 10_000_000_000 * S);
}

#[test]
fn error_variants_have_witnesses() {
    let engine = standard_engine();
    let p = processor(&engine);
    // an unknown bank
    assert!(matches!(
        p.get_value(
            Fixed::from_u64(1),
            &addr(9999),
            RequirementType::Equity,
            eva_liquidator::accounts::BalanceSide::Assets,
            &engine,
        ),
        Err(ProcessorError::BankNotFound)
    ));
    // a valuation that leaves the fixed-point range
    assert!(matches!(
        p.get_amount(Fixed::from_bits(i128::MAX), &addr(USDC_BANK), None, &engine),
        Err(ProcessorError::MathError)
    ));
    // an account with a liability but no deposit has no candidate pair
    let acct = eva_liquidator::accounts::MarginfiAccountWrapper::new(
        addr(55),
        LendingAccount { balances: vec![liability_balance(addr(USDC_BANK), 100_000_000)] },
    );
    assert!(matches!(
        eva_liquidator::processor::find_liquidation_bank_candidates(&acct, &engine),
        Err(ProcessorError::NoCandidate)
    ));
}

#[test]
fn repay_plan_covers_the_shortfall_via_the_swap_mint() {
    let mut engine = standard_engine();
    // the liquidator owes one SOL and holds none of it
    let acct = LendingAccount {
        balances: vec![
            deposit_balance(addr(USDC_BANK), 10_000_000_000),
            liability_balance(addr(SOL_BANK), 1_000_000_000),
        ],
    };
    assert!(engine.update_marginfi_account(&addr(LIQ), acct));
    let p = processor(&engine);
    assert_eq!(p.liquidator_account.get_liabilities(), vec![addr(SOL_BANK)]);
    let plan = p.repay_liability(&engine, &addr(SOL_BANK)).unwrap().unwrap();
    assert_eq!(plan.repay_bank, addr(SOL_BANK));
    assert!(plan.repay_all);
    assert_eq!(plan.repay_amount.bits, 1_000_000_000 * S);
    // one SOL at a hundred dollars needs a hundred USDC
    let swap = plan.swap.unwrap();
    assert_eq!(swap.amount, 100_000_000);
    assert_eq!(swap.input_mint, addr(USDC_MINT));
    assert_eq!(swap.output_mint, addr(SOL_MINT));
    let w = plan.withdraw.unwrap();
    assert_eq!(w.bank, addr(USDC_BANK));
    assert_eq!(w.amount.bits, 100_000_000 * S);
    // a bank where nothing is owed needs no plan
    assert_eq!(p.repay_liability(&engine, &addr(BONK_BANK)).unwrap(), None);
}

#[test]
fn unwinding_a_deposit_clears_bank_and_swap_balance() {
    let mut engine = standard_engine();
    let acct = LendingAccount {
        balances: vec![
            deposit_balance(addr(USDC_BANK), 10_000_000_000),
            deposit_balance(addr(SOL_BANK), 1_000_000_000),
        ],
    };
    assert!(engine.update_marginfi_account(&addr(LIQ), acct));
    let p = processor(&engine);
    let w = p.withdraw_step(&engine, &addr(SOL_BANK)).unwrap();
    assert!(w.withdraw_all);
    // the chain closes the balance and credits the token account
    let after_withdraw = LendingAccount {
        balances: vec![deposit_balance(addr(USDC_BANK), 10_000_000_000)],
    };
    assert!(engine.update_marginfi_account(&addr(LIQ), after_withdraw));
    engine.register_token_account(&addr(SOL_MINT), 800_000_000, 9);
    let p = processor(&engine);
    // the whole credited balance is swapped into the swap mint
    let swap = p.handle_token_in_token_account(&engine, &addr(SOL_BANK)).unwrap().unwrap();
    assert_eq!(swap.amount, 800_000_000);
    engine.register_token_account(&addr(SOL_MINT), 0, 9);
    engine.register_token_account(&addr(USDC_MINT), 80_000_000, 6);
    // the whole swap-mint balance is deposited
    let dep = p.deposit_preferred_tokens(&engine).unwrap();
    assert_eq!(dep.amount.bits, 80_000_000 * S);
    engine.register_token_account(&addr(USDC_MINT), 0, 6);
    let after_deposit = LendingAccount {
        balances: vec![deposit_balance(addr(USDC_BANK), 10_080_000_000)],
    };
    assert!(engine.update_marginfi_account(&addr(LIQ), after_deposit));
    // nothing of the unwound position remains anywhere
    let p = processor(&engine);
    assert_eq!(p.liquidator_account.get_balance_for_bank(&addr(SOL_BANK)), None);
    assert_eq!(p.get_token_balance_native(&engine, &addr(USDC_BANK)), Some(0));
    assert!(!p.needs_to_be_rebalanced(&engine));
}

#[test]
fn eligibility_follows_the_maintenance_comparison() {
    let engine = standard_engine();
    // ten SOL at weight 0.9 back 950 USDC owed: 900 < 950, eligible
    let underwater = LendingAccount {
        balances: vec![
            deposit_balance(addr(SOL_BANK), 10_000_000_000),
            liability_balance(addr(USDC_BANK), 950_000_000),
        ],
    };
    assert!(valuation::account_is_eligible_for_liquidation(&underwater, &engine.banks).unwrap());
    // the same deposit against 850 USDC owed is safe
    let safe = LendingAccount {
        balances: vec![
            deposit_balance(addr(SOL_BANK), 10_000_000_000),
            liability_balance(addr(USDC_BANK), 850_000_000),
        ],
    };
    assert!(!valuation::account_is_eligible_for_liquidation(&safe, &engine.banks).unwrap());
}

#[test]
fn default_mints_match_their_base58_addresses() {
    let usdc = address_of_base58("EPjFWdd5AufqSSqeM2qN1xzybapC8G4wEGGkZwyTDt1v");
    let usdt = address_of_base58("Es9vMFrzaCERmJfrF4H2FYD4KCoNkY11McCe8BenwNYB");
    assert_eq!(EvaLiquidatorCfg::default_swap_mint(), usdc);
    let preferred = EvaLiquidatorCfg::default_preferred_mints();
    assert_eq!(preferred, vec![usdc, usdt]);
}

#[test]
fn repay_plan_withdraws_only_the_uncovered_difference() {
    let mut engine = standard_engine();
    // one SOL owed; forty of the hundred required USDC already held
    let acct = LendingAccount {
        balances: vec![
            deposit_balance(addr(USDC_BANK), 10_000_000_000),
            liability_balance(addr(SOL_BANK), 1_000_000_000),
        ],
    };
    assert!(engine.update_marginfi_account(&addr(LIQ), acct));
    engine.register_token_account(&addr(USDC_MINT), 40_000_000, 6);
    let p = processor(&engine);
    let plan = p.repay_liability(&engine, &addr(SOL_BANK)).unwrap().unwrap();
    // the swap still needs the full hundred USDC
    assert_eq!(plan.swap.unwrap().amount, 100_000_000);
    // the withdraw covers only what the held balance does not
    assert_eq!(plan.withdraw.unwrap().amount.bits, 60_000_000 * S);
    // once the held tokens cover the whole debt, neither step is planned
    engine.register_token_account(&addr(SOL_MINT), 1_000_000_000, 9);
    let p = processor(&engine);
    let covered = p.repay_liability(&engine, &addr(SOL_BANK)).unwrap().unwrap();
    assert_eq!(covered.withdraw, None);
    assert_eq!(covered.swap, None);
    assert!(covered.repay_all);
}
