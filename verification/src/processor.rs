//! Decision functions of the liquidator loop: the rebalance predicate,
//! per-step rebalance plans, withdraw and borrow sizing, candidate
//! selection and liquidation sizing.
//!
//! Each function reads the engine state and returns a plan value; the
//! surrounding loop submits transactions and feeds confirmed state back
//! through the engine.

use vstd::prelude::*;
use crate::fixed_point::Fixed;
use crate::fixed_point::SCALE;
use crate::fixed_point::mul_bits;
use crate::fixed_point::div_bits;
use crate::fixed_point::fits_i128;
use crate::accounts::Address;
use crate::accounts::Balance;
use crate::accounts::BalanceSide;
use crate::accounts::BankWrapper;
use crate::accounts::MarginfiAccountWrapper;
use crate::accounts::OraclePriceType;
use crate::accounts::PriceBias;
use crate::accounts::RequirementType;
use crate::accounts::bank_lookup_spec;
use crate::accounts::find_bank;
use crate::accounts::find_bank_for_mint;
use crate::accounts::first_bank_for_mint_spec;
use crate::engine::StateEngineService;
use crate::engine::token_lookup_spec;
use crate::valuation;
use crate::valuation::ValuationError;
use crate::valuation::calc_amount_spec;
use crate::valuation::calc_weighted_assets;
use crate::valuation::calc_weighted_liabs;
use crate::valuation::health_spec;
use crate::valuation::weighted_assets_spec;
use crate::valuation::weighted_liabs_spec;

verus! {

/// Failures of the processor's decision functions.
#[derive(Clone, Copy, PartialEq, Eq, Structural, Debug)]
pub enum ProcessorError {
    /// The configured liquidator account or swap bank is missing.
    SetupFailed,
    /// A balance or request names a bank the engine does not hold.
    BankNotFound,
    /// A valuation left the fixed-point range.
    MathError,
    /// No balance qualifies for the requested selection.
    NoCandidate,
}

/// Static configuration of the liquidator.
pub struct EvaLiquidatorCfg {
    pub keypair_path: String,
    pub liquidator_account: Address,
    pub token_account_dust_threshold: Fixed,
    pub max_sol_balance: Fixed,
    pub preferred_mints: Vec<Address>,
    pub swap_mint: Address,
    pub jup_swap_api_url: String,
    pub slippage_bps: u16,
    pub compute_unit_price_micro_lamports: u64,
}

impl EvaLiquidatorCfg {
    /// One cent, in fixed-point USD.
    pub fn default_token_account_dust_threshold() -> (r: Fixed)
        ensures
            r.v() == SCALE / 100,
    {
        Fixed::from_ratio(1, 100)
    }

    pub fn default_max_sol_balance() -> (r: Fixed)
        ensures
            r.v() == SCALE,
    {
        Fixed::from_u64(1)
    }

    /// The USDC mint address.
    pub fn default_swap_mint() -> (r: Address)
        ensures
            r == (Address {
                lo: 65738568574496699805876393164525992646u128,
                hi: 129418957939906822851699979667271629745u128,
            }),
    {
        Address {
            lo: 65738568574496699805876393164525992646u128,
            hi: 129418957939906822851699979667271629745u128,
        }
    }

    /// The USDC and USDT mint addresses.
    pub fn default_preferred_mints() -> (r: Vec<Address>)
        ensures
            r@.len() == 2,
            r@[0] == EvaLiquidatorCfg::default_swap_mint_spec(),
            r@[1] == (Address {
                lo: 119736073011801171880729184932989895118u128,
                hi: 133598449648023154167758349070147163711u128,
            }),
    {
        let mut r: Vec<Address> = Vec::new();
        r.push(
            Address {
                lo: 65738568574496699805876393164525992646u128,
                hi: 129418957939906822851699979667271629745u128,
            },
        );
        r.push(
            Address {
                lo: 119736073011801171880729184932989895118u128,
                hi: 133598449648023154167758349070147163711u128,
            },
        );
        r
    }

    /// The USDC mint address, for contracts.
    pub open spec fn default_swap_mint_spec() -> Address {
        Address {
            lo: 65738568574496699805876393164525992646u128,
            hi: 129418957939906822851699979667271629745u128,
        }
    }

    pub fn default_jup_swap_api_url() -> (r: String) {
        "https://quote-api.jup.ag/v6".to_string()
    }

    pub fn default_slippage_bps() -> (r: u16)
        ensures
            r == 250,
    {
        250
    }

    pub fn default_compute_unit_price_micro_lamports() -> (r: u64)
        ensures
            r == 10000,
    {
        10000
    }
}

/// A swap the loop should submit to the aggregator.
#[derive(Clone, Copy, PartialEq, Eq, Structural, Debug)]
pub struct SwapAction {
    pub amount: u64,
    pub input_mint: Address,
    pub output_mint: Address,
    pub slippage_bps: u16,
    pub compute_unit_price_micro_lamports: u64,
}

/// A withdrawal from the liquidator's lending account.
#[derive(Clone, Copy, PartialEq, Eq, Structural, Debug)]
pub struct WithdrawAction {
    pub bank: Address,
    pub amount: Fixed,
    pub withdraw_all: bool,
}

/// A deposit into the liquidator's lending account.
#[derive(Clone, Copy, PartialEq, Eq, Structural, Debug)]
pub struct DepositAction {
    pub bank: Address,
    pub amount: Fixed,
}

/// A liquidation the loop should submit.
#[derive(Clone, Copy, PartialEq, Eq, Structural, Debug)]
pub struct LiquidateAction {
    pub target: Address,
    pub asset_bank: Address,
    pub liab_bank: Address,
    pub asset_amount: Fixed,
}

/// The liquidator: its lending account snapshot and configuration.
pub struct EvaLiquidator {
    pub liquidator_account: MarginfiAccountWrapper,
    pub cfg: EvaLiquidatorCfg,
    pub preferred_mints: Vec<Address>,
    pub swap_mint_bank_pk: Address,
}

/// The native balance the bot holds in the token account for a bank's
/// mint, if the bank and the token account are known.
pub open spec fn token_balance_spec(engine: StateEngineService, bank_pk: Address) -> Option<u64> {
    match bank_lookup_spec(engine.banks@, bank_pk) {
        None => None,
        Some(bw) => match token_lookup_spec(engine.token_accounts@, bw.bank.mint) {
            None => None,
            Some(t) => Some(t.balance),
        },
    }
}

/// Equity value of one of the bot's token accounts, priced by the first
/// bank of its mint.
pub open spec fn token_account_value_spec(
    engine: StateEngineService,
    t: crate::accounts::TokenAccountWrapper,
) -> Option<int> {
    match first_bank_for_mint_spec(engine.banks@, t.mint) {
        None => None,
        Some(bw) => weighted_assets_spec(bw, t.balance * (SCALE as int), RequirementType::Equity),
    }
}

/// Whether some token account holds value strictly above the dust
/// threshold; holdings that cannot be valued do not count.
pub open spec fn has_tokens_spec(engine: StateEngineService, dust: int) -> bool {
    exists|i: int|
        0 <= i < engine.token_accounts@.len() && match token_account_value_spec(
            engine,
            #[trigger] engine.token_accounts@[i],
        ) {
            Some(v) => v > dust,
            None => false,
        }
}

/// Whether the liquidator holds an active deposit whose bank's mint is
/// not preferred.
pub open spec fn has_non_preferred_deposits_spec(
    engine: StateEngineService,
    acct: MarginfiAccountWrapper,
    preferred: Seq<Address>,
) -> bool {
    exists|i: int|
        0 <= i < acct.account.balances@.len() && (#[trigger] acct.account.balances@[i]).active
            && acct.account.balances@[i].side_spec() == Some(BalanceSide::Assets) && match
            bank_lookup_spec(engine.banks@, acct.account.balances@[i].bank_pk) {
            Some(bw) => !preferred.contains(bw.bank.mint),
            None => false,
        }
}


/// The banks of the liquidator's active deposits whose bank's mint is
/// not preferred: the filtered projection of its balances, in account
/// order with multiplicity.
pub open spec fn non_preferred_banks_seq_spec(
    engine: StateEngineService,
    balances: Seq<Balance>,
    preferred: Seq<Address>,
) -> Seq<Address> {
    balances.filter(
        |b: Balance|
            b.active && b.side_spec() == Some(BalanceSide::Assets) && (match bank_lookup_spec(
                engine.banks@,
                b.bank_pk,
            ) {
                Some(bw) => !preferred.contains(bw.bank.mint),
                None => false,
            }),
    ).map_values(|b: Balance| b.bank_pk)
}

/// The rebalance predicate: tokens above dust, a non-preferred deposit,
/// or any liability.
pub open spec fn needs_rebalance_spec(
    engine: StateEngineService,
    acct: MarginfiAccountWrapper,
    preferred: Seq<Address>,
    dust: int,
) -> bool {
    has_tokens_spec(engine, dust) || has_non_preferred_deposits_spec(engine, acct, preferred)
        || acct.has_liabs_spec()
}

impl EvaLiquidator {
    /// Builds the processor: locates the configured liquidator lending
    /// account and the bank of the swap mint.
    pub fn new(engine: &StateEngineService, cfg: EvaLiquidatorCfg) -> (r: Result<
        EvaLiquidator,
        ProcessorError,
    >)
        requires
            engine.wf(),
        ensures
            match r {
                Ok(p) => {
                    &&& (crate::engine::account_lookup_spec(
                        engine.marginfi_accounts@,
                        cfg.liquidator_account,
                    ) matches Some(w) && p.liquidator_account.address == w.address
                        && p.liquidator_account.account.balances@ == w.account.balances@)
                    &&& first_bank_for_mint_spec(engine.banks@, cfg.swap_mint) matches Some(bw)
                        && bw.address == p.swap_mint_bank_pk
                    &&& p.preferred_mints@ == cfg.preferred_mints@
                },
                Err(ProcessorError::SetupFailed) => crate::engine::account_lookup_spec(
                    engine.marginfi_accounts@,
                    cfg.liquidator_account,
                ) is None,
                Err(ProcessorError::BankNotFound) => first_bank_for_mint_spec(
                    engine.banks@,
                    cfg.swap_mint,
                ) is None,
                Err(_) => false,
            },
    {
        let account = match find_account(&engine.marginfi_accounts, &cfg.liquidator_account) {
            Some(i) => copy_account(&engine.marginfi_accounts[i]),
            None => {
                return Err(ProcessorError::SetupFailed);
            },
        };
        let swap_bank = match find_bank_for_mint(&engine.banks, &cfg.swap_mint) {
            Some(i) => engine.banks[i].address,
            None => {
                return Err(ProcessorError::BankNotFound);
            },
        };
        let mut preferred: Vec<Address> = Vec::new();
        let n = cfg.preferred_mints.len();
        let mut i: usize = 0;
        while i < n
            invariant
                n == cfg.preferred_mints@.len(),
                i <= n,
                preferred@ =~= cfg.preferred_mints@.subrange(0, i as int),
            decreases n - i,
        {
            preferred.push(cfg.preferred_mints[i]);
            proof {
                assert(cfg.preferred_mints@.subrange(0, i + 1) =~= cfg.preferred_mints@.subrange(
                    0,
                    i as int,
                ).push(cfg.preferred_mints@[i as int]));
            }
            i = i + 1;
        }
        proof {
            assert(cfg.preferred_mints@.subrange(0, n as int) =~= cfg.preferred_mints@);
        }
        Ok(
            EvaLiquidator {
                liquidator_account: account,
                cfg,
                preferred_mints: preferred,
                swap_mint_bank_pk: swap_bank,
            },
        )
    }

    /// Native token balance held for a bank's mint, as a fixed-point
    /// amount.
    pub fn get_token_balance_for_bank(&self, engine: &StateEngineService, bank_pk: &Address) -> (r:
        Option<Fixed>)
        requires
            engine.wf(),
        ensures
            match r {
                Some(f) => token_balance_spec(*engine, *bank_pk) matches Some(b) && f.v() == b
                    * SCALE,
                None => token_balance_spec(*engine, *bank_pk) is None,
            },
    {
        match self.get_token_balance_native(engine, bank_pk) {
            Some(b) => Some(Fixed::from_u64(b)),
            None => None,
        }
    }

    /// Native token balance held for a bank's mint.
    pub fn get_token_balance_native(&self, engine: &StateEngineService, bank_pk: &Address) -> (r:
        Option<u64>)
        requires
            engine.wf(),
        ensures
            r == token_balance_spec(*engine, *bank_pk),
    {
        let bw = match engine.get_bank(bank_pk) {
            Some(b) => b,
            None => {
                return None;
            },
        };
        match find_token(&engine.token_accounts, &bw.bank.mint) {
            Some(i) => Some(engine.token_accounts[i].balance),
            None => None,
        }
    }

    /// Risk-weighted USD value of a native amount against a bank.
    pub fn get_value(
        &self,
        amount: Fixed,
        bank_pk: &Address,
        requirement_type: RequirementType,
        side: BalanceSide,
        engine: &StateEngineService,
    ) -> (r: Result<Fixed, ProcessorError>)
        requires
            engine.wf(),
        ensures
            match r {
                Ok(f) => bank_lookup_spec(engine.banks@, *bank_pk) matches Some(bw) && (match side {
                    BalanceSide::Assets => weighted_assets_spec(bw, amount.v(), requirement_type)
                        == Some(f.v()),
                    BalanceSide::Liabilities => weighted_liabs_spec(
                        bw,
                        amount.v(),
                        requirement_type,
                    ) == Some(f.v()),
                }),
                Err(ProcessorError::BankNotFound) => bank_lookup_spec(engine.banks@, *bank_pk)
                    is None,
                Err(ProcessorError::MathError) => bank_lookup_spec(engine.banks@, *bank_pk)
                    matches Some(bw) && (match side {
                    BalanceSide::Assets => weighted_assets_spec(bw, amount.v(), requirement_type)
                        is None,
                    BalanceSide::Liabilities => weighted_liabs_spec(
                        bw,
                        amount.v(),
                        requirement_type,
                    ) is None,
                }),
                Err(_) => false,
            },
    {
        let bw = match engine.get_bank(bank_pk) {
            Some(b) => b,
            None => {
                return Err(ProcessorError::BankNotFound);
            },
        };
        proof {
            lemma_engine_bank_wf(*engine, *bank_pk);
        }
        let value = match side {
            BalanceSide::Assets => calc_weighted_assets(&bw, amount, requirement_type),
            BalanceSide::Liabilities => calc_weighted_liabs(&bw, amount, requirement_type),
        };
        match value {
            Some(v) => Ok(v),
            None => Err(ProcessorError::MathError),
        }
    }

    /// Native amount a USD value buys at the bank's real-time price
    /// under the given bias.
    pub fn get_amount(
        &self,
        value: Fixed,
        bank_pk: &Address,
        price_bias: Option<PriceBias>,
        engine: &StateEngineService,
    ) -> (r: Result<Fixed, ProcessorError>)
        requires
            engine.wf(),
        ensures
            match r {
                Ok(f) => bank_lookup_spec(engine.banks@, *bank_pk) matches Some(bw)
                    && calc_amount_spec(
                    value.v(),
                    bw.oracle_adapter.price_adapter.price_of_type_spec(
                        OraclePriceType::RealTime,
                        price_bias,
                    ),
                    bw.bank.mint_decimals as nat,
                ) == Some(f.v()),
                Err(ProcessorError::BankNotFound) => bank_lookup_spec(engine.banks@, *bank_pk)
                    is None,
                Err(ProcessorError::MathError) => bank_lookup_spec(engine.banks@, *bank_pk)
                    matches Some(bw) && calc_amount_spec(
                    value.v(),
                    bw.oracle_adapter.price_adapter.price_of_type_spec(
                        OraclePriceType::RealTime,
                        price_bias,
                    ),
                    bw.bank.mint_decimals as nat,
                ) is None,
                Err(_) => false,
            },
    {
        let bw = match engine.get_bank(bank_pk) {
            Some(b) => b,
            None => {
                return Err(ProcessorError::BankNotFound);
            },
        };
        proof {
            lemma_engine_bank_wf(*engine, *bank_pk);
        }
        let price = bw.oracle_adapter.price_adapter.get_price_of_type(
            OraclePriceType::RealTime,
            price_bias,
        );
        match valuation::calc_amount(value, price, bw.bank.mint_decimals) {
            Some(a) => Ok(a),
            None => Err(ProcessorError::MathError),
        }
    }

    /// `max(0, weighted assets - weighted liabilities)` of the
    /// liquidator's account under the initial requirement: the USD
    /// headroom for new withdrawals or borrows.  Never negative.
    pub fn get_free_collateral(&self, engine: &StateEngineService) -> (r: Result<
        Fixed,
        ProcessorError,
    >)
        requires
            engine.wf(),
        ensures
            match r {
                Ok(f) => f.v() >= 0 && (health_spec(
                    self.liquidator_account.account.balances@,
                    engine.banks@,
                    RequirementType::Initial,
                    self.liquidator_account.account.balances@.len() as int,
                ) matches Ok((a, l)) && f.v() == if a > l {
                    a - l
                } else {
                    0
                }),
                Err(ProcessorError::BankNotFound) => health_spec(
                    self.liquidator_account.account.balances@,
                    engine.banks@,
                    RequirementType::Initial,
                    self.liquidator_account.account.balances@.len() as int,
                ) == Err::<(int, int), ValuationError>(ValuationError::BankNotFound),
                Err(ProcessorError::MathError) => health_spec(
                    self.liquidator_account.account.balances@,
                    engine.banks@,
                    RequirementType::Initial,
                    self.liquidator_account.account.balances@.len() as int,
                ) == Err::<(int, int), ValuationError>(ValuationError::MathError) || (health_spec(
                    self.liquidator_account.account.balances@,
                    engine.banks@,
                    RequirementType::Initial,
                    self.liquidator_account.account.balances@.len() as int,
                ) matches Ok((a, l)) && a > l && !fits_i128(a - l)),
                Err(_) => false,
            },
    {
        match valuation::calc_health(
            &self.liquidator_account.account,
            &engine.banks,
            RequirementType::Initial,
        ) {
            Ok((assets, liabs)) => {
                if assets.bits > liabs.bits {
                    match assets.checked_sub(liabs) {
                        Some(f) => Ok(f),
                        None => Err(ProcessorError::MathError),
                    }
                } else {
                    Ok(Fixed::zero())
                }
            },
            Err(ValuationError::BankNotFound) => Err(ProcessorError::BankNotFound),
            Err(ValuationError::MathError) => Err(ProcessorError::MathError),
        }
    }
}

/// Every bank entry of a well-formed engine is itself well-formed.
pub proof fn lemma_engine_bank_wf(engine: StateEngineService, pk: Address)
    requires
        engine.wf(),
    ensures
        bank_lookup_spec(engine.banks@, pk) matches Some(bw) ==> bw.wf(),
{
    if bank_lookup_spec(engine.banks@, pk) is Some {
        let i = choose|i: int|
            0 <= i < engine.banks@.len() && (#[trigger] engine.banks@[i]).address == pk;
        assert(engine.banks@[i].wf());
    }
}

/// A field-wise copy of a lending-account wrapper.
pub fn copy_account(a: &MarginfiAccountWrapper) -> (r: MarginfiAccountWrapper)
    ensures
        r.address == a.address,
        r.account.balances@ == a.account.balances@,
{
    let n = a.account.balances.len();
    let mut balances: Vec<crate::accounts::Balance> = Vec::new();
    let mut i: usize = 0;
    while i < n
        invariant
            n == a.account.balances@.len(),
            i <= n,
            balances@ =~= a.account.balances@.subrange(0, i as int),
        decreases n - i,
    {
        balances.push(a.account.balances[i]);
        proof {
            assert(a.account.balances@.subrange(0, i + 1) =~= a.account.balances@.subrange(
                0,
                i as int,
            ).push(a.account.balances@[i as int]));
        }
        i = i + 1;
    }
    proof {
        assert(a.account.balances@.subrange(0, n as int) =~= a.account.balances@);
    }
    MarginfiAccountWrapper {
        address: a.address,
        account: crate::accounts::LendingAccount { balances },
    }
}

/// Index of the lending account stored under an address.
pub fn find_account(accounts: &Vec<MarginfiAccountWrapper>, pk: &Address) -> (r: Option<usize>)
    requires
        crate::engine::unique_account_addresses(accounts@),
    ensures
        match r {
            Some(i) => i < accounts@.len() && accounts@[i as int].address == *pk
                && crate::engine::account_lookup_spec(accounts@, *pk) == Some(
                accounts@[i as int],
            ),
            None => crate::engine::account_lookup_spec(accounts@, *pk) is None,
        },
{
    let n = accounts.len();
    let mut i: usize = 0;
    while i < n
        invariant
            crate::engine::unique_account_addresses(accounts@),
            n == accounts@.len(),
            i <= n,
            forall|j: int| 0 <= j < i ==> (#[trigger] accounts@[j]).address != *pk,
        decreases n - i,
    {
        if accounts[i].address == *pk {
            proof {
                let w = choose|j: int|
                    0 <= j < accounts@.len() && (#[trigger] accounts@[j]).address == *pk;
                assert(accounts@[i as int].address == *pk);
                assert(accounts@[w].address == *pk);
                crate::engine::lemma_unique_account_index(accounts@, i as int, w, *pk);
            }
            return Some(i);
        }
        i = i + 1;
    }
    None
}

/// Index of the token account stored under a mint.
pub fn find_token(tokens: &Vec<crate::accounts::TokenAccountWrapper>, mint: &Address) -> (r:
    Option<usize>)
    requires
        crate::engine::unique_token_mints(tokens@),
    ensures
        match r {
            Some(i) => i < tokens@.len() && tokens@[i as int].mint == *mint && token_lookup_spec(
                tokens@,
                *mint,
            ) == Some(tokens@[i as int]),
            None => token_lookup_spec(tokens@, *mint) is None,
        },
{
    let n = tokens.len();
    let mut i: usize = 0;
    while i < n
        invariant
            crate::engine::unique_token_mints(tokens@),
            n == tokens@.len(),
            i <= n,
            forall|j: int| 0 <= j < i ==> (#[trigger] tokens@[j]).mint != *mint,
        decreases n - i,
    {
        if tokens[i].mint == *mint {
            proof {
                let w = choose|j: int|
                    0 <= j < tokens@.len() && (#[trigger] tokens@[j]).mint == *mint;
                assert(tokens@[i as int].mint == *mint);
                assert(tokens@[w].mint == *mint);
                crate::engine::lemma_unique_token_index(tokens@, i as int, w, *mint);
            }
            return Some(i);
        }
        i = i + 1;
    }
    None
}

impl EvaLiquidator {
    /// Whether some token account holds value strictly above the dust
    /// threshold.
    pub fn has_tokens_in_token_accounts(&self, engine: &StateEngineService) -> (r: bool)
        requires
            engine.wf(),
        ensures
            r == has_tokens_spec(*engine, self.cfg.token_account_dust_threshold.v()),
    {
        let n = engine.token_accounts.len();
        let mut i: usize = 0;
        while i < n
            invariant
                engine.wf(),
                n == engine.token_accounts@.len(),
                i <= n,
                forall|j: int|
                    0 <= j < i ==> !(match token_account_value_spec(
                        *engine,
                        #[trigger] engine.token_accounts@[j],
                    ) {
                        Some(v) => v > self.cfg.token_account_dust_threshold.v(),
                        None => false,
                    }),
            decreases n - i,
        {
            let t = engine.token_accounts[i];
            match find_bank_for_mint(&engine.banks, &t.mint) {
                Some(bi) => {
                    let bw = engine.banks[bi];
                    proof {
                        assert(engine.banks@[bi as int].wf());
                    }
                    match calc_weighted_assets(
                        &bw,
                        Fixed::from_u64(t.balance),
                        RequirementType::Equity,
                    ) {
                        Some(v) => {
                            if v.bits > self.cfg.token_account_dust_threshold.bits {
                                return true;
                            }
                        },
                        None => {},
                    }
                },
                None => {},
            }
            i = i + 1;
        }
        false
    }

    /// Whether the liquidator holds an active deposit in a bank whose
    /// mint is not preferred.
    pub fn has_non_preferred_deposits(&self, engine: &StateEngineService) -> (r: bool)
        requires
            engine.wf(),
        ensures
            r == has_non_preferred_deposits_spec(
                *engine,
                self.liquidator_account,
                self.preferred_mints@,
            ),
    {
        let n = self.liquidator_account.account.balances.len();
        let mut i: usize = 0;
        while i < n
            invariant
                engine.wf(),
                n == self.liquidator_account.account.balances@.len(),
                i <= n,
                forall|j: int|
                    0 <= j < i ==> !((#[trigger] self.liquidator_account.account.balances@[j]).active
                        && self.liquidator_account.account.balances@[j].side_spec() == Some(
                        BalanceSide::Assets,
                    ) && (match bank_lookup_spec(
                        engine.banks@,
                        self.liquidator_account.account.balances@[j].bank_pk,
                    ) {
                        Some(bw) => !self.preferred_mints@.contains(bw.bank.mint),
                        None => false,
                    })),
            decreases n - i,
        {
            let b = self.liquidator_account.account.balances[i];
            if b.active && matches!(b.get_side(), Some(BalanceSide::Assets)) {
                match find_bank(&engine.banks, &b.bank_pk) {
                    Some(bi) => {
                        let mint = engine.banks[bi].bank.mint;
                        if !crate::engine::contains_address(&self.preferred_mints, &mint) {
                            return true;
                        }
                    },
                    None => {},
                }
            }
            i = i + 1;
        }
        false
    }

    /// Whether the liquidator owes anything.
    pub fn has_liabilities(&self) -> (r: bool)
        ensures
            r == self.liquidator_account.has_liabs_spec(),
    {
        self.liquidator_account.has_liabs()
    }

    /// The rebalance predicate: tokens above dust, a non-preferred
    /// deposit, or a liability.
    pub fn needs_to_be_rebalanced(&self, engine: &StateEngineService) -> (r: bool)
        requires
            engine.wf(),
        ensures
            r == needs_rebalance_spec(
                *engine,
                self.liquidator_account,
                self.preferred_mints@,
                self.cfg.token_account_dust_threshold.v(),
            ),
    {
        self.has_tokens_in_token_accounts(engine) || self.has_non_preferred_deposits(engine)
            || self.has_liabilities()
    }

    /// The swap that clears a bank's token account into the swap mint,
    /// when its equity value is strictly above the dust threshold.
    /// Value at or below the threshold, or a missing account, yields no
    /// action.
    pub fn handle_token_in_token_account(&self, engine: &StateEngineService, bank_pk: &Address)
        -> (r: Result<Option<SwapAction>, ProcessorError>)
        requires
            engine.wf(),
        ensures
            match r {
                Ok(None) => token_balance_spec(*engine, *bank_pk) is None || (
                token_balance_spec(*engine, *bank_pk) matches Some(b) && (bank_lookup_spec(
                    engine.banks@,
                    *bank_pk,
                ) matches Some(bw) && (match weighted_assets_spec(
                    bw,
                    b * (SCALE as int),
                    RequirementType::Equity,
                ) {
                    Some(v) => v <= self.cfg.token_account_dust_threshold.v(),
                    None => false,
                }))),
                Ok(Some(a)) => token_balance_spec(*engine, *bank_pk) matches Some(b) && (
                bank_lookup_spec(engine.banks@, *bank_pk) matches Some(bw) && (
                weighted_assets_spec(bw, b * (SCALE as int), RequirementType::Equity)
                    matches Some(v) && v > self.cfg.token_account_dust_threshold.v() && a == (
                SwapAction {
                    amount: b,
                    input_mint: bw.bank.mint,
                    output_mint: self.cfg.swap_mint,
                    slippage_bps: self.cfg.slippage_bps,
                    compute_unit_price_micro_lamports: self.cfg.compute_unit_price_micro_lamports,
                }))),
                Err(ProcessorError::MathError) => token_balance_spec(*engine, *bank_pk)
                    matches Some(b) && (bank_lookup_spec(engine.banks@, *bank_pk) matches Some(bw)
                    && weighted_assets_spec(bw, b * (SCALE as int), RequirementType::Equity)
                    is None),
                Err(_) => false,
            },
    {
        let balance = match self.get_token_balance_native(engine, bank_pk) {
            Some(b) => b,
            None => {
                return Ok(None);
            },
        };
        let bw = match engine.get_bank(bank_pk) {
            Some(b) => b,
            None => {
                return Ok(None);
            },
        };
        proof {
            lemma_engine_bank_wf(*engine, *bank_pk);
        }
        let value = match calc_weighted_assets(
            &bw,
            Fixed::from_u64(balance),
            RequirementType::Equity,
        ) {
            Some(v) => v,
            None => {
                return Err(ProcessorError::MathError);
            },
        };
        if value.bits <= self.cfg.token_account_dust_threshold.bits {
            return Ok(None);
        }
        Ok(
            Some(
                SwapAction {
                    amount: balance,
                    input_mint: bw.bank.mint,
                    output_mint: self.cfg.swap_mint,
                    slippage_bps: self.cfg.slippage_bps,
                    compute_unit_price_micro_lamports: self.cfg.compute_unit_price_micro_lamports,
                },
            ),
        )
    }

    /// The deposit that moves the whole swap-mint token balance into the
    /// swap bank; nothing to deposit yields no action.  The planned
    /// amount is the entire balance, so the account is empty once the
    /// deposit lands.
    pub fn deposit_preferred_tokens(&self, engine: &StateEngineService) -> (r: Option<
        DepositAction,
    >)
        requires
            engine.wf(),
        ensures
            match r {
                Some(a) => token_balance_spec(*engine, self.swap_mint_bank_pk) matches Some(b) && b
                    > 0 && a == (DepositAction {
                    bank: self.swap_mint_bank_pk,
                    amount: Fixed { bits: (b * SCALE) as i128 },
                }),
                None => token_balance_spec(*engine, self.swap_mint_bank_pk) is None || (
                token_balance_spec(*engine, self.swap_mint_bank_pk) == Some(0u64)),
            },
    {
        let balance = match self.get_token_balance_native(engine, &self.swap_mint_bank_pk) {
            Some(b) => b,
            None => {
                return None;
            },
        };
        if balance == 0 {
            return None;
        }
        Some(
            DepositAction {
                bank: self.swap_mint_bank_pk,
                amount: Fixed::from_u64(balance),
            },
        )
    }

    /// Banks of the liquidator's active deposits whose mint is not
    /// preferred: exactly the filtered projection of its balances, in
    /// account order.  These are the positions the rebalance phase
    /// unwinds, one withdraw-swap-deposit pass each.
    pub fn non_preferred_deposit_banks(&self, engine: &StateEngineService) -> (r: Vec<Address>)
        requires
            engine.wf(),
        ensures
            r@ == non_preferred_banks_seq_spec(
                *engine,
                self.liquidator_account.account.balances@,
                self.preferred_mints@,
            ),
            r@.len() > 0 <==> has_non_preferred_deposits_spec(
                *engine,
                self.liquidator_account,
                self.preferred_mints@,
            ),
    {
        let n = self.liquidator_account.account.balances.len();
        let mut r: Vec<Address> = Vec::new();
        let mut i: usize = 0;
        proof {
            assert(self.liquidator_account.account.balances@.subrange(0, 0)
                =~= Seq::<Balance>::empty());
            reveal(Seq::filter);
        }
        while i < n
            invariant
                engine.wf(),
                n == self.liquidator_account.account.balances@.len(),
                i <= n,
                r@ == non_preferred_banks_seq_spec(
                    *engine,
                    self.liquidator_account.account.balances@.subrange(0, i as int),
                    self.preferred_mints@,
                ),
                r@.len() > 0 <==> (exists|m: int|
                    0 <= m < i && (#[trigger] self.liquidator_account.account.balances@[m]).active
                        && self.liquidator_account.account.balances@[m].side_spec() == Some(
                        BalanceSide::Assets,
                    ) && (match bank_lookup_spec(
                        engine.banks@,
                        self.liquidator_account.account.balances@[m].bank_pk,
                    ) {
                        Some(bw) => !self.preferred_mints@.contains(bw.bank.mint),
                        None => false,
                    })),
            decreases n - i,
        {
            let b = self.liquidator_account.account.balances[i];
            proof {
                assert(self.liquidator_account.account.balances@.subrange(0, i + 1)
                    =~= self.liquidator_account.account.balances@.subrange(0, i as int).push(
                    self.liquidator_account.account.balances@[i as int],
                ));
                crate::accounts::lemma_filter_push(
                    self.liquidator_account.account.balances@.subrange(0, i as int),
                    self.liquidator_account.account.balances@[i as int],
                    |x: Balance|
                        x.active && x.side_spec() == Some(BalanceSide::Assets) && (match
                        bank_lookup_spec(engine.banks@, x.bank_pk) {
                            Some(bw) => !self.preferred_mints@.contains(bw.bank.mint),
                            None => false,
                        }),
                );
            }
            let mut keep = false;
            if b.active && matches!(b.get_side(), Some(BalanceSide::Assets)) {
                match find_bank(&engine.banks, &b.bank_pk) {
                    Some(bi) => {
                        let mint = engine.banks[bi].bank.mint;
                        if !crate::engine::contains_address(&self.preferred_mints, &mint) {
                            keep = true;
                        }
                    },
                    None => {},
                }
            }
            if keep {
                r.push(b.bank_pk);
            }
            proof {
                assert(r@ =~= non_preferred_banks_seq_spec(
                    *engine,
                    self.liquidator_account.account.balances@.subrange(0, i + 1),
                    self.preferred_mints@,
                ));
            }
            i = i + 1;
        }
        proof {
            assert(self.liquidator_account.account.balances@.subrange(0, n as int)
                =~= self.liquidator_account.account.balances@);
        }
        r
    }
}

/// When the rebalance predicate is off, every rebalance step is a
/// no-op: there is no non-preferred deposit to unwind, no token account
/// above dust to swap, and no liability to repay.  Running the
/// rebalance phase twice without an intervening update therefore
/// performs no on-chain action the second time.
pub proof fn lemma_rebalance_idempotent(
    engine: StateEngineService,
    p: EvaLiquidator,
    bank_pk: Address,
)
    requires
        engine.wf(),
        !needs_rebalance_spec(
            engine,
            p.liquidator_account,
            p.preferred_mints@,
            p.cfg.token_account_dust_threshold.v(),
        ),
    ensures
        !has_non_preferred_deposits_spec(engine, p.liquidator_account, p.preferred_mints@),
        !p.liquidator_account.has_liabs_spec(),
        !has_tokens_spec(engine, p.cfg.token_account_dust_threshold.v()),
{
}

/// Protocol liquidation discount taken off the seized collateral:
/// five percent in fixed-point bits.
pub const LIQUIDATION_FEE_BITS: i128 = 14073748835532;

/// The liquidator's share of the discount: two and a half percent in
/// fixed-point bits.
pub const LIQUIDATOR_PROFIT_BITS: i128 = 7036874417766;

/// Safety margin applied to the final seizure amount: ninety-eight
/// percent in fixed-point bits.
pub const SLIPPAGE_FACTOR_BITS: i128 = 275845477176442;

/// Free collateral of an account: `max(0, assets - liabs)` under the
/// initial requirement, when the difference is representable.
pub open spec fn free_collateral_spec(acct: MarginfiAccountWrapper, banks: Seq<BankWrapper>)
    -> Result<int, ProcessorError> {
    match health_spec(
        acct.account.balances@,
        banks,
        RequirementType::Initial,
        acct.account.balances@.len() as int,
    ) {
        Err(ValuationError::BankNotFound) => Err(ProcessorError::BankNotFound),
        Err(ValuationError::MathError) => Err(ProcessorError::MathError),
        Ok((a, l)) => if a > l {
            if fits_i128(a - l) {
                Ok(a - l)
            } else {
                Err(ProcessorError::MathError)
            }
        } else {
            Ok(0)
        },
    }
}

/// Sizing of a withdrawal from one bank: the initial-weighted deposit
/// value capped by free collateral, converted back to a native amount
/// at the low real-time price; the flag says the whole position fits.
pub open spec fn max_withdraw_spec(
    engine: StateEngineService,
    acct: MarginfiAccountWrapper,
    bank_pk: Address,
    fc: int,
) -> Result<(int, bool), ProcessorError> {
    match acct.balance_for_bank_spec(bank_pk) {
        Some((shares, BalanceSide::Assets)) => match bank_lookup_spec(engine.banks@, bank_pk) {
            None => Err(ProcessorError::BankNotFound),
            Some(bw) => {
                let amt = mul_bits(shares.v(), bw.bank.asset_share_value.v());
                if !fits_i128(amt) {
                    Err(ProcessorError::MathError)
                } else {
                    match weighted_assets_spec(bw, amt, RequirementType::Initial) {
                        None => Err(ProcessorError::MathError),
                        Some(v) => {
                            let w = if v <= fc {
                                v
                            } else {
                                fc
                            };
                            match calc_amount_spec(
                                w,
                                bw.oracle_adapter.price_adapter.price_of_type_spec(
                                    OraclePriceType::RealTime,
                                    Some(PriceBias::Low),
                                ),
                                bw.bank.mint_decimals as nat,
                            ) {
                                None => Err(ProcessorError::MathError),
                                Some(a) => Ok((a, v <= fc)),
                            }
                        },
                    }
                }
            },
        },
        _ => Ok((0, false)),
    }
}

/// Sizing of a borrow against one bank.  Collateral already tied to the
/// bank converts at the low time-weighted price and the initial asset
/// weight; the rest of the free collateral converts at the high
/// time-weighted price and the initial liability weight.  With a zero
/// initial asset weight only the second term applies, plus the existing
/// native deposit.
pub open spec fn max_borrow_spec(
    engine: StateEngineService,
    acct: MarginfiAccountWrapper,
    bank_pk: Address,
    fc: int,
) -> Result<int, ProcessorError> {
    match bank_lookup_spec(engine.banks@, bank_pk) {
        None => Err(ProcessorError::BankNotFound),
        Some(bw) => {
            let shares = match acct.balance_for_bank_spec(bank_pk) {
                Some((s, BalanceSide::Assets)) => s.v(),
                _ => 0,
            };
            let amt = mul_bits(shares, bw.bank.asset_share_value.v());
            if !fits_i128(amt) {
                Err(ProcessorError::MathError)
            } else {
                match weighted_assets_spec(bw, amt, RequirementType::Initial) {
                    None => Err(ProcessorError::MathError),
                    Some(v) => {
                        let untied = if fc <= v {
                            fc
                        } else {
                            v
                        };
                        let pa = bw.oracle_adapter.price_adapter;
                        let pl = pa.price_of_type_spec(
                            OraclePriceType::TimeWeighted,
                            Some(PriceBias::Low),
                        );
                        let ph = pa.price_of_type_spec(
                            OraclePriceType::TimeWeighted,
                            Some(PriceBias::High),
                        );
                        let denom_a = mul_bits(pl, bw.bank.asset_weight_init.v());
                        let denom_l = mul_bits(ph, bw.bank.liability_weight_init.v());
                        if denom_l <= 0 || !fits_i128(denom_l) || !fits_i128(fc - untied) {
                            Err(ProcessorError::MathError)
                        } else {
                            let extra = div_bits(fc - untied, denom_l);
                            if !fits_i128(extra) {
                                Err(ProcessorError::MathError)
                            } else if bw.bank.asset_weight_init.v() == 0 {
                                let native = extra * pow10_int(bw.bank.mint_decimals as nat);
                                if !fits_i128(native) || !fits_i128(native + amt) {
                                    Err(ProcessorError::MathError)
                                } else {
                                    Ok(native + amt)
                                }
                            } else {
                                if denom_a <= 0 || !fits_i128(denom_a) {
                                    Err(ProcessorError::MathError)
                                } else {
                                    let tied = div_bits(untied, denom_a);
                                    if !fits_i128(tied) || !fits_i128(tied + extra) {
                                        Err(ProcessorError::MathError)
                                    } else {
                                        let native = (tied + extra) * pow10_int(
                                            bw.bank.mint_decimals as nat,
                                        );
                                        if !fits_i128(native) {
                                            Err(ProcessorError::MathError)
                                        } else {
                                            Ok(native)
                                        }
                                    }
                                }
                            }
                        }
                    },
                }
            }
        },
    }
}

/// `10^d` as an integer, for native-amount scaling.
pub open spec fn pow10_int(d: nat) -> int {
    crate::valuation::pow10_spec(d)
}

/// With a zero initial asset weight, the borrow capacity is the second
/// term of the general formula alone, plus the existing native deposit.
pub proof fn lemma_max_borrow_zero_weight(
    engine: StateEngineService,
    acct: MarginfiAccountWrapper,
    bank_pk: Address,
    fc: int,
    x: int,
)
    requires
        max_borrow_spec(engine, acct, bank_pk, fc) == Ok::<int, ProcessorError>(x),
        bank_lookup_spec(engine.banks@, bank_pk) matches Some(bw)
            && bw.bank.asset_weight_init.v() == 0,
    ensures
        bank_lookup_spec(engine.banks@, bank_pk) matches Some(bw) && {
            let shares = match acct.balance_for_bank_spec(bank_pk) {
                Some((s, BalanceSide::Assets)) => s.v(),
                _ => 0,
            };
            let amt = mul_bits(shares, bw.bank.asset_share_value.v());
            let v = weighted_assets_spec(bw, amt, RequirementType::Initial).unwrap();
            let untied = if fc <= v {
                fc
            } else {
                v
            };
            let ph = bw.oracle_adapter.price_adapter.price_of_type_spec(
                OraclePriceType::TimeWeighted,
                Some(PriceBias::High),
            );
            let denom_l = mul_bits(ph, bw.bank.liability_weight_init.v());
            x == div_bits(fc - untied, denom_l) * pow10_int(bw.bank.mint_decimals as nat) + amt
        },
{
}

impl EvaLiquidator {
    /// Withdrawal sizing for one bank, per the free-collateral cap.
    pub fn get_max_withdraw_for_bank(&self, engine: &StateEngineService, bank_pk: &Address) -> (r:
        Result<(Fixed, bool), ProcessorError>)
        requires
            engine.wf(),
            self.liquidator_account.unique_active_banks(),
        ensures
            match r {
                Ok((amt, all)) => free_collateral_spec(self.liquidator_account, engine.banks@)
                    matches Ok(fc) && max_withdraw_spec(
                    *engine,
                    self.liquidator_account,
                    *bank_pk,
                    fc,
                ) == Ok::<(int, bool), ProcessorError>((amt.v(), all)),
                Err(e) => free_collateral_spec(self.liquidator_account, engine.banks@) == Err::<
                    int,
                    ProcessorError,
                >(e) || (free_collateral_spec(self.liquidator_account, engine.banks@) matches Ok(
                    fc,
                ) && max_withdraw_spec(*engine, self.liquidator_account, *bank_pk, fc) == Err::<
                    (int, bool),
                    ProcessorError,
                >(e)),
            },
    {
        let fc = match self.get_free_collateral(engine) {
            Ok(f) => f,
            Err(e) => {
                return Err(e);
            },
        };
        let (shares, side) = match self.liquidator_account.get_balance_for_bank(bank_pk) {
            Some((s, side)) => (s, side),
            None => {
                return Ok((Fixed::zero(), false));
            },
        };
        if matches!(side, BalanceSide::Liabilities) {
            return Ok((Fixed::zero(), false));
        }
        let bw = match engine.get_bank(bank_pk) {
            Some(b) => b,
            None => {
                return Err(ProcessorError::BankNotFound);
            },
        };
        proof {
            lemma_engine_bank_wf(*engine, *bank_pk);
        }
        let amt = match bw.bank.get_asset_amount(shares) {
            Some(a) => a,
            None => {
                return Err(ProcessorError::MathError);
            },
        };
        let v = match calc_weighted_assets(&bw, amt, RequirementType::Initial) {
            Some(v) => v,
            None => {
                return Err(ProcessorError::MathError);
            },
        };
        let w = v.min_with(fc);
        let price = bw.oracle_adapter.price_adapter.get_price_of_type(
            OraclePriceType::RealTime,
            Some(PriceBias::Low),
        );
        match valuation::calc_amount(w, price, bw.bank.mint_decimals) {
            Some(a) => Ok((a, v.bits <= fc.bits)),
            None => Err(ProcessorError::MathError),
        }
    }

    /// Borrow sizing for one bank.
    pub fn get_max_borrow_for_bank(&self, engine: &StateEngineService, bank_pk: &Address) -> (r:
        Result<Fixed, ProcessorError>)
        requires
            engine.wf(),
            self.liquidator_account.unique_active_banks(),
        ensures
            match r {
                Ok(amt) => free_collateral_spec(self.liquidator_account, engine.banks@) matches Ok(
                    fc,
                ) && max_borrow_spec(*engine, self.liquidator_account, *bank_pk, fc) == Ok::<
                    int,
                    ProcessorError,
                >(amt.v()),
                Err(e) => free_collateral_spec(self.liquidator_account, engine.banks@) == Err::<
                    int,
                    ProcessorError,
                >(e) || (free_collateral_spec(self.liquidator_account, engine.banks@) matches Ok(
                    fc,
                ) && max_borrow_spec(*engine, self.liquidator_account, *bank_pk, fc) == Err::<
                    int,
                    ProcessorError,
                >(e)),
            },
    {
        let fc = match self.get_free_collateral(engine) {
            Ok(f) => f,
            Err(e) => {
                return Err(e);
            },
        };
        let bw = match engine.get_bank(bank_pk) {
            Some(b) => b,
            None => {
                return Err(ProcessorError::BankNotFound);
            },
        };
        proof {
            lemma_engine_bank_wf(*engine, *bank_pk);
        }
        let shares = match self.liquidator_account.get_balance_for_bank(bank_pk) {
            Some((s, BalanceSide::Assets)) => s,
            _ => Fixed::zero(),
        };
        proof {
            crate::fixed_point::lemma_mul_bits_zero(bw.bank.asset_share_value.v());
        }
        let amt = match bw.bank.get_asset_amount(shares) {
            Some(a) => a,
            None => {
                return Err(ProcessorError::MathError);
            },
        };
        let v = match calc_weighted_assets(&bw, amt, RequirementType::Initial) {
            Some(v) => v,
            None => {
                return Err(ProcessorError::MathError);
            },
        };
        let untied = fc.min_with(v);
        let pl = bw.oracle_adapter.price_adapter.get_price_of_type(
            OraclePriceType::TimeWeighted,
            Some(PriceBias::Low),
        );
        let ph = bw.oracle_adapter.price_adapter.get_price_of_type(
            OraclePriceType::TimeWeighted,
            Some(PriceBias::High),
        );
        let denom_l = match ph.mul_floor(bw.bank.liability_weight_init) {
            Some(d) => d,
            None => {
                return Err(ProcessorError::MathError);
            },
        };
        if denom_l.bits <= 0 {
            return Err(ProcessorError::MathError);
        }
        let rest = match fc.checked_sub(untied) {
            Some(x) => x,
            None => {
                return Err(ProcessorError::MathError);
            },
        };
        let extra = match rest.div_floor(denom_l) {
            Some(e) => e,
            None => {
                return Err(ProcessorError::MathError);
            },
        };
        let p10 = valuation::pow10(bw.bank.mint_decimals);
        if bw.bank.asset_weight_init.bits == 0 {
            let native = match extra.checked_mul_int(p10) {
                Some(x) => x,
                None => {
                    return Err(ProcessorError::MathError);
                },
            };
            match native.checked_add(amt) {
                Some(total) => Ok(total),
                None => Err(ProcessorError::MathError),
            }
        } else {
            let denom_a = match pl.mul_floor(bw.bank.asset_weight_init) {
                Some(d) => d,
                None => {
                    return Err(ProcessorError::MathError);
                },
            };
            if denom_a.bits <= 0 {
                return Err(ProcessorError::MathError);
            }
            let tied = match untied.div_floor(denom_a) {
                Some(t) => t,
                None => {
                    return Err(ProcessorError::MathError);
                },
            };
            let ui = match tied.checked_add(extra) {
                Some(u) => u,
                None => {
                    return Err(ProcessorError::MathError);
                },
            };
            match ui.checked_mul_int(p10) {
                Some(native) => Ok(native),
                None => Err(ProcessorError::MathError),
            }
        }
    }
}

/// The balance with the highest maintenance-weighted value on a side,
/// scanning the first `n` balances; earlier balances win ties.
pub open spec fn best_balance_spec(
    balances: Seq<crate::accounts::Balance>,
    banks: Seq<BankWrapper>,
    side: BalanceSide,
    n: int,
) -> Result<Option<(int, int)>, ProcessorError>
    decreases n,
{
    if n <= 0 {
        Ok(None)
    } else {
        match best_balance_spec(balances, banks, side, n - 1) {
            Err(e) => Err(e),
            Ok(best) => {
                let b = balances[n - 1];
                if !b.active || b.side_spec() != Some(side) {
                    Ok(best)
                } else {
                    match bank_lookup_spec(banks, b.bank_pk) {
                        None => Err(ProcessorError::BankNotFound),
                        Some(bw) => {
                            let value = match side {
                                BalanceSide::Assets => valuation::weighted_balance_assets_spec(
                                    bw,
                                    b.asset_shares.v(),
                                    RequirementType::Maintenance,
                                ),
                                BalanceSide::Liabilities => valuation::weighted_balance_liabs_spec(
                                    bw,
                                    b.liability_shares.v(),
                                    RequirementType::Maintenance,
                                ),
                            };
                            match value {
                                None => Err(ProcessorError::MathError),
                                Some(v) => match best {
                                    None => Ok(Some((n - 1, v))),
                                    Some((bi, bv)) => if v > bv {
                                        Ok(Some((n - 1, v)))
                                    } else {
                                        Ok(best)
                                    },
                                },
                            }
                        },
                    }
                }
            },
        }
    }
}

/// Once the best-balance recursion hits an error, longer prefixes keep it.
proof fn lemma_best_err_persists(
    balances: Seq<crate::accounts::Balance>,
    banks: Seq<BankWrapper>,
    side: BalanceSide,
    n: int,
    m: int,
)
    requires
        best_balance_spec(balances, banks, side, n) is Err,
        n <= m,
    ensures
        best_balance_spec(balances, banks, side, m) == best_balance_spec(balances, banks, side, n),
    decreases m - n,
{
    if m > n {
        lemma_best_err_persists(balances, banks, side, n, m - 1);
    }
}

/// The balance with the highest maintenance-weighted value on a side.
pub fn best_balance(
    account: &MarginfiAccountWrapper,
    engine: &StateEngineService,
    side: BalanceSide,
) -> (r: Result<Option<(usize, Fixed)>, ProcessorError>)
    requires
        engine.wf(),
    ensures
        match r {
            Ok(None) => best_balance_spec(
                account.account.balances@,
                engine.banks@,
                side,
                account.account.balances@.len() as int,
            ) == Ok::<Option<(int, int)>, ProcessorError>(None),
            Ok(Some((i, v))) => best_balance_spec(
                account.account.balances@,
                engine.banks@,
                side,
                account.account.balances@.len() as int,
            ) == Ok::<Option<(int, int)>, ProcessorError>(Some((i as int, v.v()))) && i
                < account.account.balances@.len(),
            Err(e) => best_balance_spec(
                account.account.balances@,
                engine.banks@,
                side,
                account.account.balances@.len() as int,
            ) == Err::<Option<(int, int)>, ProcessorError>(e),
        },
{
    let n = account.account.balances.len();
    let mut best: Option<(usize, Fixed)> = None;
    let mut i: usize = 0;
    while i < n
        invariant
            engine.wf(),
            n == account.account.balances@.len(),
            i <= n,
            match best {
                None => best_balance_spec(account.account.balances@, engine.banks@, side, i as int)
                    == Ok::<Option<(int, int)>, ProcessorError>(None),
                Some((bi, bv)) => best_balance_spec(
                    account.account.balances@,
                    engine.banks@,
                    side,
                    i as int,
                ) == Ok::<Option<(int, int)>, ProcessorError>(Some((bi as int, bv.v()))) && bi < n,
            },
        decreases n - i,
    {
        let b = account.account.balances[i];
        let matches_side = b.active && match (b.get_side(), side) {
            (Some(BalanceSide::Assets), BalanceSide::Assets) => true,
            (Some(BalanceSide::Liabilities), BalanceSide::Liabilities) => true,
            _ => false,
        };
        if matches_side {
            let bi = match find_bank(&engine.banks, &b.bank_pk) {
                Some(x) => x,
                None => {
                    proof {
                        lemma_best_err_persists(
                            account.account.balances@,
                            engine.banks@,
                            side,
                            i + 1,
                            n as int,
                        );
                    }
                    return Err(ProcessorError::BankNotFound);
                },
            };
            let entry = valuation::BankAccountWithPriceFeedEva {
                bank: engine.banks[bi],
                balance: b,
            };
            proof {
                assert(engine.banks@[bi as int].wf());
            }
            let value = match side {
                BalanceSide::Assets => entry.calc_weighted_assets_for_balance(
                    RequirementType::Maintenance,
                ),
                BalanceSide::Liabilities => entry.calc_weighted_liabs_for_balance(
                    RequirementType::Maintenance,
                ),
            };
            let v = match value {
                Some(v) => v,
                None => {
                    proof {
                        lemma_best_err_persists(
                            account.account.balances@,
                            engine.banks@,
                            side,
                            i + 1,
                            n as int,
                        );
                    }
                    return Err(ProcessorError::MathError);
                },
            };
            best = match best {
                None => Some((i, v)),
                Some((pbi, pbv)) => {
                    if v.bits > pbv.bits {
                        Some((i, v))
                    } else {
                        Some((pbi, pbv))
                    }
                },
            };
        }
        i = i + 1;
    }
    match best {
        None => Ok(None),
        Some((bi, bv)) => Ok(Some((bi, bv))),
    }
}

/// The liquidation pair of a target: the bank of its most valuable
/// deposit and the bank of its most valuable liability, both at
/// maintenance weights.
pub fn find_liquidation_bank_candidates(
    account: &MarginfiAccountWrapper,
    engine: &StateEngineService,
) -> (r: Result<(Address, Address), ProcessorError>)
    requires
        engine.wf(),
    ensures
        ({
            let balances = account.account.balances@;
            let n = balances.len() as int;
            let ba = best_balance_spec(balances, engine.banks@, BalanceSide::Assets, n);
            let bl = best_balance_spec(balances, engine.banks@, BalanceSide::Liabilities, n);
            match r {
                Ok((ab, lb)) => ba matches Ok(Some((ai, av))) && balances[ai].bank_pk == ab && (
                bl matches Ok(Some((li, lv))) && balances[li].bank_pk == lb),
                Err(e) => (e == ProcessorError::NoCandidate && (ba == Ok::<
                    Option<(int, int)>,
                    ProcessorError,
                >(None) || bl == Ok::<Option<(int, int)>, ProcessorError>(None))) || ba == Err::<
                    Option<(int, int)>,
                    ProcessorError,
                >(e) || bl == Err::<Option<(int, int)>, ProcessorError>(e),
            }
        }),
{
    let ba = match best_balance(account, engine, BalanceSide::Assets) {
        Ok(Some(x)) => x,
        Ok(None) => {
            return Err(ProcessorError::NoCandidate);
        },
        Err(e) => {
            return Err(e);
        },
    };
    let bl = match best_balance(account, engine, BalanceSide::Liabilities) {
        Ok(Some(x)) => x,
        Ok(None) => {
            return Err(ProcessorError::NoCandidate);
        },
        Err(e) => {
            return Err(e);
        },
    };
    let ab = account.account.balances[ba.0].bank_pk;
    let lb = account.account.balances[bl.0].bank_pk;
    Ok((ab, lb))
}

/// The seizure that brings an under-collateralized target back to the
/// maintenance threshold, and the liquidator's profit on it.  At
/// maintenance prices, seizing collateral worth `v` removes
/// `w_a * v` of weighted assets and repays liability worth
/// `(1 - fee) * v`, removing `w_l * (1 - fee) * v` of weighted
/// liabilities; the health deficit closes at
/// `v = deficit / (w_l * (1 - fee) - w_a)`, clamped by the target's
/// deposit.  The profit is the liquidator's share of the discount.
pub open spec fn max_liquidatable_spec(
    engine: StateEngineService,
    acct: MarginfiAccountWrapper,
    asset_bank: Address,
    liab_bank: Address,
) -> Result<(int, int), ProcessorError> {
    match health_spec(
        acct.account.balances@,
        engine.banks@,
        RequirementType::Maintenance,
        acct.account.balances@.len() as int,
    ) {
        Err(ValuationError::BankNotFound) => Err(ProcessorError::BankNotFound),
        Err(ValuationError::MathError) => Err(ProcessorError::MathError),
        Ok((a, l)) => if l <= a {
            Ok((0, 0))
        } else if !fits_i128(l - a) {
            Err(ProcessorError::MathError)
        } else {
            let h = l - a;
            match bank_lookup_spec(engine.banks@, asset_bank) {
                None => Err(ProcessorError::BankNotFound),
                Some(bw_a) => match bank_lookup_spec(engine.banks@, liab_bank) {
                    None => Err(ProcessorError::BankNotFound),
                    Some(bw_l) => {
                        let discounted = mul_bits(
                            bw_l.bank.liability_weight_maint.v(),
                            SCALE - LIQUIDATION_FEE_BITS,
                        );
                        if !fits_i128(discounted) || !fits_i128(
                            discounted - bw_a.bank.asset_weight_maint.v(),
                        ) {
                            Err(ProcessorError::MathError)
                        } else {
                            let denom = discounted - bw_a.bank.asset_weight_maint.v();
                            if denom <= 0 {
                                Ok((0, 0))
                            } else {
                                let v0 = div_bits(h, denom);
                                if !fits_i128(v0) {
                                    Err(ProcessorError::MathError)
                                } else {
                                    match acct.balance_for_bank_spec(asset_bank) {
                                        Some((shares, BalanceSide::Assets)) => {
                                            let amt = mul_bits(
                                                shares.v(),
                                                bw_a.bank.asset_share_value.v(),
                                            );
                                            if !fits_i128(amt) {
                                                Err(ProcessorError::MathError)
                                            } else {
                                                let p_low = bw_a.oracle_adapter.price_adapter
                                                    .price_of_type_spec(
                                                    OraclePriceType::RealTime,
                                                    Some(PriceBias::Low),
                                                );
                                                match valuation::calc_value_spec(
                                                    amt,
                                                    p_low,
                                                    bw_a.bank.mint_decimals as nat,
                                                    None,
                                                ) {
                                                    None => Err(ProcessorError::MathError),
                                                    Some(cap) => {
                                                        let v = if v0 <= cap {
                                                            v0
                                                        } else {
                                                            cap
                                                        };
                                                        match valuation::calc_amount_spec(
                                                            v,
                                                            p_low,
                                                            bw_a.bank.mint_decimals as nat,
                                                        ) {
                                                            None => Err(ProcessorError::MathError),
                                                            Some(am) => {
                                                                let profit = mul_bits(
                                                                    v,
                                                                    LIQUIDATOR_PROFIT_BITS as int,
                                                                );
                                                                if !fits_i128(profit) {
                                                                    Err(ProcessorError::MathError)
                                                                } else {
                                                                    Ok((am, profit))
                                                                }
                                                            },
                                                        }
                                                    },
                                                }
                                            }
                                        },
                                        _ => Ok((0, 0)),
                                    }
                                }
                            }
                        }
                    },
                },
            }
        },
    }
}

impl EvaLiquidator {
    /// The largest asset amount the protocol lets the liquidator seize
    /// from a target on a chosen bank pair, and the profit on it.
    pub fn compute_max_liquidatable_asset_amount_with_banks(
        &self,
        account: &MarginfiAccountWrapper,
        engine: &StateEngineService,
        asset_bank: &Address,
        liab_bank: &Address,
    ) -> (r: Result<(Fixed, Fixed), ProcessorError>)
        requires
            engine.wf(),
            account.unique_active_banks(),
        ensures
            match r {
                Ok((am, profit)) => max_liquidatable_spec(*engine, *account, *asset_bank, *liab_bank)
                    == Ok::<(int, int), ProcessorError>((am.v(), profit.v())),
                Err(e) => max_liquidatable_spec(*engine, *account, *asset_bank, *liab_bank)
                    == Err::<(int, int), ProcessorError>(e),
            },
    {
        let (a, l) = match valuation::calc_health(
            &account.account,
            &engine.banks,
            RequirementType::Maintenance,
        ) {
            Ok(x) => x,
            Err(ValuationError::BankNotFound) => {
                return Err(ProcessorError::BankNotFound);
            },
            Err(ValuationError::MathError) => {
                return Err(ProcessorError::MathError);
            },
        };
        if l.bits <= a.bits {
            return Ok((Fixed::zero(), Fixed::zero()));
        }
        let h = match l.checked_sub(a) {
            Some(x) => x,
            None => {
                return Err(ProcessorError::MathError);
            },
        };
        let bw_a = match engine.get_bank(asset_bank) {
            Some(b) => b,
            None => {
                return Err(ProcessorError::BankNotFound);
            },
        };
        let bw_l = match engine.get_bank(liab_bank) {
            Some(b) => b,
            None => {
                return Err(ProcessorError::BankNotFound);
            },
        };
        proof {
            lemma_engine_bank_wf(*engine, *asset_bank);
            lemma_engine_bank_wf(*engine, *liab_bank);
        }
        let one_minus_fee = Fixed { bits: 281474976710656i128 - LIQUIDATION_FEE_BITS };
        let discounted = match bw_l.bank.liability_weight_maint.mul_floor(one_minus_fee) {
            Some(x) => x,
            None => {
                return Err(ProcessorError::MathError);
            },
        };
        let denom = match discounted.checked_sub(bw_a.bank.asset_weight_maint) {
            Some(x) => x,
            None => {
                return Err(ProcessorError::MathError);
            },
        };
        if denom.bits <= 0 {
            return Ok((Fixed::zero(), Fixed::zero()));
        }
        let v0 = match h.div_floor(denom) {
            Some(x) => x,
            None => {
                return Err(ProcessorError::MathError);
            },
        };
        let shares = match account.get_balance_for_bank(asset_bank) {
            Some((s, BalanceSide::Assets)) => s,
            _ => {
                return Ok((Fixed::zero(), Fixed::zero()));
            },
        };
        let amt = match bw_a.bank.get_asset_amount(shares) {
            Some(x) => x,
            None => {
                return Err(ProcessorError::MathError);
            },
        };
        let p_low = bw_a.oracle_adapter.price_adapter.get_price_of_type(
            OraclePriceType::RealTime,
            Some(PriceBias::Low),
        );
        let cap = match valuation::calc_value(amt, p_low, bw_a.bank.mint_decimals, None) {
            Some(x) => x,
            None => {
                return Err(ProcessorError::MathError);
            },
        };
        let v = v0.min_with(cap);
        let am = match valuation::calc_amount(v, p_low, bw_a.bank.mint_decimals) {
            Some(x) => x,
            None => {
                return Err(ProcessorError::MathError);
            },
        };
        let profit = match v.mul_floor(Fixed { bits: LIQUIDATOR_PROFIT_BITS }) {
            Some(x) => x,
            None => {
                return Err(ProcessorError::MathError);
            },
        };
        Ok((am, profit))
    }

    /// Candidate pair and seizure sizing for a target account.
    pub fn compute_max_liquidatable_asset_amount(
        &self,
        account: &MarginfiAccountWrapper,
        engine: &StateEngineService,
    ) -> (r: Result<(Fixed, Fixed), ProcessorError>)
        requires
            engine.wf(),
            account.unique_active_banks(),
        ensures
            match r {
                Ok((am, profit)) => account_candidate_pair_spec(*engine, *account) matches Some(
                    (ab, lb),
                ) && max_liquidatable_spec(*engine, *account, ab, lb) == Ok::<
                    (int, int),
                    ProcessorError,
                >((am.v(), profit.v())),
                Err(_) => account_candidate_pair_spec(*engine, *account) is None || (
                account_candidate_pair_spec(*engine, *account) matches Some((ab, lb))
                    && max_liquidatable_spec(*engine, *account, ab, lb) is Err),
            },
    {
        let (ab, lb) = match find_liquidation_bank_candidates(account, engine) {
            Ok(x) => x,
            Err(e) => {
                return Err(e);
            },
        };
        self.compute_max_liquidatable_asset_amount_with_banks(account, engine, &ab, &lb)
    }
}

/// The liquidation bank pair of an account, when both sides select one.
pub open spec fn account_candidate_pair_spec(
    engine: StateEngineService,
    acct: MarginfiAccountWrapper,
) -> Option<(Address, Address)> {
    let balances = acct.account.balances@;
    let n = balances.len() as int;
    match best_balance_spec(balances, engine.banks@, BalanceSide::Assets, n) {
        Ok(Some((ai, av))) => match best_balance_spec(
            balances,
            engine.banks@,
            BalanceSide::Liabilities,
            n,
        ) {
            Ok(Some((li, lv))) => Some((balances[ai].bank_pk, balances[li].bank_pk)),
            _ => None,
        },
        _ => None,
    }
}

/// The seizure amount and profit a scan attributes to an account:
/// nothing for an account without liabilities, a failed valuation, or
/// no candidate pair.
pub open spec fn account_candidate_spec(
    engine: StateEngineService,
    acct: MarginfiAccountWrapper,
) -> Option<(int, int)> {
    if !acct.has_liabs_spec() {
        None
    } else {
        match account_candidate_pair_spec(engine, acct) {
            None => None,
            Some((ab, lb)) => match max_liquidatable_spec(engine, acct, ab, lb) {
                Ok((am, p)) => Some((am, p)),
                Err(_) => None,
            },
        }
    }
}


/// Full sizing of a liquidation on a chosen bank pair: what the
/// protocol allows on the target, capped by what the liquidator's own
/// borrow capacity covers in asset units, scaled back by the safety
/// margin.  Errors name the exact step that failed.
pub open spec fn liquidation_plan_spec(
    engine: StateEngineService,
    target: MarginfiAccountWrapper,
    liq: MarginfiAccountWrapper,
    asset_bank: Address,
    liab_bank: Address,
) -> Result<LiquidateAction, ProcessorError> {
    match max_liquidatable_spec(engine, target, asset_bank, liab_bank) {
        Err(e) => Err(e),
        Ok((m_target, profit)) => match free_collateral_spec(liq, engine.banks@) {
            Err(e) => Err(e),
            Ok(fc) => match max_borrow_spec(engine, liq, liab_bank, fc) {
                Err(e) => Err(e),
                Ok(m_self) => match bank_lookup_spec(engine.banks@, liab_bank) {
                    None => Err(ProcessorError::BankNotFound),
                    Some(bw_l) => match bank_lookup_spec(engine.banks@, asset_bank) {
                        None => Err(ProcessorError::BankNotFound),
                        Some(bw_a) => match weighted_liabs_spec(
                            bw_l,
                            m_self,
                            RequirementType::Initial,
                        ) {
                            None => Err(ProcessorError::MathError),
                            Some(capacity) => match calc_amount_spec(
                                capacity,
                                bw_a.oracle_adapter.price_adapter.price_of_type_spec(
                                    OraclePriceType::TimeWeighted,
                                    Some(PriceBias::Low),
                                ),
                                bw_a.bank.mint_decimals as nat,
                            ) {
                                None => Err(ProcessorError::MathError),
                                Some(cap_as_asset) => {
                                    let fin = if m_target <= cap_as_asset {
                                        m_target
                                    } else {
                                        cap_as_asset
                                    };
                                    let adj = mul_bits(fin, SLIPPAGE_FACTOR_BITS as int);
                                    if !fits_i128(adj) {
                                        Err(ProcessorError::MathError)
                                    } else {
                                        Ok(
                                            LiquidateAction {
                                                target: target.address,
                                                asset_bank,
                                                liab_bank,
                                                asset_amount: Fixed { bits: adj as i128 },
                                            },
                                        )
                                    }
                                },
                            },
                        },
                    },
                },
            },
        },
    }
}

impl EvaLiquidator {
    /// Scans all lending accounts except the liquidator's own, skipping
    /// accounts whose valuation fails, and selects the most profitable
    /// liquidation; ties keep the earliest account.  Accounts with zero
    /// expected profit are dropped.
    #[verifier::rlimit(60)]
    pub fn select_liquidation_candidate(&self, engine: &StateEngineService) -> (r: Option<
        (Address, Fixed, Fixed),
    >)
        requires
            engine.wf(),
        ensures
            match r {
                Some((addr, am, profit)) => {
                    &&& profit.v() > 0
                    &&& exists|i: int|
                        0 <= i < engine.marginfi_accounts@.len() && (#[trigger] engine
                            .marginfi_accounts@[i]).address == addr && addr
                            != self.cfg.liquidator_account && account_candidate_spec(
                            *engine,
                            engine.marginfi_accounts@[i],
                        ) == Some((am.v(), profit.v()))
                    &&& forall|j: int|
                        0 <= j < engine.marginfi_accounts@.len() && (#[trigger] engine
                            .marginfi_accounts@[j]).address != self.cfg.liquidator_account
                            ==> (match account_candidate_spec(
                            *engine,
                            engine.marginfi_accounts@[j],
                        ) {
                            Some((a2, p2)) => p2 <= profit.v(),
                            None => true,
                        })
                },
                None => forall|j: int|
                    0 <= j < engine.marginfi_accounts@.len() && (#[trigger] engine
                        .marginfi_accounts@[j]).address != self.cfg.liquidator_account ==> (match
                    account_candidate_spec(*engine, engine.marginfi_accounts@[j]) {
                        Some((a2, p2)) => p2 <= 0,
                        None => true,
                    }),
            },
    {
        let n = engine.marginfi_accounts.len();
        let mut best: Option<(Address, Fixed, Fixed)> = None;
        let mut i: usize = 0;
        while i < n
            invariant
                engine.wf(),
                n == engine.marginfi_accounts@.len(),
                i <= n,
                match best {
                    Some((addr, am, profit)) => profit.v() > 0 && (exists|k: int|
                        0 <= k < i && (#[trigger] engine.marginfi_accounts@[k]).address == addr
                            && addr != self.cfg.liquidator_account && account_candidate_spec(
                            *engine,
                            engine.marginfi_accounts@[k],
                        ) == Some((am.v(), profit.v()))) && (forall|j: int|
                        0 <= j < i && (#[trigger] engine.marginfi_accounts@[j]).address
                            != self.cfg.liquidator_account ==> (match account_candidate_spec(
                            *engine,
                            engine.marginfi_accounts@[j],
                        ) {
                            Some((a2, p2)) => p2 <= profit.v(),
                            None => true,
                        })),
                    None => forall|j: int|
                        0 <= j < i && (#[trigger] engine.marginfi_accounts@[j]).address
                            != self.cfg.liquidator_account ==> (match account_candidate_spec(
                            *engine,
                            engine.marginfi_accounts@[j],
                        ) {
                            Some((a2, p2)) => p2 <= 0,
                            None => true,
                        }),
                },
            decreases n - i,
        {
            let acct = &engine.marginfi_accounts[i];
            proof {
                assert(engine.marginfi_accounts@[i as int].wf());
            }
            if acct.address == self.cfg.liquidator_account {
                i = i + 1;
                continue ;
            }
            if !acct.has_liabs() {
                i = i + 1;
                continue ;
            }
            let (am, profit) = match self.compute_max_liquidatable_asset_amount(acct, engine) {
                Ok(x) => x,
                Err(e) => {
                    proof {
                        assert(account_candidate_spec(*engine, engine.marginfi_accounts@[i as int])
                            is None);
                    }
                    i = i + 1;
                    continue ;
                },
            };
            if profit.bits <= 0 {
                i = i + 1;
                continue ;
            }
            let take = match best {
                None => true,
                Some((_, _, bp)) => profit.bits > bp.bits,
            };
            if take {
                best = Some((acct.address, am, profit));
            }
            i = i + 1;
        }
        best
    }

    /// The swap the loop submits to the aggregator: resolves both banks'
    /// mints and carries the configured slippage and priority fee.
    pub fn swap_plan(
        &self,
        engine: &StateEngineService,
        amount: u64,
        src_bank: &Address,
        dst_bank: &Address,
    ) -> (r: Result<SwapAction, ProcessorError>)
        requires
            engine.wf(),
        ensures
            match r {
                Ok(a) => bank_lookup_spec(engine.banks@, *src_bank) matches Some(sb) && (
                bank_lookup_spec(engine.banks@, *dst_bank) matches Some(db) && a == (SwapAction {
                    amount,
                    input_mint: sb.bank.mint,
                    output_mint: db.bank.mint,
                    slippage_bps: self.cfg.slippage_bps,
                    compute_unit_price_micro_lamports: self.cfg.compute_unit_price_micro_lamports,
                })),
                Err(ProcessorError::BankNotFound) => bank_lookup_spec(engine.banks@, *src_bank)
                    is None || bank_lookup_spec(engine.banks@, *dst_bank) is None,
                Err(_) => false,
            },
    {
        let sb = match engine.get_bank(src_bank) {
            Some(b) => b,
            None => {
                return Err(ProcessorError::BankNotFound);
            },
        };
        let db = match engine.get_bank(dst_bank) {
            Some(b) => b,
            None => {
                return Err(ProcessorError::BankNotFound);
            },
        };
        Ok(
            SwapAction {
                amount,
                input_mint: sb.bank.mint,
                output_mint: db.bank.mint,
                slippage_bps: self.cfg.slippage_bps,
                compute_unit_price_micro_lamports: self.cfg.compute_unit_price_micro_lamports,
            },
        )
    }

    /// Sizes the liquidation of a target on a chosen pair: the smaller
    /// of what the protocol allows and what the liquidator's own borrow
    /// capacity covers, scaled back by the safety margin.
    pub fn liquidation_plan(
        &self,
        account: &MarginfiAccountWrapper,
        engine: &StateEngineService,
        asset_bank: &Address,
        liab_bank: &Address,
    ) -> (r: Result<LiquidateAction, ProcessorError>)
        requires
            engine.wf(),
            account.unique_active_banks(),
            self.liquidator_account.unique_active_banks(),
        ensures
            r == liquidation_plan_spec(
                *engine,
                *account,
                self.liquidator_account,
                *asset_bank,
                *liab_bank,
            ),
    {
        let (m_target, _profit) = match self.compute_max_liquidatable_asset_amount_with_banks(
            account,
            engine,
            asset_bank,
            liab_bank,
        ) {
            Ok(x) => x,
            Err(e) => {
                return Err(e);
            },
        };
        let m_self = match self.get_max_borrow_for_bank(engine, liab_bank) {
            Ok(x) => x,
            Err(e) => {
                return Err(e);
            },
        };
        let bw_l = match engine.get_bank(liab_bank) {
            Some(b) => b,
            None => {
                return Err(ProcessorError::BankNotFound);
            },
        };
        let bw_a = match engine.get_bank(asset_bank) {
            Some(b) => b,
            None => {
                return Err(ProcessorError::BankNotFound);
            },
        };
        proof {
            lemma_engine_bank_wf(*engine, *liab_bank);
            lemma_engine_bank_wf(*engine, *asset_bank);
        }
        let capacity = match calc_weighted_liabs(&bw_l, m_self, RequirementType::Initial) {
            Some(x) => x,
            None => {
                return Err(ProcessorError::MathError);
            },
        };
        let p_a = bw_a.oracle_adapter.price_adapter.get_price_of_type(
            OraclePriceType::TimeWeighted,
            Some(PriceBias::Low),
        );
        let cap_as_asset = match valuation::calc_amount(capacity, p_a, bw_a.bank.mint_decimals) {
            Some(x) => x,
            None => {
                return Err(ProcessorError::MathError);
            },
        };
        let fin = m_target.min_with(cap_as_asset);
        let adjusted = match fin.mul_floor(Fixed { bits: SLIPPAGE_FACTOR_BITS }) {
            Some(x) => x,
            None => {
                return Err(ProcessorError::MathError);
            },
        };
        Ok(
            LiquidateAction {
                target: account.address,
                asset_bank: *asset_bank,
                liab_bank: *liab_bank,
                asset_amount: adjusted,
            },
        )
    }
}

/// The steps that clear one liability: optionally withdraw swap-mint
/// collateral, optionally swap it into the owed token, then repay.
#[derive(Clone, Copy, PartialEq, Eq, Structural, Debug)]
pub struct RepayPlan {
    pub withdraw: Option<WithdrawAction>,
    pub swap: Option<SwapAction>,
    pub repay_bank: Address,
    pub repay_amount: Fixed,
    pub repay_all: bool,
}


/// Full sizing of the repayment of one liability: the owed amount, the
/// shortfall beyond the owed token already held, the shortfall's value
/// at the initial requirement, the swap-mint tokens required at the
/// swap bank's unbiased real-time price, and a withdraw for exactly
/// what the held swap balance does not cover.  Errors name the exact
/// step that failed; a bank without a liability needs no plan.
pub open spec fn repay_plan_spec(
    p: EvaLiquidator,
    engine: StateEngineService,
    bank_pk: Address,
) -> Result<Option<RepayPlan>, ProcessorError> {
    match p.liquidator_account.balance_for_bank_spec(bank_pk) {
        Some((shares, BalanceSide::Liabilities)) => match bank_lookup_spec(
            engine.banks@,
            bank_pk,
        ) {
            None => Err(ProcessorError::BankNotFound),
            Some(bw) => {
                let owed = mul_bits(shares.v(), bw.bank.liability_share_value.v());
                if !fits_i128(owed) {
                    Err(ProcessorError::MathError)
                } else {
                    let held = match token_balance_spec(engine, bank_pk) {
                        Some(b) => b * SCALE,
                        None => 0,
                    };
                    if !fits_i128(owed - held) {
                        Err(ProcessorError::MathError)
                    } else if owed - held <= 0 {
                        Ok(
                            Some(
                                RepayPlan {
                                    withdraw: None,
                                    swap: None,
                                    repay_bank: bank_pk,
                                    repay_amount: Fixed { bits: owed as i128 },
                                    repay_all: true,
                                },
                            ),
                        )
                    } else {
                        let shortfall = owed - held;
                        match weighted_liabs_spec(bw, shortfall, RequirementType::Initial) {
                            None => Err(ProcessorError::MathError),
                            Some(liab_usd) => match bank_lookup_spec(
                                engine.banks@,
                                p.swap_mint_bank_pk,
                            ) {
                                None => Err(ProcessorError::BankNotFound),
                                Some(sb) => match calc_amount_spec(
                                    liab_usd,
                                    sb.oracle_adapter.price_adapter.price_of_type_spec(
                                        OraclePriceType::RealTime,
                                        None,
                                    ),
                                    sb.bank.mint_decimals as nat,
                                ) {
                                    None => Err(ProcessorError::MathError),
                                    Some(required) => {
                                        let swap_held = match token_balance_spec(
                                            engine,
                                            p.swap_mint_bank_pk,
                                        ) {
                                            Some(b) => b * SCALE,
                                            None => 0,
                                        };
                                        if !fits_i128(required - swap_held) {
                                            Err(ProcessorError::MathError)
                                        } else if required < 0 || required / (SCALE as int)
                                            > u64::MAX {
                                            Err(ProcessorError::MathError)
                                        } else {
                                            let to_withdraw = required - swap_held;
                                            let swap_amount = required / (SCALE as int);
                                            Ok(
                                                Some(
                                                    RepayPlan {
                                                        withdraw: if to_withdraw > 0 {
                                                            Some(
                                                                WithdrawAction {
                                                                    bank: p.swap_mint_bank_pk,
                                                                    amount: Fixed {
                                                                        bits: to_withdraw as i128,
                                                                    },
                                                                    withdraw_all: false,
                                                                },
                                                            )
                                                        } else {
                                                            None
                                                        },
                                                        swap: if swap_amount > 0 {
                                                            Some(
                                                                SwapAction {
                                                                    amount: swap_amount as u64,
                                                                    input_mint: sb.bank.mint,
                                                                    output_mint: bw.bank.mint,
                                                                    slippage_bps:
                                                                        p.cfg.slippage_bps,
                                                                    compute_unit_price_micro_lamports:
                                                                        p.cfg.compute_unit_price_micro_lamports,
                                                                },
                                                            )
                                                        } else {
                                                            None
                                                        },
                                                        repay_bank: bank_pk,
                                                        repay_amount: Fixed { bits: owed as i128 },
                                                        repay_all: true,
                                                    },
                                                ),
                                            )
                                        }
                                    },
                                },
                            },
                        }
                    }
                }
            },
        },
        _ => Ok(None),
    }
}

impl EvaLiquidator {
    /// The first rebalance step for one non-preferred deposit: withdraw
    /// as much of it as free collateral allows, closing the balance when
    /// the whole position fits.
    pub fn withdraw_step(&self, engine: &StateEngineService, bank_pk: &Address) -> (r: Result<
        WithdrawAction,
        ProcessorError,
    >)
        requires
            engine.wf(),
            self.liquidator_account.unique_active_banks(),
        ensures
            match r {
                Ok(act) => act.bank == *bank_pk && (free_collateral_spec(
                    self.liquidator_account,
                    engine.banks@,
                ) matches Ok(fc) && max_withdraw_spec(
                    *engine,
                    self.liquidator_account,
                    *bank_pk,
                    fc,
                ) == Ok::<(int, bool), ProcessorError>((act.amount.v(), act.withdraw_all))),
                Err(e) => free_collateral_spec(self.liquidator_account, engine.banks@) == Err::<
                    int,
                    ProcessorError,
                >(e) || (free_collateral_spec(self.liquidator_account, engine.banks@) matches Ok(
                    fc,
                ) && max_withdraw_spec(*engine, self.liquidator_account, *bank_pk, fc) == Err::<
                    (int, bool),
                    ProcessorError,
                >(e)),
            },
    {
        let (amount, withdraw_all) = match self.get_max_withdraw_for_bank(engine, bank_pk) {
            Ok(x) => x,
            Err(e) => {
                return Err(e);
            },
        };
        Ok(WithdrawAction { bank: *bank_pk, amount, withdraw_all })
    }

    /// Plans the repayment of one liability: any shortfall beyond the
    /// owed token already held is priced at the initial requirement,
    /// covered by withdrawing and swapping the swap-mint holding, and
    /// the liability is then repaid in full.
    pub fn repay_liability(&self, engine: &StateEngineService, bank_pk: &Address) -> (r: Result<
        Option<RepayPlan>,
        ProcessorError,
    >)
        requires
            engine.wf(),
            self.liquidator_account.unique_active_banks(),
        ensures
            r == repay_plan_spec(*self, *engine, *bank_pk),
    {
        let shares = match self.liquidator_account.get_balance_for_bank(bank_pk) {
            Some((s, BalanceSide::Liabilities)) => s,
            _ => {
                return Ok(None);
            },
        };
        let bw = match engine.get_bank(bank_pk) {
            Some(b) => b,
            None => {
                return Err(ProcessorError::BankNotFound);
            },
        };
        proof {
            lemma_engine_bank_wf(*engine, *bank_pk);
        }
        let owed = match bw.bank.get_liability_amount(shares) {
            Some(a) => a,
            None => {
                return Err(ProcessorError::MathError);
            },
        };
        let held = match self.get_token_balance_for_bank(engine, bank_pk) {
            Some(b) => b,
            None => Fixed::zero(),
        };
        let shortfall = match owed.checked_sub(held) {
            Some(x) => x,
            None => {
                return Err(ProcessorError::MathError);
            },
        };
        if shortfall.bits <= 0 {
            return Ok(
                Some(
                    RepayPlan {
                        withdraw: None,
                        swap: None,
                        repay_bank: *bank_pk,
                        repay_amount: owed,
                        repay_all: true,
                    },
                ),
            );
        }
        let liab_usd = match self.get_value(
            shortfall,
            bank_pk,
            RequirementType::Initial,
            BalanceSide::Liabilities,
            engine,
        ) {
            Ok(v) => v,
            Err(e) => {
                return Err(e);
            },
        };
        let required_swap_token = match self.get_amount(
            liab_usd,
            &self.swap_mint_bank_pk,
            None,
            engine,
        ) {
            Ok(a) => a,
            Err(e) => {
                return Err(e);
            },
        };
        let swap_held = match self.get_token_balance_for_bank(engine, &self.swap_mint_bank_pk) {
            Some(b) => b,
            None => Fixed::zero(),
        };
        let to_withdraw = match required_swap_token.checked_sub(swap_held) {
            Some(x) => x,
            None => {
                return Err(ProcessorError::MathError);
            },
        };
        let withdraw = if to_withdraw.bits > 0 {
            Some(
                WithdrawAction {
                    bank: self.swap_mint_bank_pk,
                    amount: to_withdraw,
                    withdraw_all: false,
                },
            )
        } else {
            None
        };
        let swap_amount = match required_swap_token.to_native_u64() {
            Some(a) => a,
            None => {
                return Err(ProcessorError::MathError);
            },
        };
        let swap = if swap_amount > 0 {
            match self.swap_plan(engine, swap_amount, &self.swap_mint_bank_pk, bank_pk) {
                Ok(a) => Some(a),
                Err(e) => {
                    return Err(e);
                },
            }
        } else {
            None
        };
        Ok(
            Some(
                RepayPlan {
                    withdraw,
                    swap,
                    repay_bank: *bank_pk,
                    repay_amount: owed,
                    repay_all: true,
                },
            ),
        )
    }
}

/// The initial-requirement discount touches nothing but the initial
/// requirement, and only once the bank''s total deposits cross the
/// configured limit: under any other requirement the configured weight
/// applies unchanged, and below the limit so does the initial weight.
pub proof fn lemma_init_discount_only_initial(
    bank: crate::accounts::Bank,
    price: int,
    req: RequirementType,
)
    requires
        bank.wf(),
    ensures
        req != RequirementType::Initial ==> valuation::effective_asset_weight_spec(bank, price, req)
            == Some(bank.weight_spec(req, BalanceSide::Assets)),
        req == RequirementType::Initial && bank.total_asset_value_init_limit.v() == 0
            ==> valuation::effective_asset_weight_spec(bank, price, req) == Some(
            bank.weight_spec(req, BalanceSide::Assets),
        ),
{
}

} // verus!
