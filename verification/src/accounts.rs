//! Data model of the protocol state the bot mirrors: banks, oracle price
//! adapters, lending-account balances and token accounts.
//!
//! Every type here is a plain-value model of the corresponding on-chain
//! account.  Well-formedness predicates state the protocol invariants the
//! engine maintains: weights bracket one, shares are non-negative, and a
//! balance carries at most one side.

use vstd::prelude::*;
use crate::fixed_point::Fixed;
use crate::fixed_point::SCALE;

verus! {

/// Highest mint-decimals value the valuation routines accept; `10^23`
/// still fits the scaling factor of a single wide division.
pub const MAX_MINT_DECIMALS: u8 = 23;

/// A 32-byte account address held as two little-endian halves.
#[derive(Clone, Copy, PartialEq, Eq, Structural, Hash, Debug)]
pub struct Address {
    pub lo: u128,
    pub hi: u128,
}

/// Whether a bank's deposits count toward collateral.
#[derive(Clone, Copy, PartialEq, Eq, Structural, Debug)]
pub enum RiskTier {
    Collateral,
    Isolated,
}

/// The margin requirement a valuation is computed under.
#[derive(Clone, Copy, PartialEq, Eq, Structural, Debug)]
pub enum RequirementType {
    Initial,
    Maintenance,
    Equity,
}

/// The side of a lending-account balance.
#[derive(Clone, Copy, PartialEq, Eq, Structural, Debug)]
pub enum BalanceSide {
    Assets,
    Liabilities,
}

/// Which edge of the oracle confidence interval a price is taken from.
#[derive(Clone, Copy, PartialEq, Eq, Structural, Debug)]
pub enum PriceBias {
    Low,
    High,
}

/// Which oracle feed a price is taken from.
#[derive(Clone, Copy, PartialEq, Eq, Structural, Debug)]
pub enum OraclePriceType {
    RealTime,
    TimeWeighted,
}

impl RequirementType {
    /// Feed used under this requirement: time-weighted for initial,
    /// real-time otherwise.
    pub open spec fn oracle_price_type_spec(self) -> OraclePriceType {
        match self {
            RequirementType::Initial => OraclePriceType::TimeWeighted,
            RequirementType::Maintenance => OraclePriceType::RealTime,
            RequirementType::Equity => OraclePriceType::RealTime,
        }
    }

    pub fn get_oracle_price_type(self) -> (r: OraclePriceType)
        ensures
            r == self.oracle_price_type_spec(),
    {
        match self {
            RequirementType::Initial => OraclePriceType::TimeWeighted,
            RequirementType::Maintenance => OraclePriceType::RealTime,
            RequirementType::Equity => OraclePriceType::RealTime,
        }
    }
}

/// Price state derived from one oracle account: a midpoint and a
/// confidence radius for each feed.
#[derive(Clone, Copy, PartialEq, Eq, Structural, Debug)]
pub struct PriceAdapter {
    pub rt_price: Fixed,
    pub rt_conf: Fixed,
    pub tw_price: Fixed,
    pub tw_conf: Fixed,
}

impl PriceAdapter {
    /// Confidence radii are non-negative, the low edge of each interval
    /// stays positive, and the high edge stays representable.
    pub open spec fn wf(self) -> bool {
        &&& 0 <= self.rt_conf.v()
        &&& 0 <= self.tw_conf.v()
        &&& self.rt_conf.v() < self.rt_price.v()
        &&& self.tw_conf.v() < self.tw_price.v()
        &&& self.rt_price.v() + self.rt_conf.v() <= i128::MAX
        &&& self.tw_price.v() + self.tw_conf.v() <= i128::MAX
    }

    /// The price under a feed and bias: midpoint, or midpoint shifted by
    /// the confidence radius.
    pub open spec fn price_of_type_spec(self, kind: OraclePriceType, bias: Option<PriceBias>)
        -> int {
        let p = match kind {
            OraclePriceType::RealTime => self.rt_price.v(),
            OraclePriceType::TimeWeighted => self.tw_price.v(),
        };
        let c = match kind {
            OraclePriceType::RealTime => self.rt_conf.v(),
            OraclePriceType::TimeWeighted => self.tw_conf.v(),
        };
        match bias {
            None => p,
            Some(PriceBias::Low) => p - c,
            Some(PriceBias::High) => p + c,
        }
    }

    pub fn get_price_of_type(&self, kind: OraclePriceType, bias: Option<PriceBias>) -> (r: Fixed)
        requires
            self.wf(),
        ensures
            r.v() == self.price_of_type_spec(kind, bias),
            r.v() > 0,
    {
        let (p, c) = match kind {
            OraclePriceType::RealTime => (self.rt_price, self.rt_conf),
            OraclePriceType::TimeWeighted => (self.tw_price, self.tw_conf),
        };
        match bias {
            None => p,
            Some(PriceBias::Low) => Fixed { bits: p.bits - c.bits },
            Some(PriceBias::High) => Fixed { bits: p.bits + c.bits },
        }
    }
}

/// A per-asset lending pool.
#[derive(Clone, Copy, PartialEq, Eq, Structural, Debug)]
pub struct Bank {
    pub mint: Address,
    pub mint_decimals: u8,
    pub asset_weight_init: Fixed,
    pub asset_weight_maint: Fixed,
    pub liability_weight_init: Fixed,
    pub liability_weight_maint: Fixed,
    pub risk_tier: RiskTier,
    pub oracle_key: Address,
    pub asset_share_value: Fixed,
    pub liability_share_value: Fixed,
    pub total_asset_shares: Fixed,
    pub total_asset_value_init_limit: Fixed,
}

impl Bank {
    /// Protocol invariants: asset weights at most one and ordered by
    /// strictness, liability weights at least one and ordered the other
    /// way, share values at least one, decimals within range.
    pub open spec fn wf(self) -> bool {
        &&& self.mint_decimals <= MAX_MINT_DECIMALS
        &&& 0 <= self.asset_weight_init.v()
        &&& self.asset_weight_init.v() <= self.asset_weight_maint.v()
        &&& self.asset_weight_maint.v() <= SCALE
        &&& SCALE <= self.liability_weight_maint.v()
        &&& self.liability_weight_maint.v() <= self.liability_weight_init.v()
        &&& SCALE <= self.asset_share_value.v()
        &&& SCALE <= self.liability_share_value.v()
        &&& 0 <= self.total_asset_shares.v()
        &&& 0 <= self.total_asset_value_init_limit.v()
    }

    /// Configured weight for a requirement and side; equity is unweighted.
    pub open spec fn weight_spec(self, req: RequirementType, side: BalanceSide) -> int {
        match req {
            RequirementType::Equity => SCALE as int,
            RequirementType::Initial => match side {
                BalanceSide::Assets => self.asset_weight_init.v(),
                BalanceSide::Liabilities => self.liability_weight_init.v(),
            },
            RequirementType::Maintenance => match side {
                BalanceSide::Assets => self.asset_weight_maint.v(),
                BalanceSide::Liabilities => self.liability_weight_maint.v(),
            },
        }
    }

    pub fn get_weight(&self, req: RequirementType, side: BalanceSide) -> (r: Fixed)
        ensures
            r.v() == self.weight_spec(req, side),
    {
        match req {
            RequirementType::Equity => Fixed::one(),
            RequirementType::Initial => match side {
                BalanceSide::Assets => self.asset_weight_init,
                BalanceSide::Liabilities => self.liability_weight_init,
            },
            RequirementType::Maintenance => match side {
                BalanceSide::Assets => self.asset_weight_maint,
                BalanceSide::Liabilities => self.liability_weight_maint,
            },
        }
    }

    /// Native asset amount backing a share count.
    pub fn get_asset_amount(&self, shares: Fixed) -> (r: Option<Fixed>)
        ensures
            match r {
                Some(a) => a.v() == crate::fixed_point::mul_bits(
                    shares.v(),
                    self.asset_share_value.v(),
                ),
                None => !crate::fixed_point::fits_i128(
                    crate::fixed_point::mul_bits(shares.v(), self.asset_share_value.v()),
                ),
            },
    {
        shares.mul_floor(self.asset_share_value)
    }

    /// Native liability amount backing a share count.
    pub fn get_liability_amount(&self, shares: Fixed) -> (r: Option<Fixed>)
        ensures
            match r {
                Some(a) => a.v() == crate::fixed_point::mul_bits(
                    shares.v(),
                    self.liability_share_value.v(),
                ),
                None => !crate::fixed_point::fits_i128(
                    crate::fixed_point::mul_bits(shares.v(), self.liability_share_value.v()),
                ),
            },
    {
        shares.mul_floor(self.liability_share_value)
    }
}

/// An oracle account together with the price adapter derived from it.
#[derive(Clone, Copy, PartialEq, Eq, Structural, Debug)]
pub struct OracleWrapper {
    pub address: Address,
    pub price_adapter: PriceAdapter,
}

impl OracleWrapper {
    pub fn new(address: Address, price_adapter: PriceAdapter) -> (r: OracleWrapper)
        ensures
            r.address == address,
            r.price_adapter == price_adapter,
    {
        OracleWrapper { address, price_adapter }
    }
}

/// A bank entry of the engine: the bank and its current oracle state.
#[derive(Clone, Copy, PartialEq, Eq, Structural, Debug)]
pub struct BankWrapper {
    pub address: Address,
    pub bank: Bank,
    pub oracle_adapter: OracleWrapper,
}

impl BankWrapper {
    pub fn new(address: Address, bank: Bank, oracle_adapter_wrapper: OracleWrapper) -> (r:
        BankWrapper)
        ensures
            r.address == address,
            r.bank == bank,
            r.oracle_adapter == oracle_adapter_wrapper,
    {
        BankWrapper { address, bank, oracle_adapter: oracle_adapter_wrapper }
    }

    pub open spec fn wf(self) -> bool {
        &&& self.bank.wf()
        &&& self.oracle_adapter.price_adapter.wf()
    }
}

/// Bank entries keyed by distinct addresses.
pub open spec fn unique_bank_addresses(banks: Seq<BankWrapper>) -> bool {
    forall|i: int, j: int|
        #![trigger banks[i], banks[j]]
        0 <= i < j < banks.len() ==> banks[i].address != banks[j].address
}

/// The bank entry stored under an address, if any.
pub open spec fn bank_lookup_spec(banks: Seq<BankWrapper>, pk: Address) -> Option<BankWrapper> {
    if exists|i: int| 0 <= i < banks.len() && (#[trigger] banks[i]).address == pk {
        let i = choose|i: int| 0 <= i < banks.len() && (#[trigger] banks[i]).address == pk;
        Some(banks[i])
    } else {
        None
    }
}

/// Distinct indices cannot both hold an address when addresses are unique.
pub proof fn lemma_unique_bank_index(banks: Seq<BankWrapper>, a: int, b: int, pk: Address)
    requires
        unique_bank_addresses(banks),
        0 <= a < banks.len(),
        0 <= b < banks.len(),
        banks[a].address == pk,
        banks[b].address == pk,
    ensures
        a == b,
{
    if a < b {
        assert(banks[a].address != banks[b].address);
    } else if b < a {
        assert(banks[b].address != banks[a].address);
    }
}

/// Index of the bank entry stored under an address.
pub fn find_bank(banks: &Vec<BankWrapper>, pk: &Address) -> (r: Option<usize>)
    requires
        unique_bank_addresses(banks@),
    ensures
        match r {
            Some(i) => i < banks@.len() && banks@[i as int].address == *pk && bank_lookup_spec(
                banks@,
                *pk,
            ) == Some(banks@[i as int]),
            None => bank_lookup_spec(banks@, *pk) is None,
        },
{
    let n = banks.len();
    let mut i: usize = 0;
    while i < n
        invariant
            unique_bank_addresses(banks@),
            n == banks@.len(),
            i <= n,
            forall|j: int| 0 <= j < i ==> (#[trigger] banks@[j]).address != *pk,
        decreases n - i,
    {
        if banks[i].address == *pk {
            proof {
                let w = choose|j: int|
                    0 <= j < banks@.len() && (#[trigger] banks@[j]).address == *pk;
                assert(banks@[i as int].address == *pk);
                assert(banks@[w].address == *pk);
                lemma_unique_bank_index(banks@, i as int, w, *pk);
            }
            return Some(i);
        }
        i = i + 1;
    }
    None
}


/// The first bank whose mint matches, scanning front to back.
pub open spec fn first_bank_for_mint_spec(banks: Seq<BankWrapper>, mint: Address) -> Option<
    BankWrapper,
>
    decreases banks.len(),
{
    if banks.len() == 0 {
        None
    } else if banks[0].bank.mint == mint {
        Some(banks[0])
    } else {
        first_bank_for_mint_spec(banks.drop_first(), mint)
    }
}

proof fn lemma_first_bank_skip(banks: Seq<BankWrapper>, mint: Address, i: int)
    requires
        0 <= i <= banks.len(),
        forall|j: int| 0 <= j < i ==> (#[trigger] banks[j]).bank.mint != mint,
    ensures
        first_bank_for_mint_spec(banks, mint) == first_bank_for_mint_spec(banks.skip(i), mint),
    decreases i,
{
    if i == 0 {
        assert(banks.skip(0) =~= banks);
    } else {
        lemma_first_bank_skip(banks, mint, i - 1);
        let s = banks.skip(i - 1);
        assert(s[0] == banks[i - 1]);
        assert(s.drop_first() =~= banks.skip(i));
    }
}

/// Index of the first bank for a mint, used to price token holdings.
pub fn find_bank_for_mint(banks: &Vec<BankWrapper>, mint: &Address) -> (r: Option<usize>)
    ensures
        match r {
            Some(i) => i < banks@.len() && first_bank_for_mint_spec(banks@, *mint) == Some(
                banks@[i as int],
            ),
            None => first_bank_for_mint_spec(banks@, *mint) is None,
        },
{
    let n = banks.len();
    let mut i: usize = 0;
    while i < n
        invariant
            n == banks@.len(),
            i <= n,
            forall|j: int| 0 <= j < i ==> (#[trigger] banks@[j]).bank.mint != *mint,
        decreases n - i,
    {
        if banks[i].bank.mint == *mint {
            proof {
                lemma_first_bank_skip(banks@, *mint, i as int);
                assert(banks@.skip(i as int)[0] == banks@[i as int]);
            }
            return Some(i);
        }
        i = i + 1;
    }
    proof {
        lemma_first_bank_skip(banks@, *mint, n as int);
        assert(banks@.skip(n as int).len() == 0);
    }
    None
}

/// One lending-account entry against a single bank.
#[derive(Clone, Copy, PartialEq, Eq, Structural, Debug)]
pub struct Balance {
    pub active: bool,
    pub bank_pk: Address,
    pub asset_shares: Fixed,
    pub liability_shares: Fixed,
}

impl Balance {
    /// Shares are non-negative and at most one side is non-zero.
    pub open spec fn wf(self) -> bool {
        &&& 0 <= self.asset_shares.v()
        &&& 0 <= self.liability_shares.v()
        &&& !(self.asset_shares.v() > 0 && self.liability_shares.v() > 0)
    }

    /// The side this balance is on, if any.
    pub open spec fn side_spec(self) -> Option<BalanceSide> {
        if self.liability_shares.v() > 0 {
            Some(BalanceSide::Liabilities)
        } else if self.asset_shares.v() > 0 {
            Some(BalanceSide::Assets)
        } else {
            None
        }
    }

    pub fn get_side(&self) -> (r: Option<BalanceSide>)
        ensures
            r == self.side_spec(),
    {
        if self.liability_shares.bits > 0 {
            Some(BalanceSide::Liabilities)
        } else if self.asset_shares.bits > 0 {
            Some(BalanceSide::Assets)
        } else {
            None
        }
    }

    /// Whether the balance holds nothing on the given side.
    pub fn is_empty(&self, side: BalanceSide) -> (r: bool)
        ensures
            r == match side {
                BalanceSide::Assets => self.asset_shares.v() == 0,
                BalanceSide::Liabilities => self.liability_shares.v() == 0,
            },
    {
        match side {
            BalanceSide::Assets => self.asset_shares.bits == 0,
            BalanceSide::Liabilities => self.liability_shares.bits == 0,
        }
    }
}

/// Most balances a lending account can carry.
pub const MAX_BALANCES: usize = 16;

/// A user position: a bounded list of per-bank balances.
#[derive(Clone, PartialEq, Eq, Debug)]
pub struct LendingAccount {
    pub balances: Vec<Balance>,
}

impl LendingAccount {
    pub open spec fn wf(self) -> bool {
        &&& self.balances@.len() <= MAX_BALANCES
        &&& forall|i: int| 0 <= i < self.balances@.len() ==> #[trigger] self.balances@[i].wf()
    }
}


/// The banks of an account's active liability balances, in account
/// order with multiplicity.
pub open spec fn liability_banks_spec(balances: Seq<Balance>) -> Seq<Address> {
    balances.filter(
        |b: Balance| b.active && b.side_spec() == Some(BalanceSide::Liabilities),
    ).map_values(|b: Balance| b.bank_pk)
}

/// A lending account together with its address.
#[derive(Clone, PartialEq, Eq, Debug)]
pub struct MarginfiAccountWrapper {
    pub address: Address,
    pub account: LendingAccount,
}

impl MarginfiAccountWrapper {
    pub fn new(address: Address, account: LendingAccount) -> (r: MarginfiAccountWrapper)
        ensures
            r.address == address,
            r.account == account,
    {
        MarginfiAccountWrapper { address, account }
    }

    pub open spec fn wf(self) -> bool {
        &&& self.account.wf()
        &&& self.unique_active_banks()
    }

    /// Whether any active balance is on the liability side.
    pub open spec fn has_liabs_spec(self) -> bool {
        exists|i: int|
            0 <= i < self.account.balances@.len() && #[trigger] self.account.balances@[i].active
                && self.account.balances@[i].side_spec() == Some(BalanceSide::Liabilities)
    }

    pub fn has_liabs(&self) -> (r: bool)
        ensures
            r == self.has_liabs_spec(),
    {
        let n = self.account.balances.len();
        let mut i: usize = 0;
        while i < n
            invariant
                n == self.account.balances@.len(),
                i <= n,
                forall|j: int|
                    0 <= j < i ==> !(#[trigger] self.account.balances@[j].active
                        && self.account.balances@[j].side_spec() == Some(
                        BalanceSide::Liabilities,
                    )),
            decreases n - i,
        {
            let b = &self.account.balances[i];
            if b.active && b.liability_shares.bits > 0 {
                return true;
            }
            i = i + 1;
        }
        false
    }

    /// The active balance held against a bank, with its side, if any
    /// side is populated.
    pub open spec fn balance_for_bank_spec(self, bank_pk: Address) -> Option<(Fixed, BalanceSide)> {
        if exists|i: int|
            0 <= i < self.account.balances@.len() && #[trigger] self.account.balances@[i].active
                && self.account.balances@[i].bank_pk == bank_pk {
            let i = choose|i: int|
                0 <= i < self.account.balances@.len() && #[trigger] self.account.balances@[i].active
                    && self.account.balances@[i].bank_pk == bank_pk;
            let b = self.account.balances@[i];
            match b.side_spec() {
                Some(BalanceSide::Assets) => Some((b.asset_shares, BalanceSide::Assets)),
                Some(BalanceSide::Liabilities) => Some(
                    (b.liability_shares, BalanceSide::Liabilities),
                ),
                None => None,
            }
        } else {
            None
        }
    }

    /// Share count and side of the active balance against `bank_pk`.
    /// When several balances name the same bank the account is malformed;
    /// callers pass accounts whose active bank entries are unique.
    pub fn get_balance_for_bank(&self, bank_pk: &Address) -> (r: Option<(Fixed, BalanceSide)>)
        requires
            self.unique_active_banks(),
        ensures
            r == self.balance_for_bank_spec(*bank_pk),
    {
        let n = self.account.balances.len();
        let mut i: usize = 0;
        while i < n
            invariant
                self.unique_active_banks(),
                n == self.account.balances@.len(),
                i <= n,
                forall|j: int|
                    0 <= j < i ==> !(#[trigger] self.account.balances@[j].active
                        && self.account.balances@[j].bank_pk == *bank_pk),
            decreases n - i,
        {
            let b = &self.account.balances[i];
            if b.active && b.bank_pk == *bank_pk {
                proof {
                    let w = choose|j: int|
                        0 <= j < self.account.balances@.len()
                            && #[trigger] self.account.balances@[j].active
                            && self.account.balances@[j].bank_pk == *bank_pk;
                    assert(self.account.balances@[i as int].active && self.account.balances@[
                        i as int
                    ].bank_pk == *bank_pk);
                    assert(self.account.balances@[w].active && self.account.balances@[w].bank_pk
                        == *bank_pk);
                    lemma_unique_active_index(*self, i as int, w, *bank_pk);
                }
                return match b.get_side() {
                    Some(BalanceSide::Assets) => Some((b.asset_shares, BalanceSide::Assets)),
                    Some(BalanceSide::Liabilities) => Some(
                        (b.liability_shares, BalanceSide::Liabilities),
                    ),
                    None => None,
                };
            }
            i = i + 1;
        }
        None
    }

    /// No two active balances name the same bank.
    pub open spec fn unique_active_banks(self) -> bool {
        forall|i: int, j: int|
            #![trigger self.account.balances@[i], self.account.balances@[j]]
            0 <= i < j < self.account.balances@.len() && self.account.balances@[i].active
                && self.account.balances@[j].active ==> self.account.balances@[i].bank_pk
                != self.account.balances@[j].bank_pk
    }

    /// Banks of all active liability balances: exactly the filtered
    /// projection of the account's balances, in account order.
    pub fn get_liabilities(&self) -> (r: Vec<Address>)
        ensures
            r@ == liability_banks_spec(self.account.balances@),
            self.has_liabs_spec() <==> r@.len() > 0,
    {
        let n = self.account.balances.len();
        let mut r: Vec<Address> = Vec::new();
        let mut i: usize = 0;
        proof {
            assert(self.account.balances@.subrange(0, 0) =~= Seq::<Balance>::empty());
            reveal(Seq::filter);
        }
        while i < n
            invariant
                n == self.account.balances@.len(),
                i <= n,
                r@ == liability_banks_spec(self.account.balances@.subrange(0, i as int)),
                r@.len() > 0 <==> exists|m: int|
                    0 <= m < i && #[trigger] self.account.balances@[m].active
                        && self.account.balances@[m].side_spec() == Some(BalanceSide::Liabilities),
            decreases n - i,
        {
            let b = &self.account.balances[i];
            proof {
                assert(self.account.balances@.subrange(0, i + 1)
                    =~= self.account.balances@.subrange(0, i as int).push(
                    self.account.balances@[i as int],
                ));
                lemma_filter_push(
                    self.account.balances@.subrange(0, i as int),
                    self.account.balances@[i as int],
                    |x: Balance| x.active && x.side_spec() == Some(BalanceSide::Liabilities),
                );
            }
            if b.active && b.liability_shares.bits > 0 {
                r.push(b.bank_pk);
                proof {
                    assert(r@ =~= liability_banks_spec(
                        self.account.balances@.subrange(0, i + 1),
                    ));
                }
            } else {
                proof {
                    assert(r@ =~= liability_banks_spec(
                        self.account.balances@.subrange(0, i + 1),
                    ));
                }
            }
            i = i + 1;
        }
        proof {
            assert(self.account.balances@.subrange(0, n as int) =~= self.account.balances@);
        }
        r
    }
}

/// Two active balances that name the same bank sit at the same index
/// in an account whose active bank entries are unique.
proof fn lemma_unique_active_index(acct: MarginfiAccountWrapper, a: int, b: int, pk: Address)
    requires
        acct.unique_active_banks(),
        0 <= a < acct.account.balances@.len(),
        0 <= b < acct.account.balances@.len(),
        acct.account.balances@[a].active,
        acct.account.balances@[b].active,
        acct.account.balances@[a].bank_pk == pk,
        acct.account.balances@[b].bank_pk == pk,
    ensures
        a == b,
{
    if a < b {
        assert(acct.account.balances@[a].bank_pk != acct.account.balances@[b].bank_pk);
    } else if b < a {
        assert(acct.account.balances@[b].bank_pk != acct.account.balances@[a].bank_pk);
    }
}


/// `filter` over a sequence extended by one element.
pub proof fn lemma_filter_push<A>(s: Seq<A>, x: A, pred: spec_fn(A) -> bool)
    ensures
        s.push(x).filter(pred) == if pred(x) {
            s.filter(pred).push(x)
        } else {
            s.filter(pred)
        },
{
    reveal(Seq::filter);
    assert(s.push(x).drop_last() =~= s);
    assert(s.push(x).last() == x);
}

/// The bot's own token account for one mint.
#[derive(Clone, Copy, PartialEq, Eq, Structural, Debug)]
pub struct TokenAccountWrapper {
    pub address: Address,
    pub mint: Address,
    pub balance: u64,
    pub mint_decimals: u8,
}

} // verus!
