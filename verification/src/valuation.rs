//! Conversion between native token amounts and risk-weighted USD values,
//! and the health computation over a lending account.
//!
//! `calc_value` turns a native amount into a USD value at a price and an
//! optional risk weight; `calc_amount` is its inverse.  Both round toward
//! negative infinity in a single step, which gives the round-trip bound
//! proved in `lemma_value_amount_round_trip`.

use vstd::prelude::*;
use vstd::arithmetic::div_mod::lemma_fundamental_div_mod;
use vstd::arithmetic::div_mod::lemma_div_is_ordered;
use vstd::arithmetic::div_mod::lemma_div_multiples_vanish;
use vstd::arithmetic::div_mod::lemma_div_pos_is_pos;
use vstd::arithmetic::mul::lemma_mul_inequality;
use crate::fixed_point::Fixed;
use crate::fixed_point::SCALE;
use crate::fixed_point::I128_MIN_MAG;
use crate::fixed_point::mul_bits;
use crate::fixed_point::div_bits;
use crate::fixed_point::fits_i128;
use crate::accounts::Bank;
use crate::accounts::BankWrapper;
use crate::accounts::Balance;
use crate::accounts::BalanceSide;
use crate::accounts::LendingAccount;
use crate::accounts::PriceAdapter;
use crate::accounts::PriceBias;
use crate::accounts::RequirementType;
use crate::accounts::RiskTier;
use crate::accounts::Address;
use crate::accounts::MAX_MINT_DECIMALS;
use crate::accounts::MarginfiAccountWrapper;

verus! {

/// `10^d` as a mathematical integer.
pub open spec fn pow10_spec(d: nat) -> int
    decreases d,
{
    if d == 0 {
        1
    } else {
        10 * pow10_spec((d - 1) as nat)
    }
}

/// Scaling divisor of a value computation: `2^48 * 10^d`.
pub open spec fn value_den(d: nat) -> int {
    (SCALE as int) * pow10_spec(d)
}

/// Unweighted value bits: `floor(amount * price / (2^48 * 10^d))`.
pub open spec fn value_bits(amount: int, price: int, d: nat) -> int {
    (amount * price) / value_den(d)
}

/// Amount bits recovered from a value: `floor(value * 2^48 * 10^d / price)`.
pub open spec fn amount_bits(value: int, price: int, d: nat) -> int
    recommends
        price > 0,
{
    (value * value_den(d)) / price
}

pub proof fn lemma_pow10_pos(d: nat)
    ensures
        pow10_spec(d) >= 1,
    decreases d,
{
    if d > 0 {
        lemma_pow10_pos((d - 1) as nat);
    }
}

proof fn lemma_pow10_monotone(a: nat, b: nat)
    requires
        a <= b,
    ensures
        pow10_spec(a) <= pow10_spec(b),
    decreases b,
{
    if a < b {
        lemma_pow10_monotone(a, (b - 1) as nat);
        lemma_pow10_pos((b - 1) as nat);
    }
}

/// `10^23`, the largest power of ten the valuation routines scale by.
pub const POW10_MAX: u128 = 100000000000000000000000;

/// `10^d` for `d` up to `MAX_MINT_DECIMALS`.
pub fn pow10(d: u8) -> (r: u128)
    requires
        d <= MAX_MINT_DECIMALS,
    ensures
        r == pow10_spec(d as nat),
        r <= POW10_MAX,
{
    proof {
        lemma_pow10_monotone(0, MAX_MINT_DECIMALS as nat);
        lemma_pow10_23_value();
    }
    let mut r: u128 = 1;
    let mut i: u8 = 0;
    while i < d
        invariant
            i <= d <= MAX_MINT_DECIMALS,
            r == pow10_spec(i as nat),
            pow10_spec(MAX_MINT_DECIMALS as nat) == POW10_MAX,
        decreases d - i,
    {
        proof {
            lemma_pow10_monotone((i + 1) as nat, MAX_MINT_DECIMALS as nat);
        }
        r = r * 10;
        i = i + 1;
    }
    proof {
        lemma_pow10_monotone(d as nat, MAX_MINT_DECIMALS as nat);
    }
    r
}

proof fn lemma_pow10_23_value()
    ensures
        pow10_spec(23) == POW10_MAX,
{
    reveal_with_fuel(pow10_spec, 24);
}

/// The scaling divisor fits comfortably under `2^127`.
pub proof fn lemma_value_den_bounds(d: nat)
    requires
        d <= MAX_MINT_DECIMALS as nat,
    ensures
        0 < value_den(d) < I128_MIN_MAG,
{
    lemma_pow10_pos(d);
    lemma_pow10_monotone(d, 23);
    lemma_pow10_23_value();
    assert((SCALE as int) * pow10_spec(d) <= (SCALE as int) * (POW10_MAX as int)
        && 0 < (SCALE as int) * pow10_spec(d)) by (nonlinear_arith)
        requires
            1 <= pow10_spec(d) <= POW10_MAX as int,
    ;
    assert((SCALE as int) * (POW10_MAX as int) < I128_MIN_MAG) by (nonlinear_arith);
}

/// Result of a value computation over bit values; `None` marks an
/// arithmetic overflow.
pub open spec fn calc_value_spec(amount: int, price: int, d: nat, weight: Option<int>) -> Option<
    int,
> {
    let base = value_bits(amount, price, d);
    if !fits_i128(base) {
        None
    } else {
        match weight {
            None => Some(base),
            Some(w) => {
                let v = mul_bits(base, w);
                if fits_i128(v) {
                    Some(v)
                } else {
                    None
                }
            },
        }
    }
}

/// Native amount worth `value` at `price`: the inverse of `calc_value`
/// without a weight.
pub open spec fn calc_amount_spec(value: int, price: int, d: nat) -> Option<int>
    recommends
        price > 0,
{
    let a = amount_bits(value, price, d);
    if fits_i128(a) {
        Some(a)
    } else {
        None
    }
}

/// `amount * price * 10^(-d)`, optionally risk-weighted.  The unweighted
/// product is rounded once; a weight adds one more rounding step.
pub fn calc_value(amount: Fixed, price: Fixed, mint_decimals: u8, weight: Option<Fixed>) -> (r:
    Option<Fixed>)
    requires
        mint_decimals <= MAX_MINT_DECIMALS,
    ensures
        match r {
            Some(f) => calc_value_spec(
                amount.v(),
                price.v(),
                mint_decimals as nat,
                match weight {
                    None => None,
                    Some(w) => Some(w.v()),
                },
            ) == Some(f.v()),
            None => calc_value_spec(
                amount.v(),
                price.v(),
                mint_decimals as nat,
                match weight {
                    None => None,
                    Some(w) => Some(w.v()),
                },
            ) is None,
        },
{
    proof {
        lemma_value_den_bounds(mint_decimals as nat);
    }
    let p10 = pow10(mint_decimals);
    let den: u128 = SCALE * p10;
    proof {
        assert(SCALE * p10 == (SCALE as int) * pow10_spec(mint_decimals as nat))
            by (nonlinear_arith)
            requires
                p10 == pow10_spec(mint_decimals as nat),
        ;
    }
    let base = match amount.mul_div_floor(price, den) {
        Some(b) => b,
        None => {
            return None;
        },
    };
    match weight {
        None => Some(base),
        Some(w) => base.mul_floor(w),
    }
}

/// `value / price * 10^d`: the native amount worth `value` at `price`.
pub fn calc_amount(value: Fixed, price: Fixed, mint_decimals: u8) -> (r: Option<Fixed>)
    requires
        mint_decimals <= MAX_MINT_DECIMALS,
        price.v() > 0,
    ensures
        match r {
            Some(f) => calc_amount_spec(value.v(), price.v(), mint_decimals as nat) == Some(f.v()),
            None => calc_amount_spec(value.v(), price.v(), mint_decimals as nat) is None,
        },
{
    proof {
        lemma_value_den_bounds(mint_decimals as nat);
    }
    let p10 = pow10(mint_decimals);
    let den: u128 = SCALE * p10;
    proof {
        assert(SCALE * p10 == (SCALE as int) * pow10_spec(mint_decimals as nat))
            by (nonlinear_arith)
            requires
                p10 == pow10_spec(mint_decimals as nat),
        ;
    }
    value.mul_u128_div_floor(den, price)
}

/// Converting an amount to an unweighted value and back loses at most one
/// bit of the amount, provided the price is at least `10^d` so a bit of
/// value never stands for more than a bit of amount.
pub proof fn lemma_value_amount_round_trip(a: int, p: int, d: nat)
    requires
        0 <= a,
        d <= MAX_MINT_DECIMALS as nat,
        p >= value_den(d),
    ensures
        a - 1 <= amount_bits(value_bits(a, p, d), p, d) <= a,
{
    let q = value_den(d);
    lemma_value_den_bounds(d);
    let v = (a * p) / q;
    lemma_fundamental_div_mod(a * p, q);
    let r1 = (a * p) % q;
    assert(a * p >= 0) by (nonlinear_arith)
        requires
            a >= 0,
            p >= q,
            q > 0,
    ;
    lemma_div_pos_is_pos(a * p, q);
    // upper bound: v * q <= a * p, so (v * q) / p <= (a * p) / p == a
    assert(v * q <= a * p) by (nonlinear_arith)
        requires
            a * p == q * v + r1,
            r1 >= 0,
    ;
    lemma_div_is_ordered(v * q, a * p, p);
    lemma_div_multiples_vanish(a, p);
    assert(a * p == p * a) by (nonlinear_arith);
    assert((a * p) / p == a);
    // lower bound: v * q >= a * p - q + 1 >= (a - 1) * p + 1
    assert(v * q >= a * p - q + 1) by (nonlinear_arith)
        requires
            a * p == q * v + r1,
            0 <= r1 < q,
    ;
    assert(a * p - q + 1 >= (a - 1) * p + 1) by (nonlinear_arith)
        requires
            q <= p,
    ;
    lemma_div_is_ordered((a - 1) * p + 1, v * q, p);
    lemma_fundamental_div_mod((a - 1) * p + 1, p);
    assert(((a - 1) * p + 1) / p >= a - 1) by (nonlinear_arith)
        requires
            p > 1,
            (a - 1) * p + 1 == p * (((a - 1) * p + 1) / p) + ((a - 1) * p + 1) % p,
            0 <= ((a - 1) * p + 1) % p < p,
    ;
}

/// Price bias used for asset valuation: none under equity, low otherwise.
pub open spec fn asset_bias_spec(req: RequirementType) -> Option<PriceBias> {
    if req == RequirementType::Equity {
        None
    } else {
        Some(PriceBias::Low)
    }
}

/// Price bias used for liability valuation: none under equity, high otherwise.
pub open spec fn liab_bias_spec(req: RequirementType) -> Option<PriceBias> {
    if req == RequirementType::Equity {
        None
    } else {
        Some(PriceBias::High)
    }
}

/// Valuation failures: a balance naming an unknown bank, or arithmetic
/// that leaves the fixed-point range.
#[derive(Clone, Copy, PartialEq, Eq, Structural, Debug)]
pub enum ValuationError {
    BankNotFound,
    MathError,
}

/// The discount applied to the initial asset weight once the bank''s
/// total deposits exceed its configured USD limit.  Outer `None` marks
/// overflow; inner `None` means no discount applies.
pub open spec fn init_discount_spec(bank: Bank, price: int) -> Option<Option<int>> {
    if bank.total_asset_value_init_limit.v() == 0 {
        Some(None)
    } else {
        let ta = mul_bits(bank.total_asset_shares.v(), bank.asset_share_value.v());
        if !fits_i128(ta) {
            None
        } else {
            match calc_value_spec(ta, price, bank.mint_decimals as nat, None) {
                None => None,
                Some(usd) => if usd > bank.total_asset_value_init_limit.v() {
                    let disc = div_bits(bank.total_asset_value_init_limit.v(), usd);
                    if fits_i128(disc) {
                        Some(Some(disc))
                    } else {
                        None
                    }
                } else {
                    Some(None)
                },
            }
        }
    }
}

impl Bank {
    /// The initial-requirement discount factor at the given low-bias
    /// price, when the bank''s total asset USD exceeds its limit.
    pub fn maybe_get_asset_weight_init_discount(&self, price: Fixed) -> (r: Option<Option<Fixed>>)
        requires
            self.wf(),
        ensures
            match r {
                Some(None) => init_discount_spec(*self, price.v()) == Some(Option::<int>::None),
                Some(Some(f)) => init_discount_spec(*self, price.v()) == Some(Some(f.v())),
                None => init_discount_spec(*self, price.v()) is None,
            },
    {
        if self.total_asset_value_init_limit.bits == 0 {
            return Some(None);
        }
        let ta = match self.get_asset_amount(self.total_asset_shares) {
            Some(t) => t,
            None => {
                return None;
            },
        };
        let usd = match calc_value(ta, price, self.mint_decimals, None) {
            Some(u) => u,
            None => {
                return None;
            },
        };
        if usd.bits > self.total_asset_value_init_limit.bits {
            match self.total_asset_value_init_limit.div_floor(usd) {
                Some(d) => Some(Some(d)),
                None => None,
            }
        } else {
            Some(None)
        }
    }
}

/// Asset weight after the initial-requirement discount.  `None` marks
/// overflow.
pub open spec fn effective_asset_weight_spec(bank: Bank, price: int, req: RequirementType)
    -> Option<int> {
    let w0 = bank.weight_spec(req, BalanceSide::Assets);
    if req != RequirementType::Initial {
        Some(w0)
    } else {
        match init_discount_spec(bank, price) {
            None => None,
            Some(None) => Some(w0),
            Some(Some(disc)) => {
                let w = mul_bits(w0, disc);
                if fits_i128(w) {
                    Some(w)
                } else {
                    None
                }
            },
        }
    }
}

/// Risk-weighted USD value of a native asset amount against a bank, at
/// the low-bias price of the requirement''s feed.
pub open spec fn weighted_assets_spec(bw: BankWrapper, amount: int, req: RequirementType)
    -> Option<int> {
    let price = bw.oracle_adapter.price_adapter.price_of_type_spec(
        req.oracle_price_type_spec(),
        asset_bias_spec(req),
    );
    match effective_asset_weight_spec(bw.bank, price, req) {
        None => None,
        Some(w) => calc_value_spec(amount, price, bw.bank.mint_decimals as nat, Some(w)),
    }
}

/// Risk-weighted USD value of a native liability amount against a bank,
/// at the high-bias price of the requirement''s feed.
pub open spec fn weighted_liabs_spec(bw: BankWrapper, amount: int, req: RequirementType) -> Option<
    int,
> {
    let price = bw.oracle_adapter.price_adapter.price_of_type_spec(
        req.oracle_price_type_spec(),
        liab_bias_spec(req),
    );
    calc_value_spec(
        amount,
        price,
        bw.bank.mint_decimals as nat,
        Some(bw.bank.weight_spec(req, BalanceSide::Liabilities)),
    )
}

/// Risk-weighted asset value of a native amount.  Token-account holdings
/// and withdrawal sizing go through this form, which ignores risk tier.
pub fn calc_weighted_assets(bank_wrapper: &BankWrapper, amount: Fixed, requirement_type:
    RequirementType) -> (r: Option<Fixed>)
    requires
        bank_wrapper.wf(),
    ensures
        match r {
            Some(f) => weighted_assets_spec(*bank_wrapper, amount.v(), requirement_type) == Some(
                f.v(),
            ),
            None => weighted_assets_spec(*bank_wrapper, amount.v(), requirement_type) is None,
        },
{
    let price_bias = if matches!(requirement_type, RequirementType::Equity) {
        None
    } else {
        Some(PriceBias::Low)
    };
    let price = bank_wrapper.oracle_adapter.price_adapter.get_price_of_type(
        requirement_type.get_oracle_price_type(),
        price_bias,
    );
    let mut asset_weight = bank_wrapper.bank.get_weight(requirement_type, BalanceSide::Assets);
    if matches!(requirement_type, RequirementType::Initial) {
        match bank_wrapper.bank.maybe_get_asset_weight_init_discount(price) {
            Some(Some(discount)) => {
                match asset_weight.mul_floor(discount) {
                    Some(w) => {
                        asset_weight = w;
                    },
                    None => {
                        return None;
                    },
                }
            },
            Some(None) => {},
            None => {
                return None;
            },
        }
    }
    calc_value(amount, price, bank_wrapper.bank.mint_decimals, Some(asset_weight))
}

/// Risk-weighted liability value of a native amount.
pub fn calc_weighted_liabs(bank_wrapper: &BankWrapper, amount: Fixed, requirement_type:
    RequirementType) -> (r: Option<Fixed>)
    requires
        bank_wrapper.wf(),
    ensures
        match r {
            Some(f) => weighted_liabs_spec(*bank_wrapper, amount.v(), requirement_type) == Some(
                f.v(),
            ),
            None => weighted_liabs_spec(*bank_wrapper, amount.v(), requirement_type) is None,
        },
{
    let price_bias = if matches!(requirement_type, RequirementType::Equity) {
        None
    } else {
        Some(PriceBias::High)
    };
    let price = bank_wrapper.oracle_adapter.price_adapter.get_price_of_type(
        requirement_type.get_oracle_price_type(),
        price_bias,
    );
    let liability_weight = bank_wrapper.bank.get_weight(
        requirement_type,
        BalanceSide::Liabilities,
    );
    calc_value(amount, price, bank_wrapper.bank.mint_decimals, Some(liability_weight))
}

/// Weighted asset value of a balance''s shares: zero for an isolated
/// bank, the share value converted to an amount and priced otherwise.
pub open spec fn weighted_balance_assets_spec(bw: BankWrapper, shares: int, req: RequirementType)
    -> Option<int> {
    if bw.bank.risk_tier == RiskTier::Isolated {
        Some(0)
    } else {
        let amt = mul_bits(shares, bw.bank.asset_share_value.v());
        if !fits_i128(amt) {
            None
        } else {
            weighted_assets_spec(bw, amt, req)
        }
    }
}

/// Weighted liability value of a balance''s shares; risk tier is ignored.
pub open spec fn weighted_balance_liabs_spec(bw: BankWrapper, shares: int, req: RequirementType)
    -> Option<int> {
    let amt = mul_bits(shares, bw.bank.liability_share_value.v());
    if !fits_i128(amt) {
        None
    } else {
        weighted_liabs_spec(bw, amt, req)
    }
}

/// A balance paired with the bank it is held against.
#[derive(Clone, Copy, PartialEq, Eq, Structural, Debug)]
pub struct BankAccountWithPriceFeedEva {
    pub bank: BankWrapper,
    pub balance: Balance,
}

impl BankAccountWithPriceFeedEva {
    /// Pairs every active balance of the account with its bank entry, in
    /// account order; fails when a balance names an unknown bank.
    pub fn load(lending_account: &LendingAccount, banks: &Vec<BankWrapper>) -> (r: Option<
        Vec<BankAccountWithPriceFeedEva>,
    >)
        requires
            crate::accounts::unique_bank_addresses(banks@),
        ensures
            match r {
                Some(v) => {
                    &&& v@.map_values(|x: BankAccountWithPriceFeedEva| x.balance)
                        == lending_account.balances@.filter(|b: Balance| b.active)
                    &&& forall|k: int|
                        0 <= k < v@.len() ==> crate::accounts::bank_lookup_spec(
                            banks@,
                            (#[trigger] v@[k]).balance.bank_pk,
                        ) == Some(v@[k].bank)
                },
                None => exists|i: int|
                    0 <= i < lending_account.balances@.len()
                        && (#[trigger] lending_account.balances@[i]).active
                        && crate::accounts::bank_lookup_spec(
                        banks@,
                        lending_account.balances@[i].bank_pk,
                    ) is None,
            },
    {
        let n = lending_account.balances.len();
        let mut v: Vec<BankAccountWithPriceFeedEva> = Vec::new();
        let mut i: usize = 0;
        proof {
            assert(lending_account.balances@.subrange(0, 0) =~= Seq::<Balance>::empty());
            reveal(Seq::filter);
        }
        while i < n
            invariant
                crate::accounts::unique_bank_addresses(banks@),
                n == lending_account.balances@.len(),
                i <= n,
                v@.map_values(|x: BankAccountWithPriceFeedEva| x.balance)
                    == lending_account.balances@.subrange(0, i as int).filter(
                    |b: Balance| b.active,
                ),
                forall|k: int|
                    0 <= k < v@.len() ==> crate::accounts::bank_lookup_spec(
                        banks@,
                        (#[trigger] v@[k]).balance.bank_pk,
                    ) == Some(v@[k].bank),
            decreases n - i,
        {
            let b = lending_account.balances[i];
            proof {
                assert(lending_account.balances@.subrange(0, i + 1 as int)
                    =~= lending_account.balances@.subrange(0, i as int).push(
                    lending_account.balances@[i as int],
                ));
                crate::accounts::lemma_filter_push(
                    lending_account.balances@.subrange(0, i as int),
                    lending_account.balances@[i as int],
                    |x: Balance| x.active,
                );
            }
            if b.active {
                match crate::accounts::find_bank(banks, &b.bank_pk) {
                    Some(idx) => {
                        let entry = BankAccountWithPriceFeedEva { bank: banks[idx], balance: b };
                        v.push(entry);
                    },
                    None => {
                        return None;
                    },
                }
            }
            i = i + 1;
        }
        proof {
            assert(lending_account.balances@.subrange(0, n as int) =~= lending_account.balances@);
        }
        Some(v)
    }

    /// The pairing for one bank alone: `Ok(None)` when the account has
    /// no active balance against it, an error when the bank is unknown.
    pub fn load_single(
        lending_account: &LendingAccount,
        banks: &Vec<BankWrapper>,
        bank_pk: &Address,
    ) -> (r: Result<Option<BankAccountWithPriceFeedEva>, ValuationError>)
        requires
            crate::accounts::unique_bank_addresses(banks@),
        ensures
            match r {
                Ok(None) => !(exists|i: int|
                    0 <= i < lending_account.balances@.len()
                        && (#[trigger] lending_account.balances@[i]).active
                        && lending_account.balances@[i].bank_pk == *bank_pk),
                Ok(Some(e)) => e.balance.active && e.balance.bank_pk == *bank_pk
                    && crate::accounts::bank_lookup_spec(banks@, *bank_pk) == Some(e.bank) && (
                exists|i: int|
                    0 <= i < lending_account.balances@.len()
                        && #[trigger] lending_account.balances@[i] == e.balance),
                Err(err) => err == ValuationError::BankNotFound
                    && crate::accounts::bank_lookup_spec(banks@, *bank_pk) is None,
            },
    {
        let n = lending_account.balances.len();
        let mut i: usize = 0;
        while i < n
            invariant
                crate::accounts::unique_bank_addresses(banks@),
                n == lending_account.balances@.len(),
                i <= n,
                forall|j: int|
                    0 <= j < i ==> !((#[trigger] lending_account.balances@[j]).active
                        && lending_account.balances@[j].bank_pk == *bank_pk),
            decreases n - i,
        {
            let b = lending_account.balances[i];
            if b.active && b.bank_pk == *bank_pk {
                return match crate::accounts::find_bank(banks, bank_pk) {
                    None => Err(ValuationError::BankNotFound),
                    Some(idx) => Ok(
                        Some(BankAccountWithPriceFeedEva { bank: banks[idx], balance: b }),
                    ),
                };
            }
            i = i + 1;
        }
        Ok(None)
    }

    /// `(weighted assets, weighted liabilities)` of this balance; the
    /// side the balance is not on contributes zero.
    pub fn calc_weighted_assets_and_liabilities_values(&self, requirement_type: RequirementType)
        -> (r: Result<(Fixed, Fixed), ValuationError>)
        requires
            self.bank.wf(),
        ensures
            match r {
                Ok((a, l)) => match self.balance.side_spec() {
                    Some(BalanceSide::Assets) => weighted_balance_assets_spec(
                        self.bank,
                        self.balance.asset_shares.v(),
                        requirement_type,
                    ) == Some(a.v()) && l.v() == 0,
                    Some(BalanceSide::Liabilities) => weighted_balance_liabs_spec(
                        self.bank,
                        self.balance.liability_shares.v(),
                        requirement_type,
                    ) == Some(l.v()) && a.v() == 0,
                    None => a.v() == 0 && l.v() == 0,
                },
                Err(e) => e == ValuationError::MathError && (match self.balance.side_spec() {
                    Some(BalanceSide::Assets) => weighted_balance_assets_spec(
                        self.bank,
                        self.balance.asset_shares.v(),
                        requirement_type,
                    ) is None,
                    Some(BalanceSide::Liabilities) => weighted_balance_liabs_spec(
                        self.bank,
                        self.balance.liability_shares.v(),
                        requirement_type,
                    ) is None,
                    None => false,
                }),
            },
    {
        match self.balance.get_side() {
            None => Ok((Fixed::zero(), Fixed::zero())),
            Some(BalanceSide::Assets) => {
                match self.calc_weighted_assets_for_balance(requirement_type) {
                    Some(a) => Ok((a, Fixed::zero())),
                    None => Err(ValuationError::MathError),
                }
            },
            Some(BalanceSide::Liabilities) => {
                match self.calc_weighted_liabs_for_balance(requirement_type) {
                    Some(l) => Ok((Fixed::zero(), l)),
                    None => Err(ValuationError::MathError),
                }
            },
        }
    }

    /// Weighted asset value of this balance: zero when the bank is
    /// isolated.
    pub fn calc_weighted_assets_for_balance(&self, requirement_type: RequirementType) -> (r:
        Option<Fixed>)
        requires
            self.bank.wf(),
        ensures
            match r {
                Some(f) => weighted_balance_assets_spec(
                    self.bank,
                    self.balance.asset_shares.v(),
                    requirement_type,
                ) == Some(f.v()),
                None => weighted_balance_assets_spec(
                    self.bank,
                    self.balance.asset_shares.v(),
                    requirement_type,
                ) is None,
            },
            self.bank.bank.risk_tier == RiskTier::Isolated ==> r == Some(Fixed { bits: 0i128 }),
    {
        match self.bank.bank.risk_tier {
            RiskTier::Isolated => Some(Fixed::zero()),
            RiskTier::Collateral => {
                let amt = match self.bank.bank.get_asset_amount(self.balance.asset_shares) {
                    Some(a) => a,
                    None => {
                        return None;
                    },
                };
                calc_weighted_assets(&self.bank, amt, requirement_type)
            },
        }
    }

    /// Weighted liability value of this balance.
    pub fn calc_weighted_liabs_for_balance(&self, requirement_type: RequirementType) -> (r: Option<
        Fixed,
    >)
        requires
            self.bank.wf(),
        ensures
            match r {
                Some(f) => weighted_balance_liabs_spec(
                    self.bank,
                    self.balance.liability_shares.v(),
                    requirement_type,
                ) == Some(f.v()),
                None => weighted_balance_liabs_spec(
                    self.bank,
                    self.balance.liability_shares.v(),
                    requirement_type,
                ) is None,
            },
    {
        let amt = match self.bank.bank.get_liability_amount(self.balance.liability_shares) {
            Some(a) => a,
            None => {
                return None;
            },
        };
        calc_weighted_liabs(&self.bank, amt, requirement_type)
    }

    /// Whether this balance holds nothing on the given side.
    pub fn is_empty(&self, side: BalanceSide) -> (r: bool)
        ensures
            r == match side {
                BalanceSide::Assets => self.balance.asset_shares.v() == 0,
                BalanceSide::Liabilities => self.balance.liability_shares.v() == 0,
            },
    {
        self.balance.is_empty(side)
    }
}


/// Total weighted assets and liabilities of the first `n` balances of an
/// account; errors on an unknown bank or arithmetic overflow.
pub open spec fn health_spec(
    balances: Seq<Balance>,
    banks: Seq<BankWrapper>,
    req: RequirementType,
    n: int,
) -> Result<(int, int), ValuationError>
    decreases n,
{
    if n <= 0 {
        Ok((0, 0))
    } else {
        match health_spec(balances, banks, req, n - 1) {
            Err(e) => Err(e),
            Ok((a, l)) => {
                let b = balances[n - 1];
                if !b.active {
                    Ok((a, l))
                } else {
                    match crate::accounts::bank_lookup_spec(banks, b.bank_pk) {
                        None => Err(ValuationError::BankNotFound),
                        Some(bw) => match b.side_spec() {
                            None => Ok((a, l)),
                            Some(BalanceSide::Assets) => match weighted_balance_assets_spec(
                                bw,
                                b.asset_shares.v(),
                                req,
                            ) {
                                None => Err(ValuationError::MathError),
                                Some(v) => if fits_i128(a + v) {
                                    Ok((a + v, l))
                                } else {
                                    Err(ValuationError::MathError)
                                },
                            },
                            Some(BalanceSide::Liabilities) => match weighted_balance_liabs_spec(
                                bw,
                                b.liability_shares.v(),
                                req,
                            ) {
                                None => Err(ValuationError::MathError),
                                Some(v) => if fits_i128(l + v) {
                                    Ok((a, l + v))
                                } else {
                                    Err(ValuationError::MathError)
                                },
                            },
                        },
                    }
                }
            },
        }
    }
}


/// Whether an account may be liquidated: its maintenance-weighted
/// liabilities strictly exceed its maintenance-weighted assets.
pub fn account_is_eligible_for_liquidation(
    lending_account: &LendingAccount,
    banks: &Vec<BankWrapper>,
) -> (r: Result<bool, ValuationError>)
    requires
        crate::accounts::unique_bank_addresses(banks@),
        forall|i: int| 0 <= i < banks@.len() ==> (#[trigger] banks@[i]).wf(),
    ensures
        match r {
            Ok(b) => health_spec(
                lending_account.balances@,
                banks@,
                RequirementType::Maintenance,
                lending_account.balances@.len() as int,
            ) matches Ok((a, l)) && b == (l > a),
            Err(e) => health_spec(
                lending_account.balances@,
                banks@,
                RequirementType::Maintenance,
                lending_account.balances@.len() as int,
            ) == Err::<(int, int), ValuationError>(e),
        },
{
    match calc_health(lending_account, banks, RequirementType::Maintenance) {
        Ok((a, l)) => Ok(l.bits > a.bits),
        Err(e) => Err(e),
    }
}

/// Once the health recursion hits an error, every longer prefix keeps it.
proof fn lemma_health_err_persists(
    balances: Seq<Balance>,
    banks: Seq<BankWrapper>,
    req: RequirementType,
    n: int,
    m: int,
)
    requires
        health_spec(balances, banks, req, n) is Err,
        n <= m,
    ensures
        health_spec(balances, banks, req, m) == health_spec(balances, banks, req, n),
    decreases m - n,
{
    if m > n {
        lemma_health_err_persists(balances, banks, req, n, m - 1);
    }
}

/// `(total weighted assets, total weighted liabilities)` of an account
/// under a requirement.  A balance against an unknown bank or a valuation
/// overflow excludes the whole account with an error.
pub fn calc_health(
    lending_account: &LendingAccount,
    banks: &Vec<BankWrapper>,
    requirement_type: RequirementType,
) -> (r: Result<(Fixed, Fixed), ValuationError>)
    requires
        crate::accounts::unique_bank_addresses(banks@),
        forall|i: int| 0 <= i < banks@.len() ==> (#[trigger] banks@[i]).wf(),
    ensures
        match r {
            Ok((a, l)) => health_spec(
                lending_account.balances@,
                banks@,
                requirement_type,
                lending_account.balances@.len() as int,
            ) == Ok::<(int, int), ValuationError>((a.v(), l.v())),
            Err(e) => health_spec(
                lending_account.balances@,
                banks@,
                requirement_type,
                lending_account.balances@.len() as int,
            ) == Err::<(int, int), ValuationError>(e),
        },
{
    let n = lending_account.balances.len();
    let mut ta = Fixed::zero();
    let mut tl = Fixed::zero();
    let mut i: usize = 0;
    while i < n
        invariant
            crate::accounts::unique_bank_addresses(banks@),
            forall|k: int| 0 <= k < banks@.len() ==> (#[trigger] banks@[k]).wf(),
            n == lending_account.balances@.len(),
            i <= n,
            health_spec(lending_account.balances@, banks@, requirement_type, i as int) == Ok::<
                (int, int),
                ValuationError,
            >((ta.v(), tl.v())),
        decreases n - i,
    {
        let b = lending_account.balances[i];
        if b.active {
            let idx = match crate::accounts::find_bank(banks, &b.bank_pk) {
                Some(idx) => idx,
                None => {
                    proof {
                        assert(health_spec(
                            lending_account.balances@,
                            banks@,
                            requirement_type,
                            i + 1,
                        ) == Err::<(int, int), ValuationError>(ValuationError::BankNotFound));
                        lemma_health_err_persists(
                            lending_account.balances@,
                            banks@,
                            requirement_type,
                            i + 1,
                            n as int,
                        );
                    }
                    return Err(ValuationError::BankNotFound);
                },
            };
            let entry = BankAccountWithPriceFeedEva { bank: banks[idx], balance: b };
            match b.get_side() {
                None => {},
                Some(BalanceSide::Assets) => {
                    let v = match entry.calc_weighted_assets_for_balance(requirement_type) {
                        Some(v) => v,
                        None => {
                            proof {
                                assert(health_spec(
                                    lending_account.balances@,
                                    banks@,
                                    requirement_type,
                                    i + 1,
                                ) == Err::<(int, int), ValuationError>(ValuationError::MathError));
                                lemma_health_err_persists(
                                    lending_account.balances@,
                                    banks@,
                                    requirement_type,
                                    i + 1,
                                    n as int,
                                );
                            }
                            return Err(ValuationError::MathError);
                        },
                    };
                    ta = match ta.checked_add(v) {
                        Some(t) => t,
                        None => {
                            proof {
                                assert(health_spec(
                                    lending_account.balances@,
                                    banks@,
                                    requirement_type,
                                    i + 1,
                                ) == Err::<(int, int), ValuationError>(ValuationError::MathError));
                                lemma_health_err_persists(
                                    lending_account.balances@,
                                    banks@,
                                    requirement_type,
                                    i + 1,
                                    n as int,
                                );
                            }
                            return Err(ValuationError::MathError);
                        },
                    };
                },
                Some(BalanceSide::Liabilities) => {
                    let v = match entry.calc_weighted_liabs_for_balance(requirement_type) {
                        Some(v) => v,
                        None => {
                            proof {
                                assert(health_spec(
                                    lending_account.balances@,
                                    banks@,
                                    requirement_type,
                                    i + 1,
                                ) == Err::<(int, int), ValuationError>(ValuationError::MathError));
                                lemma_health_err_persists(
                                    lending_account.balances@,
                                    banks@,
                                    requirement_type,
                                    i + 1,
                                    n as int,
                                );
                            }
                            return Err(ValuationError::MathError);
                        },
                    };
                    tl = match tl.checked_add(v) {
                        Some(t) => t,
                        None => {
                            proof {
                                assert(health_spec(
                                    lending_account.balances@,
                                    banks@,
                                    requirement_type,
                                    i + 1,
                                ) == Err::<(int, int), ValuationError>(ValuationError::MathError));
                                lemma_health_err_persists(
                                    lending_account.balances@,
                                    banks@,
                                    requirement_type,
                                    i + 1,
                                    n as int,
                                );
                            }
                            return Err(ValuationError::MathError);
                        },
                    };
                },
            }
        }
        i = i + 1;
    }
    Ok((ta, tl))
}

proof fn lemma_mul_bits_nonneg(x: int, w: int)
    requires
        x >= 0,
        w >= 0,
    ensures
        mul_bits(x, w) >= 0,
{
    assert(x * w >= 0) by (nonlinear_arith)
        requires
            x >= 0,
            w >= 0,
    ;
    lemma_div_pos_is_pos(x * w, SCALE as int);
}

proof fn lemma_mul_bits_monotone_right(x: int, w1: int, w2: int)
    requires
        x >= 0,
        w1 <= w2,
    ensures
        mul_bits(x, w1) <= mul_bits(x, w2),
{
    assert(x * w1 <= x * w2) by (nonlinear_arith)
        requires
            x >= 0,
            w1 <= w2,
    ;
    lemma_div_is_ordered(x * w1, x * w2, SCALE as int);
}

proof fn lemma_mul_bits_monotone_left(x1: int, x2: int, w: int)
    requires
        x1 <= x2,
        w >= 0,
    ensures
        mul_bits(x1, w) <= mul_bits(x2, w),
{
    assert(x1 * w <= x2 * w) by (nonlinear_arith)
        requires
            x1 <= x2,
            w >= 0,
    ;
    lemma_div_is_ordered(x1 * w, x2 * w, SCALE as int);
}

/// Weighting by exactly one is the identity.
proof fn lemma_mul_bits_scale(x: int)
    ensures
        mul_bits(x, SCALE as int) == x,
{
    lemma_div_multiples_vanish(x, SCALE as int);
    assert(x * (SCALE as int) == (SCALE as int) * x) by (nonlinear_arith);
}

proof fn lemma_value_bits_monotone_price(a: int, p1: int, p2: int, d: nat)
    requires
        a >= 0,
        p1 <= p2,
        d <= MAX_MINT_DECIMALS as nat,
    ensures
        value_bits(a, p1, d) <= value_bits(a, p2, d),
{
    lemma_value_den_bounds(d);
    assert(a * p1 <= a * p2) by (nonlinear_arith)
        requires
            a >= 0,
            p1 <= p2,
    ;
    lemma_div_is_ordered(a * p1, a * p2, value_den(d));
}

proof fn lemma_value_bits_nonneg(a: int, p: int, d: nat)
    requires
        a >= 0,
        p >= 0,
        d <= MAX_MINT_DECIMALS as nat,
    ensures
        value_bits(a, p, d) >= 0,
{
    lemma_value_den_bounds(d);
    assert(a * p >= 0) by (nonlinear_arith)
        requires
            a >= 0,
            p >= 0,
    ;
    lemma_div_pos_is_pos(a * p, value_den(d));
}

/// A discount factor is between zero and one.
proof fn lemma_discount_bounds(l: int, u: int)
    requires
        0 < l < u,
    ensures
        0 <= div_bits(l, u) <= SCALE,
{
    assert(l * (SCALE as int) >= 0 && l * (SCALE as int) <= u * (SCALE as int))
        by (nonlinear_arith)
        requires
            0 < l < u,
    ;
    lemma_div_pos_is_pos(l * (SCALE as int), u);
    lemma_div_is_ordered(l * (SCALE as int), u * (SCALE as int), u);
    lemma_div_multiples_vanish(SCALE as int, u);
    assert(u * (SCALE as int) == u * (SCALE as int)) by (nonlinear_arith);
}

/// The effective initial asset weight never exceeds the configured one
/// and stays non-negative.
proof fn lemma_effective_asset_weight_bounds(bank: Bank, price: int, w: int)
    requires
        bank.wf(),
        effective_asset_weight_spec(bank, price, RequirementType::Initial) == Some(w),
    ensures
        0 <= w <= bank.asset_weight_init.v(),
{
    match init_discount_spec(bank, price) {
        None => {},
        Some(None) => {},
        Some(Some(disc)) => {
            let l = bank.total_asset_value_init_limit.v();
            let ta = mul_bits(bank.total_asset_shares.v(), bank.asset_share_value.v());
            let u = value_bits(ta, price, bank.mint_decimals as nat);
            assert(u > l);
            lemma_discount_bounds(l, u);
            lemma_mul_bits_nonneg(bank.asset_weight_init.v(), disc);
            lemma_mul_bits_monotone_right(bank.asset_weight_init.v(), disc, SCALE as int);
            lemma_mul_bits_scale(bank.asset_weight_init.v());
        },
    }
}

/// Tighter requirements value the assets of a balance no higher: equity
/// at the unbiased real-time price and unit weight, maintenance at the
/// low real-time price and the maintenance weight, initial at the low
/// time-weighted price and the (possibly discounted) initial weight.
/// Holds whenever the low time-weighted price does not exceed the low
/// real-time price.
pub proof fn lemma_weighted_assets_requirement_monotone(
    bw: BankWrapper,
    shares: int,
    va: int,
    vm: int,
    vi: int,
)
    requires
        bw.wf(),
        shares >= 0,
        bw.oracle_adapter.price_adapter.tw_price.v() - bw.oracle_adapter.price_adapter.tw_conf.v()
            <= bw.oracle_adapter.price_adapter.rt_price.v()
            - bw.oracle_adapter.price_adapter.rt_conf.v(),
        weighted_balance_assets_spec(bw, shares, RequirementType::Equity) == Some(va),
        weighted_balance_assets_spec(bw, shares, RequirementType::Maintenance) == Some(vm),
        weighted_balance_assets_spec(bw, shares, RequirementType::Initial) == Some(vi),
    ensures
        va >= vm >= vi >= 0,
{
    let pa = bw.oracle_adapter.price_adapter;
    let d = bw.bank.mint_decimals as nat;
    if bw.bank.risk_tier == RiskTier::Isolated {
    } else {
        let amt = mul_bits(shares, bw.bank.asset_share_value.v());
        lemma_mul_bits_nonneg(shares, bw.bank.asset_share_value.v());
        let p_eq = pa.rt_price.v();
        let p_m = pa.rt_price.v() - pa.rt_conf.v();
        let p_i = pa.tw_price.v() - pa.tw_conf.v();
        let base_eq = value_bits(amt, p_eq, d);
        let base_m = value_bits(amt, p_m, d);
        let base_i = value_bits(amt, p_i, d);
        lemma_value_bits_nonneg(amt, p_i, d);
        lemma_value_bits_monotone_price(amt, p_i, p_m, d);
        lemma_value_bits_monotone_price(amt, p_m, p_eq, d);
        lemma_mul_bits_scale(base_eq);
        assert(va == base_eq);
        let w_m = bw.bank.asset_weight_maint.v();
        assert(vm == mul_bits(base_m, w_m));
        lemma_mul_bits_monotone_right(base_m, w_m, SCALE as int);
        lemma_mul_bits_scale(base_m);
        let w_i = (match effective_asset_weight_spec(bw.bank, p_i, RequirementType::Initial) {
            Some(w) => w,
            None => 0,
        });
        lemma_effective_asset_weight_bounds(bw.bank, p_i, w_i);
        assert(vi == mul_bits(base_i, w_i));
        lemma_mul_bits_monotone_right(base_i, w_i, w_m);
        lemma_mul_bits_monotone_left(base_i, base_m, w_m);
        lemma_mul_bits_nonneg(base_i, w_i);
    }
}

/// Tighter requirements value the liabilities of a balance no lower:
/// equity at the unbiased real-time price and unit weight, maintenance
/// at the high real-time price and the maintenance weight, initial at
/// the high time-weighted price and the initial weight.  Holds whenever
/// the high time-weighted price is at least the high real-time price.
pub proof fn lemma_weighted_liabs_requirement_monotone(
    bw: BankWrapper,
    shares: int,
    va: int,
    vm: int,
    vi: int,
)
    requires
        bw.wf(),
        shares >= 0,
        bw.oracle_adapter.price_adapter.rt_price.v() + bw.oracle_adapter.price_adapter.rt_conf.v()
            <= bw.oracle_adapter.price_adapter.tw_price.v()
            + bw.oracle_adapter.price_adapter.tw_conf.v(),
        weighted_balance_liabs_spec(bw, shares, RequirementType::Equity) == Some(va),
        weighted_balance_liabs_spec(bw, shares, RequirementType::Maintenance) == Some(vm),
        weighted_balance_liabs_spec(bw, shares, RequirementType::Initial) == Some(vi),
    ensures
        0 <= va <= vm <= vi,
{
    let pa = bw.oracle_adapter.price_adapter;
    let d = bw.bank.mint_decimals as nat;
    let amt = mul_bits(shares, bw.bank.liability_share_value.v());
    lemma_mul_bits_nonneg(shares, bw.bank.liability_share_value.v());
    let p_eq = pa.rt_price.v();
    let p_m = pa.rt_price.v() + pa.rt_conf.v();
    let p_i = pa.tw_price.v() + pa.tw_conf.v();
    let base_eq = value_bits(amt, p_eq, d);
    let base_m = value_bits(amt, p_m, d);
    let base_i = value_bits(amt, p_i, d);
    lemma_value_bits_nonneg(amt, p_eq, d);
    lemma_value_bits_monotone_price(amt, p_eq, p_m, d);
    lemma_value_bits_monotone_price(amt, p_m, p_i, d);
    lemma_mul_bits_scale(base_eq);
    assert(va == base_eq);
    let w_m = bw.bank.liability_weight_maint.v();
    let w_i = bw.bank.liability_weight_init.v();
    assert(vm == mul_bits(base_m, w_m));
    assert(vi == mul_bits(base_i, w_i));
    lemma_mul_bits_scale(base_m);
    lemma_mul_bits_monotone_right(base_m, SCALE as int, w_m);
    lemma_mul_bits_monotone_left(base_m, base_i, w_m);
    lemma_mul_bits_monotone_right(base_i, w_m, w_i);
}

/// Induction carrying the two monotonicity chains over an account prefix.
proof fn lemma_health_monotone_rec(
    balances: Seq<Balance>,
    banks: Seq<BankWrapper>,
    n: int,
    he: (int, int),
    hm: (int, int),
    hi: (int, int),
)
    requires
        forall|k: int| 0 <= k < banks.len() ==> (#[trigger] banks[k]).wf(),
        forall|k: int| 0 <= k < balances.len() ==> (#[trigger] balances[k]).wf(),
        forall|k: int|
            0 <= k < banks.len() ==> (#[trigger] banks[k]).oracle_adapter.price_adapter.tw_price.v()
                - banks[k].oracle_adapter.price_adapter.tw_conf.v()
                <= banks[k].oracle_adapter.price_adapter.rt_price.v()
                - banks[k].oracle_adapter.price_adapter.rt_conf.v(),
        forall|k: int|
            0 <= k < banks.len() ==> (#[trigger] banks[k]).oracle_adapter.price_adapter.rt_price.v()
                + banks[k].oracle_adapter.price_adapter.rt_conf.v()
                <= banks[k].oracle_adapter.price_adapter.tw_price.v()
                + banks[k].oracle_adapter.price_adapter.tw_conf.v(),
        n <= balances.len(),
        health_spec(balances, banks, RequirementType::Equity, n) == Ok::<
            (int, int),
            ValuationError,
        >(he),
        health_spec(balances, banks, RequirementType::Maintenance, n) == Ok::<
            (int, int),
            ValuationError,
        >(hm),
        health_spec(balances, banks, RequirementType::Initial, n) == Ok::<
            (int, int),
            ValuationError,
        >(hi),
    ensures
        he.0 >= hm.0 >= hi.0,
        he.1 <= hm.1 <= hi.1,
    decreases n,
{
    if n > 0 {
        let b = balances[n - 1];
        let re = health_spec(balances, banks, RequirementType::Equity, n - 1);
        let rm = health_spec(balances, banks, RequirementType::Maintenance, n - 1);
        let ri = health_spec(balances, banks, RequirementType::Initial, n - 1);
        lemma_health_monotone_rec(
            balances,
            banks,
            n - 1,
            re.unwrap(),
            rm.unwrap(),
            ri.unwrap(),
        );
        if b.active {
            match crate::accounts::bank_lookup_spec(banks, b.bank_pk) {
                None => {},
                Some(bw) => {
                    let w = choose|i: int|
                        0 <= i < banks.len() && (#[trigger] banks[i]).address == b.bank_pk;
                    assert(banks[w].wf());
                    match b.side_spec() {
                        None => {},
                        Some(BalanceSide::Assets) => {
                            let ve = weighted_balance_assets_spec(
                                bw,
                                b.asset_shares.v(),
                                RequirementType::Equity,
                            ).unwrap();
                            let vm = weighted_balance_assets_spec(
                                bw,
                                b.asset_shares.v(),
                                RequirementType::Maintenance,
                            ).unwrap();
                            let vi = weighted_balance_assets_spec(
                                bw,
                                b.asset_shares.v(),
                                RequirementType::Initial,
                            ).unwrap();
                            lemma_weighted_assets_requirement_monotone(
                                bw,
                                b.asset_shares.v(),
                                ve,
                                vm,
                                vi,
                            );
                        },
                        Some(BalanceSide::Liabilities) => {
                            let ve = weighted_balance_liabs_spec(
                                bw,
                                b.liability_shares.v(),
                                RequirementType::Equity,
                            ).unwrap();
                            let vm = weighted_balance_liabs_spec(
                                bw,
                                b.liability_shares.v(),
                                RequirementType::Maintenance,
                            ).unwrap();
                            let vi = weighted_balance_liabs_spec(
                                bw,
                                b.liability_shares.v(),
                                RequirementType::Initial,
                            ).unwrap();
                            lemma_weighted_liabs_requirement_monotone(
                                bw,
                                b.liability_shares.v(),
                                ve,
                                vm,
                                vi,
                            );
                        },
                    }
                },
            }
        }
    }
}

/// Account-level monotonicity of weighted assets: tightening the
/// requirement from equity to maintenance to initial never raises the
/// total weighted asset value.  Requires each oracle''s low time-weighted
/// price to sit at or below its low real-time price; a real-time dip
/// below the time-weighted band breaks the chain.
pub proof fn lemma_health_assets_monotone(
    account: LendingAccount,
    banks: Seq<BankWrapper>,
    he: (int, int),
    hm: (int, int),
    hi: (int, int),
)
    requires
        account.wf(),
        forall|k: int| 0 <= k < banks.len() ==> (#[trigger] banks[k]).wf(),
        forall|k: int|
            0 <= k < banks.len() ==> (#[trigger] banks[k]).oracle_adapter.price_adapter.tw_price.v()
                - banks[k].oracle_adapter.price_adapter.tw_conf.v()
                <= banks[k].oracle_adapter.price_adapter.rt_price.v()
                - banks[k].oracle_adapter.price_adapter.rt_conf.v(),
        forall|k: int|
            0 <= k < banks.len() ==> (#[trigger] banks[k]).oracle_adapter.price_adapter.rt_price.v()
                + banks[k].oracle_adapter.price_adapter.rt_conf.v()
                <= banks[k].oracle_adapter.price_adapter.tw_price.v()
                + banks[k].oracle_adapter.price_adapter.tw_conf.v(),
        health_spec(account.balances@, banks, RequirementType::Equity, account.balances@.len() as int)
            == Ok::<(int, int), ValuationError>(he),
        health_spec(
            account.balances@,
            banks,
            RequirementType::Maintenance,
            account.balances@.len() as int,
        ) == Ok::<(int, int), ValuationError>(hm),
        health_spec(
            account.balances@,
            banks,
            RequirementType::Initial,
            account.balances@.len() as int,
        ) == Ok::<(int, int), ValuationError>(hi),
    ensures
        he.0 >= hm.0 >= hi.0,
{
    lemma_health_monotone_rec(
        account.balances@,
        banks,
        account.balances@.len() as int,
        he,
        hm,
        hi,
    );
}

/// Account-level monotonicity of weighted liabilities: tightening the
/// requirement never lowers the total weighted liability value.  Same
/// oracle-band condition as the asset law.
pub proof fn lemma_health_liabs_monotone(
    account: LendingAccount,
    banks: Seq<BankWrapper>,
    he: (int, int),
    hm: (int, int),
    hi: (int, int),
)
    requires
        account.wf(),
        forall|k: int| 0 <= k < banks.len() ==> (#[trigger] banks[k]).wf(),
        forall|k: int|
            0 <= k < banks.len() ==> (#[trigger] banks[k]).oracle_adapter.price_adapter.tw_price.v()
                - banks[k].oracle_adapter.price_adapter.tw_conf.v()
                <= banks[k].oracle_adapter.price_adapter.rt_price.v()
                - banks[k].oracle_adapter.price_adapter.rt_conf.v(),
        forall|k: int|
            0 <= k < banks.len() ==> (#[trigger] banks[k]).oracle_adapter.price_adapter.rt_price.v()
                + banks[k].oracle_adapter.price_adapter.rt_conf.v()
                <= banks[k].oracle_adapter.price_adapter.tw_price.v()
                + banks[k].oracle_adapter.price_adapter.tw_conf.v(),
        health_spec(account.balances@, banks, RequirementType::Equity, account.balances@.len() as int)
            == Ok::<(int, int), ValuationError>(he),
        health_spec(
            account.balances@,
            banks,
            RequirementType::Maintenance,
            account.balances@.len() as int,
        ) == Ok::<(int, int), ValuationError>(hm),
        health_spec(
            account.balances@,
            banks,
            RequirementType::Initial,
            account.balances@.len() as int,
        ) == Ok::<(int, int), ValuationError>(hi),
    ensures
        he.1 <= hm.1 <= hi.1,
{
    lemma_health_monotone_rec(
        account.balances@,
        banks,
        account.balances@.len() as int,
        he,
        hm,
        hi,
    );
}

} // verus!
