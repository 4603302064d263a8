//! The in-memory mirror of protocol state: banks with their oracle
//! adapters, lending accounts, the bot's token accounts, and the
//! oracle-to-bank fan-out map.
//!
//! The engine is a value; streaming transports and RPC live outside it
//! and feed it decoded plain values.  Every update function maintains
//! the engine invariant: unique keys, every bank's oracle tracked and
//! fanned out in the oracle map, every token account at its derived
//! associated address, and every stored balance on at most one side.

use vstd::prelude::*;
use crate::accounts::Address;
use crate::accounts::Bank;
use crate::accounts::BankWrapper;
use crate::accounts::LendingAccount;
use crate::accounts::MarginfiAccountWrapper;
use crate::accounts::OracleWrapper;
use crate::accounts::PriceAdapter;
use crate::accounts::TokenAccountWrapper;
use crate::accounts::bank_lookup_spec;
use crate::accounts::find_bank;
use crate::accounts::unique_bank_addresses;
use crate::accessor;
use crate::derivation::ata_of;
use crate::derivation::associated_token_address;

verus! {

/// Static configuration of the engine.
pub struct StateEngineConfig {
    pub rpc_url: String,
    pub yellowstone_endpoint: String,
    pub yellowstone_x_token: Option<String>,
    pub marginfi_program_id: Address,
    pub marginfi_group_address: Address,
    pub signer_pubkey: Address,
    pub bank_discriminator: u64,
    pub marginfi_account_discriminator: u64,
}

/// Where the classifier routes an account update.
#[derive(Clone, Copy, PartialEq, Eq, Structural, Debug)]
pub enum UpdateRoute {
    BankUpdate,
    OracleUpdate,
    MarginfiAccountUpdate,
    TokenAccountUpdate,
    Dropped,
}

/// Outcome of a bank update: applied in place, or a new bank whose
/// oracle account must be fetched before `install_bank` can run.
#[derive(Clone, Copy, PartialEq, Eq, Structural, Debug)]
pub enum BankUpdateResult {
    Updated,
    NeedsOracle { oracle_address: Address },
}

/// Outcome of a token-account update: applied in place, a new mint whose
/// decimals must be fetched before `register_token_account` can run, or
/// dropped as undecodable.
#[derive(Clone, Copy, PartialEq, Eq, Structural, Debug)]
pub enum TokenUpdateResult {
    Applied,
    NeedsDecimals { mint: Address, balance: u64 },
    Dropped,
}

/// Lending accounts keyed by distinct addresses.
pub open spec fn unique_account_addresses(s: Seq<MarginfiAccountWrapper>) -> bool {
    forall|i: int, j: int| #![trigger s[i], s[j]] 0 <= i < j < s.len() ==> s[i].address != s[j].address
}

/// Token accounts keyed by distinct mints.
pub open spec fn unique_token_mints(s: Seq<TokenAccountWrapper>) -> bool {
    forall|i: int, j: int| #![trigger s[i], s[j]] 0 <= i < j < s.len() ==> s[i].mint != s[j].mint
}

/// Whether the oracle map lists `bank` under `oracle`.
pub open spec fn oracle_map_contains_bank(
    m: Seq<(Address, Vec<Address>)>,
    oracle: Address,
    bank: Address,
) -> bool {
    exists|i: int| 0 <= i < m.len() && (#[trigger] m[i]).0 == oracle && m[i].1@.contains(bank)
}

/// The stored lending account under an address, if any.
pub open spec fn account_lookup_spec(s: Seq<MarginfiAccountWrapper>, pk: Address) -> Option<
    MarginfiAccountWrapper,
> {
    if exists|i: int| 0 <= i < s.len() && (#[trigger] s[i]).address == pk {
        Some(s[choose|i: int| 0 <= i < s.len() && (#[trigger] s[i]).address == pk])
    } else {
        None
    }
}

/// The stored token account under a mint, if any.
pub open spec fn token_lookup_spec(s: Seq<TokenAccountWrapper>, mint: Address) -> Option<
    TokenAccountWrapper,
> {
    if exists|i: int| 0 <= i < s.len() && (#[trigger] s[i]).mint == mint {
        Some(s[choose|i: int| 0 <= i < s.len() && (#[trigger] s[i]).mint == mint])
    } else {
        None
    }
}

/// An upsert keyed by account address.
pub open spec fn upsert_account_spec(s: Seq<MarginfiAccountWrapper>, w: MarginfiAccountWrapper)
    -> Seq<MarginfiAccountWrapper> {
    if exists|i: int| 0 <= i < s.len() && (#[trigger] s[i]).address == w.address {
        s.update(choose|i: int| 0 <= i < s.len() && (#[trigger] s[i]).address == w.address, w)
    } else {
        s.push(w)
    }
}

/// The engine state.
pub struct StateEngineService {
    pub config: StateEngineConfig,
    pub banks: Vec<BankWrapper>,
    pub marginfi_accounts: Vec<MarginfiAccountWrapper>,
    pub token_accounts: Vec<TokenAccountWrapper>,
    pub oracle_to_bank_map: Vec<(Address, Vec<Address>)>,
    pub tracked_oracle_accounts: Vec<Address>,
    pub tracked_token_accounts: Vec<Address>,
}

impl StateEngineService {
    /// The engine invariant.
    pub open spec fn wf(self) -> bool {
        &&& unique_bank_addresses(self.banks@)
        &&& (forall|i: int| 0 <= i < self.banks@.len() ==> (#[trigger] self.banks@[i]).wf())
        &&& unique_account_addresses(self.marginfi_accounts@)
        &&& (forall|i: int|
            0 <= i < self.marginfi_accounts@.len() ==> (#[trigger] self.marginfi_accounts@[i]).wf())
        &&& unique_token_mints(self.token_accounts@)
        &&& (forall|i: int|
            0 <= i < self.token_accounts@.len() ==> (#[trigger] self.token_accounts@[i]).address
                == ata_of(self.config.signer_pubkey, self.token_accounts@[i].mint))
        &&& (forall|i: int|
            0 <= i < self.token_accounts@.len() ==> self.tracked_token_accounts@.contains(
                (#[trigger] self.token_accounts@[i]).address,
            ))
        &&& (forall|i: int|
            0 <= i < self.banks@.len() ==> self.tracked_oracle_accounts@.contains(
                (#[trigger] self.banks@[i]).oracle_adapter.address,
            ))
        &&& (forall|i: int|
            0 <= i < self.banks@.len() ==> oracle_map_contains_bank(
                self.oracle_to_bank_map@,
                (#[trigger] self.banks@[i]).oracle_adapter.address,
                self.banks@[i].address,
            ))
    }

    /// A fresh engine with empty maps.
    pub fn new(config: StateEngineConfig) -> (r: StateEngineService)
        ensures
            r.wf(),
            r.config == config,
            r.banks@.len() == 0,
            r.marginfi_accounts@.len() == 0,
            r.token_accounts@.len() == 0,
            r.tracked_oracle_accounts@.len() == 0,
            r.tracked_token_accounts@.len() == 0,
    {
        StateEngineService {
            config,
            banks: Vec::new(),
            marginfi_accounts: Vec::new(),
            token_accounts: Vec::new(),
            oracle_to_bank_map: Vec::new(),
            tracked_oracle_accounts: Vec::new(),
            tracked_token_accounts: Vec::new(),
        }
    }

    pub fn get_group_id(&self) -> (r: Address)
        ensures
            r == self.config.marginfi_group_address,
    {
        self.config.marginfi_group_address
    }

    pub fn get_marginfi_program_id(&self) -> (r: Address)
        ensures
            r == self.config.marginfi_program_id,
    {
        self.config.marginfi_program_id
    }

    pub fn is_tracked_oracle(&self, address: &Address) -> (r: bool)
        ensures
            r == self.tracked_oracle_accounts@.contains(*address),
    {
        contains_address(&self.tracked_oracle_accounts, address)
    }

    pub fn is_tracked_token_account(&self, address: &Address) -> (r: bool)
        ensures
            r == self.tracked_token_accounts@.contains(*address),
    {
        contains_address(&self.tracked_token_accounts, address)
    }

    /// All addresses the streaming subscription must watch: the tracked
    /// oracles followed by the tracked token accounts.
    pub fn get_accounts_to_track(&self) -> (r: Vec<Address>)
        ensures
            r@ == self.tracked_oracle_accounts@ + self.tracked_token_accounts@,
    {
        let mut r: Vec<Address> = Vec::new();
        append_addresses(&mut r, &self.tracked_oracle_accounts);
        append_addresses(&mut r, &self.tracked_token_accounts);
        proof {
            assert(r@ =~= self.tracked_oracle_accounts@ + self.tracked_token_accounts@);
        }
        r
    }

    /// The bank stored under an address.
    pub fn get_bank(&self, bank_pk: &Address) -> (r: Option<BankWrapper>)
        requires
            self.wf(),
        ensures
            r == bank_lookup_spec(self.banks@, *bank_pk),
    {
        match find_bank(&self.banks, bank_pk) {
            Some(i) => Some(self.banks[i]),
            None => None,
        }
    }

    /// The first bank whose mint matches, scanning in insertion order.
    pub fn get_bank_for_mint(&self, mint: &Address) -> (r: Option<BankWrapper>)
        ensures
            r == crate::accounts::first_bank_for_mint_spec(self.banks@, *mint),
    {
        match crate::accounts::find_bank_for_mint(&self.banks, mint) {
            Some(i) => Some(self.banks[i]),
            None => None,
        }
    }

    /// Routes an account update per the classification order: banks by
    /// owner and discriminator, then tracked oracles, then lending
    /// accounts by owner and discriminator, then tracked token accounts;
    /// everything else is dropped.
    pub fn classify_account_update(&self, address: &Address, owner: &Address, data: &[u8]) -> (r:
        UpdateRoute)
        ensures
            ({
                let is_bank = *owner == self.config.marginfi_program_id && data@.len() >= 8
                    && accessor::le_u64(data@.subrange(0, 8)) == self.config.bank_discriminator;
                let is_acct = *owner == self.config.marginfi_program_id && data@.len() >= 8
                    && accessor::le_u64(data@.subrange(0, 8))
                    == self.config.marginfi_account_discriminator;
                let is_oracle = self.tracked_oracle_accounts@.contains(*address);
                let is_token = self.tracked_token_accounts@.contains(*address);
                r == if is_bank {
                    UpdateRoute::BankUpdate
                } else if is_oracle {
                    UpdateRoute::OracleUpdate
                } else if is_acct {
                    UpdateRoute::MarginfiAccountUpdate
                } else if is_token {
                    UpdateRoute::TokenAccountUpdate
                } else {
                    UpdateRoute::Dropped
                }
            }),
    {
        let disc = accessor::discriminator(data);
        let owner_is_program = *owner == self.config.marginfi_program_id;
        let is_bank = owner_is_program && match disc {
            Some(d) => d == self.config.bank_discriminator,
            None => false,
        };
        if is_bank {
            return UpdateRoute::BankUpdate;
        }
        if self.is_tracked_oracle(address) {
            return UpdateRoute::OracleUpdate;
        }
        let is_acct = owner_is_program && match disc {
            Some(d) => d == self.config.marginfi_account_discriminator,
            None => false,
        };
        if is_acct {
            return UpdateRoute::MarginfiAccountUpdate;
        }
        if self.is_tracked_token_account(address) {
            return UpdateRoute::TokenAccountUpdate;
        }
        UpdateRoute::Dropped
    }

    /// Applies a decoded bank to a known bank in place, keeping its
    /// oracle adapter; for an unknown bank, reports the oracle account
    /// that must be fetched first.
    pub fn update_bank(&mut self, bank_address: &Address, bank: Bank) -> (r: BankUpdateResult)
        requires
            old(self).wf(),
            bank.wf(),
        ensures
            final(self).wf(),
            final(self).config == old(self).config,
            final(self).marginfi_accounts == old(self).marginfi_accounts,
            final(self).token_accounts == old(self).token_accounts,
            final(self).oracle_to_bank_map == old(self).oracle_to_bank_map,
            final(self).tracked_oracle_accounts == old(self).tracked_oracle_accounts,
            final(self).tracked_token_accounts == old(self).tracked_token_accounts,
            match r {
                BankUpdateResult::Updated => {
                    &&& bank_lookup_spec(old(self).banks@, *bank_address) is Some
                    &&& exists|i: int|
                        0 <= i < old(self).banks@.len() && old(self).banks@[i].address
                            == *bank_address && final(self).banks@ == old(self).banks@.update(
                            i,
                            BankWrapper {
                                address: *bank_address,
                                bank,
                                oracle_adapter: (#[trigger] old(self).banks@[i]).oracle_adapter,
                            },
                        )
                },
                BankUpdateResult::NeedsOracle { oracle_address } => {
                    &&& bank_lookup_spec(old(self).banks@, *bank_address) is None
                    &&& oracle_address == bank.oracle_key
                    &&& final(self).banks == old(self).banks
                },
            },
    {
        match find_bank(&self.banks, bank_address) {
            Some(i) => {
                let entry = BankWrapper {
                    address: *bank_address,
                    bank,
                    oracle_adapter: self.banks[i].oracle_adapter,
                };
                self.banks.set(i, entry);
                proof {
                    assert forall|k: int|
                        0 <= k < self.banks@.len() implies (#[trigger] self.banks@[k]).wf() by {
                        if k != i {
                            assert(self.banks@[k] == old(self).banks@[k]);
                        }
                    }
                    assert forall|k: int|
                        0 <= k < self.banks@.len() implies self.tracked_oracle_accounts@.contains(
                        (#[trigger] self.banks@[k]).oracle_adapter.address,
                    ) && oracle_map_contains_bank(
                        self.oracle_to_bank_map@,
                        self.banks@[k].oracle_adapter.address,
                        self.banks@[k].address,
                    ) by {
                        if k != i {
                            assert(self.banks@[k] == old(self).banks@[k]);
                        } else {
                            assert(old(self).banks@[i as int].oracle_adapter.address
                                == self.banks@[k].oracle_adapter.address);
                        }
                    }
                }
                BankUpdateResult::Updated
            },
            None => BankUpdateResult::NeedsOracle { oracle_address: bank.oracle_key },
        }
    }

    /// Installs a bank together with a freshly derived oracle adapter:
    /// upserts the bank entry, tracks its oracle, and fans it out in the
    /// oracle map.  Serves both the initial load and a new bank seen on
    /// the update stream.
    pub fn install_bank(&mut self, bank_address: &Address, bank: Bank, adapter: PriceAdapter)
        requires
            old(self).wf(),
            bank.wf(),
            adapter.wf(),
        ensures
            final(self).wf(),
            final(self).config == old(self).config,
            final(self).marginfi_accounts == old(self).marginfi_accounts,
            final(self).token_accounts == old(self).token_accounts,
            final(self).tracked_token_accounts == old(self).tracked_token_accounts,
            bank_lookup_spec(final(self).banks@, *bank_address) == Some(
                BankWrapper {
                    address: *bank_address,
                    bank,
                    oracle_adapter: OracleWrapper { address: bank.oracle_key, price_adapter: adapter },
                },
            ),
            forall|a: Address|
                a != *bank_address ==> #[trigger] bank_lookup_spec(final(self).banks@, a)
                    == bank_lookup_spec(old(self).banks@, a),
    {
        let entry = BankWrapper {
            address: *bank_address,
            bank,
            oracle_adapter: OracleWrapper { address: bank.oracle_key, price_adapter: adapter },
        };
        self.add_oracle_map_entry(&bank.oracle_key, bank_address);
        let already = contains_address(&self.tracked_oracle_accounts, &bank.oracle_key);
        if !already {
            self.tracked_oracle_accounts.push(bank.oracle_key);
        }
        let ghost pre_tracked = self.tracked_oracle_accounts@;
        proof {
            if !already {
                assert(pre_tracked[pre_tracked.len() - 1] == bank.oracle_key);
            }
            assert(pre_tracked.contains(bank.oracle_key));
            assert forall|a: Address|
                old(self).tracked_oracle_accounts@.contains(a) implies pre_tracked.contains(a) by {
                let k = choose|k: int|
                    0 <= k < old(self).tracked_oracle_accounts@.len() && old(
                        self,
                    ).tracked_oracle_accounts@[k] == a;
                assert(pre_tracked[k] == a);
            }
        }
        match find_bank(&self.banks, bank_address) {
            Some(i) => {
                self.banks.set(i, entry);
                proof {
                    lemma_upsert_bank_wf(old(self).banks@, self.banks@, i as int, entry);
                    self.lemma_bank_aux_preserved(*old(self), entry, i as int);
                    lemma_bank_lookup_update(old(self).banks@, self.banks@, i as int, entry);
                }
            },
            None => {
                self.banks.push(entry);
                proof {
                    lemma_push_bank_wf(old(self).banks@, self.banks@, entry);
                    self.lemma_bank_aux_preserved_push(*old(self), entry);
                    lemma_bank_lookup_push(old(self).banks@, self.banks@, entry);
                }
            },
        }
    }

    /// Fans a fresh oracle adapter out to every bank that references the
    /// oracle.  An update for an oracle no bank references changes
    /// nothing.
    pub fn update_oracle(&mut self, oracle_address: &Address, adapter: PriceAdapter) -> (r: bool)
        requires
            old(self).wf(),
            adapter.wf(),
        ensures
            final(self).wf(),
            final(self).config == old(self).config,
            final(self).marginfi_accounts == old(self).marginfi_accounts,
            final(self).token_accounts == old(self).token_accounts,
            final(self).oracle_to_bank_map == old(self).oracle_to_bank_map,
            final(self).tracked_oracle_accounts == old(self).tracked_oracle_accounts,
            final(self).tracked_token_accounts == old(self).tracked_token_accounts,
            final(self).banks@.len() == old(self).banks@.len(),
            forall|i: int|
                0 <= i < old(self).banks@.len() && (#[trigger] old(
                    self,
                ).banks@[i]).oracle_adapter.address == *oracle_address ==> final(self).banks@[i]
                    == (BankWrapper {
                    address: old(self).banks@[i].address,
                    bank: old(self).banks@[i].bank,
                    oracle_adapter: OracleWrapper {
                        address: *oracle_address,
                        price_adapter: adapter,
                    },
                }),
            forall|i: int|
                0 <= i < old(self).banks@.len() && (#[trigger] old(
                    self,
                ).banks@[i]).oracle_adapter.address != *oracle_address ==> final(self).banks@[i]
                    == old(self).banks@[i],
            r == (exists|i: int|
                0 <= i < old(self).banks@.len() && (#[trigger] old(
                    self,
                ).banks@[i]).oracle_adapter.address == *oracle_address),
    {
        let n = self.banks.len();
        let mut i: usize = 0;
        let mut touched = false;
        while i < n
            invariant
                n == self.banks@.len(),
                n == old(self).banks@.len(),
                i <= n,
                adapter.wf(),
                old(self).wf(),
                self.config == old(self).config,
                self.marginfi_accounts == old(self).marginfi_accounts,
                self.token_accounts == old(self).token_accounts,
                self.oracle_to_bank_map == old(self).oracle_to_bank_map,
                self.tracked_oracle_accounts == old(self).tracked_oracle_accounts,
                self.tracked_token_accounts == old(self).tracked_token_accounts,
                forall|k: int|
                    0 <= k < i && (#[trigger] old(self).banks@[k]).oracle_adapter.address
                        == *oracle_address ==> self.banks@[k] == (BankWrapper {
                        address: old(self).banks@[k].address,
                        bank: old(self).banks@[k].bank,
                        oracle_adapter: OracleWrapper {
                            address: *oracle_address,
                            price_adapter: adapter,
                        },
                    }),
                forall|k: int|
                    (0 <= k < i && (#[trigger] old(self).banks@[k]).oracle_adapter.address
                        != *oracle_address) || i <= k < n ==> self.banks@[k] == old(self).banks@[k],
                touched == (exists|k: int|
                    0 <= k < i && (#[trigger] old(self).banks@[k]).oracle_adapter.address
                        == *oracle_address),
            decreases n - i,
        {
            let was_match = self.banks[i].oracle_adapter.address == *oracle_address;
            proof {
                assert(self.banks@[i as int] == old(self).banks@[i as int]);
            }
            if was_match {
                let entry = BankWrapper {
                    address: self.banks[i].address,
                    bank: self.banks[i].bank,
                    oracle_adapter: OracleWrapper {
                        address: *oracle_address,
                        price_adapter: adapter,
                    },
                };
                self.banks.set(i, entry);
                touched = true;
                proof {
                    assert((#[trigger] old(self).banks@[i as int]).oracle_adapter.address
                        == *oracle_address);
                }
            } else {
                proof {
                    assert((#[trigger] old(self).banks@[i as int]).oracle_adapter.address
                        != *oracle_address);
                }
            }
            i = i + 1;
        }
        proof {
            assert forall|k: int|
                0 <= k < self.banks@.len() implies (#[trigger] self.banks@[k]).wf()
                    && self.banks@[k].address == old(self).banks@[k].address
                    && self.banks@[k].oracle_adapter.address == old(
                    self,
                ).banks@[k].oracle_adapter.address by {
                assert(old(self).banks@[k].wf());
            }
            assert(unique_bank_addresses(self.banks@)) by {
                assert forall|a: int, b: int|
                    #![trigger self.banks@[a], self.banks@[b]]
                    0 <= a < b < self.banks@.len() implies self.banks@[a].address
                    != self.banks@[b].address by {
                    assert(old(self).banks@[a].address != old(self).banks@[b].address);
                }
            }
        }
        touched
    }

    /// Upserts a decoded lending account; an account that breaks the
    /// stored-balance invariants is dropped.  Returns whether the upsert
    /// was applied.
    pub fn update_marginfi_account(
        &mut self,
        marginfi_account_address: &Address,
        account: LendingAccount,
    ) -> (r: bool)
        requires
            old(self).wf(),
        ensures
            final(self).wf(),
            final(self).config == old(self).config,
            final(self).banks == old(self).banks,
            final(self).token_accounts == old(self).token_accounts,
            final(self).oracle_to_bank_map == old(self).oracle_to_bank_map,
            final(self).tracked_oracle_accounts == old(self).tracked_oracle_accounts,
            final(self).tracked_token_accounts == old(self).tracked_token_accounts,
            r == (MarginfiAccountWrapper {
                address: *marginfi_account_address,
                account,
            }).wf(),
            r ==> final(self).marginfi_accounts@ == upsert_account_spec(
                old(self).marginfi_accounts@,
                MarginfiAccountWrapper { address: *marginfi_account_address, account },
            ),
            !r ==> final(self).marginfi_accounts == old(self).marginfi_accounts,
    {
        let w = MarginfiAccountWrapper::new(*marginfi_account_address, account);
        if !account_is_valid(&w) {
            return false;
        }
        let n = self.marginfi_accounts.len();
        let mut i: usize = 0;
        while i < n
            invariant
                old(self).wf(),
                w.wf(),
                w == (MarginfiAccountWrapper { address: *marginfi_account_address, account }),
                self.config == old(self).config,
                self.banks == old(self).banks,
                self.marginfi_accounts == old(self).marginfi_accounts,
                self.token_accounts == old(self).token_accounts,
                self.oracle_to_bank_map == old(self).oracle_to_bank_map,
                self.tracked_oracle_accounts == old(self).tracked_oracle_accounts,
                self.tracked_token_accounts == old(self).tracked_token_accounts,
                n == self.marginfi_accounts@.len(),
                i <= n,
                forall|j: int|
                    0 <= j < i ==> (#[trigger] self.marginfi_accounts@[j]).address != w.address,
            decreases n - i,
        {
            if self.marginfi_accounts[i].address == *marginfi_account_address {
                proof {
                    let c = choose|k: int|
                        0 <= k < self.marginfi_accounts@.len() && (#[trigger] self
                            .marginfi_accounts@[k]).address == w.address;
                    assert(self.marginfi_accounts@[i as int].address == w.address);
                    assert(self.marginfi_accounts@[c].address == w.address);
                    lemma_unique_account_index(self.marginfi_accounts@, i as int, c, w.address);
                }
                self.marginfi_accounts.set(i, w);
                proof {
                    assert forall|k: int|
                        0 <= k < self.marginfi_accounts@.len() implies (#[trigger] self
                        .marginfi_accounts@[k]).wf() by {
                        if k != i {
                            assert(self.marginfi_accounts@[k] == old(self).marginfi_accounts@[k]);
                        }
                    }
                    assert(unique_account_addresses(self.marginfi_accounts@)) by {
                        assert forall|a: int, b: int|
                            #![trigger self.marginfi_accounts@[a], self.marginfi_accounts@[b]]
                            0 <= a < b < self.marginfi_accounts@.len() implies self
                            .marginfi_accounts@[a].address != self.marginfi_accounts@[b].address by {
                            assert(old(self).marginfi_accounts@[a].address != old(
                                self,
                            ).marginfi_accounts@[b].address);
                            if a != i {
                                assert(self.marginfi_accounts@[a] == old(
                                    self,
                                ).marginfi_accounts@[a]);
                            }
                            if b != i {
                                assert(self.marginfi_accounts@[b] == old(
                                    self,
                                ).marginfi_accounts@[b]);
                            }
                        }
                    }
                }
                return true;
            }
            i = i + 1;
        }
        self.marginfi_accounts.push(w);
        proof {
            assert(!(exists|k: int|
                0 <= k < old(self).marginfi_accounts@.len() && (#[trigger] old(
                    self,
                ).marginfi_accounts@[k]).address == w.address));
            assert(self.marginfi_accounts@ == upsert_account_spec(
                old(self).marginfi_accounts@,
                w,
            ));
            assert forall|k: int|
                0 <= k < self.marginfi_accounts@.len() implies (#[trigger] self
                .marginfi_accounts@[k]).wf() by {
                if k < old(self).marginfi_accounts@.len() {
                    assert(self.marginfi_accounts@[k] == old(self).marginfi_accounts@[k]);
                }
            }
            assert(unique_account_addresses(self.marginfi_accounts@)) by {
                assert forall|a: int, b: int|
                    #![trigger self.marginfi_accounts@[a], self.marginfi_accounts@[b]]
                    0 <= a < b < self.marginfi_accounts@.len() implies self
                    .marginfi_accounts@[a].address != self.marginfi_accounts@[b].address by {
                    if b < old(self).marginfi_accounts@.len() {
                        assert(old(self).marginfi_accounts@[a].address != old(
                            self,
                        ).marginfi_accounts@[b].address);
                    } else {
                        assert(self.marginfi_accounts@[a] == old(self).marginfi_accounts@[a]);
                        assert(old(self).marginfi_accounts@[a].address != w.address);
                    }
                }
            }
        }
        true
    }

    /// Applies a raw token-account update: decodes mint and amount from
    /// the fixed offsets, updates the balance of a known mint in place,
    /// and asks for mint decimals for an unknown one.  Undecodable data
    /// is dropped.
    pub fn update_token_account(&mut self, token_account_address: &Address, data: &[u8]) -> (r:
        TokenUpdateResult)
        requires
            old(self).wf(),
        ensures
            final(self).wf(),
            final(self).config == old(self).config,
            final(self).banks == old(self).banks,
            final(self).marginfi_accounts == old(self).marginfi_accounts,
            final(self).oracle_to_bank_map == old(self).oracle_to_bank_map,
            final(self).tracked_oracle_accounts == old(self).tracked_oracle_accounts,
            final(self).tracked_token_accounts == old(self).tracked_token_accounts,
            match r {
                TokenUpdateResult::Dropped => data@.len() < 72 && final(self).token_accounts
                    == old(self).token_accounts,
                TokenUpdateResult::NeedsDecimals { mint, balance } => {
                    &&& data@.len() >= 72
                    &&& mint == accessor::address_of_bytes(data@.subrange(0, 32))
                    &&& balance == accessor::le_u64(data@.subrange(64, 72))
                    &&& token_lookup_spec(old(self).token_accounts@, mint) is None
                    &&& final(self).token_accounts == old(self).token_accounts
                },
                TokenUpdateResult::Applied => {
                    &&& data@.len() >= 72
                    &&& exists|i: int|
                        0 <= i < old(self).token_accounts@.len() && (#[trigger] old(
                            self,
                        ).token_accounts@[i]).mint == accessor::address_of_bytes(
                            data@.subrange(0, 32),
                        ) && final(self).token_accounts@ == old(self).token_accounts@.update(
                            i,
                            TokenAccountWrapper {
                                address: old(self).token_accounts@[i].address,
                                mint: old(self).token_accounts@[i].mint,
                                balance: accessor::le_u64(data@.subrange(64, 72)) as u64,
                                mint_decimals: old(self).token_accounts@[i].mint_decimals,
                            },
                        )
                },
            },
    {
        if data.len() < 72 {
            return TokenUpdateResult::Dropped;
        }
        let mint = accessor::mint(data);
        let balance = accessor::amount(data);
        let n = self.token_accounts.len();
        let mut i: usize = 0;
        while i < n
            invariant
                old(self).wf(),
                self.config == old(self).config,
                self.banks == old(self).banks,
                self.marginfi_accounts == old(self).marginfi_accounts,
                self.token_accounts == old(self).token_accounts,
                self.oracle_to_bank_map == old(self).oracle_to_bank_map,
                self.tracked_oracle_accounts == old(self).tracked_oracle_accounts,
                self.tracked_token_accounts == old(self).tracked_token_accounts,
                mint == accessor::address_of_bytes(data@.subrange(0, 32)),
                balance == accessor::le_u64(data@.subrange(64, 72)),
                data@.len() >= 72,
                n == self.token_accounts@.len(),
                i <= n,
                forall|j: int| 0 <= j < i ==> (#[trigger] self.token_accounts@[j]).mint != mint,
            decreases n - i,
        {
            if self.token_accounts[i].mint == mint {
                let entry = TokenAccountWrapper {
                    address: self.token_accounts[i].address,
                    mint: self.token_accounts[i].mint,
                    balance,
                    mint_decimals: self.token_accounts[i].mint_decimals,
                };
                self.token_accounts.set(i, entry);
                proof {
                    self.lemma_token_update_wf(*old(self), i as int, entry);
                }
                return TokenUpdateResult::Applied;
            }
            i = i + 1;
        }
        TokenUpdateResult::NeedsDecimals { mint, balance }
    }

    /// Registers the bot's token account for a mint: the address is the
    /// associated-token derivation from the configured signer, so the
    /// derived-address invariant holds by construction.  Serves both the
    /// initial load and a first-seen mint from the stream.
    pub fn register_token_account(&mut self, mint: &Address, balance: u64, mint_decimals: u8)
        requires
            old(self).wf(),
        ensures
            final(self).wf(),
            final(self).config == old(self).config,
            final(self).banks == old(self).banks,
            final(self).marginfi_accounts == old(self).marginfi_accounts,
            final(self).oracle_to_bank_map == old(self).oracle_to_bank_map,
            final(self).tracked_oracle_accounts == old(self).tracked_oracle_accounts,
            token_lookup_spec(final(self).token_accounts@, *mint) == Some(
                TokenAccountWrapper {
                    address: ata_of(old(self).config.signer_pubkey, *mint),
                    mint: *mint,
                    balance,
                    mint_decimals,
                },
            ),
            forall|m: Address|
                m != *mint ==> #[trigger] token_lookup_spec(final(self).token_accounts@, m)
                    == token_lookup_spec(old(self).token_accounts@, m),
    {
        let address = associated_token_address(&self.config.signer_pubkey, mint);
        let entry = TokenAccountWrapper { address, mint: *mint, balance, mint_decimals };
        let already = contains_address(&self.tracked_token_accounts, &address);
        if !already {
            self.tracked_token_accounts.push(address);
        }
        let ghost pre_tracked = self.tracked_token_accounts@;
        proof {
            if !already {
                assert(pre_tracked[pre_tracked.len() - 1] == address);
            }
            assert(pre_tracked.contains(address));
            assert forall|a: Address|
                old(self).tracked_token_accounts@.contains(a) implies pre_tracked.contains(a) by {
                let k = choose|k: int|
                    0 <= k < old(self).tracked_token_accounts@.len() && old(
                        self,
                    ).tracked_token_accounts@[k] == a;
                assert(pre_tracked[k] == a);
            }
        }
        let n = self.token_accounts.len();
        let mut i: usize = 0;
        while i < n
            invariant
                old(self).wf(),
                address == ata_of(old(self).config.signer_pubkey, *mint),
                entry == (TokenAccountWrapper {
                    address,
                    mint: *mint,
                    balance,
                    mint_decimals,
                }),
                self.config == old(self).config,
                self.banks == old(self).banks,
                self.marginfi_accounts == old(self).marginfi_accounts,
                self.token_accounts == old(self).token_accounts,
                self.oracle_to_bank_map == old(self).oracle_to_bank_map,
                self.tracked_oracle_accounts == old(self).tracked_oracle_accounts,
                self.tracked_token_accounts@ == pre_tracked,
                pre_tracked.contains(address),
                forall|a: Address|
                    old(self).tracked_token_accounts@.contains(a) ==> pre_tracked.contains(a),
                n == self.token_accounts@.len(),
                i <= n,
                forall|j: int| 0 <= j < i ==> (#[trigger] self.token_accounts@[j]).mint != *mint,
            decreases n - i,
        {
            if self.token_accounts[i].mint == *mint {
                self.token_accounts.set(i, entry);
                proof {
                    self.lemma_token_upsert_wf(*old(self), i as int, entry);
                    lemma_token_lookup_update(
                        old(self).token_accounts@,
                        self.token_accounts@,
                        i as int,
                        entry,
                    );
                }
                return ;
            }
            i = i + 1;
        }
        self.token_accounts.push(entry);
        proof {
            self.lemma_token_push_wf(*old(self), entry);
            lemma_token_lookup_push(old(self).token_accounts@, self.token_accounts@, entry);
        }
    }

    /// Adds `bank` under `oracle` in the fan-out map, creating the entry
    /// if needed; existing memberships are kept.
    fn add_oracle_map_entry(&mut self, oracle: &Address, bank: &Address)
        ensures
            final(self).config == old(self).config,
            final(self).banks == old(self).banks,
            final(self).marginfi_accounts == old(self).marginfi_accounts,
            final(self).token_accounts == old(self).token_accounts,
            final(self).tracked_oracle_accounts == old(self).tracked_oracle_accounts,
            final(self).tracked_token_accounts == old(self).tracked_token_accounts,
            oracle_map_contains_bank(final(self).oracle_to_bank_map@, *oracle, *bank),
            forall|o: Address, b: Address|
                #[trigger] oracle_map_contains_bank(old(self).oracle_to_bank_map@, o, b)
                    ==> oracle_map_contains_bank(final(self).oracle_to_bank_map@, o, b),
    {
        let n = self.oracle_to_bank_map.len();
        let mut i: usize = 0;
        while i < n
            invariant
                n == self.oracle_to_bank_map@.len(),
                i <= n,
                self.oracle_to_bank_map == old(self).oracle_to_bank_map,
                self.config == old(self).config,
                self.banks == old(self).banks,
                self.marginfi_accounts == old(self).marginfi_accounts,
                self.token_accounts == old(self).token_accounts,
                self.tracked_oracle_accounts == old(self).tracked_oracle_accounts,
                self.tracked_token_accounts == old(self).tracked_token_accounts,
                forall|j: int|
                    0 <= j < i ==> (#[trigger] self.oracle_to_bank_map@[j]).0 != *oracle,
            decreases n - i,
        {
            if self.oracle_to_bank_map[i].0 == *oracle {
                let ghost pre = self.oracle_to_bank_map@;
                let m = self.oracle_to_bank_map[i].1.len();
                let mut list_copy: Vec<Address> = Vec::new();
                let mut j: usize = 0;
                while j < m
                    invariant
                        0 <= i < self.oracle_to_bank_map@.len(),
                        self.oracle_to_bank_map@ == pre,
                        m == self.oracle_to_bank_map@[i as int].1@.len(),
                        j <= m,
                        list_copy@ =~= self.oracle_to_bank_map@[i as int].1@.subrange(
                            0,
                            j as int,
                        ),
                    decreases m - j,
                {
                    let a = self.oracle_to_bank_map[i].1[j];
                    list_copy.push(a);
                    proof {
                        assert(list_copy@ =~= self.oracle_to_bank_map@[i as int].1@.subrange(
                            0,
                            j + 1,
                        ));
                    }
                    j = j + 1;
                }
                proof {
                    assert(list_copy@ =~= pre[i as int].1@);
                }
                if !contains_address(&list_copy, bank) {
                    list_copy.push(*bank);
                }
                proof {
                    assert(list_copy@.contains(*bank)) by {
                        if !pre[i as int].1@.contains(*bank) {
                            assert(list_copy@[list_copy@.len() - 1] == *bank);
                        } else {
                            let k = choose|k: int|
                                0 <= k < pre[i as int].1@.len() && pre[i as int].1@[k] == *bank;
                            assert(list_copy@[k] == *bank);
                        }
                    }
                }
                let key = self.oracle_to_bank_map[i].0;
                self.oracle_to_bank_map.set(i, (key, list_copy));
                let ghost entry = self.oracle_to_bank_map@[i as int];
                proof {
                    assert(self.oracle_to_bank_map@.len() == pre.len());
                    assert forall|k2: int|
                        0 <= k2 < pre.len() && k2 != i implies self.oracle_to_bank_map@[k2]
                        == pre[k2] by {}
                    assert(self.oracle_to_bank_map@[i as int].0 == *oracle);
                    assert(oracle_map_contains_bank(self.oracle_to_bank_map@, *oracle, *bank));
                    assert forall|o: Address, b: Address|
                        #[trigger] oracle_map_contains_bank(pre, o, b) implies
                        oracle_map_contains_bank(self.oracle_to_bank_map@, o, b) by {
                        let k = choose|k: int|
                            0 <= k < pre.len() && (#[trigger] pre[k]).0 == o && pre[k].1@.contains(
                                b,
                            );
                        if k == i {
                            assert(self.oracle_to_bank_map@[i as int].0 == o);
                            let m = choose|m: int|
                                0 <= m < pre[i as int].1@.len() && pre[i as int].1@[m] == b;
                            assert(self.oracle_to_bank_map@[i as int].1@[m] == b);
                        } else {
                            assert(self.oracle_to_bank_map@[k] == pre[k]);
                        }
                    }
                }
                return ;
            }
            i = i + 1;
        }
        let ghost pre = self.oracle_to_bank_map@;
        let mut fresh: Vec<Address> = Vec::new();
        fresh.push(*bank);
        self.oracle_to_bank_map.push((*oracle, fresh));
        proof {
            let last = pre.len() as int;
            assert(self.oracle_to_bank_map@[last].0 == *oracle);
            assert(self.oracle_to_bank_map@[last].1@[0] == *bank);
            assert(oracle_map_contains_bank(self.oracle_to_bank_map@, *oracle, *bank));
            assert forall|o: Address, b: Address|
                #[trigger] oracle_map_contains_bank(pre, o, b) implies oracle_map_contains_bank(
                self.oracle_to_bank_map@,
                o,
                b,
            ) by {
                let k = choose|k: int|
                    0 <= k < pre.len() && (#[trigger] pre[k]).0 == o && pre[k].1@.contains(b);
                assert(self.oracle_to_bank_map@[k] == pre[k]);
            }
        }
    }

    proof fn lemma_bank_aux_preserved(self, pre: StateEngineService, entry: BankWrapper, i: int)
        requires
            pre.wf(),
            entry.wf(),
            0 <= i < pre.banks@.len(),
            self.banks@ == pre.banks@.update(i, entry),
            pre.banks@[i].address == entry.address,
            self.tracked_oracle_accounts@.contains(entry.oracle_adapter.address),
            oracle_map_contains_bank(
                self.oracle_to_bank_map@,
                entry.oracle_adapter.address,
                entry.address,
            ),
            forall|a: Address|
                pre.tracked_oracle_accounts@.contains(a) ==> self.tracked_oracle_accounts@.contains(
                    a,
                ),
            forall|o: Address, b: Address|
                #[trigger] oracle_map_contains_bank(pre.oracle_to_bank_map@, o, b)
                    ==> oracle_map_contains_bank(self.oracle_to_bank_map@, o, b),
            self.marginfi_accounts == pre.marginfi_accounts,
            self.token_accounts == pre.token_accounts,
            self.tracked_token_accounts == pre.tracked_token_accounts,
            self.config == pre.config,
        ensures
            self.wf(),
    {
        assert forall|k: int| 0 <= k < self.banks@.len() implies (#[trigger] self.banks@[k]).wf()
            && self.tracked_oracle_accounts@.contains(self.banks@[k].oracle_adapter.address)
            && oracle_map_contains_bank(
            self.oracle_to_bank_map@,
            self.banks@[k].oracle_adapter.address,
            self.banks@[k].address,
        ) by {
            if k != i {
                assert(self.banks@[k] == pre.banks@[k]);
                assert(pre.banks@[k].wf());
                assert(pre.tracked_oracle_accounts@.contains(
                    pre.banks@[k].oracle_adapter.address,
                ));
                assert(oracle_map_contains_bank(
                    pre.oracle_to_bank_map@,
                    pre.banks@[k].oracle_adapter.address,
                    pre.banks@[k].address,
                ));
            }
        }
        assert(unique_bank_addresses(self.banks@)) by {
            assert forall|a: int, b: int|
                #![trigger self.banks@[a], self.banks@[b]]
                0 <= a < b < self.banks@.len() implies self.banks@[a].address
                != self.banks@[b].address by {
                assert(pre.banks@[a].address != pre.banks@[b].address);
                if a != i {
                    assert(self.banks@[a] == pre.banks@[a]);
                }
                if b != i {
                    assert(self.banks@[b] == pre.banks@[b]);
                }
            }
        }
    }

    proof fn lemma_bank_aux_preserved_push(self, pre: StateEngineService, entry: BankWrapper)
        requires
            pre.wf(),
            entry.wf(),
            self.banks@ == pre.banks@.push(entry),
            !(exists|k: int|
                0 <= k < pre.banks@.len() && (#[trigger] pre.banks@[k]).address == entry.address),
            self.tracked_oracle_accounts@.contains(entry.oracle_adapter.address),
            oracle_map_contains_bank(
                self.oracle_to_bank_map@,
                entry.oracle_adapter.address,
                entry.address,
            ),
            forall|a: Address|
                pre.tracked_oracle_accounts@.contains(a) ==> self.tracked_oracle_accounts@.contains(
                    a,
                ),
            forall|o: Address, b: Address|
                #[trigger] oracle_map_contains_bank(pre.oracle_to_bank_map@, o, b)
                    ==> oracle_map_contains_bank(self.oracle_to_bank_map@, o, b),
            self.marginfi_accounts == pre.marginfi_accounts,
            self.token_accounts == pre.token_accounts,
            self.tracked_token_accounts == pre.tracked_token_accounts,
            self.config == pre.config,
        ensures
            self.wf(),
    {
        assert forall|k: int| 0 <= k < self.banks@.len() implies (#[trigger] self.banks@[k]).wf()
            && self.tracked_oracle_accounts@.contains(self.banks@[k].oracle_adapter.address)
            && oracle_map_contains_bank(
            self.oracle_to_bank_map@,
            self.banks@[k].oracle_adapter.address,
            self.banks@[k].address,
        ) by {
            if k < pre.banks@.len() {
                assert(self.banks@[k] == pre.banks@[k]);
                assert(pre.banks@[k].wf());
                assert(pre.tracked_oracle_accounts@.contains(
                    pre.banks@[k].oracle_adapter.address,
                ));
                assert(oracle_map_contains_bank(
                    pre.oracle_to_bank_map@,
                    pre.banks@[k].oracle_adapter.address,
                    pre.banks@[k].address,
                ));
            }
        }
        assert(unique_bank_addresses(self.banks@)) by {
            assert forall|a: int, b: int|
                #![trigger self.banks@[a], self.banks@[b]]
                0 <= a < b < self.banks@.len() implies self.banks@[a].address
                != self.banks@[b].address by {
                if b < pre.banks@.len() {
                    assert(pre.banks@[a].address != pre.banks@[b].address);
                } else {
                    assert(self.banks@[a] == pre.banks@[a]);
                    assert(pre.banks@[a].address != entry.address);
                }
            }
        }
    }

    proof fn lemma_token_update_wf(self, pre: StateEngineService, i: int, entry: TokenAccountWrapper)
        requires
            pre.wf(),
            0 <= i < pre.token_accounts@.len(),
            self.token_accounts@ == pre.token_accounts@.update(i, entry),
            entry.mint == pre.token_accounts@[i].mint,
            entry.address == pre.token_accounts@[i].address,
            self.banks == pre.banks,
            self.marginfi_accounts == pre.marginfi_accounts,
            self.oracle_to_bank_map == pre.oracle_to_bank_map,
            self.tracked_oracle_accounts == pre.tracked_oracle_accounts,
            self.tracked_token_accounts == pre.tracked_token_accounts,
            self.config == pre.config,
        ensures
            self.wf(),
    {
        self.lemma_token_upsert_wf(pre, i, entry);
    }

    proof fn lemma_token_upsert_wf(
        self,
        pre: StateEngineService,
        i: int,
        entry: TokenAccountWrapper,
    )
        requires
            pre.wf(),
            0 <= i < pre.token_accounts@.len(),
            self.token_accounts@ == pre.token_accounts@.update(i, entry),
            entry.mint == pre.token_accounts@[i].mint,
            entry.address == ata_of(pre.config.signer_pubkey, entry.mint),
            self.banks == pre.banks,
            self.marginfi_accounts == pre.marginfi_accounts,
            self.oracle_to_bank_map == pre.oracle_to_bank_map,
            self.tracked_oracle_accounts == pre.tracked_oracle_accounts,
            self.tracked_token_accounts@.contains(entry.address),
            forall|a: Address|
                pre.tracked_token_accounts@.contains(a) ==> self.tracked_token_accounts@.contains(
                    a,
                ),
            self.config == pre.config,
        ensures
            self.wf(),
    {
        assert forall|k: int|
            0 <= k < self.token_accounts@.len() implies (#[trigger] self.token_accounts@[k]).address
                == ata_of(self.config.signer_pubkey, self.token_accounts@[k].mint)
                && self.tracked_token_accounts@.contains(self.token_accounts@[k].address) by {
            if k != i {
                assert(self.token_accounts@[k] == pre.token_accounts@[k]);
                assert(pre.tracked_token_accounts@.contains(pre.token_accounts@[k].address));
            }
        }
        assert(unique_token_mints(self.token_accounts@)) by {
            assert forall|a: int, b: int|
                #![trigger self.token_accounts@[a], self.token_accounts@[b]]
                0 <= a < b < self.token_accounts@.len() implies self.token_accounts@[a].mint
                != self.token_accounts@[b].mint by {
                assert(pre.token_accounts@[a].mint != pre.token_accounts@[b].mint);
                if a != i {
                    assert(self.token_accounts@[a] == pre.token_accounts@[a]);
                }
                if b != i {
                    assert(self.token_accounts@[b] == pre.token_accounts@[b]);
                }
            }
        }
    }

    proof fn lemma_token_push_wf(
        self,
        pre: StateEngineService,
        entry: TokenAccountWrapper,
    )
        requires
            pre.wf(),
            self.token_accounts@ == pre.token_accounts@.push(entry),
            !(exists|k: int|
                0 <= k < pre.token_accounts@.len() && (#[trigger] pre.token_accounts@[k]).mint
                    == entry.mint),
            entry.address == ata_of(pre.config.signer_pubkey, entry.mint),
            self.banks == pre.banks,
            self.marginfi_accounts == pre.marginfi_accounts,
            self.oracle_to_bank_map == pre.oracle_to_bank_map,
            self.tracked_oracle_accounts == pre.tracked_oracle_accounts,
            self.tracked_token_accounts@.contains(entry.address),
            forall|a: Address|
                pre.tracked_token_accounts@.contains(a) ==> self.tracked_token_accounts@.contains(
                    a,
                ),
            self.config == pre.config,
        ensures
            self.wf(),
    {
        assert forall|k: int|
            0 <= k < self.token_accounts@.len() implies (#[trigger] self.token_accounts@[k]).address
                == ata_of(self.config.signer_pubkey, self.token_accounts@[k].mint)
                && self.tracked_token_accounts@.contains(self.token_accounts@[k].address) by {
            if k < pre.token_accounts@.len() {
                assert(self.token_accounts@[k] == pre.token_accounts@[k]);
                assert(pre.tracked_token_accounts@.contains(pre.token_accounts@[k].address));
            }
        }
        assert(unique_token_mints(self.token_accounts@)) by {
            assert forall|a: int, b: int|
                #![trigger self.token_accounts@[a], self.token_accounts@[b]]
                0 <= a < b < self.token_accounts@.len() implies self.token_accounts@[a].mint
                != self.token_accounts@[b].mint by {
                if b < pre.token_accounts@.len() {
                    assert(pre.token_accounts@[a].mint != pre.token_accounts@[b].mint);
                } else {
                    assert(self.token_accounts@[a] == pre.token_accounts@[a]);
                    assert(pre.token_accounts@[a].mint != entry.mint);
                }
            }
        }
    }
}

/// Membership scan over an address vector.
pub fn contains_address(v: &Vec<Address>, a: &Address) -> (r: bool)
    ensures
        r == v@.contains(*a),
{
    let n = v.len();
    let mut i: usize = 0;
    while i < n
        invariant
            n == v@.len(),
            i <= n,
            forall|j: int| 0 <= j < i ==> v@[j] != *a,
        decreases n - i,
    {
        if v[i] == *a {
            proof {
                assert(v@[i as int] == *a);
            }
            return true;
        }
        i = i + 1;
    }
    proof {
        assert(!v@.contains(*a));
    }
    false
}

fn append_addresses(out: &mut Vec<Address>, src: &Vec<Address>)
    ensures
        final(out)@ == old(out)@ + src@,
{
    let n = src.len();
    let mut i: usize = 0;
    let ghost base = out@;
    while i < n
        invariant
            n == src@.len(),
            i <= n,
            out@ =~= base + src@.subrange(0, i as int),
        decreases n - i,
    {
        out.push(src[i]);
        proof {
            assert(base + src@.subrange(0, i + 1) =~= (base + src@.subrange(0, i as int)).push(
                src@[i as int],
            ));
        }
        i = i + 1;
    }
    proof {
        assert(src@.subrange(0, n as int) =~= src@);
    }
}

/// Exec check of the stored-account invariants: bounded length,
/// non-negative single-sided balances, unique active banks.
fn account_is_valid(w: &MarginfiAccountWrapper) -> (r: bool)
    ensures
        r == w.wf(),
{
    let account = &w.account;
    let n = account.balances.len();
    if n > crate::accounts::MAX_BALANCES {
        return false;
    }
    let mut i: usize = 0;
    while i < n
        invariant
            n == account.balances@.len(),
            account == &w.account,
            i <= n,
            forall|j: int| 0 <= j < i ==> (#[trigger] account.balances@[j]).wf(),
            forall|a: int, b: int|
                #![trigger account.balances@[a], account.balances@[b]]
                0 <= a < b < i && account.balances@[a].active && account.balances@[b].active
                    ==> account.balances@[a].bank_pk != account.balances@[b].bank_pk,
        decreases n - i,
    {
        let b = &account.balances[i];
        if b.asset_shares.bits < 0 || b.liability_shares.bits < 0 {
            proof {
                assert(!account.balances@[i as int].wf());
            }
            return false;
        }
        if b.asset_shares.bits > 0 && b.liability_shares.bits > 0 {
            proof {
                assert(!account.balances@[i as int].wf());
            }
            return false;
        }
        if b.active {
            let bpk = b.bank_pk;
            let mut j: usize = 0;
            while j < i
                invariant
                    n == account.balances@.len(),
                    account == &w.account,
                    i < n,
                    j <= i,
                    account.balances@[i as int].active,
                    bpk == account.balances@[i as int].bank_pk,
                    forall|k: int|
                        0 <= k < j && (#[trigger] account.balances@[k]).active
                            ==> account.balances@[k].bank_pk != account.balances@[i as int].bank_pk,
                decreases i - j,
            {
                let c = &account.balances[j];
                if c.active && c.bank_pk == bpk {
                    proof {
                        assert(w.account.balances@[j as int].active);
                        assert(w.account.balances@[i as int].active);
                        assert(w.account.balances@[j as int].bank_pk == w.account.balances@[
                            i as int
                        ].bank_pk);
                        assert(!w.unique_active_banks());
                    }
                    return false;
                }
                j = j + 1;
            }
        }
        i = i + 1;
    }
    true
}

/// Distinct indices cannot both hold an account address when addresses
/// are unique.
pub proof fn lemma_unique_account_index(s: Seq<MarginfiAccountWrapper>, a: int, b: int, pk: Address)
    requires
        unique_account_addresses(s),
        0 <= a < s.len(),
        0 <= b < s.len(),
        s[a].address == pk,
        s[b].address == pk,
    ensures
        a == b,
{
    if a < b {
        assert(s[a].address != s[b].address);
    } else if b < a {
        assert(s[b].address != s[a].address);
    }
}

proof fn lemma_upsert_bank_wf(pre: Seq<BankWrapper>, post: Seq<BankWrapper>, i: int, entry:
    BankWrapper)
    requires
        unique_bank_addresses(pre),
        0 <= i < pre.len(),
        pre[i].address == entry.address,
        post == pre.update(i, entry),
    ensures
        unique_bank_addresses(post),
{
    assert forall|a: int, b: int|
        #![trigger post[a], post[b]]
        0 <= a < b < post.len() implies post[a].address != post[b].address by {
        assert(pre[a].address != pre[b].address);
        if a != i {
            assert(post[a] == pre[a]);
        }
        if b != i {
            assert(post[b] == pre[b]);
        }
    }
}

proof fn lemma_push_bank_wf(pre: Seq<BankWrapper>, post: Seq<BankWrapper>, entry: BankWrapper)
    requires
        unique_bank_addresses(pre),
        !(exists|k: int| 0 <= k < pre.len() && (#[trigger] pre[k]).address == entry.address),
        post == pre.push(entry),
    ensures
        unique_bank_addresses(post),
{
    assert forall|a: int, b: int|
        #![trigger post[a], post[b]]
        0 <= a < b < post.len() implies post[a].address != post[b].address by {
        if b < pre.len() {
            assert(pre[a].address != pre[b].address);
        } else {
            assert(post[a] == pre[a]);
            assert(pre[a].address != entry.address);
        }
    }
}

proof fn lemma_bank_lookup_update(pre: Seq<BankWrapper>, post: Seq<BankWrapper>, i: int, entry:
    BankWrapper)
    requires
        unique_bank_addresses(pre),
        0 <= i < pre.len(),
        pre[i].address == entry.address,
        post == pre.update(i, entry),
    ensures
        bank_lookup_spec(post, entry.address) == Some(entry),
        forall|a: Address|
            a != entry.address ==> #[trigger] bank_lookup_spec(post, a) == bank_lookup_spec(pre, a),
{
    lemma_upsert_bank_wf(pre, post, i, entry);
    assert(post[i] == entry);
    let c = choose|k: int| 0 <= k < post.len() && (#[trigger] post[k]).address == entry.address;
    crate::accounts::lemma_unique_bank_index(post, c, i, entry.address);
    assert forall|a: Address|
        a != entry.address implies #[trigger] bank_lookup_spec(post, a) == bank_lookup_spec(
        pre,
        a,
    ) by {
        if exists|k: int| 0 <= k < pre.len() && (#[trigger] pre[k]).address == a {
            let k = choose|k: int| 0 <= k < pre.len() && (#[trigger] pre[k]).address == a;
            assert(k != i);
            assert(post[k] == pre[k]);
            let c2 = choose|m: int| 0 <= m < post.len() && (#[trigger] post[m]).address == a;
            crate::accounts::lemma_unique_bank_index(post, c2, k, a);
            let c3 = choose|m: int| 0 <= m < pre.len() && (#[trigger] pre[m]).address == a;
            crate::accounts::lemma_unique_bank_index(pre, c3, k, a);
        } else {
            if exists|k: int| 0 <= k < post.len() && (#[trigger] post[k]).address == a {
                let k = choose|k: int| 0 <= k < post.len() && (#[trigger] post[k]).address == a;
                assert(k != i);
                assert(pre[k].address == a);
            }
        }
    }
}

proof fn lemma_bank_lookup_push(pre: Seq<BankWrapper>, post: Seq<BankWrapper>, entry: BankWrapper)
    requires
        unique_bank_addresses(pre),
        !(exists|k: int| 0 <= k < pre.len() && (#[trigger] pre[k]).address == entry.address),
        post == pre.push(entry),
    ensures
        bank_lookup_spec(post, entry.address) == Some(entry),
        forall|a: Address|
            a != entry.address ==> #[trigger] bank_lookup_spec(post, a) == bank_lookup_spec(pre, a),
{
    lemma_push_bank_wf(pre, post, entry);
    let last = pre.len() as int;
    assert(post[last] == entry);
    let c = choose|k: int| 0 <= k < post.len() && (#[trigger] post[k]).address == entry.address;
    crate::accounts::lemma_unique_bank_index(post, c, last, entry.address);
    assert forall|a: Address|
        a != entry.address implies #[trigger] bank_lookup_spec(post, a) == bank_lookup_spec(
        pre,
        a,
    ) by {
        if exists|k: int| 0 <= k < pre.len() && (#[trigger] pre[k]).address == a {
            let k = choose|k: int| 0 <= k < pre.len() && (#[trigger] pre[k]).address == a;
            assert(post[k] == pre[k]);
            let c2 = choose|m: int| 0 <= m < post.len() && (#[trigger] post[m]).address == a;
            crate::accounts::lemma_unique_bank_index(post, c2, k, a);
            let c3 = choose|m: int| 0 <= m < pre.len() && (#[trigger] pre[m]).address == a;
            crate::accounts::lemma_unique_bank_index(pre, c3, k, a);
        } else {
            if exists|k: int| 0 <= k < post.len() && (#[trigger] post[k]).address == a {
                let k = choose|k: int| 0 <= k < post.len() && (#[trigger] post[k]).address == a;
                if k < pre.len() {
                    assert(pre[k].address == a);
                } else {
                    assert(post[k] == entry);
                }
            }
        }
    }
}

pub proof fn lemma_unique_token_index(s: Seq<TokenAccountWrapper>, a: int, b: int, mint: Address)
    requires
        unique_token_mints(s),
        0 <= a < s.len(),
        0 <= b < s.len(),
        s[a].mint == mint,
        s[b].mint == mint,
    ensures
        a == b,
{
    if a < b {
        assert(s[a].mint != s[b].mint);
    } else if b < a {
        assert(s[b].mint != s[a].mint);
    }
}

proof fn lemma_token_lookup_update(
    pre: Seq<TokenAccountWrapper>,
    post: Seq<TokenAccountWrapper>,
    i: int,
    entry: TokenAccountWrapper,
)
    requires
        unique_token_mints(pre),
        0 <= i < pre.len(),
        pre[i].mint == entry.mint,
        post == pre.update(i, entry),
    ensures
        token_lookup_spec(post, entry.mint) == Some(entry),
        forall|m: Address|
            m != entry.mint ==> #[trigger] token_lookup_spec(post, m) == token_lookup_spec(pre, m),
{
    assert forall|a: int, b: int|
        #![trigger post[a], post[b]]
        0 <= a < b < post.len() implies post[a].mint != post[b].mint by {
        assert(pre[a].mint != pre[b].mint);
        if a != i {
            assert(post[a] == pre[a]);
        }
        if b != i {
            assert(post[b] == pre[b]);
        }
    }
    assert(post[i] == entry);
    let c = choose|k: int| 0 <= k < post.len() && (#[trigger] post[k]).mint == entry.mint;
    lemma_unique_token_index(post, c, i, entry.mint);
    assert forall|m: Address|
        m != entry.mint implies #[trigger] token_lookup_spec(post, m) == token_lookup_spec(
        pre,
        m,
    ) by {
        if exists|k: int| 0 <= k < pre.len() && (#[trigger] pre[k]).mint == m {
            let k = choose|k: int| 0 <= k < pre.len() && (#[trigger] pre[k]).mint == m;
            assert(k != i);
            assert(post[k] == pre[k]);
            let c2 = choose|x: int| 0 <= x < post.len() && (#[trigger] post[x]).mint == m;
            lemma_unique_token_index(post, c2, k, m);
            let c3 = choose|x: int| 0 <= x < pre.len() && (#[trigger] pre[x]).mint == m;
            lemma_unique_token_index(pre, c3, k, m);
        } else {
            if exists|k: int| 0 <= k < post.len() && (#[trigger] post[k]).mint == m {
                let k = choose|k: int| 0 <= k < post.len() && (#[trigger] post[k]).mint == m;
                assert(k != i);
                assert(pre[k].mint == m);
            }
        }
    }
}

proof fn lemma_token_lookup_push(
    pre: Seq<TokenAccountWrapper>,
    post: Seq<TokenAccountWrapper>,
    entry: TokenAccountWrapper,
)
    requires
        unique_token_mints(pre),
        !(exists|k: int| 0 <= k < pre.len() && (#[trigger] pre[k]).mint == entry.mint),
        post == pre.push(entry),
    ensures
        token_lookup_spec(post, entry.mint) == Some(entry),
        forall|m: Address|
            m != entry.mint ==> #[trigger] token_lookup_spec(post, m) == token_lookup_spec(pre, m),
{
    assert forall|a: int, b: int|
        #![trigger post[a], post[b]]
        0 <= a < b < post.len() implies post[a].mint != post[b].mint by {
        if b < pre.len() {
            assert(pre[a].mint != pre[b].mint);
        } else {
            assert(post[a] == pre[a]);
            assert(pre[a].mint != entry.mint);
        }
    }
    let last = pre.len() as int;
    assert(post[last] == entry);
    let c = choose|k: int| 0 <= k < post.len() && (#[trigger] post[k]).mint == entry.mint;
    lemma_unique_token_index(post, c, last, entry.mint);
    assert forall|m: Address|
        m != entry.mint implies #[trigger] token_lookup_spec(post, m) == token_lookup_spec(
        pre,
        m,
    ) by {
        if exists|k: int| 0 <= k < pre.len() && (#[trigger] pre[k]).mint == m {
            let k = choose|k: int| 0 <= k < pre.len() && (#[trigger] pre[k]).mint == m;
            assert(post[k] == pre[k]);
            let c2 = choose|x: int| 0 <= x < post.len() && (#[trigger] post[x]).mint == m;
            lemma_unique_token_index(post, c2, k, m);
            let c3 = choose|x: int| 0 <= x < pre.len() && (#[trigger] pre[x]).mint == m;
            lemma_unique_token_index(pre, c3, k, m);
        } else {
            if exists|k: int| 0 <= k < post.len() && (#[trigger] post[k]).mint == m {
                let k = choose|k: int| 0 <= k < post.len() && (#[trigger] post[k]).mint == m;
                if k < pre.len() {
                    assert(pre[k].mint == m);
                } else {
                    assert(post[k] == entry);
                }
            }
        }
    }
}

/// Every bank's oracle address is tracked and fanned out in the oracle
/// map.
pub proof fn lemma_bank_oracle_tracked(e: StateEngineService, i: int)
    requires
        e.wf(),
        0 <= i < e.banks@.len(),
    ensures
        e.tracked_oracle_accounts@.contains(e.banks@[i].oracle_adapter.address),
        oracle_map_contains_bank(
            e.oracle_to_bank_map@,
            e.banks@[i].oracle_adapter.address,
            e.banks@[i].address,
        ),
{
    assert(e.banks@[i].wf());
}

/// Every tracked token account sits at the associated-token derivation
/// of the configured signer and its mint.
pub proof fn lemma_token_account_derived(e: StateEngineService, i: int)
    requires
        e.wf(),
        0 <= i < e.token_accounts@.len(),
    ensures
        e.token_accounts@[i].address == ata_of(e.config.signer_pubkey, e.token_accounts@[i].mint),
{
    assert(e.token_accounts@[i] == e.token_accounts@[i]);
}

/// Every stored lending-account balance carries at most one side.
pub proof fn lemma_balance_single_sided(e: StateEngineService, i: int, j: int)
    requires
        e.wf(),
        0 <= i < e.marginfi_accounts@.len(),
        0 <= j < e.marginfi_accounts@[i].account.balances@.len(),
    ensures
        !(e.marginfi_accounts@[i].account.balances@[j].asset_shares.v() > 0
            && e.marginfi_accounts@[i].account.balances@[j].liability_shares.v() > 0),
{
    assert(e.marginfi_accounts@[i].wf());
    assert(e.marginfi_accounts@[i].account.balances@[j].wf());
}

/// Applying the same decoded account twice leaves the account map
/// exactly as one application does.
pub proof fn lemma_account_update_idempotent(s: Seq<MarginfiAccountWrapper>, w:
    MarginfiAccountWrapper)
    requires
        unique_account_addresses(s),
    ensures
        upsert_account_spec(upsert_account_spec(s, w), w) == upsert_account_spec(s, w),
{
    let once = upsert_account_spec(s, w);
    if exists|i: int| 0 <= i < s.len() && (#[trigger] s[i]).address == w.address {
        let i = choose|i: int| 0 <= i < s.len() && (#[trigger] s[i]).address == w.address;
        assert(once == s.update(i, w));
        assert(once[i] == w);
        assert(once[i].address == w.address);
        let c = choose|k: int| 0 <= k < once.len() && (#[trigger] once[k]).address == w.address;
        assert forall|a: int, b: int|
            #![trigger once[a], once[b]]
            0 <= a < b < once.len() implies once[a].address != once[b].address by {
            assert(s[a].address != s[b].address);
            if a != i {
                assert(once[a] == s[a]);
            }
            if b != i {
                assert(once[b] == s[b]);
            }
        }
        lemma_unique_account_index(once, c, i, w.address);
        assert(upsert_account_spec(once, w) == once.update(i, w));
        assert(once.update(i, w) =~= once);
    } else {
        let last = s.len() as int;
        assert(once == s.push(w));
        assert(once[last] == w);
        let c = choose|k: int| 0 <= k < once.len() && (#[trigger] once[k]).address == w.address;
        assert forall|a: int, b: int|
            #![trigger once[a], once[b]]
            0 <= a < b < once.len() implies once[a].address != once[b].address by {
            if b < s.len() {
                assert(s[a].address != s[b].address);
            } else {
                assert(once[a] == s[a]);
                assert(s[a].address != w.address);
            }
        }
        lemma_unique_account_index(once, c, last, w.address);
        assert(upsert_account_spec(once, w) == once.update(last, w));
        assert(once.update(last, w) =~= once);
    }
}

} // verus!
