//! Address derivations that go through outside cryptographic code: the
//! associated-token-account derivation, program-derived addresses, and
//! the SHA-256 digest behind the bot's ancillary token-account seeds.
//!
//! Each outside call stands behind one trusted wrapper whose result is a
//! named function of its arguments alone; everything around the calls is
//! verified.

use vstd::prelude::*;
use vstd::arithmetic::div_mod::lemma_div_denominator;
use sha2::Digest;
use crate::accounts::Address;

verus! {

/// `256^i`.
pub open spec fn pow256(i: nat) -> int
    decreases i,
{
    if i == 0 {
        1
    } else {
        256 * pow256((i - 1) as nat)
    }
}

/// Little-endian bytes of a sixteen-byte word.
pub open spec fn u128_le_bytes(x: u128) -> Seq<u8> {
    Seq::new(16, |i: int| (((x as int) / pow256(i as nat)) % 256) as u8)
}

/// The 32 bytes of an address, low half first.
pub open spec fn address_bytes_spec(a: Address) -> Seq<u8> {
    u128_le_bytes(a.lo) + u128_le_bytes(a.hi)
}

/// The SHA-256 digest of a byte string.  What the digest is on given
/// bytes is stated nowhere; it is a function of the bytes alone.
pub uninterp spec fn sha256_of(data: Seq<u8>) -> Seq<u8>;

/// The associated token account of a wallet and mint, as the token
/// program derives it.  A function of the two addresses alone.
pub uninterp spec fn ata_of(wallet: Address, mint: Address) -> Address;

/// The program-derived address for a seed list under a program, or
/// `None` when no bump seed yields a valid address.  The search is
/// deterministic, so the whole result is a function of seeds and
/// program alone.
pub uninterp spec fn program_address_of(seeds: Seq<Seq<u8>>, program: Address) -> Option<
    (Address, u8),
>;

/// Relies on sha2's `Sha256`: the digest is 32 bytes and depends on the
/// input bytes alone.
#[verifier::external_body]
fn sha256(data: &[u8]) -> (r: Vec<u8>)
    ensures
        r@ == sha256_of(data@),
        r@.len() == 32,
{
    sha2::Sha256::digest(data).to_vec()
}

/// Relies on spl-associated-token-account's `get_associated_token_address`:
/// a deterministic derivation from wallet and mint.
#[verifier::external_body]
fn associated_token_address_raw(wallet: &Address, mint: &Address) -> (r: Address)
    ensures
        r == ata_of(*wallet, *mint),
{
    let mut wb = [0u8; 32];
    wb[0..16].copy_from_slice(&wallet.lo.to_le_bytes());
    wb[16..32].copy_from_slice(&wallet.hi.to_le_bytes());
    let mut mb = [0u8; 32];
    mb[0..16].copy_from_slice(&mint.lo.to_le_bytes());
    mb[16..32].copy_from_slice(&mint.hi.to_le_bytes());
    let pk = spl_associated_token_account::get_associated_token_address(
        &solana_program::pubkey::Pubkey::new_from_array(wb),
        &solana_program::pubkey::Pubkey::new_from_array(mb),
    );
    let ob = pk.to_bytes();
    Address {
        lo: u128::from_le_bytes(ob[0..16].try_into().unwrap()),
        hi: u128::from_le_bytes(ob[16..32].try_into().unwrap()),
    }
}

/// The associated token account of a wallet and mint.
pub fn associated_token_address(wallet: &Address, mint: &Address) -> (r: Address)
    ensures
        r == ata_of(*wallet, *mint),
{
    associated_token_address_raw(wallet, mint)
}

/// Relies on solana-program's `Pubkey::try_find_program_address`: a
/// deterministic derivation from seeds and program id; `None` when no
/// bump yields a valid address.
#[verifier::external_body]
fn try_find_program_address_raw(seeds: &Vec<Vec<u8>>, program: &Address) -> (r: Option<
    (Address, u8),
>)
    ensures
        r == program_address_of(seeds@.map_values(|v: Vec<u8>| v@), *program),
{
    let mut pb = [0u8; 32];
    pb[0..16].copy_from_slice(&program.lo.to_le_bytes());
    pb[16..32].copy_from_slice(&program.hi.to_le_bytes());
    let refs: Vec<&[u8]> = seeds.iter().map(|v| v.as_slice()).collect();
    let pk = solana_program::pubkey::Pubkey::new_from_array(pb);
    let found = solana_program::pubkey::Pubkey::try_find_program_address(&refs, &pk)?;
    let ob = found.0.to_bytes();
    Some((
        Address {
            lo: u128::from_le_bytes(ob[0..16].try_into().unwrap()),
            hi: u128::from_le_bytes(ob[16..32].try_into().unwrap()),
        },
        found.1,
    ))
}

/// The kinds of vault a bank owns.
#[derive(Clone, Copy, PartialEq, Eq, Structural, Debug)]
pub enum BankVaultType {
    Liquidity,
    Insurance,
    Fee,
}

/// Seed prefix of a bank vault: the ASCII bytes of `liquidity_vault`,
/// `insurance_vault` or `fee_vault`.
pub open spec fn vault_seed_spec(vault_type: BankVaultType) -> Seq<u8> {
    match vault_type {
        BankVaultType::Liquidity => seq![
            108u8, 105u8, 113u8, 117u8, 105u8, 100u8, 105u8, 116u8, 121u8, 95u8, 118u8, 97u8,
            117u8, 108u8, 116u8,
        ],
        BankVaultType::Insurance => seq![
            105u8, 110u8, 115u8, 117u8, 114u8, 97u8, 110u8, 99u8, 101u8, 95u8, 118u8, 97u8, 117u8,
            108u8, 116u8,
        ],
        BankVaultType::Fee => seq![102u8, 101u8, 101u8, 95u8, 118u8, 97u8, 117u8, 108u8, 116u8],
    }
}

/// Seed prefix of a bank vault authority: the vault prefix followed by
/// the ASCII bytes of `_auth`.
pub open spec fn vault_authority_seed_spec(vault_type: BankVaultType) -> Seq<u8> {
    vault_seed_spec(vault_type) + seq![95u8, 97u8, 117u8, 116u8, 104u8]
}

fn vault_seed_bytes(vault_type: BankVaultType) -> (r: Vec<u8>)
    ensures
        r@ == vault_seed_spec(vault_type),
{
    let r: Vec<u8> = match vault_type {
        BankVaultType::Liquidity => vec![
            108u8, 105u8, 113u8, 117u8, 105u8, 100u8, 105u8, 116u8, 121u8, 95u8, 118u8, 97u8,
            117u8, 108u8, 116u8,
        ],
        BankVaultType::Insurance => vec![
            105u8, 110u8, 115u8, 117u8, 114u8, 97u8, 110u8, 99u8, 101u8, 95u8, 118u8, 97u8, 117u8,
            108u8, 116u8,
        ],
        BankVaultType::Fee => vec![102u8, 101u8, 101u8, 95u8, 118u8, 97u8, 117u8, 108u8, 116u8],
    };
    proof {
        assert(r@ =~= vault_seed_spec(vault_type));
    }
    r
}

fn vault_authority_seed_bytes(vault_type: BankVaultType) -> (r: Vec<u8>)
    ensures
        r@ == vault_authority_seed_spec(vault_type),
{
    let mut r = vault_seed_bytes(vault_type);
    r.push(95u8);
    r.push(97u8);
    r.push(117u8);
    r.push(116u8);
    r.push(104u8);
    proof {
        assert(r@ =~= vault_authority_seed_spec(vault_type));
    }
    r
}

/// Little-endian bytes of an address, low half first.
pub fn address_le_bytes(a: &Address) -> (r: Vec<u8>)
    ensures
        r@ == address_bytes_spec(*a),
{
    let mut r: Vec<u8> = Vec::new();
    push_u128_le(&mut r, a.lo);
    push_u128_le(&mut r, a.hi);
    proof {
        assert(r@ =~= address_bytes_spec(*a));
    }
    r
}

/// Appends the sixteen little-endian bytes of `x`.
fn push_u128_le(out: &mut Vec<u8>, x: u128)
    ensures
        final(out)@ == old(out)@ + u128_le_bytes(x),
{
    let ghost base = out@;
    let mut cur: u128 = x;
    let mut i: usize = 0;
    proof {
        lemma_pow256_pos(0);
    }
    while i < 16
        invariant
            i <= 16,
            out@.len() == base.len() + i,
            out@.subrange(0, base.len() as int) =~= base,
            cur == (x as int) / pow256(i as nat),
            forall|j: int|
                0 <= j < i ==> #[trigger] out@[base.len() + j] == (((x as int) / pow256(j as nat))
                    % 256) as u8,
        decreases 16 - i,
    {
        let b: u8 = (cur % 256) as u8;
        out.push(b);
        proof {
            lemma_pow256_pos(i as nat);
            lemma_div_denominator(x as int, pow256(i as nat), 256);
            assert(pow256((i + 1) as nat) == pow256(i as nat) * 256) by (nonlinear_arith)
                requires
                    pow256((i + 1) as nat) == 256 * pow256(i as nat),
            ;
        }
        cur = cur / 256;
        i = i + 1;
    }
    proof {
        assert forall|k: int| 0 <= k < out@.len() implies out@[k] == (base + u128_le_bytes(x))[k]
        by {
            if k < base.len() {
                assert(out@.subrange(0, base.len() as int)[k] == out@[k]);
            } else {
                let j = k - base.len();
                assert(out@[base.len() + j] == (((x as int) / pow256(j as nat)) % 256) as u8);
            }
        }
        assert(out@ =~= base + u128_le_bytes(x));
    }
}

proof fn lemma_pow256_pos(n: nat)
    ensures
        pow256(n) >= 1,
    decreases n,
{
    if n > 0 {
        lemma_pow256_pos((n - 1) as nat);
    }
}

/// The bank vault address of a bank: a program-derived address from the
/// vault seed and the bank address.
pub fn find_bank_vault_pda(bank_pk: &Address, vault_type: BankVaultType, program_id: &Address)
    -> (r: Option<(Address, u8)>)
    ensures
        r == program_address_of(
            seq![vault_seed_spec(vault_type), address_bytes_spec(*bank_pk)],
            *program_id,
        ),
{
    let mut seeds: Vec<Vec<u8>> = Vec::new();
    seeds.push(vault_seed_bytes(vault_type));
    seeds.push(address_le_bytes(bank_pk));
    proof {
        let m = seeds@.map_values(|v: Vec<u8>| v@);
        assert(m[0] == seeds@[0]@);
        assert(m[1] == seeds@[1]@);
        assert(m =~= seq![vault_seed_spec(vault_type), address_bytes_spec(*bank_pk)]);
    }
    try_find_program_address_raw(&seeds, program_id)
}

/// The bank vault authority address of a bank.
pub fn find_bank_vault_authority_pda(
    bank_pk: &Address,
    vault_type: BankVaultType,
    program_id: &Address,
) -> (r: Option<(Address, u8)>)
    ensures
        r == program_address_of(
            seq![vault_authority_seed_spec(vault_type), address_bytes_spec(*bank_pk)],
            *program_id,
        ),
{
    let mut seeds: Vec<Vec<u8>> = Vec::new();
    seeds.push(vault_authority_seed_bytes(vault_type));
    seeds.push(address_le_bytes(bank_pk));
    proof {
        let m = seeds@.map_values(|v: Vec<u8>| v@);
        assert(m[0] == seeds@[0]@);
        assert(m[1] == seeds@[1]@);
        assert(m =~= seq![vault_authority_seed_spec(vault_type), address_bytes_spec(*bank_pk)]);
    }
    try_find_program_address_raw(&seeds, program_id)
}

/// Deterministic seed for an ancillary token-account keypair: the digest
/// of signer, mint and a context seed.
pub fn get_liquidator_seed(signer: &Address, mint: &Address, seed: &[u8]) -> (r: Vec<u8>)
    ensures
        r@ == sha256_of(
            address_bytes_spec(*signer) + address_bytes_spec(*mint) + seed@,
        ),
        r@.len() == 32,
{
    let mut data = address_le_bytes(signer);
    let mut mb = address_le_bytes(mint);
    data.append(&mut mb);
    let n = seed.len();
    let mut i: usize = 0;
    let ghost head = data@;
    while i < n
        invariant
            i <= n,
            n == seed@.len(),
            data@ =~= head + seed@.subrange(0, i as int),
        decreases n - i,
    {
        data.push(seed[i]);
        proof {
            assert(head + seed@.subrange(0, i + 1) =~= (head + seed@.subrange(0, i as int)).push(
                seed@[i as int],
            ));
        }
        i = i + 1;
    }
    proof {
        assert(seed@.subrange(0, n as int) =~= seed@);
        assert(data@ =~= address_bytes_spec(*signer) + address_bytes_spec(*mint) + seed@);
    }
    sha256(data.as_slice())
}

} // verus!
