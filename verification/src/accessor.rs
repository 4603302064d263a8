//! Field readers over raw SPL token-account bytes.
//!
//! A token account stores its mint at bytes 0..32, its authority at
//! 32..64 and its amount at 64..72 as a little-endian word.  These
//! readers take the bytes as given; account validation happens before
//! they are called.

use vstd::prelude::*;
use crate::accounts::Address;

verus! {

/// The little-endian value of eight bytes.
pub open spec fn le_u64(s: Seq<u8>) -> int
    recommends
        s.len() == 8,
{
    s[0] + s[1] * 0x100 + s[2] * 0x10000 + s[3] * 0x1000000 + s[4] * 0x100000000 + s[5]
        * 0x10000000000 + s[6] * 0x1000000000000 + s[7] * 0x100000000000000
}

/// The little-endian value of sixteen bytes.
pub open spec fn le_u128(s: Seq<u8>) -> int
    recommends
        s.len() == 16,
{
    le_u64(s.subrange(0, 8)) + le_u64(s.subrange(8, 16)) * 0x10000000000000000
}

/// The address held in 32 bytes, little-endian halves.
pub open spec fn address_of_bytes(s: Seq<u8>) -> Address
    recommends
        s.len() == 32,
{
    Address { lo: le_u128(s.subrange(0, 16)) as u128, hi: le_u128(s.subrange(16, 32)) as u128 }
}

/// Reads the little-endian word at `off`.
fn read_le_u64(bytes: &[u8], off: usize) -> (r: u64)
    requires
        off + 8 <= bytes@.len(),
    ensures
        r == le_u64(bytes@.subrange(off as int, off + 8)),
{
    let ghost s = bytes@.subrange(off as int, off + 8);
    let b0 = bytes[off] as u64;
    let b1 = bytes[off + 1] as u64;
    let b2 = bytes[off + 2] as u64;
    let b3 = bytes[off + 3] as u64;
    let b4 = bytes[off + 4] as u64;
    let b5 = bytes[off + 5] as u64;
    let b6 = bytes[off + 6] as u64;
    let b7 = bytes[off + 7] as u64;
    let r = b0 + b1 * 0x100 + b2 * 0x10000 + b3 * 0x1000000 + b4 * 0x100000000 + b5
        * 0x10000000000 + b6 * 0x1000000000000 + b7 * 0x100000000000000;
    proof {
        assert(s[0] == bytes@[off as int] && s[1] == bytes@[off + 1] && s[2] == bytes@[off + 2]
            && s[3] == bytes@[off + 3] && s[4] == bytes@[off + 4] && s[5] == bytes@[off + 5] && s[6]
            == bytes@[off + 6] && s[7] == bytes@[off + 7]);
    }
    r
}

/// Reads the sixteen-byte little-endian word at `off`.
fn read_le_u128(bytes: &[u8], off: usize) -> (r: u128)
    requires
        off + 16 <= bytes@.len(),
    ensures
        r == le_u128(bytes@.subrange(off as int, off + 16)),
{
    let l = bytes.len();
    let lo = read_le_u64(bytes, off);
    let hi = read_le_u64(bytes, off + 8);
    proof {
        let s = bytes@.subrange(off as int, off + 16);
        assert(s.subrange(0, 8) =~= bytes@.subrange(off as int, off + 8));
        assert(s.subrange(8, 16) =~= bytes@.subrange(off + 8, off + 16));
    }
    (lo as u128) + (hi as u128) * 0x10000000000000000
}

/// Token amount at bytes 64..72.
pub fn amount(bytes: &[u8]) -> (r: u64)
    requires
        bytes@.len() >= 72,
    ensures
        r == le_u64(bytes@.subrange(64, 72)),
{
    read_le_u64(bytes, 64)
}

/// Mint address at bytes 0..32.
pub fn mint(bytes: &[u8]) -> (r: Address)
    requires
        bytes@.len() >= 32,
    ensures
        r == address_of_bytes(bytes@.subrange(0, 32)),
{
    let lo = read_le_u128(bytes, 0);
    let hi = read_le_u128(bytes, 16);
    proof {
        let s = bytes@.subrange(0, 32);
        assert(s.subrange(0, 16) =~= bytes@.subrange(0, 16));
        assert(s.subrange(16, 32) =~= bytes@.subrange(16, 32));
    }
    Address { lo, hi }
}

/// Authority address at bytes 32..64.
pub fn authority(bytes: &[u8]) -> (r: Address)
    requires
        bytes@.len() >= 64,
    ensures
        r == address_of_bytes(bytes@.subrange(32, 64)),
{
    let lo = read_le_u128(bytes, 32);
    let hi = read_le_u128(bytes, 48);
    proof {
        let s = bytes@.subrange(32, 64);
        assert(s.subrange(0, 16) =~= bytes@.subrange(32, 48));
        assert(s.subrange(16, 32) =~= bytes@.subrange(48, 64));
    }
    Address { lo, hi }
}

/// Eight-byte account discriminator at the head of a program account,
/// as a little-endian word.
pub fn discriminator(bytes: &[u8]) -> (r: Option<u64>)
    ensures
        match r {
            Some(v) => bytes@.len() >= 8 && v == le_u64(bytes@.subrange(0, 8)),
            None => bytes@.len() < 8,
        },
{
    if bytes.len() < 8 {
        None
    } else {
        Some(read_le_u64(bytes, 0))
    }
}

} // verus!
