//! MurmurHash3, x86 32-bit variant: a fast non-cryptographic hash of bytes.
use vstd::prelude::*;
use vstd::wrapping::u32_specs::{wrapping_add, wrapping_mul};

verus! {

pub const C1: u32 = 0xCC9E2D51;
pub const C2: u32 = 0x1B873593;
pub const M: u32 = 5;
pub const N: u32 = 0xE6546B64;
pub const F1: u32 = 0x85EBCA6B;
pub const F2: u32 = 0xC2B2AE35;

/// Rotation left by 15 bits.
pub open spec fn rotl15(x: u32) -> u32 {
    (x << 15u32) | (x >> 17u32)
}

/// Rotation left by 13 bits.
pub open spec fn rotl13(x: u32) -> u32 {
    (x << 13u32) | (x >> 19u32)
}

/// Scrambling of one 32-bit block.
pub open spec fn scramble(k: u32) -> u32 {
    wrapping_mul(rotl15(wrapping_mul(k, C1)), C2)
}

/// The little-endian word of bytes `b0..b3`.
pub open spec fn le_word(b0: u8, b1: u8, b2: u8, b3: u8) -> u32 {
    (b0 as u32) | ((b1 as u32) << 8u32) | ((b2 as u32) << 16u32) | ((b3 as u32) << 24u32)
}

/// The hash state after the first `n` four-byte blocks of `b`.
pub open spec fn blocks_hash(b: Seq<u8>, seed: u32, n: nat) -> u32
    decreases n,
{
    if n == 0 {
        seed
    } else {
        let prev = blocks_hash(b, seed, (n - 1) as nat);
        let i = 4 * (n - 1);
        let h = prev ^ scramble(le_word(b[i], b[i + 1], b[i + 2], b[i + 3]));
        wrapping_add(wrapping_mul(rotl13(h), M), N)
    }
}

/// The word made of the one to three bytes that follow the last block.
pub open spec fn tail_word(b: Seq<u8>) -> u32 {
    let s = b.len() - b.len() % 4;
    let t = b.len() % 4;
    if t == 3 {
        le_word(b[s], b[s + 1], b[s + 2], 0)
    } else if t == 2 {
        le_word(b[s], b[s + 1], 0, 0)
    } else {
        le_word(b[s], 0, 0, 0)
    }
}

/// Final avalanche of the hash state.
pub open spec fn fmix(h: u32) -> u32 {
    let h1 = h ^ (h >> 16u32);
    let h2 = wrapping_mul(h1, F1);
    let h3 = h2 ^ (h2 >> 13u32);
    let h4 = wrapping_mul(h3, F2);
    h4 ^ (h4 >> 16u32)
}

/// MurmurHash3 (x86, 32-bit) of `b` with `seed`.
pub open spec fn murmur3_spec(b: Seq<u8>, seed: u32) -> u32 {
    let h = blocks_hash(b, seed, (b.len() / 4) as nat);
    let h = if b.len() % 4 > 0 { h ^ scramble(tail_word(b)) } else { h };
    fmix(h ^ ((b.len() % 0x1_0000_0000) as u32))
}

/// Little-endian word of four bytes.
fn read_u32_le(b0: u8, b1: u8, b2: u8, b3: u8) -> (r: u32)
    ensures
        r == le_word(b0, b1, b2, b3),
{
    (b0 as u32) | ((b1 as u32) << 8u32) | ((b2 as u32) << 16u32) | ((b3 as u32) << 24u32)
}

/// Scrambling of one block.
fn scramble_block(k: u32) -> (r: u32)
    ensures
        r == scramble(k),
{
    let k1 = k.wrapping_mul(C1);
    let k2 = (k1 << 15u32) | (k1 >> 17u32);
    k2.wrapping_mul(C2)
}

/// MurmurHash3 (x86, 32-bit) of `bytes` with `seed`.
pub fn murmur3_32(bytes: &[u8], seed: u32) -> (r: u32)
    ensures
        r == murmur3_spec(bytes@, seed),
{
    let len = bytes.len();
    let tail_len = len % 4;
    let exact_len = len - tail_len;
    let mut hash: u32 = seed;
    let mut i: usize = 0;
    while i < exact_len
        invariant
            len == bytes@.len(),
            tail_len == len % 4,
            exact_len == len - tail_len,
            i % 4 == 0,
            i <= exact_len,
            hash == blocks_hash(bytes@, seed, (i / 4) as nat),
        decreases exact_len - i,
    {
        let k = read_u32_le(bytes[i], bytes[i + 1], bytes[i + 2], bytes[i + 3]);
        let h = hash ^ scramble_block(k);
        let h = (h << 13u32) | (h >> 19u32);
        hash = h.wrapping_mul(M).wrapping_add(N);
        assert((i + 4) / 4 == i / 4 + 1);
        i = i + 4;
    }
    assert(i / 4 == len / 4);
    if tail_len > 0 {
        let k = if tail_len == 3 {
            read_u32_le(bytes[exact_len], bytes[exact_len + 1], bytes[exact_len + 2], 0)
        } else if tail_len == 2 {
            read_u32_le(bytes[exact_len], bytes[exact_len + 1], 0, 0)
        } else {
            read_u32_le(bytes[exact_len], 0, 0, 0)
        };
        hash = hash ^ scramble_block(k);
    }
    let length = (len as u64 % 0x1_0000_0000u64) as u32;
    hash = hash ^ length;
    hash = hash ^ (hash >> 16u32);
    hash = hash.wrapping_mul(F1);
    hash = hash ^ (hash >> 13u32);
    hash = hash.wrapping_mul(F2);
    hash = hash ^ (hash >> 16u32);
    hash
}

} // verus!
