//! Deterministic seeding: a fixture's name is hashed into a root seed, and
//! the randomness for item `i` is forked from the root seed as a pure
//! function of `(root, i)`.  No mutable random state is threaded from one
//! index to the next, so the output at index `i` never depends on how many
//! other items were requested, which is what makes generated sequences
//! stable across runs and across different counts.

use vstd::prelude::*;
use vstd::utf8::encode_utf8;
use vstd::wrapping::u64_specs;

verus! {

/// Offset basis of the 64-bit FNV-1a hash.
pub const FNV_OFFSET: u64 = 0xcbf29ce484222325;

/// Prime of the 64-bit FNV-1a hash.
pub const FNV_PRIME: u64 = 0x100000001b3;

/// Multipliers of the 64-bit mix used to fork per-index seeds.
pub const MIX_GAMMA: u64 = 0x9e3779b97f4a7c15;

/// First multiplier of the finalising mix.
pub const MIX_M1: u64 = 0xbf58476d1ce4e5b9;

/// Second multiplier of the finalising mix.
pub const MIX_M2: u64 = 0x94d049bb133111eb;

/// One FNV-1a step: fold a byte into the running hash.
pub open spec fn fnv_step(h: u64, byte: u8) -> u64 {
    u64_specs::wrapping_mul(h ^ (byte as u64), FNV_PRIME)
}

/// The 64-bit FNV-1a hash of a byte sequence.
pub open spec fn fnv64(s: Seq<u8>) -> u64
    decreases s.len(),
{
    if s.len() == 0 {
        FNV_OFFSET
    } else {
        fnv_step(fnv64(s.drop_last()), s.last())
    }
}

/// The root seed of a fixture: a pure function of the fixture's name and
/// nothing else, so the same name always yields the same seed no matter
/// which other fixtures are processed or in what order.
pub open spec fn derive_seed_spec(name: Seq<char>) -> u64 {
    fnv64(encode_utf8(name))
}

/// The independent child seed for item `index`: a 64-bit finalising mix of
/// the root seed and the index.  Forking never advances or consumes the
/// root, so every index's stream is derived independently.
pub open spec fn fork_seed_spec(root: u64, index: u64) -> u64 {
    let z0 = u64_specs::wrapping_add(
        root,
        u64_specs::wrapping_mul(u64_specs::wrapping_add(index, 1), MIX_GAMMA),
    );
    let z1 = u64_specs::wrapping_mul(z0 ^ (z0 >> 30), MIX_M1);
    let z2 = u64_specs::wrapping_mul(z1 ^ (z1 >> 27), MIX_M2);
    z2 ^ (z2 >> 31)
}

/// Hashes a fixture name into its root seed.
pub fn derive_seed(name: &str) -> (r: u64)
    ensures
        r == derive_seed_spec(name@),
{
    let bytes = name.as_bytes();
    let n = bytes.len();
    let mut h: u64 = FNV_OFFSET;
    let mut i: usize = 0;
    while i < n
        invariant
            i <= n,
            n == bytes@.len(),
            h == fnv64(bytes@.subrange(0, i as int)),
        decreases n - i,
    {
        proof {
            assert(bytes@.subrange(0, i + 1).drop_last() =~= bytes@.subrange(0, i as int));
            assert(bytes@.subrange(0, i + 1).last() == bytes@[i as int]);
        }
        h = (h ^ (bytes[i] as u64)).wrapping_mul(FNV_PRIME);
        i += 1;
    }
    proof {
        assert(bytes@.subrange(0, n as int) =~= bytes@);
    }
    h
}

/// Forks the independent child seed for one item index.
pub fn fork_seed(root: u64, index: u64) -> (r: u64)
    ensures
        r == fork_seed_spec(root, index),
{
    let z0 = root.wrapping_add(index.wrapping_add(1).wrapping_mul(MIX_GAMMA));
    let z1 = (z0 ^ (z0 >> 30)).wrapping_mul(MIX_M1);
    let z2 = (z1 ^ (z1 >> 27)).wrapping_mul(MIX_M2);
    z2 ^ (z2 >> 31)
}

} // verus!
