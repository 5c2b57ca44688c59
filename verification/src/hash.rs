//! FNV-1a 64-bit hashing of config key names.
use vstd::prelude::*;
use vstd::string::StringSliceAdditionalSpecFns;

verus! {

/// FNV-1a 64-bit offset basis.
pub const FNV_OFFSET: u64 = 0xcbf29ce484222325;

/// FNV-1a 64-bit prime.
pub const FNV_PRIME: u64 = 0x100000001b3;

/// One FNV-1a step: xor in the byte, then multiply by the prime (mod 2^64).
pub open spec fn fnv1a_step(hash: u64, b: u8) -> u64 {
    (hash ^ (b as u64)).wrapping_mul(FNV_PRIME)
}

/// FNV-1a 64-bit hash of a byte sequence, folded from the left.
pub open spec fn fnv1a_spec(bytes: Seq<u8>) -> u64
    decreases bytes.len(),
{
    if bytes.len() == 0 {
        FNV_OFFSET
    } else {
        fnv1a_step(fnv1a_spec(bytes.drop_last()), bytes.last())
    }
}

/// FNV-1a 64-bit hash of a byte slice.
pub fn fnv1a_hash_bytes(s: &[u8]) -> (r: u64)
    ensures
        r == fnv1a_spec(s@),
{
    let mut hash: u64 = FNV_OFFSET;
    let mut i: usize = 0;
    while i < s.len()
        invariant
            i <= s.len(),
            hash == fnv1a_spec(s@.subrange(0, i as int)),
        decreases s.len() - i,
    {
        proof {
            assert(s@.subrange(0, i + 1).drop_last() =~= s@.subrange(0, i as int));
        }
        hash = (hash ^ (s[i] as u64)).wrapping_mul(FNV_PRIME);
        i = i + 1;
    }
    proof {
        assert(s@.subrange(0, s@.len() as int) =~= s@);
    }
    hash
}

/// FNV-1a 64-bit hash of the UTF-8 bytes of a string.
pub fn fnv1a_hash(s: &str) -> (r: u64)
    ensures
        r == fnv1a_spec(s.spec_bytes()),
{
    fnv1a_hash_bytes(s.as_bytes())
}

} // verus!
