use vstd::prelude::*;
use vstd::string::StringSliceAdditionalSpecFns;

verus! {

/// The 64-bit FNV offset basis.
pub const FNV_OFFSET_BASIS: u64 = 14695981039346656037;

/// The 64-bit FNV prime.
pub const FNV_PRIME: u64 = 1099511628211;

/// The 64-bit FNV-1a hash of `bytes`: starting from the offset basis, each
/// byte in turn is xor-ed into the hash, which is then multiplied by the FNV
/// prime modulo 2^64.
pub open spec fn fnv1a(bytes: Seq<u8>) -> u64
    decreases bytes.len(),
{
    if bytes.len() == 0 {
        FNV_OFFSET_BASIS
    } else {
        let h = fnv1a(bytes.drop_last()) ^ (bytes.last() as u64);
        ((h as nat * FNV_PRIME as nat) % 0x1_0000_0000_0000_0000) as u64
    }
}

/// The FNV-1a hash of the bytes of `s`.
pub fn simple_hash(s: &str) -> (hash: u64)
    ensures
        hash == fnv1a(s.spec_bytes()),
{
    let fnv_prime: u64 = FNV_PRIME;
    let mut hash: u64 = FNV_OFFSET_BASIS;
    let bytes = s.as_bytes();
    let mut i: usize = 0;
    while i < bytes.len()
        invariant
            bytes@ == s.spec_bytes(),
            0 <= i <= bytes@.len(),
            hash == fnv1a(bytes@.subrange(0, i as int)),
            fnv_prime == FNV_PRIME,
        decreases bytes@.len() - i,
    {
        proof {
            assert(bytes@.subrange(0, i + 1).drop_last() =~= bytes@.subrange(0, i as int));
        }
        hash ^= bytes[i] as u64;
        hash = hash.wrapping_mul(fnv_prime);
        i = i + 1;
    }
    proof {
        assert(bytes@.subrange(0, bytes@.len() as int) =~= bytes@);
    }
    hash
}

} // verus!
