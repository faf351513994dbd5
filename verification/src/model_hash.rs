//! Hash used to turn a model name into the numeric model hash the
//! engine expects (one-at-a-time accumulation over the UTF-8 bytes).

use vstd::prelude::*;

verus! {

use vstd::string::StringSliceAdditionalSpecFns;

/// Numeric hash of a model name.
pub type ModelHash = u32;

/// One accumulation round: absorb one byte into the running state.
pub open spec fn spec_hash_round(num: u32, b: u8) -> u32 {
    let a = vstd::wrapping::u32_specs::wrapping_add(num, b as u32);
    let c = vstd::wrapping::u32_specs::wrapping_add(a, a << 10u32);
    c ^ (c >> 6u32)
}

/// Running state after absorbing every byte of `bytes`, in order.
pub open spec fn spec_hash_state(bytes: Seq<u8>) -> u32
    decreases bytes.len(),
{
    if bytes.len() == 0 {
        0u32
    } else {
        spec_hash_round(spec_hash_state(bytes.drop_last()), bytes.last())
    }
}

/// Final mixing applied once after all bytes are absorbed.
pub open spec fn spec_hash_finish(num: u32) -> u32 {
    let a = vstd::wrapping::u32_specs::wrapping_add(num, num << 3u32);
    let b = a ^ (a >> 11u32);
    vstd::wrapping::u32_specs::wrapping_add(b, b << 15u32)
}

/// The model hash of a byte sequence.
pub open spec fn spec_hash(bytes: Seq<u8>) -> u32 {
    spec_hash_finish(spec_hash_state(bytes))
}

/// Hash of the raw bytes of a model name.
pub fn hash_bytes(bytes: &[u8]) -> (r: ModelHash)
    ensures
        r == spec_hash(bytes@),
{
    let mut num: u32 = 0;
    let n = bytes.len();
    let mut i: usize = 0;
    while i < n
        invariant
            n == bytes@.len(),
            i <= n,
            num == spec_hash_state(bytes@.subrange(0, i as int)),
        decreases n - i,
    {
        let b = bytes[i];
        num = num.wrapping_add(b as u32);
        num = num.wrapping_add(num << 10u32);
        num = num ^ (num >> 6u32);
        proof {
            assert(bytes@.subrange(0, i + 1).drop_last() =~= bytes@.subrange(0, i as int));
            assert(bytes@.subrange(0, i + 1).last() == bytes@[i as int]);
        }
        i = i + 1;
    }
    proof {
        assert(bytes@.subrange(0, n as int) =~= bytes@);
    }
    num = num.wrapping_add(num << 3u32);
    num = num ^ (num >> 11u32);
    num.wrapping_add(num << 15u32)
}

/// The model hash of a model name: the one-at-a-time hash of its
/// UTF-8 bytes.
pub fn hash(str: &str) -> (r: ModelHash)
    ensures
        r == spec_hash(str.spec_bytes()),
{
    hash_bytes(str.as_bytes())
}

} // verus!
