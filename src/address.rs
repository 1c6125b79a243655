use vstd::prelude::*;
use vstd::utf8::encode_utf8;

verus! {

/// Offset basis of the 64-bit FNV-1a hash.
pub const FNV_OFFSET_BASIS: u64 = 0xcbf29ce484222325;

/// Prime of the 64-bit FNV-1a hash.
pub const FNV_PRIME: u64 = 0x100000001b3;

/// One FNV-1a round: fold a byte into the running hash, then multiply modulo 2^64.
pub open spec fn fnv1a_step(hash: u64, byte: u8) -> u64 {
    (hash ^ (byte as u64)).wrapping_mul(FNV_PRIME)
}

/// The 64-bit FNV-1a hash of a byte sequence, folding the bytes from first to last.
pub open spec fn fnv1a_spec(bytes: Seq<u8>) -> u64
    decreases bytes.len(),
{
    if bytes.len() == 0 {
        FNV_OFFSET_BASIS
    } else {
        fnv1a_step(fnv1a_spec(bytes.drop_last()), bytes.last())
    }
}

/// The storage address of an entity id: the FNV-1a hash of its UTF-8 bytes,
/// read as a two's-complement signed integer.
pub open spec fn address_spec(id: Seq<char>) -> i64 {
    fnv1a_spec(encode_utf8(id)) as i64
}

/// Hashes the UTF-8 encoding of `input` with 64-bit FNV-1a.
pub fn fnv1a_hash64(input: &str) -> (hash: u64)
    ensures
        hash == fnv1a_spec(encode_utf8(input@)),
{
    let bytes = input.as_bytes();
    let mut hash: u64 = FNV_OFFSET_BASIS;
    let mut i: usize = 0;
    while i < bytes.len()
        invariant
            bytes@ == encode_utf8(input@),
            i <= bytes@.len(),
            hash == fnv1a_spec(bytes@.subrange(0, i as int)),
        decreases bytes@.len() - i,
    {
        proof {
            assert(bytes@.subrange(0, i + 1).drop_last() =~= bytes@.subrange(0, i as int));
        }
        hash = (hash ^ (bytes[i] as u64)).wrapping_mul(FNV_PRIME);
        i = i + 1;
    }
    proof {
        assert(bytes@.subrange(0, i as int) =~= bytes@);
    }
    hash
}

/// The storage address of an entity id.
pub fn addr_for_entity_id(entity_id: &str) -> (addr: i64)
    ensures
        addr == address_spec(entity_id@),
{
    fnv1a_hash64(entity_id) as i64
}

} // verus!
