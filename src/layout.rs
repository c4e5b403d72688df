//! Byte layout of metadata accounts and little-endian integer reads.
use vstd::prelude::*;

verus! {

/// Size of the account discriminator.
pub const KEY_LEN: usize = 1;

/// Size of a public key.
pub const PUBKEY_LEN: usize = 32;

/// Size of the length prefix of a string or a list.
pub const LEN_PREFIX: usize = 4;

/// Padded capacity of the name field.
pub const MAX_NAME_LENGTH: usize = 32;

/// Padded capacity of the symbol field.
pub const MAX_SYMBOL_LENGTH: usize = 10;

/// Padded capacity of the uri field.
pub const MAX_URI_LENGTH: usize = 200;

/// Size of the seller fee field.
pub const FEE_LEN: usize = 2;

/// Size of the presence flag of an optional field.
pub const OPTION_TAG_LEN: usize = 1;

/// Size of one encoded creator: address, verified flag, share.
pub const CREATOR_LEN: usize = 34;

/// Discriminator of a metadata account.
pub const METADATA_KEY: u8 = 4;

/// Offset of the first creator's address in a metadata account whose strings
/// are padded to their capacities: the sum of the sizes of every field before
/// the creators list, the list's presence flag and its length prefix.
pub const CREATOR_FILTER_OFFSET: usize = KEY_LEN + PUBKEY_LEN + PUBKEY_LEN + LEN_PREFIX
    + MAX_NAME_LENGTH + LEN_PREFIX + MAX_SYMBOL_LENGTH + LEN_PREFIX + MAX_URI_LENGTH + FEE_LEN
    + OPTION_TAG_LEN + LEN_PREFIX;

pub open spec fn u16_le(b: Seq<u8>, p: int) -> int {
    b[p] as int + 256 * (b[p + 1] as int)
}

pub open spec fn u32_le(b: Seq<u8>, p: int) -> int {
    b[p] as int + 256 * (b[p + 1] as int) + 65536 * (b[p + 2] as int) + 16777216 * (
    b[p + 3] as int)
}

pub open spec fn u64_le(b: Seq<u8>, p: int) -> int {
    u32_le(b, p) + 4294967296 * u32_le(b, p + 4)
}

pub fn read_u16(data: &[u8], p: usize) -> (r: u16)
    requires
        p + 2 <= data@.len(),
    ensures
        r == u16_le(data@, p as int),
{
    data[p] as u16 + 256 * (data[p + 1] as u16)
}

pub fn read_u32(data: &[u8], p: usize) -> (r: u32)
    requires
        p + 4 <= data@.len(),
    ensures
        r == u32_le(data@, p as int),
{
    data[p] as u32 + 256 * (data[p + 1] as u32) + 65536 * (data[p + 2] as u32) + 16777216 * (
    data[p + 3] as u32)
}

/// The bytes `data[start..end]` as a vector.
pub fn copy_range(data: &[u8], start: usize, end: usize) -> (r: Vec<u8>)
    requires
        start <= end <= data@.len(),
    ensures
        r@ == data@.subrange(start as int, end as int),
{
    let mut v: Vec<u8> = Vec::new();
    let mut i: usize = start;
    while i < end
        invariant
            start <= i <= end,
            end <= data@.len(),
            v@ == data@.subrange(start as int, i as int),
        decreases end - i,
    {
        v.push(data[i]);
        i = i + 1;
        assert(v@ =~= data@.subrange(start as int, i as int));
    }
    v
}

/// A copy of a byte vector.
pub fn copy_bytes(v: &Vec<u8>) -> (r: Vec<u8>)
    ensures
        r@ == v@,
{
    let r = copy_range(v.as_slice(), 0, v.len());
    assert(v@.subrange(0, v@.len() as int) =~= v@);
    r
}

/// Whether two byte strings are equal.
pub fn bytes_eq(a: &Vec<u8>, b: &Vec<u8>) -> (r: bool)
    ensures
        r == (a@ == b@),
{
    if a.len() != b.len() {
        return false;
    }
    let mut i: usize = 0;
    while i < a.len()
        invariant
            i <= a@.len(),
            a@.len() == b@.len(),
            forall|j: int| 0 <= j < i ==> a@[j] == b@[j],
        decreases a@.len() - i,
    {
        if a[i] != b[i] {
            return false;
        }
        i = i + 1;
    }
    assert(a@ =~= b@);
    true
}

} // verus!
