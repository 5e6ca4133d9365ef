//! CRC-32 table construction and byte-wise folding.
//!
//! The checksum is the standard reflected CRC-32: the lookup table is built
//! from the polynomial `0xEDB88320` by eight reflection steps per index, and
//! the hash folds each input byte through the table, starting from an all-ones
//! accumulator and complementing the result at the end.

use vstd::prelude::*;

verus! {

broadcast use vstd::array::group_array_axioms;

/// The reflected CRC-32 generator polynomial used by zlib, gzip and PNG.
pub const POLYNOMIAL: u32 = 0xedb88320;

/// One reflection step of the table construction: shift the accumulator right
/// by one bit, folding the polynomial in when the bit shifted out was set.
pub open spec fn crc_step(acc: u32) -> u32 {
    if acc & 1 == 1 {
        POLYNOMIAL ^ (acc >> 1)
    } else {
        acc >> 1
    }
}

/// The accumulator after `n` reflection steps starting from `acc`.
pub open spec fn crc_steps(acc: u32, n: nat) -> u32
    decreases n,
{
    if n == 0 {
        acc
    } else {
        crc_step(crc_steps(acc, (n - 1) as nat))
    }
}

/// The table entry for index `i`: the index reflected through the polynomial
/// eight times.
pub open spec fn table_entry(i: u32) -> u32 {
    crc_steps(i, 8)
}

/// A sequence is the CRC-32 lookup table: 256 entries, each the reflection of
/// its index.
pub open spec fn is_crc_table(t: Seq<u32>) -> bool {
    &&& t.len() == 256
    &&& forall|i: int| 0 <= i < 256 ==> t[i] == table_entry(i as u32)
}

/// One folding step of the hash: consume byte `b` into accumulator `acc`.
pub open spec fn crc_update(acc: u32, b: u8) -> u32 {
    (acc >> 8) ^ table_entry((acc & 0xff) ^ (b as u32))
}

/// Fold every byte of `bytes`, in order, into accumulator `acc`.
pub open spec fn crc_fold(acc: u32, bytes: Seq<u8>) -> u32
    decreases bytes.len(),
{
    if bytes.len() == 0 {
        acc
    } else {
        crc_fold(crc_update(acc, bytes[0]), bytes.subrange(1, bytes.len() as int))
    }
}

/// The CRC-32 checksum of a byte sequence: fold from an all-ones accumulator,
/// then complement.
pub open spec fn crc32(bytes: Seq<u8>) -> u32 {
    !crc_fold(0xffffffffu32, bytes)
}

/// Build the 256-entry CRC-32 lookup table.
#[verifier::loop_isolation(false)]
pub fn table() -> (t: [u32; 256])
    ensures
        is_crc_table(t@),
{
    let mut t: [u32; 256] = [0u32; 256];
    let mut i: usize = 0;
    while i < 256
        invariant
            i <= 256,
            forall|j: int| 0 <= j < i ==> t@[j] == table_entry(j as u32),
        decreases 256 - i,
    {
        let mut acc: u32 = i as u32;
        let mut k: usize = 0;
        while k < 8
            invariant
                k <= 8,
                acc == crc_steps(i as u32, k as nat),
            decreases 8 - k,
        {
            acc = if acc & 1 == 1 {
                POLYNOMIAL ^ (acc >> 1)
            } else {
                acc >> 1
            };
            k = k + 1;
        }
        t[i] = acc;
        i = i + 1;
    }
    t
}

/// Compute the CRC-32 checksum of `bytes` with a lookup table built as
/// `table` builds it.
#[verifier::loop_isolation(false)]
pub fn hash(bytes: &[u8], table: &[u32; 256]) -> (r: u32)
    requires
        is_crc_table(table@),
    ensures
        r == crc32(bytes@),
{
    let ghost all: Seq<u8> = bytes@;
    let mut acc: u32 = 0xffffffff;
    let mut idx: usize = 0;
    proof {
        assert(all.subrange(0, all.len() as int) =~= all);
    }
    while idx < bytes.len()
        invariant
            idx <= all.len(),
            crc_fold(acc, all.subrange(idx as int, all.len() as int)) == crc_fold(
                0xffffffffu32,
                all,
            ),
        decreases all.len() - idx,
    {
        let b = bytes[idx];
        assert(((acc & 0xff) ^ (b as u32)) < 256) by (bit_vector);
        let j: usize = ((acc & 0xff) ^ (b as u32)) as usize;
        proof {
            let rest = all.subrange(idx as int, all.len() as int);
            assert(rest.subrange(1, rest.len() as int) =~= all.subrange(
                idx + 1,
                all.len() as int,
            ));
        }
        acc = (acc >> 8) ^ table[j];
        idx = idx + 1;
    }
    proof {
        assert(all.subrange(all.len() as int, all.len() as int).len() == 0);
    }
    !acc
}

/// The table is deterministic: any two sequences built as the lookup table is
/// built are equal entry for entry, so repeated builds yield identical tables.
pub proof fn lemma_table_deterministic(t1: Seq<u32>, t2: Seq<u32>)
    requires
        is_crc_table(t1),
        is_crc_table(t2),
    ensures
        t1 == t2,
{
    assert(t1 =~= t2);
}

/// The hash is pure: two results of hashing the same bytes with a valid table
/// are the same checksum.
pub proof fn lemma_hash_deterministic(bytes: Seq<u8>, r1: u32, r2: u32)
    requires
        r1 == crc32(bytes),
        r2 == crc32(bytes),
    ensures
        r1 == r2,
{
}

} // verus!
