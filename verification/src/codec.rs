//! Little-endian reads and writes on byte buffers.
//!
//! The spec functions `read_u16` / `read_u32` / `read_u64` are the mathematical
//! model of every integer field stored in a page or tuple image; the exec
//! functions below are proved against them.

use vstd::prelude::*;

verus! {

use vstd::bytes::lemma_auto_spec_u16_to_from_le_bytes;
use vstd::bytes::lemma_auto_spec_u32_to_from_le_bytes;
use vstd::bytes::lemma_auto_spec_u64_to_from_le_bytes;
use vstd::bytes::spec_u16_from_le_bytes;
use vstd::bytes::spec_u32_from_le_bytes;
use vstd::bytes::spec_u64_from_le_bytes;
use vstd::bytes::u16_from_le_bytes;
use vstd::bytes::u16_to_le_bytes;
use vstd::bytes::u32_from_le_bytes;
use vstd::bytes::u32_to_le_bytes;
use vstd::bytes::u64_from_le_bytes;
use vstd::bytes::u64_to_le_bytes;
use vstd::slice::slice_subrange;

/// The `u16` stored little-endian at byte offset `off` of `s`.
pub open spec fn read_u16(s: Seq<u8>, off: int) -> u16 {
    spec_u16_from_le_bytes(s.subrange(off, off + 2))
}

/// The `u32` stored little-endian at byte offset `off` of `s`.
pub open spec fn read_u32(s: Seq<u8>, off: int) -> u32 {
    spec_u32_from_le_bytes(s.subrange(off, off + 4))
}

/// The `u64` stored little-endian at byte offset `off` of `s`.
pub open spec fn read_u64(s: Seq<u8>, off: int) -> u64 {
    spec_u64_from_le_bytes(s.subrange(off, off + 8))
}

pub fn get_u16(data: &Vec<u8>, off: usize) -> (r: u16)
    requires
        off + 2 <= data@.len(),
    ensures
        r == read_u16(data@, off as int),
{
    // reading the length as usize bounds the offset arithmetic below usize::MAX
    let n: usize = data.len();
    u16_from_le_bytes(slice_subrange(data.as_slice(), off, off + 2))
}

pub fn get_u32(data: &Vec<u8>, off: usize) -> (r: u32)
    requires
        off + 4 <= data@.len(),
    ensures
        r == read_u32(data@, off as int),
{
    let n: usize = data.len();
    u32_from_le_bytes(slice_subrange(data.as_slice(), off, off + 4))
}

pub fn get_u64(data: &Vec<u8>, off: usize) -> (r: u64)
    requires
        off + 8 <= data@.len(),
    ensures
        r == read_u64(data@, off as int),
{
    let n: usize = data.len();
    u64_from_le_bytes(slice_subrange(data.as_slice(), off, off + 8))
}

pub fn put_u16(data: &mut Vec<u8>, off: usize, v: u16)
    requires
        off + 2 <= old(data)@.len(),
    ensures
        final(data)@.len() == old(data)@.len(),
        read_u16(final(data)@, off as int) == v,
        forall|j: int|
            0 <= j < old(data)@.len() && !(off <= j < off + 2) ==> final(data)@[j] == old(
                data,
            )@[j],
{
    let n: usize = data.len();
    let b: Vec<u8> = u16_to_le_bytes(v);
    data.set(off, b[0]);
    data.set(off + 1, b[1]);
    proof {
        lemma_auto_spec_u16_to_from_le_bytes();
        assert(data@.subrange(off as int, off as int + 2) =~= b@);
    }
}

pub fn put_u32(data: &mut Vec<u8>, off: usize, v: u32)
    requires
        off + 4 <= old(data)@.len(),
    ensures
        final(data)@.len() == old(data)@.len(),
        read_u32(final(data)@, off as int) == v,
        final(data)@.subrange(off as int, off + 4) == vstd::bytes::spec_u32_to_le_bytes(v),
        forall|j: int|
            0 <= j < old(data)@.len() && !(off <= j < off + 4) ==> final(data)@[j] == old(
                data,
            )@[j],
{
    let n: usize = data.len();
    let b: Vec<u8> = u32_to_le_bytes(v);
    data.set(off, b[0]);
    data.set(off + 1, b[1]);
    data.set(off + 2, b[2]);
    data.set(off + 3, b[3]);
    proof {
        lemma_auto_spec_u32_to_from_le_bytes();
        assert(data@.subrange(off as int, off as int + 4) =~= b@);
    }
}

pub fn put_u64(data: &mut Vec<u8>, off: usize, v: u64)
    requires
        off + 8 <= old(data)@.len(),
    ensures
        final(data)@.len() == old(data)@.len(),
        read_u64(final(data)@, off as int) == v,
        forall|j: int|
            0 <= j < old(data)@.len() && !(off <= j < off + 8) ==> final(data)@[j] == old(
                data,
            )@[j],
{
    let n: usize = data.len();
    let b: Vec<u8> = u64_to_le_bytes(v);
    data.set(off, b[0]);
    data.set(off + 1, b[1]);
    data.set(off + 2, b[2]);
    data.set(off + 3, b[3]);
    data.set(off + 4, b[4]);
    data.set(off + 5, b[5]);
    data.set(off + 6, b[6]);
    data.set(off + 7, b[7]);
    proof {
        lemma_auto_spec_u64_to_from_le_bytes();
        assert(data@.subrange(off as int, off as int + 8) =~= b@);
    }
}

/// Copy `src` into `data` starting at `off`, leaving every other byte as it was.
pub fn put_bytes(data: &mut Vec<u8>, off: usize, src: &[u8])
    requires
        off + src@.len() <= old(data)@.len(),
    ensures
        final(data)@.len() == old(data)@.len(),
        final(data)@.subrange(off as int, off + src@.len()) == src@,
        forall|j: int|
            0 <= j < old(data)@.len() && !(off <= j < off + src@.len()) ==> final(data)@[j] == old(
                data,
            )@[j],
{
    let total: usize = data.len();
    let n: usize = src.len();
    let mut k: usize = 0;
    while k < n
        invariant
            n == src@.len(),
            off + n <= total,
            total == old(data)@.len(),
            k <= n,
            data@.len() == old(data)@.len(),
            forall|j: int| off <= j < off + k ==> data@[j] == src@[j - off],
            forall|j: int|
                0 <= j < old(data)@.len() && !(off <= j < off + k) ==> data@[j] == old(data)@[j],
        decreases n - k,
    {
        let byte: u8 = *vstd::slice::slice_index_get(src, k);
        data.set(off + k, byte);
        k = k + 1;
    }
    proof {
        assert(data@.subrange(off as int, off + src@.len()) =~= src@);
    }
}

} // verus!
