//! The tuple codec: a row image preceded by its MVCC header.
//!
//! A tuple is a byte buffer laid out as `[xmin: u32, xmax: u32, columns...]`,
//! all little-endian. `xmin` is the transaction that created the version,
//! `xmax` the transaction that deleted it (`INVALID_TRANSACTION_ID` while the
//! version is live). `set_xmax` touches only the `xmax` field; every other
//! byte of the buffer is untouched, which is what makes logical deletion safe.

use vstd::prelude::*;

verus! {

use crate::codec::put_u32;
use crate::codec::get_u32;
use crate::codec::read_u32;
use crate::common::Rid;
use crate::common::TransactionID;
use vstd::bytes::spec_u32_to_le_bytes;
use vstd::bytes::u32_to_le_bytes;
use vstd::slice::slice_index_get;
use vstd::slice::slice_to_vec;

pub const TUPLE_XMIN_OFFSET: usize = 0;

pub const TUPLE_XMAX_OFFSET: usize = 4;

/// Bytes taken by the `xmin` / `xmax` pair in front of the row data.
pub const TUPLE_HEADER_SIZE: usize = 8;

/// The creating transaction id recorded in a tuple image.
pub open spec fn xmin_of(t: Seq<u8>) -> u32 {
    read_u32(t, TUPLE_XMIN_OFFSET as int)
}

/// The deleting transaction id recorded in a tuple image.
pub open spec fn xmax_of(t: Seq<u8>) -> u32 {
    read_u32(t, TUPLE_XMAX_OFFSET as int)
}

/// The row bytes that follow the MVCC header.
pub open spec fn row_of(t: Seq<u8>) -> Seq<u8> {
    t.subrange(TUPLE_HEADER_SIZE as int, t.len() as int)
}

/// `t` with its `xmax` field replaced by `txn` and nothing else changed.
pub open spec fn with_xmax(t: Seq<u8>, txn: u32) -> Seq<u8> {
    Seq::new(
        t.len(),
        |j: int|
            if TUPLE_XMAX_OFFSET <= j < TUPLE_XMAX_OFFSET + 4 {
                spec_u32_to_le_bytes(txn)[j - TUPLE_XMAX_OFFSET]
            } else {
                t[j]
            },
    )
}

/// The full tuple image for a row created by `xmin` and deleted by `xmax`.
pub open spec fn tuple_bytes(xmin: u32, xmax: u32, row: Seq<u8>) -> Seq<u8> {
    spec_u32_to_le_bytes(xmin) + spec_u32_to_le_bytes(xmax) + row
}

/// The header fields of a freshly encoded tuple read back as written.
pub proof fn lemma_tuple_bytes_fields(xmin: u32, xmax: u32, row: Seq<u8>)
    ensures
        tuple_bytes(xmin, xmax, row).len() == row.len() + TUPLE_HEADER_SIZE,
        xmin_of(tuple_bytes(xmin, xmax, row)) == xmin,
        xmax_of(tuple_bytes(xmin, xmax, row)) == xmax,
        row_of(tuple_bytes(xmin, xmax, row)) == row,
{
    vstd::bytes::lemma_auto_spec_u32_to_from_le_bytes();
    let t = tuple_bytes(xmin, xmax, row);
    assert(t.subrange(0, 4) =~= spec_u32_to_le_bytes(xmin));
    assert(t.subrange(4, 8) =~= spec_u32_to_le_bytes(xmax));
    assert(t.subrange(8, t.len() as int) =~= row);
}

/// A tuple pulled out of (or destined for) a page, together with the row id
/// it was read from, when it was read from storage at all.
pub struct Tuple {
    pub rid: Option<Rid>,
    pub data: Vec<u8>,
}

impl Tuple {
    pub fn new(rid: Option<Rid>, data: &[u8]) -> (r: Self)
        ensures
            r.rid == rid,
            r.data@ == data@,
    {
        Tuple { rid, data: slice_to_vec(data) }
    }

    /// Stamp the deleting transaction. Only the `xmax` bytes change.
    pub fn set_xmax(&mut self, txn_id: TransactionID)
        requires
            old(self).data@.len() >= TUPLE_HEADER_SIZE,
        ensures
            final(self).rid == old(self).rid,
            final(self).data@.len() == old(self).data@.len(),
            final(self).data@ == with_xmax(old(self).data@, txn_id.0),
            xmax_of(final(self).data@) == txn_id.0,
            xmin_of(final(self).data@) == xmin_of(old(self).data@),
            row_of(final(self).data@) == row_of(old(self).data@),
    {
        put_u32(&mut self.data, TUPLE_XMAX_OFFSET, txn_id.0);
        proof {
            assert(self.data@ =~= with_xmax(old(self).data@, txn_id.0));
            assert(self.data@.subrange(0, 4) =~= old(self).data@.subrange(0, 4));
            assert(row_of(self.data@) =~= row_of(old(self).data@));
        }
    }

    pub fn xmin(&self) -> (r: u32)
        requires
            self.data@.len() >= TUPLE_HEADER_SIZE,
        ensures
            r == xmin_of(self.data@),
    {
        get_u32(&self.data, TUPLE_XMIN_OFFSET)
    }

    pub fn xmax(&self) -> (r: u32)
        requires
            self.data@.len() >= TUPLE_HEADER_SIZE,
        ensures
            r == xmax_of(self.data@),
    {
        get_u32(&self.data, TUPLE_XMAX_OFFSET)
    }
}

/// Encode the tuple image for `row` with the given MVCC header fields.
pub fn make_tuple_bytes(xmin: u32, xmax: u32, row: &[u8]) -> (r: Vec<u8>)
    ensures
        r@ == tuple_bytes(xmin, xmax, row@),
        r@.len() == row@.len() + TUPLE_HEADER_SIZE,
{
    let mut v: Vec<u8> = u32_to_le_bytes(xmin);
    let mut b: Vec<u8> = u32_to_le_bytes(xmax);
    v.append(&mut b);
    let n: usize = row.len();
    let mut k: usize = 0;
    while k < n
        invariant
            n == row@.len(),
            k <= n,
            v@ == spec_u32_to_le_bytes(xmin) + spec_u32_to_le_bytes(xmax) + row@.subrange(
                0,
                k as int,
            ),
        decreases n - k,
    {
        let byte: u8 = *slice_index_get(row, k);
        v.push(byte);
        proof {
            assert(row@.subrange(0, k as int).push(row@[k as int]) =~= row@.subrange(
                0,
                k as int + 1,
            ));
        }
        k = k + 1;
    }
    proof {
        assert(row@.subrange(0, n as int) =~= row@);
    }
    v
}

} // verus!
