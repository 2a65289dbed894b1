//! The slotted table page: byte-exact layout and its invariant.
//!
//! A page image is `PAGE_SIZE` bytes. The header holds, in order:
//! page type (`u16`), page id (`u32`), lsn (`u64`), next page id (`u32`),
//! lower offset (`u32`) and upper offset (`u32`), all little-endian.
//! Line pointers of `LINE_POINTER_SIZE` bytes (`{offset: u32, size: u32}`)
//! grow upward from `HEADER_SIZE`; tuple payloads grow downward from
//! `PAGE_SIZE`. Free space is `upper_offset - lower_offset`.
//!
//! The invariant `wf_page` pins the layout:
//! `HEADER_SIZE <= lower_offset <= upper_offset <= PAGE_SIZE`, the slot area
//! is a whole number of line pointers, payloads are packed back to back from
//! the page tail in insertion order, and `upper_offset` is the start of the
//! most recently inserted payload.

use vstd::prelude::*;

verus! {

use crate::codec::get_u32;
use crate::codec::get_u64;
use crate::codec::put_bytes;
use crate::codec::put_u16;
use crate::codec::put_u32;
use crate::codec::put_u64;
use crate::codec::read_u16;
use crate::codec::read_u32;
use crate::codec::read_u64;
use crate::common::INVALID_PAGE_ID;
use crate::common::LSN;
use crate::common::PAGE_SIZE;
use crate::common::PageID;
use crate::common::TransactionID;
use crate::tuple::TUPLE_HEADER_SIZE;
use crate::tuple::TUPLE_XMAX_OFFSET;
use crate::tuple::Tuple;
use crate::tuple::with_xmax;
use vstd::slice::slice_subrange;
use vstd::slice::slice_to_vec;

pub const TABLE_PAGE_PAGE_TYPE: u16 = 1;

pub const PAGE_TYPE_OFFSET: usize = 0;

pub const PAGE_TYPE_SIZE: usize = 2;

pub const PAGE_ID_OFFSET: usize = PAGE_TYPE_OFFSET + PAGE_TYPE_SIZE;

pub const PAGE_ID_SIZE: usize = 4;

pub const LSN_OFFSET: usize = PAGE_ID_OFFSET + PAGE_ID_SIZE;

pub const LSN_SIZE: usize = 8;

pub const NEXT_PAGE_ID_OFFSET: usize = LSN_OFFSET + LSN_SIZE;

pub const NEXT_PAGE_ID_SIZE: usize = 4;

pub const LOWER_OFFSET_OFFSET: usize = NEXT_PAGE_ID_OFFSET + NEXT_PAGE_ID_SIZE;

pub const LOWER_OFFSET_SIZE: usize = 4;

pub const UPPER_OFFSET_OFFSET: usize = LOWER_OFFSET_OFFSET + LOWER_OFFSET_SIZE;

pub const UPPER_OFFSET_SIZE: usize = 4;

pub const HEADER_SIZE: usize = PAGE_TYPE_SIZE + PAGE_ID_SIZE + LSN_SIZE + NEXT_PAGE_ID_SIZE
    + LOWER_OFFSET_SIZE + UPPER_OFFSET_SIZE;

pub const LINE_POINTER_OFFSET_SIZE: usize = 4;

pub const LINE_POINTER_SIZE_SIZE: usize = 4;

pub const LINE_POINTER_SIZE: usize = LINE_POINTER_OFFSET_SIZE + LINE_POINTER_SIZE_SIZE;

// --- spec model of a page image ---

pub open spec fn page_type_of(s: Seq<u8>) -> u16 {
    read_u16(s, PAGE_TYPE_OFFSET as int)
}

pub open spec fn page_id_of(s: Seq<u8>) -> u32 {
    read_u32(s, PAGE_ID_OFFSET as int)
}

pub open spec fn lsn_of(s: Seq<u8>) -> u64 {
    read_u64(s, LSN_OFFSET as int)
}

pub open spec fn next_page_id_of(s: Seq<u8>) -> u32 {
    read_u32(s, NEXT_PAGE_ID_OFFSET as int)
}

pub open spec fn lower_offset_of(s: Seq<u8>) -> u32 {
    read_u32(s, LOWER_OFFSET_OFFSET as int)
}

pub open spec fn upper_offset_of(s: Seq<u8>) -> u32 {
    read_u32(s, UPPER_OFFSET_OFFSET as int)
}

pub open spec fn free_space_of(s: Seq<u8>) -> int {
    upper_offset_of(s) - lower_offset_of(s)
}

pub open spec fn tuple_count_of(s: Seq<u8>) -> int {
    (lower_offset_of(s) - HEADER_SIZE) / (LINE_POINTER_SIZE as int)
}

/// Byte offset of line pointer `i` within the page.
pub open spec fn slot_entry_offset(i: int) -> int {
    HEADER_SIZE + i * (LINE_POINTER_SIZE as int)
}

/// The `offset` field of line pointer `i`.
pub open spec fn line_pointer_offset_of(s: Seq<u8>, i: int) -> u32 {
    read_u32(s, slot_entry_offset(i))
}

/// The `size` field of line pointer `i`.
pub open spec fn line_pointer_size_of(s: Seq<u8>, i: int) -> u32 {
    read_u32(s, slot_entry_offset(i) + LINE_POINTER_OFFSET_SIZE)
}

/// One past the end of payload `i`: payloads are packed downward from the
/// page tail, so payload `i` ends where payload `i - 1` begins.
pub open spec fn slot_end_of(s: Seq<u8>, i: int) -> int {
    if i == 0 {
        PAGE_SIZE as int
    } else {
        line_pointer_offset_of(s, i - 1) as int
    }
}

/// The bytes of tuple `i`.
pub open spec fn tuple_bytes_of(s: Seq<u8>, i: int) -> Seq<u8> {
    s.subrange(
        line_pointer_offset_of(s, i) as int,
        line_pointer_offset_of(s, i) + line_pointer_size_of(s, i),
    )
}

/// All tuples of the page, in insertion order.
pub open spec fn tuples_of(s: Seq<u8>) -> Seq<Seq<u8>> {
    Seq::new(tuple_count_of(s) as nat, |i: int| tuple_bytes_of(s, i))
}

/// Well-formedness of a page image: offsets never cross, the slot area is a
/// whole number of line pointers, and payloads are packed back to back from
/// the tail with `upper_offset` at the start of the newest one.
pub open spec fn wf_page(s: Seq<u8>) -> bool {
    &&& s.len() == PAGE_SIZE
    &&& HEADER_SIZE <= lower_offset_of(s) as int
    &&& lower_offset_of(s) <= upper_offset_of(s)
    &&& upper_offset_of(s) as int <= PAGE_SIZE as int
    &&& (lower_offset_of(s) - HEADER_SIZE) % (LINE_POINTER_SIZE as int) == 0
    &&& forall|i: int|
        0 <= i < tuple_count_of(s) ==> #[trigger] line_pointer_offset_of(s, i)
            + line_pointer_size_of(s, i) == slot_end_of(s, i)
    &&& upper_offset_of(s) as int == slot_end_of(s, tuple_count_of(s))
}

/// In a well-formed page the slot area is exactly `tuple_count` line
/// pointers: `lower_offset == HEADER_SIZE + LINE_POINTER_SIZE * tuple_count`.
pub proof fn lemma_count_lower(s: Seq<u8>)
    requires
        wf_page(s),
    ensures
        lower_offset_of(s) as int == HEADER_SIZE + (LINE_POINTER_SIZE as int) * tuple_count_of(s),
{
    vstd::arithmetic::div_mod::lemma_fundamental_div_mod(
        lower_offset_of(s) - HEADER_SIZE,
        LINE_POINTER_SIZE as int,
    );
}

/// Offsets never cross: in a well-formed page the lower and upper offsets
/// always sit between the header and the page tail.
pub proof fn lemma_offsets_never_cross(s: Seq<u8>)
    requires
        wf_page(s),
    ensures
        HEADER_SIZE <= lower_offset_of(s) as int,
        lower_offset_of(s) <= upper_offset_of(s),
        upper_offset_of(s) as int <= PAGE_SIZE as int,
{
}

/// Page layout round trip, over any sequence of successful inserts: if a
/// page starts empty and each of `n` inserts appends its payload to the
/// tuple model — which is what `insert` ensures on every success — then the
/// page's tuples afterwards are exactly the inserted byte strings, in
/// insertion order, and their number is `n`.
pub proof fn lemma_page_round_trip(pages: Seq<Seq<u8>>, ds: Seq<Seq<u8>>)
    requires
        pages.len() == ds.len() + 1,
        tuples_of(pages[0]) == Seq::<Seq<u8>>::empty(),
        forall|k: int|
            0 <= k < ds.len() ==> #[trigger] tuples_of(pages[k + 1]) == tuples_of(
                pages[k],
            ).push(ds[k]),
    ensures
        tuples_of(pages[ds.len() as int]) == ds,
        tuples_of(pages[ds.len() as int]).len() == ds.len(),
    decreases ds.len(),
{
    if ds.len() == 0 {
        assert(ds =~= Seq::<Seq<u8>>::empty());
    } else {
        let n = ds.len() as int;
        lemma_page_round_trip(pages.subrange(0, n), ds.drop_last());
        assert(pages.subrange(0, n)[0] == pages[0]);
        assert(tuples_of(pages[n - 1]) == ds.drop_last());
        assert(tuples_of(pages[n]) == tuples_of(pages[n - 1]).push(ds[n - 1]));
        assert(ds.drop_last().push(ds[n - 1]) =~= ds);
    }
}

/// Payload ends never exceed the page tail.
pub proof fn lemma_slot_end_bound(s: Seq<u8>, i: int)
    requires
        wf_page(s),
        0 <= i <= tuple_count_of(s),
    ensures
        slot_end_of(s, i) <= PAGE_SIZE as int,
    decreases i,
{
    if i > 0 {
        lemma_slot_end_bound(s, i - 1);
        assert(line_pointer_offset_of(s, i - 1) + line_pointer_size_of(s, i - 1) == slot_end_of(
            s,
            i - 1,
        ));
    }
}

/// Every payload lies within `[upper_offset, PAGE_SIZE)`.
pub proof fn lemma_slot_range(s: Seq<u8>, i: int)
    requires
        wf_page(s),
        0 <= i < tuple_count_of(s),
    ensures
        upper_offset_of(s) as int <= line_pointer_offset_of(s, i) as int,
        line_pointer_offset_of(s, i) + line_pointer_size_of(s, i) <= PAGE_SIZE as int,
    decreases tuple_count_of(s) - i,
{
    lemma_slot_end_bound(s, i);
    assert(line_pointer_offset_of(s, i) + line_pointer_size_of(s, i) == slot_end_of(s, i));
    if i == tuple_count_of(s) - 1 {
        assert(slot_end_of(s, tuple_count_of(s)) == line_pointer_offset_of(s, i) as int);
    } else {
        lemma_slot_range(s, i + 1);
        assert(line_pointer_offset_of(s, i + 1) + line_pointer_size_of(s, i + 1) == slot_end_of(
            s,
            i + 1,
        ));
    }
}

/// Payloads of distinct slots do not overlap: a later slot ends at or before
/// an earlier slot begins.
pub proof fn lemma_slot_order(s: Seq<u8>, i: int, j: int)
    requires
        wf_page(s),
        0 <= i < j < tuple_count_of(s),
    ensures
        line_pointer_offset_of(s, j) + line_pointer_size_of(s, j) <= line_pointer_offset_of(
            s,
            i,
        ) as int,
    decreases j - i,
{
    assert(line_pointer_offset_of(s, j) + line_pointer_size_of(s, j) == slot_end_of(s, j));
    if j == i + 1 {
    } else {
        lemma_slot_order(s, i, j - 1);
    }
}

/// A slotted table page, owned as one contiguous byte buffer.
pub struct TablePage {
    pub data: Vec<u8>,
}

#[derive(Clone, Copy, Debug, PartialEq, Eq, Structural)]
pub enum PageError {
    /// The payload plus its line pointer does not fit in the free space.
    Full,
}

impl TablePage {
    pub open spec fn wf(&self) -> bool {
        wf_page(self.data@)
    }

    fn zeroed_buffer() -> (r: Vec<u8>)
        ensures
            r@.len() == PAGE_SIZE,
            forall|j: int| 0 <= j < PAGE_SIZE ==> r@[j] == 0,
    {
        let mut r: Vec<u8> = Vec::new();
        let mut k: usize = 0;
        while k < PAGE_SIZE
            invariant
                k <= PAGE_SIZE,
                r@.len() == k,
                forall|j: int| 0 <= j < k ==> r@[j] == 0,
            decreases PAGE_SIZE - k,
        {
            r.push(0u8);
            k = k + 1;
        }
        r
    }

    /// A freshly formatted, empty table page.
    pub fn new(page_id: PageID) -> (r: Self)
        ensures
            r.wf(),
            page_type_of(r.data@) == TABLE_PAGE_PAGE_TYPE,
            page_id_of(r.data@) == page_id.0,
            lsn_of(r.data@) == 0,
            next_page_id_of(r.data@) == INVALID_PAGE_ID,
            lower_offset_of(r.data@) == HEADER_SIZE,
            upper_offset_of(r.data@) == PAGE_SIZE,
            tuple_count_of(r.data@) == 0,
            tuples_of(r.data@) == Seq::<Seq<u8>>::empty(),
            free_space_of(r.data@) == PAGE_SIZE - HEADER_SIZE,
            forall|j: int| HEADER_SIZE <= j < PAGE_SIZE ==> r.data@[j] == 0,
    {
        let mut data: Vec<u8> = Self::zeroed_buffer();
        put_u16(&mut data, PAGE_TYPE_OFFSET, TABLE_PAGE_PAGE_TYPE);
        let ghost s_type = data@;
        put_u32(&mut data, PAGE_ID_OFFSET, page_id.0);
        let ghost s_id = data@;
        put_u64(&mut data, LSN_OFFSET, 0);
        let ghost s_lsn = data@;
        put_u32(&mut data, NEXT_PAGE_ID_OFFSET, INVALID_PAGE_ID);
        let ghost s_next = data@;
        put_u32(&mut data, LOWER_OFFSET_OFFSET, HEADER_SIZE as u32);
        let ghost s_lower = data@;
        put_u32(&mut data, UPPER_OFFSET_OFFSET, PAGE_SIZE as u32);
        let r = TablePage { data };
        proof {
            let f = r.data@;
            assert(f.subrange(PAGE_TYPE_OFFSET as int, PAGE_TYPE_OFFSET + 2) =~= s_type.subrange(
                PAGE_TYPE_OFFSET as int,
                PAGE_TYPE_OFFSET + 2,
            ));
            assert(f.subrange(PAGE_ID_OFFSET as int, PAGE_ID_OFFSET + 4) =~= s_id.subrange(
                PAGE_ID_OFFSET as int,
                PAGE_ID_OFFSET + 4,
            ));
            assert(f.subrange(NEXT_PAGE_ID_OFFSET as int, NEXT_PAGE_ID_OFFSET + 4)
                =~= s_next.subrange(NEXT_PAGE_ID_OFFSET as int, NEXT_PAGE_ID_OFFSET + 4));
            assert(f.subrange(LOWER_OFFSET_OFFSET as int, LOWER_OFFSET_OFFSET + 4)
                =~= s_lower.subrange(LOWER_OFFSET_OFFSET as int, LOWER_OFFSET_OFFSET + 4));
            assert(f.subrange(LSN_OFFSET as int, LSN_OFFSET + 8) =~= s_lsn.subrange(
                LSN_OFFSET as int,
                LSN_OFFSET + 8,
            ));
            assert(tuples_of(f) =~= Seq::<Seq<u8>>::empty());
        }
        r
    }

    /// Wrap an existing page image. No validation beyond the size.
    pub fn from_data(data: &[u8]) -> (r: Self)
        requires
            data@.len() == PAGE_SIZE,
        ensures
            r.data@ == data@,
    {
        TablePage { data: slice_to_vec(data) }
    }

    /// Append a tuple image. On success the payload is written just below the
    /// old `upper_offset` and a new line pointer is appended; the tuples of
    /// the page afterwards are exactly the old tuples with `data` at the end.
    /// Fails with `PageError::Full`, leaving the page untouched, exactly when
    /// the payload plus one line pointer exceeds the free space.
    #[verifier::rlimit(60)]
    pub fn insert(&mut self, data: &[u8]) -> (r: Result<(), PageError>)
        requires
            old(self).wf(),
        ensures
            final(self).wf(),
            match r {
                Ok(()) => {
                    &&& free_space_of(old(self).data@) >= data@.len() + LINE_POINTER_SIZE
                    &&& tuples_of(final(self).data@) == tuples_of(old(self).data@).push(data@)
                    &&& tuple_count_of(final(self).data@) == tuple_count_of(old(self).data@) + 1
                    &&& lower_offset_of(final(self).data@) == lower_offset_of(old(self).data@)
                        + LINE_POINTER_SIZE
                    &&& upper_offset_of(final(self).data@) == upper_offset_of(old(self).data@)
                        - data@.len()
                    &&& free_space_of(final(self).data@) == free_space_of(old(self).data@)
                        - data@.len() - LINE_POINTER_SIZE
                    &&& line_pointer_offset_of(final(self).data@, tuple_count_of(old(self).data@))
                        == upper_offset_of(final(self).data@)
                    &&& line_pointer_size_of(final(self).data@, tuple_count_of(old(self).data@))
                        == data@.len()
                    &&& page_type_of(final(self).data@) == page_type_of(old(self).data@)
                    &&& page_id_of(final(self).data@) == page_id_of(old(self).data@)
                    &&& lsn_of(final(self).data@) == lsn_of(old(self).data@)
                    &&& next_page_id_of(final(self).data@) == next_page_id_of(old(self).data@)
                    &&& forall|j: int|
                        0 <= j < PAGE_SIZE && !(LOWER_OFFSET_OFFSET <= j < UPPER_OFFSET_OFFSET
                            + UPPER_OFFSET_SIZE) && !(lower_offset_of(old(self).data@) <= j
                            < lower_offset_of(old(self).data@) + LINE_POINTER_SIZE) && !(
                        upper_offset_of(old(self).data@) - data@.len() <= j < upper_offset_of(
                            old(self).data@,
                        )) ==> final(self).data@[j] == old(self).data@[j]
                },
                Err(PageError::Full) => {
                    &&& free_space_of(old(self).data@) < data@.len() + LINE_POINTER_SIZE
                    &&& final(self).data@ == old(self).data@
                },
            },
    {
        let fs: usize = self.free_space();
        if fs < LINE_POINTER_SIZE || fs - LINE_POINTER_SIZE < data.len() {
            return Err(PageError::Full);
        }
        let n: usize = data.len();
        let lower: u32 = self.lower_offset();
        let upper: u32 = self.upper_offset();
        let next_lower: u32 = lower + (LINE_POINTER_SIZE as u32);
        let next_upper: u32 = upper - (n as u32);
        let ghost s0 = self.data@;
        let ghost count0 = tuple_count_of(s0);
        put_u32(&mut self.data, LOWER_OFFSET_OFFSET, next_lower);
        let ghost s_lower = self.data@;
        put_u32(&mut self.data, UPPER_OFFSET_OFFSET, next_upper);
        let ghost s_upper = self.data@;
        put_u32(&mut self.data, lower as usize, next_upper);
        let ghost s_slot_off = self.data@;
        put_u32(&mut self.data, lower as usize + LINE_POINTER_OFFSET_SIZE, n as u32);
        let ghost s_slot_size = self.data@;
        put_bytes(&mut self.data, next_upper as usize, data);
        proof {
            let f = self.data@;
            lemma_count_lower(s0);
            // header fields before the offsets are untouched
            assert(f.subrange(PAGE_TYPE_OFFSET as int, PAGE_TYPE_OFFSET + 2) =~= s0.subrange(
                PAGE_TYPE_OFFSET as int,
                PAGE_TYPE_OFFSET + 2,
            ));
            assert(f.subrange(PAGE_ID_OFFSET as int, PAGE_ID_OFFSET + 4) =~= s0.subrange(
                PAGE_ID_OFFSET as int,
                PAGE_ID_OFFSET + 4,
            ));
            assert(f.subrange(LSN_OFFSET as int, LSN_OFFSET + 8) =~= s0.subrange(
                LSN_OFFSET as int,
                LSN_OFFSET + 8,
            ));
            assert(f.subrange(NEXT_PAGE_ID_OFFSET as int, NEXT_PAGE_ID_OFFSET + 4) =~= s0.subrange(
                NEXT_PAGE_ID_OFFSET as int,
                NEXT_PAGE_ID_OFFSET + 4,
            ));
            // the two offset fields read back as written
            assert(f.subrange(LOWER_OFFSET_OFFSET as int, LOWER_OFFSET_OFFSET + 4)
                =~= s_lower.subrange(LOWER_OFFSET_OFFSET as int, LOWER_OFFSET_OFFSET + 4));
            assert(f.subrange(UPPER_OFFSET_OFFSET as int, UPPER_OFFSET_OFFSET + 4)
                =~= s_upper.subrange(UPPER_OFFSET_OFFSET as int, UPPER_OFFSET_OFFSET + 4));
            assert(lower_offset_of(f) == next_lower);
            assert(upper_offset_of(f) == next_upper);
            assert(tuple_count_of(f) == count0 + 1) by {
                vstd::arithmetic::div_mod::lemma_div_multiples_vanish(
                    count0 + 1,
                    LINE_POINTER_SIZE as int,
                );
            }
            // old line pointers are untouched
            assert forall|i: int| 0 <= i < count0 implies #[trigger] line_pointer_offset_of(f, i)
                == line_pointer_offset_of(s0, i) && line_pointer_size_of(f, i)
                == line_pointer_size_of(s0, i) by {
                assert(slot_entry_offset(i) + 8 <= lower as int);
                assert(f.subrange(slot_entry_offset(i), slot_entry_offset(i) + 4) =~= s0.subrange(
                    slot_entry_offset(i),
                    slot_entry_offset(i) + 4,
                ));
                assert(f.subrange(slot_entry_offset(i) + 4, slot_entry_offset(i) + 8)
                    =~= s0.subrange(slot_entry_offset(i) + 4, slot_entry_offset(i) + 8));
            }
            // the new line pointer reads back as written
            assert(slot_entry_offset(count0) == lower as int);
            assert(f.subrange(lower as int, lower + 4) =~= s_slot_off.subrange(
                lower as int,
                lower + 4,
            ));
            assert(f.subrange(lower + 4, lower + 8) =~= s_slot_size.subrange(
                lower + 4,
                lower + 8,
            ));
            assert(line_pointer_offset_of(f, count0) == next_upper);
            assert(line_pointer_size_of(f, count0) == n as u32);
            // old payloads are untouched
            assert forall|i: int| 0 <= i < count0 implies #[trigger] tuple_bytes_of(f, i)
                == tuple_bytes_of(s0, i) by {
                lemma_slot_range(s0, i);
                assert(tuple_bytes_of(f, i) =~= tuple_bytes_of(s0, i));
            }
            // the new payload is exactly `data`
            assert(f.subrange(next_upper as int, next_upper + n) == data@);
            assert(tuple_bytes_of(f, count0) == data@);
            // well-formedness of the result
            assert forall|i: int| 0 <= i < tuple_count_of(f) implies #[trigger]
            line_pointer_offset_of(f, i) + line_pointer_size_of(f, i) == slot_end_of(f, i) by {
                if i < count0 {
                    assert(line_pointer_offset_of(s0, i) + line_pointer_size_of(s0, i)
                        == slot_end_of(s0, i));
                } else {
                    assert(slot_end_of(f, count0) == slot_end_of(s0, count0));
                }
            }
            assert(slot_end_of(f, count0 + 1) == next_upper as int);
            assert(wf_page(f));
            assert(tuples_of(f) =~= tuples_of(s0).push(data@));
        }
        Ok(())
    }

    /// Overwrite the `xmax` field of the tuple in slot `index` with `txn_id`.
    /// Every byte of the page outside that 4-byte window keeps its value; the
    /// slot, its payload and all offsets remain.
    #[verifier::rlimit(60)]
    pub fn delete(&mut self, index: u32, txn_id: TransactionID)
        requires
            old(self).wf(),
            index < tuple_count_of(old(self).data@),
            line_pointer_size_of(old(self).data@, index as int) >= TUPLE_HEADER_SIZE,
        ensures
            final(self).wf(),
            tuples_of(final(self).data@) == tuples_of(old(self).data@).update(
                index as int,
                with_xmax(tuples_of(old(self).data@)[index as int], txn_id.0),
            ),
            forall|j: int|
                0 <= j < old(self).data@.len() && !(line_pointer_offset_of(
                    old(self).data@,
                    index as int,
                ) + TUPLE_XMAX_OFFSET <= j < line_pointer_offset_of(old(self).data@, index as int)
                    + TUPLE_XMAX_OFFSET + 4) ==> final(self).data@[j] == old(self).data@[j],
            tuple_count_of(final(self).data@) == tuple_count_of(old(self).data@),
            lower_offset_of(final(self).data@) == lower_offset_of(old(self).data@),
            upper_offset_of(final(self).data@) == upper_offset_of(old(self).data@),
            free_space_of(final(self).data@) == free_space_of(old(self).data@),
            page_type_of(final(self).data@) == page_type_of(old(self).data@),
            page_id_of(final(self).data@) == page_id_of(old(self).data@),
            lsn_of(final(self).data@) == lsn_of(old(self).data@),
            next_page_id_of(final(self).data@) == next_page_id_of(old(self).data@),
    {
        let off: u32 = self.line_pointer_offset(index as usize);
        let size: u32 = self.line_pointer_size(index as usize);
        let ghost s0 = self.data@;
        proof {
            lemma_slot_range(s0, index as int);
        }
        let mut tuple = Tuple::new(
            None,
            slice_subrange(self.data.as_slice(), off as usize, off as usize + size as usize),
        );
        tuple.set_xmax(txn_id);
        put_bytes(&mut self.data, off as usize, tuple.data.as_slice());
        proof {
            let f = self.data@;
            lemma_count_lower(s0);
            let t0 = tuple_bytes_of(s0, index as int);
            assert(f.subrange(off as int, off + size) == with_xmax(t0, txn_id.0));
            assert forall|j: int|
                off <= j < off + size && !(off + TUPLE_XMAX_OFFSET <= j < off + TUPLE_XMAX_OFFSET
                    + 4) implies f[j] == s0[j] by {
                assert(f[j] == f.subrange(off as int, off + size)[j - off]);
                assert(with_xmax(t0, txn_id.0)[j - off] == t0[j - off]);
                assert(t0[j - off] == s0[j]);
            }
            // everything below the payload area is untouched
            assert(f.subrange(PAGE_TYPE_OFFSET as int, PAGE_TYPE_OFFSET + 2) =~= s0.subrange(
                PAGE_TYPE_OFFSET as int,
                PAGE_TYPE_OFFSET + 2,
            ));
            assert(f.subrange(PAGE_ID_OFFSET as int, PAGE_ID_OFFSET + 4) =~= s0.subrange(
                PAGE_ID_OFFSET as int,
                PAGE_ID_OFFSET + 4,
            ));
            assert(f.subrange(LSN_OFFSET as int, LSN_OFFSET + 8) =~= s0.subrange(
                LSN_OFFSET as int,
                LSN_OFFSET + 8,
            ));
            assert(f.subrange(NEXT_PAGE_ID_OFFSET as int, NEXT_PAGE_ID_OFFSET + 4) =~= s0.subrange(
                NEXT_PAGE_ID_OFFSET as int,
                NEXT_PAGE_ID_OFFSET + 4,
            ));
            assert(f.subrange(LOWER_OFFSET_OFFSET as int, LOWER_OFFSET_OFFSET + 4) =~= s0.subrange(
                LOWER_OFFSET_OFFSET as int,
                LOWER_OFFSET_OFFSET + 4,
            ));
            assert(f.subrange(UPPER_OFFSET_OFFSET as int, UPPER_OFFSET_OFFSET + 4) =~= s0.subrange(
                UPPER_OFFSET_OFFSET as int,
                UPPER_OFFSET_OFFSET + 4,
            ));
            assert forall|i: int| 0 <= i < tuple_count_of(s0) implies #[trigger]
            line_pointer_offset_of(f, i) == line_pointer_offset_of(s0, i) && line_pointer_size_of(
                f,
                i,
            ) == line_pointer_size_of(s0, i) by {
                assert(slot_entry_offset(i) + 8 <= lower_offset_of(s0) as int);
                assert(f.subrange(slot_entry_offset(i), slot_entry_offset(i) + 4) =~= s0.subrange(
                    slot_entry_offset(i),
                    slot_entry_offset(i) + 4,
                ));
                assert(f.subrange(slot_entry_offset(i) + 4, slot_entry_offset(i) + 8)
                    =~= s0.subrange(slot_entry_offset(i) + 4, slot_entry_offset(i) + 8));
            }
            assert forall|i: int|
                0 <= i < tuple_count_of(s0) && i != index as int implies #[trigger] tuple_bytes_of(
                f,
                i,
            ) == tuple_bytes_of(s0, i) by {
                lemma_slot_range(s0, i);
                if i < index as int {
                    lemma_slot_order(s0, i, index as int);
                } else {
                    lemma_slot_order(s0, index as int, i);
                }
                assert(tuple_bytes_of(f, i) =~= tuple_bytes_of(s0, i));
            }
            assert(tuple_bytes_of(f, index as int) =~= f.subrange(off as int, off + size));
            assert forall|i: int| 0 <= i < tuple_count_of(f) implies #[trigger]
            line_pointer_offset_of(f, i) + line_pointer_size_of(f, i) == slot_end_of(f, i) by {
                assert(line_pointer_offset_of(s0, i) + line_pointer_size_of(s0, i) == slot_end_of(
                    s0,
                    i,
                ));
            }
            assert(slot_end_of(f, tuple_count_of(f)) == slot_end_of(s0, tuple_count_of(s0)));
            assert(wf_page(f));
            assert(tuples_of(f) =~= tuples_of(s0).update(
                index as int,
                with_xmax(tuples_of(s0)[index as int], txn_id.0),
            ));
        }
    }

    /// All tuples of the page in insertion order.
    pub fn get_tuples(&self) -> (r: Vec<Vec<u8>>)
        requires
            self.wf(),
        ensures
            r@.len() == tuple_count_of(self.data@),
            forall|i: int| 0 <= i < r@.len() ==> #[trigger] r@[i]@ == tuples_of(self.data@)[i],
    {
        let count: usize = self.tuple_count();
        let mut r: Vec<Vec<u8>> = Vec::new();
        let mut i: usize = 0;
        while i < count
            invariant
                self.wf(),
                count == tuple_count_of(self.data@),
                i <= count,
                r@.len() == i,
                forall|k: int| 0 <= k < i ==> #[trigger] r@[k]@ == tuples_of(self.data@)[k],
            decreases count - i,
        {
            let t: Vec<u8> = self.get_tuple(i);
            r.push(t);
            i = i + 1;
        }
        r
    }

    /// The bytes of the tuple in slot `index`.
    pub fn get_tuple(&self, index: usize) -> (r: Vec<u8>)
        requires
            self.wf(),
            index < tuple_count_of(self.data@),
        ensures
            r@ == tuples_of(self.data@)[index as int],
    {
        let off: u32 = self.line_pointer_offset(index);
        let size: u32 = self.line_pointer_size(index);
        proof {
            lemma_slot_range(self.data@, index as int);
        }
        slice_to_vec(
            slice_subrange(self.data.as_slice(), off as usize, off as usize + size as usize),
        )
    }

    /// Number of tuples stored on the page.
    pub fn tuple_count(&self) -> (r: usize)
        requires
            self.wf(),
        ensures
            r == tuple_count_of(self.data@),
    {
        let lower: u32 = self.lower_offset();
        (lower as usize - HEADER_SIZE) / LINE_POINTER_SIZE
    }

    pub fn page_id(&self) -> (r: PageID)
        requires
            self.data@.len() == PAGE_SIZE,
        ensures
            r.0 == page_id_of(self.data@),
    {
        PageID(get_u32(&self.data, PAGE_ID_OFFSET))
    }

    pub fn lsn(&self) -> (r: LSN)
        requires
            self.data@.len() == PAGE_SIZE,
        ensures
            r.0 == lsn_of(self.data@),
    {
        LSN(get_u64(&self.data, LSN_OFFSET))
    }

    pub fn next_page_id(&self) -> (r: PageID)
        requires
            self.data@.len() == PAGE_SIZE,
        ensures
            r.0 == next_page_id_of(self.data@),
    {
        PageID(get_u32(&self.data, NEXT_PAGE_ID_OFFSET))
    }

    /// Set the log sequence number. Nothing else on the page changes.
    pub fn set_lsn(&mut self, lsn: LSN)
        requires
            old(self).wf(),
        ensures
            final(self).wf(),
            lsn_of(final(self).data@) == lsn.0,
            page_type_of(final(self).data@) == page_type_of(old(self).data@),
            page_id_of(final(self).data@) == page_id_of(old(self).data@),
            next_page_id_of(final(self).data@) == next_page_id_of(old(self).data@),
            lower_offset_of(final(self).data@) == lower_offset_of(old(self).data@),
            upper_offset_of(final(self).data@) == upper_offset_of(old(self).data@),
            tuples_of(final(self).data@) == tuples_of(old(self).data@),
            free_space_of(final(self).data@) == free_space_of(old(self).data@),
            forall|j: int|
                0 <= j < PAGE_SIZE && !(LSN_OFFSET <= j < LSN_OFFSET + LSN_SIZE)
                    ==> final(self).data@[j] == old(self).data@[j],
    {
        let ghost s0 = self.data@;
        put_u64(&mut self.data, LSN_OFFSET, lsn.0);
        proof {
            lemma_header_write_frame(s0, self.data@);
            assert(self.data@.subrange(PAGE_TYPE_OFFSET as int, PAGE_TYPE_OFFSET + 2)
                =~= s0.subrange(PAGE_TYPE_OFFSET as int, PAGE_TYPE_OFFSET + 2));
            assert(self.data@.subrange(PAGE_ID_OFFSET as int, PAGE_ID_OFFSET + 4) =~= s0.subrange(
                PAGE_ID_OFFSET as int,
                PAGE_ID_OFFSET + 4,
            ));
            assert(self.data@.subrange(NEXT_PAGE_ID_OFFSET as int, NEXT_PAGE_ID_OFFSET + 4)
                =~= s0.subrange(NEXT_PAGE_ID_OFFSET as int, NEXT_PAGE_ID_OFFSET + 4));
        }
    }

    /// Set the chain pointer to the next table page. Nothing else changes.
    pub fn set_next_page_id(&mut self, page_id: PageID)
        requires
            old(self).wf(),
        ensures
            final(self).wf(),
            next_page_id_of(final(self).data@) == page_id.0,
            page_type_of(final(self).data@) == page_type_of(old(self).data@),
            page_id_of(final(self).data@) == page_id_of(old(self).data@),
            lsn_of(final(self).data@) == lsn_of(old(self).data@),
            lower_offset_of(final(self).data@) == lower_offset_of(old(self).data@),
            upper_offset_of(final(self).data@) == upper_offset_of(old(self).data@),
            tuples_of(final(self).data@) == tuples_of(old(self).data@),
            free_space_of(final(self).data@) == free_space_of(old(self).data@),
            forall|j: int|
                0 <= j < PAGE_SIZE && !(NEXT_PAGE_ID_OFFSET <= j < NEXT_PAGE_ID_OFFSET
                    + NEXT_PAGE_ID_SIZE) ==> final(self).data@[j] == old(self).data@[j],
    {
        let ghost s0 = self.data@;
        put_u32(&mut self.data, NEXT_PAGE_ID_OFFSET, page_id.0);
        proof {
            lemma_header_write_frame(s0, self.data@);
            assert(self.data@.subrange(PAGE_TYPE_OFFSET as int, PAGE_TYPE_OFFSET + 2)
                =~= s0.subrange(PAGE_TYPE_OFFSET as int, PAGE_TYPE_OFFSET + 2));
            assert(self.data@.subrange(PAGE_ID_OFFSET as int, PAGE_ID_OFFSET + 4) =~= s0.subrange(
                PAGE_ID_OFFSET as int,
                PAGE_ID_OFFSET + 4,
            ));
            assert(self.data@.subrange(LSN_OFFSET as int, LSN_OFFSET + 8) =~= s0.subrange(
                LSN_OFFSET as int,
                LSN_OFFSET + 8,
            ));
        }
    }

    /// Bytes still free between the slot area and the payload area.
    pub fn free_space(&self) -> (r: usize)
        requires
            self.wf(),
        ensures
            r == free_space_of(self.data@),
    {
        let lower: u32 = self.lower_offset();
        let upper: u32 = self.upper_offset();
        (upper - lower) as usize
    }

    pub fn lower_offset(&self) -> (r: u32)
        requires
            self.data@.len() == PAGE_SIZE,
        ensures
            r == lower_offset_of(self.data@),
    {
        get_u32(&self.data, LOWER_OFFSET_OFFSET)
    }

    pub fn upper_offset(&self) -> (r: u32)
        requires
            self.data@.len() == PAGE_SIZE,
        ensures
            r == upper_offset_of(self.data@),
    {
        get_u32(&self.data, UPPER_OFFSET_OFFSET)
    }

    /// The `offset` field of line pointer `index`.
    pub fn line_pointer_offset(&self, index: usize) -> (r: u32)
        requires
            self.wf(),
            index < tuple_count_of(self.data@),
        ensures
            r == line_pointer_offset_of(self.data@, index as int),
    {
        proof {
            lemma_count_lower(self.data@);
            assert(HEADER_SIZE + index * LINE_POINTER_SIZE + LINE_POINTER_SIZE
                <= lower_offset_of(self.data@) as int) by (nonlinear_arith)
                requires
                    (index as int) < tuple_count_of(self.data@),
                    lower_offset_of(self.data@) as int == HEADER_SIZE + (
                    LINE_POINTER_SIZE as int) * tuple_count_of(self.data@),
            ;
        }
        get_u32(&self.data, HEADER_SIZE + index * LINE_POINTER_SIZE)
    }

    /// The `size` field of line pointer `index`.
    pub fn line_pointer_size(&self, index: usize) -> (r: u32)
        requires
            self.wf(),
            index < tuple_count_of(self.data@),
        ensures
            r == line_pointer_size_of(self.data@, index as int),
    {
        proof {
            lemma_count_lower(self.data@);
            assert(HEADER_SIZE + index * LINE_POINTER_SIZE + LINE_POINTER_SIZE
                <= lower_offset_of(self.data@) as int) by (nonlinear_arith)
                requires
                    (index as int) < tuple_count_of(self.data@),
                    lower_offset_of(self.data@) as int == HEADER_SIZE + (
                    LINE_POINTER_SIZE as int) * tuple_count_of(self.data@),
            ;
        }
        get_u32(&self.data, HEADER_SIZE + index * LINE_POINTER_SIZE + LINE_POINTER_OFFSET_SIZE)
    }
}

/// A write confined to the header bytes between the page-type field and the
/// lower-offset field leaves the slot area, the payload area and both offsets
/// unchanged, so the page stays well formed with the same tuples.
proof fn lemma_header_write_frame(s0: Seq<u8>, f: Seq<u8>)
    requires
        wf_page(s0),
        f.len() == s0.len(),
        forall|j: int| LOWER_OFFSET_OFFSET <= j < s0.len() ==> f[j] == s0[j],
    ensures
        wf_page(f),
        lower_offset_of(f) == lower_offset_of(s0),
        upper_offset_of(f) == upper_offset_of(s0),
        tuple_count_of(f) == tuple_count_of(s0),
        tuples_of(f) == tuples_of(s0),
        free_space_of(f) == free_space_of(s0),
{
    lemma_count_lower(s0);
    assert(f.subrange(LOWER_OFFSET_OFFSET as int, LOWER_OFFSET_OFFSET + 4) =~= s0.subrange(
        LOWER_OFFSET_OFFSET as int,
        LOWER_OFFSET_OFFSET + 4,
    ));
    assert(f.subrange(UPPER_OFFSET_OFFSET as int, UPPER_OFFSET_OFFSET + 4) =~= s0.subrange(
        UPPER_OFFSET_OFFSET as int,
        UPPER_OFFSET_OFFSET + 4,
    ));
    assert forall|i: int| 0 <= i < tuple_count_of(s0) implies #[trigger] line_pointer_offset_of(
        f,
        i,
    ) == line_pointer_offset_of(s0, i) && line_pointer_size_of(f, i) == line_pointer_size_of(
        s0,
        i,
    ) by {
        assert(f.subrange(slot_entry_offset(i), slot_entry_offset(i) + 4) =~= s0.subrange(
            slot_entry_offset(i),
            slot_entry_offset(i) + 4,
        ));
        assert(f.subrange(slot_entry_offset(i) + 4, slot_entry_offset(i) + 8) =~= s0.subrange(
            slot_entry_offset(i) + 4,
            slot_entry_offset(i) + 8,
        ));
    }
    assert forall|i: int| 0 <= i < tuple_count_of(s0) implies #[trigger] tuple_bytes_of(f, i)
        == tuple_bytes_of(s0, i) by {
        lemma_slot_range(s0, i);
        assert(tuple_bytes_of(f, i) =~= tuple_bytes_of(s0, i));
    }
    assert forall|i: int| 0 <= i < tuple_count_of(f) implies #[trigger] line_pointer_offset_of(
        f,
        i,
    ) + line_pointer_size_of(f, i) == slot_end_of(f, i) by {
        assert(line_pointer_offset_of(s0, i) + line_pointer_size_of(s0, i) == slot_end_of(s0, i));
    }
    assert(slot_end_of(f, tuple_count_of(f)) == slot_end_of(s0, tuple_count_of(s0)));
    assert(tuples_of(f) =~= tuples_of(s0));
}

} // verus!
