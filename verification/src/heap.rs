//! The table heap: a chain of table pages holding one table's tuples.
//!
//! `PageStore` owns the page images in memory, with the page id of each page
//! equal to its position and every page's `next_page_id` pointing at the one
//! after it (the last page carries `INVALID_PAGE_ID`). `TableHeap` is a thin
//! handle — the head of the chain plus the current transaction id — whose
//! operations borrow the store for their duration.
//!
//! `insert` walks the chain first-fit, appends a fresh page when no page has
//! room, and stamps every new tuple with `xmin = txn_id` and a live `xmax`.
//! `delete` is logical: it overwrites the `xmax` of one slot and nothing
//! else. `scan_all` yields every tuple of the chain exactly once, in page
//! order and slot order, each tagged with its row id.

use vstd::prelude::*;

verus! {

use crate::common::INVALID_PAGE_ID;
use crate::common::INVALID_TRANSACTION_ID;
use crate::common::PAGE_SIZE;
use crate::common::PageID;
use crate::common::Rid;
use crate::common::TransactionID;
use crate::table_page::HEADER_SIZE;
use crate::table_page::LINE_POINTER_SIZE;
use crate::table_page::TABLE_PAGE_PAGE_TYPE;
use crate::table_page::TablePage;
use crate::table_page::free_space_of;
use crate::table_page::lsn_of;
use crate::table_page::next_page_id_of;
use crate::table_page::page_id_of;
use crate::table_page::page_type_of;
use crate::table_page::tuple_count_of;
use crate::table_page::tuples_of;
use crate::table_page::wf_page;
use crate::tuple::TUPLE_HEADER_SIZE;
use crate::tuple::Tuple;
use crate::tuple::make_tuple_bytes;
use crate::tuple::tuple_bytes;
use crate::tuple::with_xmax;

#[derive(Clone, Copy, Debug, PartialEq, Eq, Structural)]
pub enum HeapError {
    /// The payload cannot fit even on an empty page.
    TupleTooLarge,
    /// The row id does not name a slot of this table.
    InvalidRid,
}

/// In-memory store of one table's page chain, ordered by page id.
pub struct PageStore {
    pub pages: Vec<TablePage>,
}

/// Number of tuples on page `p`.
pub open spec fn page_count_at(store: PageStore, p: int) -> int {
    tuple_count_of(store.pages@[p].data@)
}

/// The tuples of page `p`, in insertion order.
pub open spec fn page_tuples_at(store: PageStore, p: int) -> Seq<Seq<u8>> {
    tuples_of(store.pages@[p].data@)
}

/// Every tuple on the page is at least as long as the MVCC header.
pub open spec fn page_tuples_sized(s: Seq<u8>) -> bool {
    forall|i: int| 0 <= i < tuples_of(s).len() ==> #[trigger] tuples_of(s)[i].len()
        >= TUPLE_HEADER_SIZE
}

/// Total number of tuples on pages `lo..hi`.
pub open spec fn sum_counts(store: PageStore, lo: int, hi: int) -> int
    decreases hi - lo,
{
    if lo >= hi {
        0
    } else {
        page_count_at(store, lo) + sum_counts(store, lo + 1, hi)
    }
}

pub proof fn lemma_sum_counts_snoc(store: PageStore, lo: int, hi: int)
    requires
        lo <= hi,
    ensures
        sum_counts(store, lo, hi + 1) == sum_counts(store, lo, hi) + page_count_at(store, hi),
    decreases hi - lo,
{
    if lo < hi {
        lemma_sum_counts_snoc(store, lo + 1, hi);
        assert(sum_counts(store, lo, hi + 1) == page_count_at(store, lo) + sum_counts(
            store,
            lo + 1,
            hi + 1,
        ));
        assert(sum_counts(store, lo, hi) == page_count_at(store, lo) + sum_counts(
            store,
            lo + 1,
            hi,
        ));
    } else {
        assert(sum_counts(store, lo, hi + 1) == page_count_at(store, lo) + sum_counts(
            store,
            lo + 1,
            hi + 1,
        ));
        assert(sum_counts(store, lo + 1, hi + 1) == 0);
        assert(sum_counts(store, lo, hi) == 0);
    }
}

pub proof fn lemma_sum_counts_nonneg(store: PageStore, lo: int, hi: int)
    requires
        forall|p: int| lo <= p < hi ==> #[trigger] page_count_at(store, p) >= 0,
    ensures
        sum_counts(store, lo, hi) >= 0,
    decreases hi - lo,
{
    if lo < hi {
        lemma_sum_counts_nonneg(store, lo + 1, hi);
    }
}

/// Sums over adjacent ranges add up.
pub proof fn lemma_sum_counts_split(store: PageStore, lo: int, mid: int, hi: int)
    requires
        lo <= mid <= hi,
    ensures
        sum_counts(store, lo, hi) == sum_counts(store, lo, mid) + sum_counts(store, mid, hi),
    decreases mid - lo,
{
    if lo < mid {
        lemma_sum_counts_split(store, lo + 1, mid, hi);
    }
}

/// In a well-formed store every page's tuple count is non-negative.
pub proof fn lemma_store_counts_nonneg(store: PageStore)
    requires
        store.wf(),
    ensures
        forall|p: int| 0 <= p < store.pages@.len() ==> #[trigger] page_count_at(store, p) >= 0,
{
    assert forall|p: int| 0 <= p < store.pages@.len() implies #[trigger] page_count_at(store, p)
        >= 0 by {
        assert(wf_page(store.pages@[p].data@));
    }
}

/// Two stores with the same per-page counts over `lo..hi` have the same sum.
pub proof fn lemma_sum_counts_congruent(a: PageStore, b: PageStore, lo: int, hi: int)
    requires
        forall|p: int| lo <= p < hi ==> #[trigger] page_count_at(a, p) == page_count_at(b, p),
    ensures
        sum_counts(a, lo, hi) == sum_counts(b, lo, hi),
    decreases hi - lo,
{
    if lo < hi {
        lemma_sum_counts_congruent(a, b, lo + 1, hi);
    }
}

impl PageStore {
    /// The chain invariant: well-formed pages whose ids match their position,
    /// linked in order, all tuples carrying a full MVCC header.
    pub open spec fn wf(&self) -> bool {
        &&& 1 <= self.pages@.len() <= 0xffff_fffe
        &&& forall|p: int| 0 <= p < self.pages@.len() ==> wf_page(#[trigger] self.pages@[p].data@)
        &&& forall|p: int|
            0 <= p < self.pages@.len() ==> page_id_of(#[trigger] self.pages@[p].data@) == p
        &&& forall|p: int|
            0 <= p < self.pages@.len() ==> page_type_of(#[trigger] self.pages@[p].data@)
                == TABLE_PAGE_PAGE_TYPE
        &&& forall|p: int|
            0 <= p < self.pages@.len() - 1 ==> next_page_id_of(#[trigger] self.pages@[p].data@)
                == p + 1
        &&& next_page_id_of(self.pages@[self.pages@.len() - 1].data@) == INVALID_PAGE_ID
        &&& forall|p: int|
            0 <= p < self.pages@.len() ==> page_tuples_sized(#[trigger] self.pages@[p].data@)
    }

    /// A store holding one freshly formatted, empty page.
    pub fn new() -> (r: Self)
        ensures
            r.wf(),
            r.pages@.len() == 1,
            page_tuples_at(r, 0) == Seq::<Seq<u8>>::empty(),
    {
        let page = TablePage::new(PageID(0));
        let mut pages: Vec<TablePage> = Vec::new();
        pages.push(page);
        PageStore { pages }
    }
}

/// Handle on one table: the head of its page chain and the transaction on
/// whose behalf the heap mutates.
pub struct TableHeap {
    pub first_page_id: PageID,
    pub txn_id: TransactionID,
}

/// The tuple image this heap writes for `row`: `xmin` is the heap's
/// transaction and `xmax` is still the live sentinel.
pub open spec fn heap_tuple(h: TableHeap, row: Seq<u8>) -> Seq<u8> {
    tuple_bytes(h.txn_id.0, INVALID_TRANSACTION_ID, row)
}

/// Whether `row` fits on an empty page together with its header and slot.
pub open spec fn insert_fits(row: Seq<u8>) -> bool {
    row.len() + TUPLE_HEADER_SIZE + LINE_POINTER_SIZE <= PAGE_SIZE - HEADER_SIZE
}

/// One logical delete took effect between `pre` and `post`: the tuple in
/// slot `i` of page `p` had its `xmax` stamped `txn`, and nothing else of
/// the store changed.
pub open spec fn delete_applied(pre: PageStore, post: PageStore, p: int, i: int, txn: u32) -> bool {
    &&& post.pages@.len() == pre.pages@.len()
    &&& 0 <= p < pre.pages@.len()
    &&& 0 <= i < page_count_at(pre, p)
    &&& page_tuples_at(post, p) == page_tuples_at(pre, p).update(
        i,
        with_xmax(page_tuples_at(pre, p)[i], txn),
    )
    &&& crate::tuple::xmax_of(page_tuples_at(post, p)[i]) == txn
    &&& forall|q: int| 0 <= q < pre.pages@.len() && q != p ==> post.pages@[q] == pre.pages@[q]
    &&& forall|q: int|
        0 <= q < pre.pages@.len() ==> #[trigger] page_count_at(post, q) == page_count_at(pre, q)
}

/// What page `q2`'s tuples look like after an update that stamped slot
/// `i` of page `p` dead and appended the new version `t` to page `q`.
pub open spec fn updated_page_tuples(
    pre: PageStore,
    p: int,
    i: int,
    txn: u32,
    q: int,
    t: Seq<u8>,
    q2: int,
) -> Seq<Seq<u8>> {
    let base = if q2 < pre.pages@.len() {
        page_tuples_at(pre, q2)
    } else {
        Seq::<Seq<u8>>::empty()
    };
    let stamped = if q2 == p {
        base.update(i, with_xmax(base[i], txn))
    } else {
        base
    };
    if q2 == q {
        stamped.push(t)
    } else {
        stamped
    }
}

/// One row update took effect between `pre` and `post`: the tuple in slot
/// `i` of page `p` had its `xmax` stamped `txn`, the new version `t` was
/// appended to exactly one page `q` (possibly one fresh page at the end of
/// the chain), and every other tuple of every page is unchanged.
pub open spec fn update_applied(
    pre: PageStore,
    post: PageStore,
    first: u32,
    p: int,
    i: int,
    txn: u32,
    t: Seq<u8>,
) -> bool {
    &&& 0 <= p < pre.pages@.len()
    &&& 0 <= i < page_count_at(pre, p)
    &&& pre.pages@.len() <= post.pages@.len() <= pre.pages@.len() + 1
    &&& exists|q: int|
        #![trigger page_tuples_at(post, q)]
        first <= q < post.pages@.len() && page_tuples_at(post, q).len() > 0 && page_tuples_at(
            post,
            q,
        ).last() == t && (forall|q2: int|
            0 <= q2 < post.pages@.len() ==> #[trigger] page_tuples_at(post, q2)
                == updated_page_tuples(pre, p, i, txn, q, t, q2))
}

/// An applied update never shrinks the chain or any page's tuple count.
pub proof fn lemma_update_applied_counts(
    pre: PageStore,
    post: PageStore,
    first: u32,
    p: int,
    i: int,
    txn: u32,
    t: Seq<u8>,
)
    requires
        pre.wf(),
        post.wf(),
        update_applied(pre, post, first, p, i, txn, t),
    ensures
        forall|q: int|
            0 <= q < pre.pages@.len() ==> #[trigger] page_count_at(post, q) >= page_count_at(
                pre,
                q,
            ),
{
    lemma_store_counts_nonneg(pre);
    lemma_store_counts_nonneg(post);
    let qq = choose|qq: int|
        #![trigger page_tuples_at(post, qq)]
        first <= qq < post.pages@.len() && page_tuples_at(post, qq).len() > 0 && page_tuples_at(
            post,
            qq,
        ).last() == t && (forall|q2: int|
            0 <= q2 < post.pages@.len() ==> #[trigger] page_tuples_at(post, q2)
                == updated_page_tuples(pre, p, i, txn, qq, t, q2));
    assert forall|q: int| 0 <= q < pre.pages@.len() implies #[trigger] page_count_at(post, q)
        >= page_count_at(pre, q) by {
        assert(page_tuples_at(post, q) == updated_page_tuples(pre, p, i, txn, qq, t, q));
    }
}

/// Whether `rid` names a slot of the chain starting at `first`.
pub open spec fn rid_valid(store: PageStore, first: u32, rid: Rid) -> bool {
    &&& first <= rid.page_id.0 < store.pages@.len()
    &&& rid.slot_index < page_count_at(store, rid.page_id.0 as int)
}

impl TableHeap {
    pub fn new(first_page_id: PageID, txn_id: TransactionID) -> (r: Self)
        ensures
            r.first_page_id == first_page_id,
            r.txn_id == txn_id,
    {
        TableHeap { first_page_id, txn_id }
    }

    /// Insert `row` into the first page of the chain with room, appending a
    /// fresh page (and linking the old tail to it) when none has; the new
    /// tuple is stamped `xmin = txn_id`, `xmax = INVALID_TRANSACTION_ID`.
    /// Fails, leaving the store untouched, exactly when the tuple cannot fit
    /// even on an empty page.
    #[verifier::rlimit(100)]
    pub fn insert(&self, store: &mut PageStore, row: &[u8]) -> (r: Result<(), HeapError>)
        requires
            old(store).wf(),
            self.first_page_id.0 < old(store).pages@.len(),
            old(store).pages@.len() < 0xffff_fffe,
        ensures
            final(store).wf(),
            self.first_page_id.0 < final(store).pages@.len(),
            match r {
                Ok(()) => {
                    let t = heap_tuple(*self, row@);
                    let first = self.first_page_id.0 as int;
                    let n0 = old(store).pages@.len() as int;
                    &&& insert_fits(row@)
                    &&& ({
                        ||| (final(store).pages@.len() == n0 && exists|p: int|
                            #![auto]
                            first <= p < n0 && free_space_of(old(store).pages@[p].data@) >= t.len()
                                + LINE_POINTER_SIZE && (forall|q: int|
                                first <= q < p ==> free_space_of(#[trigger] old(
                                    store,
                                ).pages@[q].data@) < t.len() + LINE_POINTER_SIZE)
                                && page_tuples_at(*final(store), p) == page_tuples_at(
                                *old(store),
                                p,
                            ).push(t) && (forall|q: int|
                                0 <= q < n0 && q != p ==> final(store).pages@[q] == old(
                                    store,
                                ).pages@[q]) && page_id_of(final(store).pages@[p].data@)
                                == page_id_of(old(store).pages@[p].data@) && lsn_of(
                                final(store).pages@[p].data@,
                            ) == lsn_of(old(store).pages@[p].data@) && next_page_id_of(
                                final(store).pages@[p].data@,
                            ) == next_page_id_of(old(store).pages@[p].data@))
                        ||| (final(store).pages@.len() == n0 + 1 && (forall|q: int|
                            first <= q < n0 ==> free_space_of(#[trigger] old(
                                store,
                            ).pages@[q].data@) < t.len() + LINE_POINTER_SIZE) && (forall|q: int|
                            0 <= q < n0 - 1 ==> final(store).pages@[q] == old(store).pages@[q])
                            && page_tuples_at(*final(store), n0 - 1) == page_tuples_at(
                            *old(store),
                            n0 - 1,
                        ) && next_page_id_of(final(store).pages@[n0 - 1].data@) == n0
                            && page_tuples_at(*final(store), n0) == Seq::<Seq<u8>>::empty().push(t))
                    })
                },
                Err(e) => {
                    &&& e == HeapError::TupleTooLarge
                    &&& !insert_fits(row@)
                    &&& *final(store) == *old(store)
                },
            },
    {
        if row.len() > PAGE_SIZE - HEADER_SIZE - LINE_POINTER_SIZE - TUPLE_HEADER_SIZE {
            return Err(HeapError::TupleTooLarge);
        }
        let t: Vec<u8> = make_tuple_bytes(self.txn_id.0, INVALID_TRANSACTION_ID, row);
        let needed: usize = t.len() + LINE_POINTER_SIZE;
        let first: usize = self.first_page_id.0 as usize;
        let n0: usize = store.pages.len();
        let mut p: usize = first;
        while p < n0 && store.pages[p].free_space() < needed
            invariant
                store.wf(),
                first <= p <= n0,
                n0 == store.pages@.len(),
                forall|q: int|
                    first <= q < p ==> free_space_of(#[trigger] store.pages@[q].data@) < needed,
            decreases n0 - p,
        {
            p = p + 1;
        }
        if p < n0 {
            let ghost pre = *store;
            let mut page: TablePage = store.pages.remove(p);
            let res = page.insert(t.as_slice());
            proof {
                assert(res is Ok);
            }
            store.pages.insert(p, page);
            proof {
                assert(store.pages@ =~= pre.pages@.update(p as int, store.pages@[p as int]));
                assert(page_tuples_at(*store, p as int) == page_tuples_at(pre, p as int).push(t@));
                assert(store.wf());
            }
            Ok(())
        } else {
            let ghost pre = *store;
            let new_id: u32 = n0 as u32;
            let mut page: TablePage = TablePage::new(PageID(new_id));
            let res = page.insert(t.as_slice());
            proof {
                assert(res is Ok);
            }
            let mut tail: TablePage = store.pages.remove(n0 - 1);
            tail.set_next_page_id(PageID(new_id));
            store.pages.insert(n0 - 1, tail);
            store.pages.push(page);
            proof {
                assert(store.pages@.len() == n0 + 1);
                assert(forall|q: int|
                    0 <= q < n0 - 1 ==> store.pages@[q] == pre.pages@[q]);
                assert(page_tuples_at(*store, n0 - 1 as int) == page_tuples_at(pre, n0 - 1 as int));
                assert(page_tuples_at(*store, n0 as int) =~= Seq::<Seq<u8>>::empty().push(t@));
                assert(store.wf());
            }
            Ok(())
        }
    }

    /// Logically delete the tuple named by `rid`: overwrite its `xmax` with
    /// this heap's transaction id. The slot, its payload and every other
    /// page stay untouched. Fails, leaving the store unchanged, exactly when
    /// `rid` names no slot of the chain.
    #[verifier::rlimit(100)]
    pub fn delete(&self, store: &mut PageStore, rid: Rid) -> (r: Result<(), HeapError>)
        requires
            old(store).wf(),
        ensures
            final(store).wf(),
            final(store).pages@.len() == old(store).pages@.len(),
            match r {
                Ok(()) => {
                    let p = rid.page_id.0 as int;
                    let i = rid.slot_index as int;
                    &&& rid_valid(*old(store), self.first_page_id.0, rid)
                    &&& page_tuples_at(*final(store), p) == page_tuples_at(*old(store), p).update(
                        i,
                        with_xmax(page_tuples_at(*old(store), p)[i], self.txn_id.0),
                    )
                    &&& crate::tuple::xmax_of(page_tuples_at(*final(store), p)[i]) == self.txn_id.0
                    &&& crate::tuple::xmin_of(page_tuples_at(*final(store), p)[i])
                        == crate::tuple::xmin_of(page_tuples_at(*old(store), p)[i])
                    &&& forall|q: int|
                        0 <= q < old(store).pages@.len() && q != p ==> final(store).pages@[q] == old(
                            store,
                        ).pages@[q]
                    &&& forall|q: int|
                        0 <= q < old(store).pages@.len() ==> #[trigger] page_count_at(
                            *final(store),
                            q,
                        ) == page_count_at(*old(store), q)
                    &&& free_space_of(final(store).pages@[p].data@) == free_space_of(
                        old(store).pages@[p].data@,
                    )
                },
                Err(e) => {
                    &&& e == HeapError::InvalidRid
                    &&& !rid_valid(*old(store), self.first_page_id.0, rid)
                    &&& *final(store) == *old(store)
                },
            },
    {
        let p: usize = rid.page_id.0 as usize;
        if rid.page_id.0 < self.first_page_id.0 || p >= store.pages.len() {
            return Err(HeapError::InvalidRid);
        }
        let count: usize = store.pages[p].tuple_count();
        if rid.slot_index as usize >= count {
            return Err(HeapError::InvalidRid);
        }
        let ghost pre = *store;
        let mut page: TablePage = store.pages.remove(p);
        proof {
            assert(page.data@ == pre.pages@[p as int].data@);
            assert(page_tuples_sized(pre.pages@[p as int].data@));
            assert(tuples_of(page.data@)[rid.slot_index as int].len() >= TUPLE_HEADER_SIZE);
            crate::table_page::lemma_slot_range(page.data@, rid.slot_index as int);
            assert(crate::table_page::line_pointer_size_of(page.data@, rid.slot_index as int)
                >= TUPLE_HEADER_SIZE);
        }
        page.delete(rid.slot_index, self.txn_id);
        store.pages.insert(p, page);
        proof {
            assert(store.pages@ =~= pre.pages@.update(p as int, store.pages@[p as int]));
            let t0 = page_tuples_at(pre, p as int)[rid.slot_index as int];
            let t1 = page_tuples_at(*store, p as int)[rid.slot_index as int];
            assert(t1 == with_xmax(t0, self.txn_id.0));
            lemma_with_xmax_fields(t0, self.txn_id.0);
            assert forall|q: int| 0 <= q < store.pages@.len() implies #[trigger] page_count_at(
                *store,
                q,
            ) == page_count_at(pre, q) by {}
            assert forall|q: int| 0 <= q < store.pages@.len() implies page_tuples_sized(
                #[trigger] store.pages@[q].data@,
            ) by {
                if q == p as int {
                    assert forall|i: int|
                        0 <= i < tuples_of(store.pages@[q].data@).len() implies #[trigger] tuples_of(
                        store.pages@[q].data@,
                    )[i].len() >= TUPLE_HEADER_SIZE by {
                        assert(tuples_of(pre.pages@[q].data@)[i].len() >= TUPLE_HEADER_SIZE);
                    }
                }
            }
            assert(store.wf());
        }
        Ok(())
    }

    /// Update the row named by `rid`: logically delete the old version and
    /// insert the new one, preserving MVCC history. The old version keeps
    /// its `xmin` but is stamped `xmax = txn_id`; the new version starts
    /// with `xmin = txn_id` and a live `xmax`, and may land on a different
    /// page. When the new row cannot fit even on an empty page, the logical
    /// delete has still taken effect and the error reports the oversize.
    #[verifier::rlimit(100)]
    pub fn update(&self, store: &mut PageStore, rid: Rid, row: &[u8]) -> (r: Result<(), HeapError>)
        requires
            old(store).wf(),
            self.first_page_id.0 < old(store).pages@.len(),
            old(store).pages@.len() < 0xffff_fffe,
        ensures
            final(store).wf(),
            self.first_page_id.0 < final(store).pages@.len(),
            match r {
                Ok(()) => {
                    let p = rid.page_id.0 as int;
                    let i = rid.slot_index as int;
                    &&& rid_valid(*old(store), self.first_page_id.0, rid)
                    &&& insert_fits(row@)
                    &&& rid_valid(*final(store), self.first_page_id.0, rid)
                    &&& crate::tuple::xmax_of(page_tuples_at(*final(store), p)[i])
                        == self.txn_id.0
                    &&& crate::tuple::xmin_of(page_tuples_at(*final(store), p)[i])
                        == crate::tuple::xmin_of(page_tuples_at(*old(store), p)[i])
                    &&& update_applied(
                        *old(store),
                        *final(store),
                        self.first_page_id.0,
                        p,
                        i,
                        self.txn_id.0,
                        heap_tuple(*self, row@),
                    )
                    &&& exists|q: int|
                        #![auto]
                        self.first_page_id.0 <= q < final(store).pages@.len() && page_tuples_at(
                            *final(store),
                            q,
                        ).len() > 0 && page_tuples_at(*final(store), q).last() == heap_tuple(
                            *self,
                            row@,
                        )
                },
                Err(e) => match e {
                    HeapError::InvalidRid => {
                        &&& !rid_valid(*old(store), self.first_page_id.0, rid)
                        &&& *final(store) == *old(store)
                    },
                    HeapError::TupleTooLarge => {
                        &&& rid_valid(*old(store), self.first_page_id.0, rid)
                        &&& !insert_fits(row@)
                        &&& delete_applied(
                            *old(store),
                            *final(store),
                            rid.page_id.0 as int,
                            rid.slot_index as int,
                            self.txn_id.0,
                        )
                    },
                },
            },
    {
        match self.delete(store, rid) {
            Ok(()) => {},
            Err(e) => {
                return Err(e);
            },
        }
        let ghost mid = *store;
        match self.insert(store, row) {
            Ok(()) => {
                proof {
                    let p = rid.page_id.0 as int;
                    let i = rid.slot_index as int;
                    let t = heap_tuple(*self, row@);
                    let first = self.first_page_id.0 as int;
                    let n0 = mid.pages@.len() as int;
                    lemma_store_counts_nonneg(*old(store));
                    lemma_store_counts_nonneg(mid);
                    lemma_store_counts_nonneg(*store);
                    assert(page_count_at(mid, p) == page_count_at(*old(store), p));
                    if store.pages@.len() == n0 {
                        let q = choose|q: int|
                            #![auto]
                            first <= q < n0 && free_space_of(mid.pages@[q].data@) >= t.len()
                                + LINE_POINTER_SIZE && (forall|q2: int|
                                first <= q2 < q ==> free_space_of(#[trigger] mid.pages@[q2].data@)
                                    < t.len() + LINE_POINTER_SIZE) && page_tuples_at(*store, q)
                                == page_tuples_at(mid, q).push(t) && (forall|q2: int|
                                0 <= q2 < n0 && q2 != q ==> store.pages@[q2] == mid.pages@[q2])
                                && page_id_of(store.pages@[q].data@) == page_id_of(
                                mid.pages@[q].data@,
                            ) && lsn_of(store.pages@[q].data@) == lsn_of(mid.pages@[q].data@)
                                && next_page_id_of(store.pages@[q].data@) == next_page_id_of(
                                mid.pages@[q].data@,
                            );
                        assert(page_tuples_at(*store, q).last() == t);
                        assert(page_tuples_at(*store, q).len() > 0);
                        if q == p {
                            assert(page_tuples_at(*store, p) == page_tuples_at(mid, p).push(t));
                            assert(page_tuples_at(*store, p)[i] == page_tuples_at(mid, p)[i]);
                            assert(page_count_at(*store, p) == page_count_at(mid, p) + 1);
                        } else {
                            assert(store.pages@[p] == mid.pages@[p]);
                            assert(page_count_at(*store, p) == page_count_at(mid, p));
                        }
                        assert(rid_valid(*store, self.first_page_id.0, rid));
                        assert forall|q2: int| 0 <= q2 < store.pages@.len() implies #[trigger]
                        page_tuples_at(*store, q2) == updated_page_tuples(
                            *old(store),
                            p,
                            i,
                            self.txn_id.0,
                            q,
                            t,
                            q2,
                        ) by {
                            if q2 != q {
                                assert(store.pages@[q2] == mid.pages@[q2]);
                            }
                            if q2 != p {
                                assert(mid.pages@[q2] == old(store).pages@[q2]);
                            }
                        }
                        assert(update_applied(
                            *old(store),
                            *store,
                            self.first_page_id.0,
                            p,
                            i,
                            self.txn_id.0,
                            t,
                        ));
                    } else {
                        assert(store.pages@.len() == n0 + 1);
                        assert(page_tuples_at(*store, n0) == Seq::<Seq<u8>>::empty().push(t));
                        assert(page_tuples_at(*store, n0).last() == t);
                        if p < n0 - 1 {
                            assert(store.pages@[p] == mid.pages@[p]);
                        }
                        assert(page_tuples_at(*store, p) == page_tuples_at(mid, p));
                        assert(page_count_at(*store, p) == page_count_at(mid, p));
                        assert(rid_valid(*store, self.first_page_id.0, rid));
                        assert forall|q2: int| 0 <= q2 < store.pages@.len() implies #[trigger]
                        page_tuples_at(*store, q2) == updated_page_tuples(
                            *old(store),
                            p,
                            i,
                            self.txn_id.0,
                            n0,
                            t,
                            q2,
                        ) by {
                            if q2 < n0 {
                                assert(page_tuples_at(*store, q2) == page_tuples_at(mid, q2));
                                if q2 != p {
                                    assert(mid.pages@[q2] == old(store).pages@[q2]);
                                }
                            }
                        }
                        assert(update_applied(
                            *old(store),
                            *store,
                            self.first_page_id.0,
                            p,
                            i,
                            self.txn_id.0,
                            t,
                        ));
                    }
                }
                Ok(())
            },
            Err(e) => {
                return Err(e);
            },
        }
    }

    /// Every tuple of the chain, exactly once, in page order then slot
    /// order, tagged with its row id: entry `k` of the result is the tuple
    /// at scan position `k` (see `scan_page_of` / `scan_slot_of`), and the
    /// total is the sum of the per-page tuple counts.
    #[verifier::rlimit(100)]
    pub fn scan_all(&self, store: &PageStore) -> (r: Vec<Tuple>)
        requires
            store.wf(),
            self.first_page_id.0 < store.pages@.len(),
        ensures
            r@.len() == sum_counts(*store, self.first_page_id.0 as int, store.pages@.len() as int),
            forall|k: int|
                #![trigger r@[k]]
                0 <= k < r@.len() ==> {
                    let p = scan_page_of(*store, self.first_page_id.0 as int, k);
                    let i = scan_slot_of(*store, self.first_page_id.0 as int, k);
                    &&& self.first_page_id.0 <= p < store.pages@.len()
                    &&& 0 <= i < page_count_at(*store, p)
                    &&& r@[k].rid == Some(
                        Rid { page_id: PageID(p as u32), slot_index: i as u32 },
                    )
                    &&& r@[k].data@ == page_tuples_at(*store, p)[i]
                },
    {
        let first: usize = self.first_page_id.0 as usize;
        let n: usize = store.pages.len();
        let mut r: Vec<Tuple> = Vec::new();
        let mut p: usize = first;
        while p < n
            invariant
                store.wf(),
                first == self.first_page_id.0,
                first <= p <= n,
                n == store.pages@.len(),
                r@.len() == sum_counts(*store, first as int, p as int),
                forall|k: int|
                    #![trigger r@[k]]
                    0 <= k < r@.len() ==> {
                        let q = scan_page_of(*store, first as int, k);
                        let j = scan_slot_of(*store, first as int, k);
                        &&& first <= q < n
                        &&& 0 <= j < page_count_at(*store, q)
                        &&& r@[k].rid == Some(
                            Rid { page_id: PageID(q as u32), slot_index: j as u32 },
                        )
                        &&& r@[k].data@ == page_tuples_at(*store, q)[j]
                    },
            decreases n - p,
        {
            let count: usize = store.pages[p].tuple_count();
            let mut i: usize = 0;
            while i < count
                invariant
                    store.wf(),
                    first == self.first_page_id.0,
                    first <= p < n,
                    n == store.pages@.len(),
                    count == page_count_at(*store, p as int),
                    i <= count,
                    r@.len() == sum_counts(*store, first as int, p as int) + i,
                    forall|k: int|
                        #![trigger r@[k]]
                        0 <= k < r@.len() ==> {
                            let q = scan_page_of(*store, first as int, k);
                            let j = scan_slot_of(*store, first as int, k);
                            &&& first <= q < n
                            &&& 0 <= j < page_count_at(*store, q)
                            &&& r@[k].rid == Some(
                                Rid { page_id: PageID(q as u32), slot_index: j as u32 },
                            )
                            &&& r@[k].data@ == page_tuples_at(*store, q)[j]
                        },
                decreases count - i,
            {
                proof {
                    lemma_scan_position(*store, first as int, p as int, i as int);
                }
                let data: Vec<u8> = store.pages[p].get_tuple(i);
                let rid = Rid { page_id: PageID(p as u32), slot_index: i as u32 };
                r.push(Tuple { rid: Some(rid), data });
                i = i + 1;
            }
            proof {
                lemma_sum_counts_snoc(*store, first as int, p as int);
            }
            p = p + 1;
        }
        r
    }
}

/// The page holding scan position `k` of the chain that starts at page `p`.
pub open spec fn scan_page_of(store: PageStore, p: int, k: int) -> int
    decreases store.pages@.len() - p,
{
    if p >= store.pages@.len() {
        p
    } else if k < page_count_at(store, p) {
        p
    } else {
        scan_page_of(store, p + 1, k - page_count_at(store, p))
    }
}

/// The slot holding scan position `k` of the chain that starts at page `p`.
pub open spec fn scan_slot_of(store: PageStore, p: int, k: int) -> int
    decreases store.pages@.len() - p,
{
    if p >= store.pages@.len() {
        k
    } else if k < page_count_at(store, p) {
        k
    } else {
        scan_slot_of(store, p + 1, k - page_count_at(store, p))
    }
}

/// Scan positions are in page order then slot order: slot `i` of page `p`
/// sits at flat position `sum_counts(first..p) + i`, so every tuple of the
/// chain is reached exactly once.
pub proof fn lemma_scan_position(store: PageStore, first: int, p: int, i: int)
    requires
        store.wf(),
        0 <= first <= p < store.pages@.len(),
        0 <= i < page_count_at(store, p),
    ensures
        scan_page_of(store, first, sum_counts(store, first, p) + i) == p,
        scan_slot_of(store, first, sum_counts(store, first, p) + i) == i,
    decreases p - first,
{
    lemma_store_counts_nonneg(store);
    if p == first {
    } else {
        lemma_sum_counts_nonneg(store, first + 1, p);
        assert(sum_counts(store, first, p) == page_count_at(store, first) + sum_counts(
            store,
            first + 1,
            p,
        ));
        lemma_scan_position(store, first + 1, p, i);
    }
}

/// MVCC stamping on insertion: the tuple a heap writes for a row carries
/// the heap's transaction as `xmin` and the live sentinel as `xmax`, with
/// the row bytes unchanged behind them.
pub proof fn lemma_heap_tuple_stamped(h: TableHeap, row: Seq<u8>)
    ensures
        crate::tuple::xmin_of(heap_tuple(h, row)) == h.txn_id.0,
        crate::tuple::xmax_of(heap_tuple(h, row)) == INVALID_TRANSACTION_ID,
        crate::tuple::row_of(heap_tuple(h, row)) == row,
        heap_tuple(h, row).len() == row.len() + TUPLE_HEADER_SIZE,
{
    crate::tuple::lemma_tuple_bytes_fields(h.txn_id.0, INVALID_TRANSACTION_ID, row);
}

/// Replacing `xmax` changes that field and only that field of a tuple image.
pub proof fn lemma_with_xmax_fields(t: Seq<u8>, txn: u32)
    requires
        t.len() >= TUPLE_HEADER_SIZE,
    ensures
        with_xmax(t, txn).len() == t.len(),
        crate::tuple::xmax_of(with_xmax(t, txn)) == txn,
        crate::tuple::xmin_of(with_xmax(t, txn)) == crate::tuple::xmin_of(t),
        crate::tuple::row_of(with_xmax(t, txn)) == crate::tuple::row_of(t),
{
    vstd::bytes::lemma_auto_spec_u32_to_from_le_bytes();
    let w = with_xmax(t, txn);
    assert(w.subrange(4, 8) =~= vstd::bytes::spec_u32_to_le_bytes(txn));
    assert(w.subrange(0, 4) =~= t.subrange(0, 4));
    assert(crate::tuple::row_of(w) =~= crate::tuple::row_of(t));
}

} // verus!
