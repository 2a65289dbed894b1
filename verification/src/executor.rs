//! Pull-based executors: the runtime twins of the plan nodes.
//!
//! `init()` is called once before any `next()`; `next()` returns one output
//! row per call and `None` at end of stream. The sequential scan drives a
//! cursor over the page chain; the filter pulls from its scan child and
//! keeps the rows whose condition holds; the delete executor pulls rows,
//! extracts each row id and logically deletes it through the table heap,
//! yielding an empty sentinel row per deletion and counting it.
//!
//! A mutation's child is a sequential scan, possibly under one filter —
//! exactly the shapes the planner builds — so a scanned row always carries
//! its row id.

use vstd::prelude::*;

verus! {

use crate::binder::BoundAssignmentAST;
use crate::binder::BoundSelectElementAST;
use crate::binder::encode_row;
use crate::binder::eval_values;
use crate::binder::lemma_eval_values_index;
use crate::binder::apply_assignments;
use crate::binder::eval_elements;
use crate::binder::lemma_eval_elements_some_prefix;
use crate::binder::lemma_row_values_of_encoded;
use crate::binder::value_as_column;
use crate::binder::row_values;
use crate::binder::spec_eval;
use crate::catalog::Value;
use crate::heap::HeapError;
use crate::common::PageID;
use crate::common::Rid;
use crate::common::TransactionID;
use crate::heap::PageStore;
use crate::heap::TableHeap;
use crate::heap::delete_applied;
use crate::heap::update_applied;
use crate::heap::heap_tuple;
use crate::heap::insert_fits;
use crate::heap::lemma_scan_position;
use crate::heap::lemma_store_counts_nonneg;
use crate::heap::lemma_sum_counts_nonneg;
use crate::heap::lemma_sum_counts_snoc;
use crate::heap::lemma_sum_counts_split;
use crate::heap::page_count_at;
use crate::heap::page_tuples_at;
use crate::heap::scan_page_of;
use crate::heap::scan_slot_of;
use crate::heap::sum_counts;
use crate::plan::DeletePlan;
use crate::plan::InsertPlan;
use crate::plan::ProjectPlan;
use crate::plan::UpdatePlan;
use crate::plan::FilterPlan;
use crate::plan::SeqScanPlan;
use crate::tuple::TUPLE_HEADER_SIZE;
use crate::tuple::Tuple;
use crate::tuple::make_tuple_bytes;

#[derive(Clone, Copy, Debug, PartialEq, Eq, Structural)]
pub enum ExecError {
    /// `next()` was called before `init()` built the table heap.
    NotInitialized,
    /// A mutation received a child row without a row id.
    MissingRid,
    /// A condition did not evaluate to a boolean on some row.
    TypeError,
    /// A row id did not name a slot of the table.
    InvalidRid,
    /// The row to insert cannot fit even on an empty page.
    TupleTooLarge,
}

/// The execution context a statement runs under: the identity of the
/// current transaction.
#[derive(Clone, Copy, Debug, PartialEq, Eq, Structural)]
pub struct ExecutorContext {
    pub transaction_id: TransactionID,
}

/// Cursor-driven scan over the page chain, in page order then slot order.
pub struct SeqScanExecutor {
    pub plan: SeqScanPlan,
    pub cursor_page: usize,
    pub cursor_slot: usize,
}

impl SeqScanExecutor {
    /// The cursor points at a scan position of the chain (or one past it).
    pub open spec fn cursor_wf(&self, store: PageStore) -> bool {
        &&& self.plan.first_page_id.0 < store.pages@.len()
        &&& self.plan.first_page_id.0 <= self.cursor_page <= store.pages@.len()
        &&& (self.cursor_page < store.pages@.len() ==> self.cursor_slot <= page_count_at(
            store,
            self.cursor_page as int,
        ))
        &&& (self.cursor_page == store.pages@.len() ==> self.cursor_slot == 0)
    }

    /// Flat scan position of the cursor.
    pub open spec fn pos(&self, store: PageStore) -> int {
        sum_counts(store, self.plan.first_page_id.0 as int, self.cursor_page as int)
            + self.cursor_slot
    }

    /// Total number of tuples the scan will yield.
    pub open spec fn total(&self, store: PageStore) -> int {
        sum_counts(store, self.plan.first_page_id.0 as int, store.pages@.len() as int)
    }

    pub fn new(plan: SeqScanPlan) -> (r: Self)
        ensures
            r.plan == plan,
            r.cursor_page == plan.first_page_id.0,
            r.cursor_slot == 0,
    {
        let first: u32 = plan.first_page_id.0;
        SeqScanExecutor { plan, cursor_page: first as usize, cursor_slot: 0 }
    }

    /// Rewind the cursor to the head of the chain.
    pub fn init(&mut self)
        ensures
            final(self).plan == old(self).plan,
            final(self).cursor_page == old(self).plan.first_page_id.0,
            final(self).cursor_slot == 0,
    {
        self.cursor_page = self.plan.first_page_id.0 as usize;
        self.cursor_slot = 0;
    }

    /// Yield the tuple at the cursor's scan position, with its row id, and
    /// advance; `None` exactly when the scan is exhausted.
    #[verifier::rlimit(50)]
    pub fn next(&mut self, store: &PageStore) -> (r: Option<Tuple>)
        requires
            store.wf(),
            old(self).cursor_wf(*store),
        ensures
            final(self).cursor_wf(*store),
            final(self).plan == old(self).plan,
            match r {
                Some(t) => {
                    let first = old(self).plan.first_page_id.0 as int;
                    let p = scan_page_of(*store, first, old(self).pos(*store));
                    let i = scan_slot_of(*store, first, old(self).pos(*store));
                    &&& 0 <= old(self).pos(*store) < old(self).total(*store)
                    &&& final(self).pos(*store) == old(self).pos(*store) + 1
                    &&& first <= p < store.pages@.len()
                    &&& 0 <= i < page_count_at(*store, p)
                    &&& t.rid == Some(Rid { page_id: PageID(p as u32), slot_index: i as u32 })
                    &&& t.data@ == page_tuples_at(*store, p)[i]
                    &&& t.data@.len() >= TUPLE_HEADER_SIZE
                },
                None => {
                    &&& old(self).pos(*store) == old(self).total(*store)
                    &&& final(self).pos(*store) == old(self).total(*store)
                },
            },
    {
        let n: usize = store.pages.len();
        let ghost first = self.plan.first_page_id.0 as int;
        while self.cursor_page < n && self.cursor_slot >= store.pages[self.cursor_page].tuple_count(
        )
            invariant
                store.wf(),
                n == store.pages@.len(),
                self.plan == old(self).plan,
                first == self.plan.first_page_id.0 as int,
                self.cursor_wf(*store),
                self.pos(*store) == old(self).pos(*store),
            decreases n - self.cursor_page,
        {
            proof {
                lemma_sum_counts_snoc(*store, first, self.cursor_page as int);
            }
            self.cursor_page = self.cursor_page + 1;
            self.cursor_slot = 0;
        }
        proof {
            lemma_store_counts_nonneg(*store);
            lemma_sum_counts_nonneg(*store, first, self.cursor_page as int);
        }
        if self.cursor_page >= n {
            return None;
        }
        proof {
            lemma_scan_position(*store, first, self.cursor_page as int, self.cursor_slot as int);
            lemma_sum_counts_split(*store, first, self.cursor_page as int + 1, n as int);
            lemma_sum_counts_snoc(*store, first, self.cursor_page as int);
            lemma_sum_counts_nonneg(*store, self.cursor_page as int + 1, n as int);
        }
        let data: Vec<u8> = store.pages[self.cursor_page].get_tuple(self.cursor_slot);
        let rid = Rid {
            page_id: PageID(self.cursor_page as u32),
            slot_index: self.cursor_slot as u32,
        };
        self.cursor_slot = self.cursor_slot + 1;
        Some(Tuple { rid: Some(rid), data })
    }
}

/// Filter over a sequential scan: keeps the rows whose condition holds.
pub struct FilterExecutor {
    pub plan: FilterPlan,
    pub child: SeqScanExecutor,
}

impl FilterExecutor {
    pub fn new(plan: FilterPlan, child: SeqScanExecutor) -> (r: Self)
        ensures
            r.plan == plan,
            r.child == child,
    {
        FilterExecutor { plan, child }
    }

    pub fn init(&mut self)
        ensures
            final(self).plan == old(self).plan,
            final(self).child.plan == old(self).child.plan,
            final(self).child.cursor_page == old(self).child.plan.first_page_id.0,
            final(self).child.cursor_slot == 0,
    {
        self.child.init();
    }

    /// Pull from the scan until a row satisfies the condition: the yielded
    /// row is the one at the first position at or after the old cursor whose
    /// condition holds, every skipped position having evaluated to false.
    /// `None` comes exactly when every remaining position evaluates to
    /// false; a type error comes exactly when the first not-false position
    /// fails to evaluate to a boolean.
    #[verifier::rlimit(100)]
    pub fn next(&mut self, store: &PageStore) -> (r: Result<Option<Tuple>, ExecError>)
        requires
            store.wf(),
            old(self).child.cursor_wf(*store),
        ensures
            final(self).child.cursor_wf(*store),
            final(self).plan == old(self).plan,
            final(self).child.plan == old(self).child.plan,
            old(self).child.pos(*store) <= final(self).child.pos(*store) <= old(
                self,
            ).child.total(*store),
            ({
                let first = old(self).child.plan.first_page_id.0 as int;
                let k0 = old(self).child.pos(*store);
                let k1 = final(self).child.pos(*store);
                let total = old(self).child.total(*store);
                match r {
                    Ok(Some(t)) => {
                        &&& k0 <= k1 - 1 < total
                        &&& forall|j: int|
                            k0 <= j < k1 - 1 ==> spec_eval(
                                old(self).plan.condition,
                                row_values(#[trigger] tuple_at_pos(*store, first, j)),
                            ) == Some(Value::Boolean(false))
                        &&& spec_eval(
                            old(self).plan.condition,
                            row_values(tuple_at_pos(*store, first, k1 - 1)),
                        ) == Some(Value::Boolean(true))
                        &&& pos_in_chain(*store, first, k1 - 1)
                        &&& t.rid == Some(rid_at_pos(*store, first, k1 - 1))
                        &&& t.data@ == tuple_at_pos(*store, first, k1 - 1)
                        &&& t.data@.len() >= TUPLE_HEADER_SIZE
                    },
                    Ok(None) => {
                        &&& k1 == total
                        &&& forall|j: int|
                            k0 <= j < total ==> spec_eval(
                                old(self).plan.condition,
                                row_values(#[trigger] tuple_at_pos(*store, first, j)),
                            ) == Some(Value::Boolean(false))
                    },
                    Err(e) => {
                        &&& e == ExecError::TypeError
                        &&& k0 <= k1 - 1 < total
                        &&& forall|j: int|
                            k0 <= j < k1 - 1 ==> spec_eval(
                                old(self).plan.condition,
                                row_values(#[trigger] tuple_at_pos(*store, first, j)),
                            ) == Some(Value::Boolean(false))
                        &&& (match spec_eval(
                            old(self).plan.condition,
                            row_values(tuple_at_pos(*store, first, k1 - 1)),
                        ) {
                            Some(Value::Boolean(_)) => false,
                            _ => true,
                        })
                    },
                }
            }),
    {
        let ghost first = self.child.plan.first_page_id.0 as int;
        proof {
            lemma_cursor_pos_bound(self.child, *store);
        }
        loop
            invariant
                store.wf(),
                self.child.cursor_wf(*store),
                self.plan == old(self).plan,
                self.child.plan == old(self).child.plan,
                first == self.child.plan.first_page_id.0 as int,
                old(self).child.pos(*store) <= self.child.pos(*store) <= self.child.total(*store),
                forall|j: int|
                    old(self).child.pos(*store) <= j < self.child.pos(*store) ==> spec_eval(
                        old(self).plan.condition,
                        row_values(#[trigger] tuple_at_pos(*store, first, j)),
                    ) == Some(Value::Boolean(false)),
            decreases self.child.total(*store) - self.child.pos(*store),
        {
            let next_row = self.child.next(store);
            match next_row {
                None => {
                    return Ok(None);
                },
                Some(t) => {
                    let verdict = self.plan.condition.evaluate(&t.data);
                    match verdict {
                        Some(Value::Boolean(true)) => {
                            return Ok(Some(t));
                        },
                        Some(Value::Boolean(false)) => {
                        },
                        _ => {
                            return Err(ExecError::TypeError);
                        },
                    }
                },
            }
        }
    }
}

/// A mutation's child: the scan of the base table, under at most one filter.
pub enum Executor {
    SeqScan(SeqScanExecutor),
    Filter(FilterExecutor),
}

/// The head of the chain the child executor scans.
pub open spec fn child_first_page(ex: Executor) -> u32 {
    match ex {
        Executor::SeqScan(e) => e.plan.first_page_id.0,
        Executor::Filter(f) => f.child.plan.first_page_id.0,
    }
}

/// The tuple image at scan position `k` of the chain starting at `first`.
pub open spec fn tuple_at_pos(store: PageStore, first: int, k: int) -> Seq<u8> {
    page_tuples_at(store, scan_page_of(store, first, k))[scan_slot_of(store, first, k)]
}

/// The row id of scan position `k` of the chain starting at `first`.
pub open spec fn rid_at_pos(store: PageStore, first: int, k: int) -> Rid {
    Rid {
        page_id: PageID(scan_page_of(store, first, k) as u32),
        slot_index: scan_slot_of(store, first, k) as u32,
    }
}

/// Whether scan position `k` names a real slot of the chain.
pub open spec fn pos_in_chain(store: PageStore, first: int, k: int) -> bool {
    &&& first <= scan_page_of(store, first, k) < store.pages@.len()
    &&& 0 <= scan_slot_of(store, first, k) < page_count_at(store, scan_page_of(store, first, k))
}

/// The verdict the executor gives the row at scan position `k`: a bare
/// scan keeps every row, a filter evaluates its condition against it.
pub open spec fn verdict_at(ex: Executor, store: PageStore, k: int) -> Option<Value> {
    match ex {
        Executor::SeqScan(_) => Some(Value::Boolean(true)),
        Executor::Filter(f) => spec_eval(
            f.plan.condition,
            row_values(tuple_at_pos(store, f.child.plan.first_page_id.0 as int, k)),
        ),
    }
}

/// The underlying cursor stands at the head of the chain.
pub open spec fn child_rewound(ex: Executor) -> bool {
    match ex {
        Executor::SeqScan(e) => e.cursor_page == e.plan.first_page_id.0 && e.cursor_slot == 0,
        Executor::Filter(f) => f.child.cursor_page == f.child.plan.first_page_id.0
            && f.child.cursor_slot == 0,
    }
}

/// A rewound executor is well formed against any store holding its chain's
/// first page.
pub proof fn lemma_rewound_wf(ex: Executor, store: PageStore)
    requires
        store.wf(),
        child_rewound(ex),
        child_first_page(ex) < store.pages@.len(),
    ensures
        ex.wf(store),
{
    lemma_store_counts_nonneg(store);
}

/// An executor stays well formed when the store's chain only grows: pages
/// are appended and tuples only added, never removed.
pub proof fn lemma_wf_after_growth(ex: Executor, pre: PageStore, post: PageStore)
    requires
        pre.wf(),
        post.wf(),
        ex.wf(pre),
        pre.pages@.len() <= post.pages@.len(),
        forall|q: int|
            0 <= q < pre.pages@.len() ==> #[trigger] page_count_at(post, q) >= page_count_at(
                pre,
                q,
            ),
    ensures
        ex.wf(post),
{
    lemma_store_counts_nonneg(post);
}

/// A well-formed cursor sits at a position between the start and the end of
/// the scan.
pub proof fn lemma_cursor_pos_bound(e: SeqScanExecutor, store: PageStore)
    requires
        store.wf(),
        e.cursor_wf(store),
    ensures
        0 <= e.pos(store) <= e.total(store),
{
    let first = e.plan.first_page_id.0 as int;
    let n = store.pages@.len() as int;
    lemma_store_counts_nonneg(store);
    lemma_sum_counts_nonneg(store, first, e.cursor_page as int);
    if (e.cursor_page as int) < n {
        lemma_sum_counts_split(store, first, e.cursor_page as int, n);
        lemma_sum_counts_nonneg(store, e.cursor_page as int + 1, n);
        assert(sum_counts(store, e.cursor_page as int, n) == page_count_at(
            store,
            e.cursor_page as int,
        ) + sum_counts(store, e.cursor_page as int + 1, n));
    }
}

impl Executor {
    pub open spec fn wf(&self, store: PageStore) -> bool {
        match self {
            Executor::SeqScan(e) => e.cursor_wf(store),
            Executor::Filter(f) => f.child.cursor_wf(store),
        }
    }

    /// Prepare for the first `next()`: rewind the underlying scan.
    pub fn init(&mut self) -> (r: Result<(), ExecError>)
        ensures
            r is Ok,
            child_first_page(*final(self)) == child_first_page(*old(self)),
            child_rewound(*final(self)),
            match *final(self) {
                Executor::SeqScan(e) => {
                    &&& *old(self) is SeqScan
                    &&& e.cursor_page == e.plan.first_page_id.0
                    &&& e.cursor_slot == 0
                },
                Executor::Filter(f) => {
                    &&& *old(self) is Filter
                    &&& f.child.cursor_page == f.child.plan.first_page_id.0
                    &&& f.child.cursor_slot == 0
                },
            },
    {
        match self {
            Executor::SeqScan(e) => e.init(),
            Executor::Filter(f) => f.init(),
        }
        Ok(())
    }

    /// Scan position of the underlying cursor.
    pub open spec fn pos(&self, store: PageStore) -> int {
        match self {
            Executor::SeqScan(e) => e.pos(store),
            Executor::Filter(f) => f.child.pos(store),
        }
    }

    /// Total number of scan positions of the chain.
    pub open spec fn total(&self, store: PageStore) -> int {
        match self {
            Executor::SeqScan(e) => e.total(store),
            Executor::Filter(f) => f.child.total(store),
        }
    }

    /// Pull the next row: the one at the first position at or after the old
    /// cursor that this executor's verdict keeps, every skipped position
    /// having been rejected; `None` exactly when every remaining position is
    /// rejected, and a type error exactly when the first not-rejected
    /// position fails to evaluate to a boolean.
    pub fn next(&mut self, store: &PageStore) -> (r: Result<Option<Tuple>, ExecError>)
        requires
            store.wf(),
            old(self).wf(*store),
        ensures
            final(self).wf(*store),
            child_first_page(*final(self)) == child_first_page(*old(self)),
            old(self).pos(*store) <= final(self).pos(*store) <= old(self).total(*store),
            final(self).total(*store) == old(self).total(*store),
            ({
                let first = child_first_page(*old(self)) as int;
                let k0 = old(self).pos(*store);
                let k1 = final(self).pos(*store);
                let total = old(self).total(*store);
                match r {
                    Ok(Some(t)) => {
                        &&& k0 <= k1 - 1 < total
                        &&& forall|j: int|
                            k0 <= j < k1 - 1 ==> #[trigger] verdict_at(*old(self), *store, j)
                                == Some(Value::Boolean(false))
                        &&& verdict_at(*old(self), *store, k1 - 1) == Some(Value::Boolean(true))
                        &&& pos_in_chain(*store, first, k1 - 1)
                        &&& t.rid == Some(rid_at_pos(*store, first, k1 - 1))
                        &&& t.data@ == tuple_at_pos(*store, first, k1 - 1)
                        &&& t.data@.len() >= TUPLE_HEADER_SIZE
                    },
                    Ok(None) => {
                        &&& k1 == total
                        &&& forall|j: int|
                            k0 <= j < total ==> #[trigger] verdict_at(*old(self), *store, j)
                                == Some(Value::Boolean(false))
                    },
                    Err(e) => {
                        &&& e == ExecError::TypeError
                        &&& k0 <= k1 - 1 < total
                        &&& forall|j: int|
                            k0 <= j < k1 - 1 ==> #[trigger] verdict_at(*old(self), *store, j)
                                == Some(Value::Boolean(false))
                        &&& (match verdict_at(*old(self), *store, k1 - 1) {
                            Some(Value::Boolean(_)) => false,
                            _ => true,
                        })
                    },
                }
            }),
    {
        match self {
            Executor::SeqScan(e) => {
                proof {
                    lemma_store_counts_nonneg(*store);
                }
                match e.next(store) {
                    Some(t) => Ok(Some(t)),
                    None => Ok(None),
                }
            },
            Executor::Filter(f) => f.next(store),
        }
    }
}

/// The delete executor: pulls rows from its child, logically deletes each
/// through the table heap under the current transaction, and yields an
/// empty sentinel row per deletion while counting them.
pub struct DeleteExecutor {
    pub plan: DeletePlan,
    pub child: Box<Executor>,
    pub executor_context: ExecutorContext,
    pub table_heap: Option<TableHeap>,
    pub count: usize,
}

impl DeleteExecutor {
    /// The child scans the plan's own table and the heap, once built,
    /// carries the plan's table and the context's transaction.
    pub open spec fn wf(&self, store: PageStore) -> bool {
        &&& self.child.wf(store)
        &&& child_first_page(*self.child) == self.plan.first_page_id.0
        &&& match self.table_heap {
            Some(h) => h.first_page_id == self.plan.first_page_id && h.txn_id
                == self.executor_context.transaction_id,
            None => true,
        }
    }

    pub fn new(plan: DeletePlan, child: Box<Executor>, executor_context: ExecutorContext) -> (r:
        Self)
        ensures
            r.plan == plan,
            r.child == child,
            r.executor_context == executor_context,
            r.table_heap is None,
            r.count == 0,
    {
        DeleteExecutor { plan, child, executor_context, table_heap: None, count: 0 }
    }

    /// Initialize the child and build the table heap on the plan's table
    /// under the context's current transaction.
    pub fn init(&mut self) -> (r: Result<(), ExecError>)
        ensures
            r is Ok,
            final(self).plan == old(self).plan,
            final(self).executor_context == old(self).executor_context,
            final(self).count == old(self).count,
            child_first_page(*final(self).child) == child_first_page(*old(self).child),
            child_rewound(*final(self).child),
            final(self).table_heap == Some(
                TableHeap {
                    first_page_id: old(self).plan.first_page_id,
                    txn_id: old(self).executor_context.transaction_id,
                },
            ),
    {
        let res = self.child.init();
        match res {
            Ok(()) => {},
            Err(e) => {
                return Err(e);
            },
        }
        let txn_id: TransactionID = self.executor_context.transaction_id;
        self.table_heap = Some(TableHeap::new(self.plan.first_page_id, txn_id));
        Ok(())
    }

    /// Pull one row from the child and logically delete it: exactly one
    /// tuple of the store — the one at the first scan position the child
    /// keeps — gets `xmax = transaction_id`, the count rises by one, and an
    /// empty sentinel row is yielded. `None` comes exactly at end of the
    /// child stream, and an error exactly when the heap was never built or
    /// a condition failed to evaluate; either way the store and the count
    /// are untouched.
    pub fn next(&mut self, store: &mut PageStore) -> (r: Result<Option<Tuple>, ExecError>)
        requires
            old(store).wf(),
            old(self).wf(*old(store)),
            old(self).count < usize::MAX,
        ensures
            final(store).wf(),
            final(store).pages@.len() == old(store).pages@.len(),
            final(self).wf(*final(store)),
            final(self).plan == old(self).plan,
            final(self).executor_context == old(self).executor_context,
            final(self).table_heap == old(self).table_heap,
            ({
                let first = old(self).plan.first_page_id.0 as int;
                let txn = old(self).executor_context.transaction_id.0;
                let k0 = old(self).child.pos(*old(store));
                let k1 = final(self).child.pos(*old(store));
                let total = old(self).child.total(*old(store));
                &&& k0 <= k1 <= total
                &&& match r {
                    Ok(Some(t)) => {
                        &&& old(self).table_heap is Some
                        &&& t.rid is None
                        &&& t.data@.len() == 0
                        &&& final(self).count == old(self).count + 1
                        &&& k0 <= k1 - 1 < total
                        &&& forall|j: int|
                            k0 <= j < k1 - 1 ==> #[trigger] verdict_at(
                                *old(self).child,
                                *old(store),
                                j,
                            ) == Some(Value::Boolean(false))
                        &&& verdict_at(*old(self).child, *old(store), k1 - 1) == Some(
                            Value::Boolean(true),
                        )
                        &&& pos_in_chain(*old(store), first, k1 - 1)
                        &&& delete_applied(
                            *old(store),
                            *final(store),
                            scan_page_of(*old(store), first, k1 - 1),
                            scan_slot_of(*old(store), first, k1 - 1),
                            txn,
                        )
                    },
                    Ok(None) => {
                        &&& *final(store) == *old(store)
                        &&& final(self).count == old(self).count
                        &&& k1 == total
                        &&& forall|j: int|
                            k0 <= j < total ==> #[trigger] verdict_at(
                                *old(self).child,
                                *old(store),
                                j,
                            ) == Some(Value::Boolean(false))
                    },
                    Err(e) => {
                        &&& *final(store) == *old(store)
                        &&& final(self).count == old(self).count
                        &&& k0 <= k1 - 1 < total
                        &&& forall|j: int|
                            k0 <= j < k1 - 1 ==> #[trigger] verdict_at(
                                *old(self).child,
                                *old(store),
                                j,
                            ) == Some(Value::Boolean(false))
                        &&& ({
                            ||| (e == ExecError::NotInitialized && old(self).table_heap is None
                                && verdict_at(*old(self).child, *old(store), k1 - 1) == Some(
                                Value::Boolean(true),
                            ))
                            ||| (e == ExecError::TypeError && (match verdict_at(
                                *old(self).child,
                                *old(store),
                                k1 - 1,
                            ) {
                                Some(Value::Boolean(_)) => false,
                                _ => true,
                            }))
                        })
                    },
                }
            }),
    {
        let next_row = self.child.next(store);
        match next_row {
            Err(e) => Err(e),
            Ok(None) => Ok(None),
            Ok(Some(row)) => {
                match &self.table_heap {
                    None => Err(ExecError::NotInitialized),
                    Some(table_heap) => {
                        let heap: TableHeap = TableHeap {
                            first_page_id: table_heap.first_page_id,
                            txn_id: table_heap.txn_id,
                        };
                        match row.rid {
                            None => Err(ExecError::MissingRid),
                            Some(rid) => {
                                let ghost pre = *store;
                                let ghost first = self.plan.first_page_id.0 as int;
                                let ghost k = self.child.pos(pre) - 1;
                                proof {
                                    lemma_store_counts_nonneg(pre);
                                    assert(crate::table_page::wf_page(pre.pages@[scan_page_of(pre, first, k)].data@));
                                    crate::table_page::lemma_count_lower(
                                        pre.pages@[scan_page_of(pre, first, k)].data@,
                                    );
                                    assert(rid.page_id.0 as int == scan_page_of(pre, first, k));
                                    assert(rid.slot_index as int == scan_slot_of(pre, first, k));
                                }
                                let deleted = heap.delete(store, rid);
                                match deleted {
                                    Ok(()) => {
                                        self.count = self.count + 1;
                                        proof {
                                            assert(delete_applied(
                                                pre,
                                                *store,
                                                rid.page_id.0 as int,
                                                rid.slot_index as int,
                                                self.executor_context.transaction_id.0,
                                            ));
                                        }
                                        Ok(Some(Tuple { rid: None, data: Vec::new() }))
                                    },
                                    Err(_) => Err(ExecError::InvalidRid),
                                }
                            },
                        }
                    },
                }
            },
        }
    }
}



/// Decode the integer columns of a tuple image.
fn decode_row(data: &Vec<u8>) -> (r: Vec<u32>)
    requires
        data@.len() >= TUPLE_HEADER_SIZE,
    ensures
        r@ == row_values(data@),
{
    let total: usize = data.len();
    let arity: usize = (total - TUPLE_HEADER_SIZE) / 4;
    let mut r: Vec<u32> = Vec::new();
    let mut i: usize = 0;
    while i < arity
        invariant
            total == data@.len(),
            data@.len() >= TUPLE_HEADER_SIZE,
            arity == row_values(data@).len(),
            i <= arity,
            r@ == row_values(data@).subrange(0, i as int),
        decreases arity - i,
    {
        proof {
            vstd::arithmetic::div_mod::lemma_fundamental_div_mod(
                data@.len() - TUPLE_HEADER_SIZE,
                4,
            );
            assert(4 * (i as int) + 4 <= 4 * (arity as int)) by (nonlinear_arith)
                requires
                    (i as int) < arity as int,
            ;
        }
        let v: u32 = crate::codec::get_u32(data, TUPLE_HEADER_SIZE + 4 * i);
        r.push(v);
        proof {
            assert(row_values(data@).subrange(0, i as int).push(row_values(data@)[i as int])
                =~= row_values(data@).subrange(0, i + 1));
        }
        i = i + 1;
    }
    proof {
        assert(row_values(data@).subrange(0, arity as int) =~= row_values(data@));
    }
    r
}

/// Encode integer columns as a row image.
fn encode_row_bytes(vals: &Vec<u32>) -> (r: Vec<u8>)
    ensures
        r@ == encode_row(vals@),
{
    let n: usize = vals.len();
    let mut r: Vec<u8> = Vec::new();
    let mut i: usize = 0;
    proof {
        assert(vals@.subrange(0, 0) =~= Seq::<u32>::empty());
    }
    while i < n
        invariant
            n == vals@.len(),
            i <= n,
            r@ == encode_row(vals@.subrange(0, i as int)),
        decreases n - i,
    {
        let mut b: Vec<u8> = vstd::bytes::u32_to_le_bytes(vals[i]);
        r.append(&mut b);
        proof {
            let sub1 = vals@.subrange(0, i + 1);
            assert(sub1.drop_last() =~= vals@.subrange(0, i as int));
            assert(sub1.last() == vals@[i as int]);
        }
        i = i + 1;
    }
    proof {
        assert(vals@.subrange(0, n as int) =~= vals@);
    }
    r
}

/// Apply an update's assignments to the row of a tuple image; a type error
/// or an out-of-range column is fatal.
fn apply_assignments_to_row(asgs: &Vec<BoundAssignmentAST>, data: &Vec<u8>) -> (r: Result<
    Vec<u32>,
    ExecError,
>)
    requires
        data@.len() >= TUPLE_HEADER_SIZE,
    ensures
        match r {
            Ok(vals) => apply_assignments(asgs@, row_values(data@)) == Some(vals@),
            Err(e) => {
                &&& e == ExecError::TypeError
                &&& apply_assignments(asgs@, row_values(data@)) is None
            },
        },
{
    let ghost row0 = row_values(data@);
    let mut vals: Vec<u32> = decode_row(data);
    let n: usize = asgs.len();
    let mut i: usize = 0;
    proof {
        assert(asgs@.subrange(0, 0) =~= Seq::<BoundAssignmentAST>::empty());
    }
    while i < n
        invariant
            data@.len() >= TUPLE_HEADER_SIZE,
            row0 == row_values(data@),
            n == asgs@.len(),
            i <= n,
            apply_assignments(asgs@.subrange(0, i as int), row0) == Some(vals@),
            vals@.len() == row0.len(),
        decreases n - i,
    {
        let ghost sub1 = asgs@.subrange(0, i + 1);
        proof {
            assert(sub1.drop_last() =~= asgs@.subrange(0, i as int));
            assert(sub1.last() == asgs@[i as int]);
        }
        let verdict = asgs[i].expression.evaluate(data);
        let idx: usize = asgs[i].column_index;
        match verdict {
            Some(Value::Int(v)) => {
                if idx < vals.len() {
                    vals.set(idx, v);
                    i = i + 1;
                } else {
                    proof {
                        if apply_assignments(asgs@, row0) is Some {
                            lemma_apply_assignments_some_prefix(asgs@, row0, i + 1);
                        }
                    }
                    return Err(ExecError::TypeError);
                }
            },
            _ => {
                proof {
                    if apply_assignments(asgs@, row0) is Some {
                        lemma_apply_assignments_some_prefix(asgs@, row0, i + 1);
                    }
                }
                return Err(ExecError::TypeError);
            },
        }
    }
    proof {
        assert(asgs@.subrange(0, n as int) =~= asgs@);
    }
    Ok(vals)
}

/// Every prefix of an assignment list that applies as a whole applies too.
proof fn lemma_apply_assignments_some_prefix(asgs: Seq<BoundAssignmentAST>, row: Seq<u32>, k: int)
    requires
        apply_assignments(asgs, row) is Some,
        0 <= k <= asgs.len(),
    ensures
        apply_assignments(asgs.subrange(0, k), row) is Some,
    decreases asgs.len() - k,
{
    if k == asgs.len() {
        assert(asgs.subrange(0, k) =~= asgs);
    } else {
        lemma_apply_assignments_some_prefix(asgs, row, k + 1);
        let s1 = asgs.subrange(0, k + 1);
        assert(s1.drop_last() =~= asgs.subrange(0, k));
    }
}

/// The insert executor: on its first pull it evaluates the plan's value
/// expressions once, writes the row through the table heap under the
/// current transaction, and yields a single one-column row carrying the
/// affected-row count (one); afterwards the stream is over.
pub struct InsertExecutor {
    pub plan: InsertPlan,
    pub executor_context: ExecutorContext,
    pub table_heap: Option<TableHeap>,
    pub done: bool,
}

impl InsertExecutor {
    pub fn new(plan: InsertPlan, executor_context: ExecutorContext) -> (r: Self)
        ensures
            r.plan == plan,
            r.executor_context == executor_context,
            r.table_heap is None,
            !r.done,
    {
        InsertExecutor { plan, executor_context, table_heap: None, done: false }
    }

    /// Build the table heap on the plan's table under the context's current
    /// transaction.
    pub fn init(&mut self) -> (r: Result<(), ExecError>)
        ensures
            r is Ok,
            final(self).plan == old(self).plan,
            final(self).executor_context == old(self).executor_context,
            final(self).done == old(self).done,
            final(self).table_heap == Some(
                TableHeap {
                    first_page_id: old(self).plan.first_page_id,
                    txn_id: old(self).executor_context.transaction_id,
                },
            ),
    {
        let txn_id: TransactionID = self.executor_context.transaction_id;
        self.table_heap = Some(TableHeap::new(self.plan.first_page_id, txn_id));
        Ok(())
    }

    /// First pull: evaluate the values, insert the encoded row stamped with
    /// the current transaction, and yield the count row `[1]`. Later pulls
    /// yield `None` and leave the store untouched.
    #[verifier::rlimit(50)]
    pub fn next(&mut self, store: &mut PageStore) -> (r: Result<Option<Tuple>, ExecError>)
        requires
            old(store).wf(),
            old(self).plan.first_page_id.0 < old(store).pages@.len(),
            old(store).pages@.len() < 0xffff_fffe,
            match old(self).table_heap {
                Some(h) => h.first_page_id == old(self).plan.first_page_id && h.txn_id == old(
                    self,
                ).executor_context.transaction_id,
                None => true,
            },
        ensures
            final(store).wf(),
            final(self).plan == old(self).plan,
            final(self).executor_context == old(self).executor_context,
            final(self).table_heap == old(self).table_heap,
            match r {
                Ok(Some(t)) => {
                    let heap = TableHeap {
                        first_page_id: old(self).plan.first_page_id,
                        txn_id: old(self).executor_context.transaction_id,
                    };
                    &&& !old(self).done
                    &&& final(self).done
                    &&& old(self).table_heap is Some
                    &&& eval_values(old(self).plan.values@) matches Some(vals) && insert_fits(
                        encode_row(vals),
                    ) && (exists|q: int|
                        #![auto]
                        old(self).plan.first_page_id.0 <= q < final(store).pages@.len()
                            && page_tuples_at(*final(store), q).len() > 0 && page_tuples_at(
                            *final(store),
                            q,
                        ).last() == heap_tuple(heap, encode_row(vals)))
                    &&& t.rid is None
                    &&& row_values(t.data@) == seq![1u32]
                },
                Ok(None) => {
                    &&& old(self).done
                    &&& *final(store) == *old(store)
                },
                Err(e) => {
                    &&& *final(store) == *old(store)
                    &&& final(self).done == old(self).done
                    &&& !old(self).done
                    &&& ({
                        ||| (e == ExecError::NotInitialized && old(self).table_heap is None)
                        ||| (e == ExecError::TypeError && old(self).table_heap is Some
                            && eval_values(old(self).plan.values@) is None)
                        ||| (e == ExecError::TupleTooLarge && old(self).table_heap is Some && (
                        match eval_values(old(self).plan.values@) {
                            Some(vals) => !insert_fits(encode_row(vals)),
                            None => false,
                        }))
                    })
                },
            },
    {
        if self.done {
            return Ok(None);
        }
        match &self.table_heap {
            None => Err(ExecError::NotInitialized),
            Some(table_heap) => {
                let heap: TableHeap = TableHeap {
                    first_page_id: table_heap.first_page_id,
                    txn_id: table_heap.txn_id,
                };
                let empty_row: Vec<u8> = make_tuple_bytes(0, 0, &[]);
                let n: usize = self.plan.values.len();
                let mut row: Vec<u8> = Vec::new();
                let ghost mut gvals: Seq<u32> = Seq::empty();
                let mut i: usize = 0;
                while i < n
                    invariant
                        n == self.plan.values@.len(),
                        i <= n,
                        empty_row@.len() == crate::tuple::TUPLE_HEADER_SIZE,
                        eval_values(self.plan.values@.subrange(0, i as int)) == Some(gvals),
                        row@ == encode_row(gvals),
                        self == old(self),
                        *store == *old(store),
                        old(store).wf(),
                        old(self).plan.first_page_id.0 < old(store).pages@.len(),
                        old(store).pages@.len() < 0xffff_fffe,
                        !old(self).done,
                        old(self).table_heap is Some,
                        heap.first_page_id == self.plan.first_page_id,
                        heap.txn_id == self.executor_context.transaction_id,
                    decreases n - i,
                {
                    let verdict = self.plan.values[i].evaluate(&empty_row);
                    match verdict {
                        Some(Value::Int(v)) => {
                            proof {
                                assert(row_values(empty_row@) =~= Seq::<u32>::empty());
                                let sub1 = self.plan.values@.subrange(0, i + 1);
                                assert(sub1.drop_last() =~= self.plan.values@.subrange(
                                    0,
                                    i as int,
                                ));
                                assert(sub1.last() == self.plan.values@[i as int]);
                                let prev = gvals;
                                gvals = prev.push(v);
                                assert(gvals.drop_last() =~= prev);
                                assert(gvals.last() == v);
                            }
                            let mut b: Vec<u8> = vstd::bytes::u32_to_le_bytes(v);
                            row.append(&mut b);
                            proof {
                                assert(encode_row(gvals) == encode_row(gvals.drop_last())
                                    + vstd::bytes::spec_u32_to_le_bytes(gvals.last()));
                                assert(row@ == encode_row(gvals));
                            }
                            i = i + 1;
                        },
                        _ => {
                            proof {
                                if eval_values(self.plan.values@) is Some {
                                    lemma_eval_values_index(self.plan.values@, i as int);
                                    assert(false);
                                }
                            }
                            return Err(ExecError::TypeError);
                        },
                    }
                }
                proof {
                    assert(self.plan.values@.subrange(0, n as int) =~= self.plan.values@);
                }
                let inserted = heap.insert(store, row.as_slice());
                match inserted {
                    Ok(()) => {
                        self.done = true;
                        let one: Vec<u8> = vstd::bytes::u32_to_le_bytes(1);
                        let out: Vec<u8> = make_tuple_bytes(0, 0, one.as_slice());
                        proof {
                            vstd::bytes::lemma_auto_spec_u32_to_from_le_bytes();
                            assert(out@.subrange(8, 12) =~= vstd::bytes::spec_u32_to_le_bytes(
                                1u32,
                            ));
                            assert(row_values(out@) =~= seq![1u32]);
                        }
                        Ok(Some(Tuple { rid: None, data: out }))
                    },
                    Err(_) => Err(ExecError::TupleTooLarge),
                }
            },
        }
    }
}


/// The update executor: pulls rows from its child, derives each row's new
/// image by applying the plan's assignments, and updates the row through
/// the table heap — the old version is stamped dead, the new version is
/// appended with the current transaction as creator — yielding an empty
/// sentinel row per update and counting them.
pub struct UpdateExecutor {
    pub plan: UpdatePlan,
    pub child: Box<Executor>,
    pub executor_context: ExecutorContext,
    pub table_heap: Option<TableHeap>,
    pub count: usize,
}

impl UpdateExecutor {
    /// The child scans the plan's own table and the heap, once built,
    /// carries the plan's table and the context's transaction.
    pub open spec fn wf(&self, store: PageStore) -> bool {
        &&& self.child.wf(store)
        &&& child_first_page(*self.child) == self.plan.first_page_id.0
        &&& match self.table_heap {
            Some(h) => h.first_page_id == self.plan.first_page_id && h.txn_id
                == self.executor_context.transaction_id,
            None => true,
        }
    }

    pub fn new(plan: UpdatePlan, child: Box<Executor>, executor_context: ExecutorContext) -> (r:
        Self)
        ensures
            r.plan == plan,
            r.child == child,
            r.executor_context == executor_context,
            r.table_heap is None,
            r.count == 0,
    {
        UpdateExecutor { plan, child, executor_context, table_heap: None, count: 0 }
    }

    /// Initialize the child and build the table heap on the plan's table
    /// under the context's current transaction.
    pub fn init(&mut self) -> (r: Result<(), ExecError>)
        ensures
            r is Ok,
            final(self).plan == old(self).plan,
            final(self).executor_context == old(self).executor_context,
            final(self).count == old(self).count,
            child_first_page(*final(self).child) == child_first_page(*old(self).child),
            child_rewound(*final(self).child),
            final(self).table_heap == Some(
                TableHeap {
                    first_page_id: old(self).plan.first_page_id,
                    txn_id: old(self).executor_context.transaction_id,
                },
            ),
    {
        let res = self.child.init();
        match res {
            Ok(()) => {},
            Err(e) => {
                return Err(e);
            },
        }
        let txn_id: TransactionID = self.executor_context.transaction_id;
        self.table_heap = Some(TableHeap::new(self.plan.first_page_id, txn_id));
        Ok(())
    }

    /// Pull one row from the child and update it: the old version — the one
    /// the child's row id names — is stamped `xmax = transaction_id` with
    /// its `xmin` untouched, a new version holding the assigned row starts
    /// with `xmin = transaction_id`, the count rises by one, and an empty
    /// sentinel row is yielded. `None` exactly at end of the child stream.
    #[verifier::rlimit(100)]
    pub fn next(&mut self, store: &mut PageStore) -> (r: Result<Option<Tuple>, ExecError>)
        requires
            old(store).wf(),
            old(self).wf(*old(store)),
            old(self).count < usize::MAX,
            old(store).pages@.len() < 0xffff_fffe,
        ensures
            final(store).wf(),
            old(store).pages@.len() <= final(store).pages@.len() <= old(store).pages@.len() + 1,
            final(self).wf(*final(store)),
            final(self).plan == old(self).plan,
            final(self).executor_context == old(self).executor_context,
            final(self).table_heap == old(self).table_heap,
            ({
                let first = old(self).plan.first_page_id.0 as int;
                let txn = old(self).executor_context.transaction_id.0;
                let heap = (TableHeap {
                    first_page_id: old(self).plan.first_page_id,
                    txn_id: old(self).executor_context.transaction_id,
                });
                let k0 = old(self).child.pos(*old(store));
                let k1 = final(self).child.pos(*old(store));
                let total = old(self).child.total(*old(store));
                &&& k0 <= k1 <= total
                &&& match r {
                    Ok(Some(t)) => {
                        &&& old(self).table_heap is Some
                        &&& t.rid is None
                        &&& t.data@.len() == 0
                        &&& final(self).count == old(self).count + 1
                        &&& k0 <= k1 - 1 < total
                        &&& forall|j: int|
                            k0 <= j < k1 - 1 ==> #[trigger] verdict_at(
                                *old(self).child,
                                *old(store),
                                j,
                            ) == Some(Value::Boolean(false))
                        &&& verdict_at(*old(self).child, *old(store), k1 - 1) == Some(
                            Value::Boolean(true),
                        )
                        &&& pos_in_chain(*old(store), first, k1 - 1)
                        &&& (match apply_assignments(
                            old(self).plan.assignments@,
                            row_values(tuple_at_pos(*old(store), first, k1 - 1)),
                        ) {
                            Some(vals) => update_applied(
                                *old(store),
                                *final(store),
                                old(self).plan.first_page_id.0,
                                scan_page_of(*old(store), first, k1 - 1),
                                scan_slot_of(*old(store), first, k1 - 1),
                                txn,
                                heap_tuple(heap, encode_row(vals)),
                            ),
                            None => false,
                        })
                    },
                    Ok(None) => {
                        &&& *final(store) == *old(store)
                        &&& final(self).count == old(self).count
                        &&& k1 == total
                        &&& forall|j: int|
                            k0 <= j < total ==> #[trigger] verdict_at(
                                *old(self).child,
                                *old(store),
                                j,
                            ) == Some(Value::Boolean(false))
                    },
                    Err(e) => {
                        &&& final(self).count == old(self).count
                        &&& k0 <= k1 - 1 < total
                        &&& forall|j: int|
                            k0 <= j < k1 - 1 ==> #[trigger] verdict_at(
                                *old(self).child,
                                *old(store),
                                j,
                            ) == Some(Value::Boolean(false))
                        &&& ({
                            ||| (e == ExecError::NotInitialized && old(self).table_heap is None
                                && *final(store) == *old(store) && verdict_at(
                                *old(self).child,
                                *old(store),
                                k1 - 1,
                            ) == Some(Value::Boolean(true)))
                            ||| (e == ExecError::TypeError && *final(store) == *old(store) && ({
                                ||| (match verdict_at(*old(self).child, *old(store), k1 - 1) {
                                    Some(Value::Boolean(_)) => false,
                                    _ => true,
                                })
                                ||| (verdict_at(*old(self).child, *old(store), k1 - 1) == Some(
                                    Value::Boolean(true),
                                ) && apply_assignments(
                                    old(self).plan.assignments@,
                                    row_values(tuple_at_pos(*old(store), first, k1 - 1)),
                                ) is None)
                            }))
                            ||| (e == ExecError::TupleTooLarge && verdict_at(
                                *old(self).child,
                                *old(store),
                                k1 - 1,
                            ) == Some(Value::Boolean(true)) && (match apply_assignments(
                                old(self).plan.assignments@,
                                row_values(tuple_at_pos(*old(store), first, k1 - 1)),
                            ) {
                                Some(vals) => !insert_fits(encode_row(vals)) && delete_applied(
                                    *old(store),
                                    *final(store),
                                    scan_page_of(*old(store), first, k1 - 1),
                                    scan_slot_of(*old(store), first, k1 - 1),
                                    txn,
                                ),
                                None => false,
                            }))
                        })
                    },
                }
            }),
    {
        let next_row = self.child.next(store);
        match next_row {
            Err(e) => Err(e),
            Ok(None) => Ok(None),
            Ok(Some(row)) => {
                match &self.table_heap {
                    None => Err(ExecError::NotInitialized),
                    Some(table_heap) => {
                        let heap: TableHeap = TableHeap {
                            first_page_id: table_heap.first_page_id,
                            txn_id: table_heap.txn_id,
                        };
                        match row.rid {
                            None => Err(ExecError::MissingRid),
                            Some(rid) => {
                                let vals = match apply_assignments_to_row(
                                    &self.plan.assignments,
                                    &row.data,
                                ) {
                                    Ok(vals) => vals,
                                    Err(e) => {
                                        return Err(e);
                                    },
                                };
                                let new_row: Vec<u8> = encode_row_bytes(&vals);
                                let ghost pre = *store;
                                let ghost first = self.plan.first_page_id.0 as int;
                                let ghost k = self.child.pos(pre) - 1;
                                proof {
                                    lemma_store_counts_nonneg(pre);
                                    assert(crate::table_page::wf_page(
                                        pre.pages@[scan_page_of(pre, first, k)].data@,
                                    ));
                                    crate::table_page::lemma_count_lower(
                                        pre.pages@[scan_page_of(pre, first, k)].data@,
                                    );
                                    assert(rid.page_id.0 as int == scan_page_of(pre, first, k));
                                    assert(rid.slot_index as int == scan_slot_of(pre, first, k));
                                }
                                let updated = heap.update(store, rid, new_row.as_slice());
                                match updated {
                                    Ok(()) => {
                                        self.count = self.count + 1;
                                        proof {
                                            crate::heap::lemma_update_applied_counts(
                                                pre,
                                                *store,
                                                self.plan.first_page_id.0,
                                                rid.page_id.0 as int,
                                                rid.slot_index as int,
                                                self.executor_context.transaction_id.0,
                                                heap_tuple(heap, new_row@),
                                            );
                                            lemma_wf_after_growth(*self.child, pre, *store);
                                        }
                                        Ok(Some(Tuple { rid: None, data: Vec::new() }))
                                    },
                                    Err(HeapError::InvalidRid) => Err(ExecError::InvalidRid),
                                    Err(HeapError::TupleTooLarge) => Err(
                                        ExecError::TupleTooLarge,
                                    ),
                                }
                            },
                        }
                    },
                }
            },
        }
    }
}


/// The projection executor: pulls rows from its child, evaluates each
/// select element against the row, and yields an output tuple of those
/// columns; the row id is dropped.
pub struct ProjectExecutor {
    pub plan: ProjectPlan,
    pub child: Box<Executor>,
}

impl ProjectExecutor {
    pub fn new(plan: ProjectPlan, child: Box<Executor>) -> (r: Self)
        ensures
            r.plan == plan,
            r.child == child,
    {
        ProjectExecutor { plan, child }
    }

    /// Rewind the underlying scan.
    pub fn init(&mut self) -> (r: Result<(), ExecError>)
        ensures
            r is Ok,
            final(self).plan == old(self).plan,
            child_first_page(*final(self).child) == child_first_page(*old(self).child),
            child_rewound(*final(self).child),
    {
        let res = self.child.init();
        match res {
            Ok(()) => Ok(()),
            Err(e) => Err(e),
        }
    }

    /// Pull one row and project it: the output carries no row id and its
    /// columns are the plan's elements evaluated against the row at the
    /// first position the child keeps; a type error comes exactly when that
    /// row fails the child's verdict or an element fails to evaluate.
    #[verifier::rlimit(50)]
    pub fn next(&mut self, store: &PageStore) -> (r: Result<Option<Tuple>, ExecError>)
        requires
            store.wf(),
            old(self).child.wf(*store),
        ensures
            final(self).child.wf(*store),
            final(self).plan == old(self).plan,
            child_first_page(*final(self).child) == child_first_page(*old(self).child),
            old(self).child.pos(*store) <= final(self).child.pos(*store) <= old(
                self,
            ).child.total(*store),
            ({
                let first = child_first_page(*old(self).child) as int;
                let k0 = old(self).child.pos(*store);
                let k1 = final(self).child.pos(*store);
                let total = old(self).child.total(*store);
                match r {
                    Ok(Some(t)) => {
                        &&& t.rid is None
                        &&& k0 <= k1 - 1 < total
                        &&& forall|j: int|
                            k0 <= j < k1 - 1 ==> #[trigger] verdict_at(
                                *old(self).child,
                                *store,
                                j,
                            ) == Some(Value::Boolean(false))
                        &&& verdict_at(*old(self).child, *store, k1 - 1) == Some(
                            Value::Boolean(true),
                        )
                        &&& pos_in_chain(*store, first, k1 - 1)
                        &&& (match eval_elements(
                            old(self).plan.select_elements@,
                            row_values(tuple_at_pos(*store, first, k1 - 1)),
                        ) {
                            Some(vals) => row_values(t.data@) == vals,
                            None => false,
                        })
                    },
                    Ok(None) => {
                        &&& k1 == total
                        &&& forall|j: int|
                            k0 <= j < total ==> #[trigger] verdict_at(*old(self).child, *store, j)
                                == Some(Value::Boolean(false))
                    },
                    Err(e) => {
                        &&& e == ExecError::TypeError
                        &&& k0 <= k1 - 1 < total
                        &&& forall|j: int|
                            k0 <= j < k1 - 1 ==> #[trigger] verdict_at(
                                *old(self).child,
                                *store,
                                j,
                            ) == Some(Value::Boolean(false))
                        &&& ({
                            ||| (match verdict_at(*old(self).child, *store, k1 - 1) {
                                Some(Value::Boolean(_)) => false,
                                _ => true,
                            })
                            ||| (verdict_at(*old(self).child, *store, k1 - 1) == Some(
                                Value::Boolean(true),
                            ) && eval_elements(
                                old(self).plan.select_elements@,
                                row_values(tuple_at_pos(*store, first, k1 - 1)),
                            ) is None)
                        })
                    },
                }
            }),
    {
        let next_row = self.child.next(store);
        match next_row {
            Err(e) => Err(e),
            Ok(None) => Ok(None),
            Ok(Some(row)) => {
                match project_row(&self.plan.select_elements, &row.data) {
                    Err(e) => Err(e),
                    Ok(vals) => {
                        let out: Vec<u8> = make_tuple_bytes(
                            0,
                            0,
                            encode_row_bytes(&vals).as_slice(),
                        );
                        proof {
                            lemma_row_values_of_encoded(0, 0, vals@);
                        }
                        Ok(Some(Tuple { rid: None, data: out }))
                    },
                }
            },
        }
    }
}

/// Evaluate a projection's elements against the row of a tuple image; a
/// type error is fatal.
fn project_row(els: &Vec<BoundSelectElementAST>, data: &Vec<u8>) -> (r: Result<Vec<u32>, ExecError>)
    requires
        data@.len() >= TUPLE_HEADER_SIZE,
    ensures
        match r {
            Ok(vals) => eval_elements(els@, row_values(data@)) == Some(vals@),
            Err(e) => {
                &&& e == ExecError::TypeError
                &&& eval_elements(els@, row_values(data@)) is None
            },
        },
{
    let ghost row0 = row_values(data@);
    let n: usize = els.len();
    let mut vals: Vec<u32> = Vec::new();
    let ghost mut gvals: Seq<u32> = Seq::empty();
    let mut i: usize = 0;
    proof {
        assert(els@.subrange(0, 0) =~= Seq::<BoundSelectElementAST>::empty());
    }
    while i < n
        invariant
            n == els@.len(),
            i <= n,
            data@.len() >= TUPLE_HEADER_SIZE,
            row0 == row_values(data@),
            eval_elements(els@.subrange(0, i as int), row0) == Some(gvals),
            vals@ == gvals,
        decreases n - i,
    {
        let ghost sub1 = els@.subrange(0, i + 1);
        proof {
            assert(sub1.drop_last() =~= els@.subrange(0, i as int));
            assert(sub1.last() == els@[i as int]);
        }
        let verdict = els[i].expression.evaluate(data);
        match verdict {
            Some(v) => {
                let column: u32 = match v {
                    Value::Int(x) => x,
                    Value::Boolean(b) => if b {
                        1
                    } else {
                        0
                    },
                };
                proof {
                    assert(column == value_as_column(v));
                    gvals = gvals.push(column);
                }
                vals.push(column);
                i = i + 1;
            },
            None => {
                proof {
                    if eval_elements(els@, row0) is Some {
                        lemma_eval_elements_some_prefix(els@, row0, i + 1);
                    }
                }
                return Err(ExecError::TypeError);
            },
        }
    }
    proof {
        assert(els@.subrange(0, n as int) =~= els@);
    }
    Ok(vals)
}

} // verus!
