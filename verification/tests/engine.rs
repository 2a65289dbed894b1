use minidb::binder::{
    BoundAssignmentAST, BoundBaseTableReferenceAST, BoundDeleteStatementAST, BoundExpressionAST,
    BoundInsertStatementAST, BoundSelectElementAST, BoundSelectStatementAST, BoundStatementAST,
    BoundTableReferenceAST, BoundUpdateStatementAST,
};
use minidb::catalog::{Column, DataType, Schema, Value};
use minidb::common::{PageID, Rid, TransactionID, INVALID_TRANSACTION_ID, PAGE_SIZE};
use minidb::executor::{
    DeleteExecutor, ExecError, Executor, ExecutorContext, FilterExecutor, InsertExecutor,
    ProjectExecutor, SeqScanExecutor, UpdateExecutor,
};
use minidb::heap::{HeapError, PageStore, TableHeap};
use minidb::plan::{FilterPlan, Plan, Planner, SeqScanPlan};
use minidb::table_page::HEADER_SIZE;

fn int_schema() -> Schema {
    Schema { columns: vec![Column { name: "x".to_owned(), data_type: DataType::Int }] }
}

fn where_x_equals(v: u32) -> BoundExpressionAST {
    BoundExpressionAST::BinaryEq(
        Box::new(BoundExpressionAST::ColumnRef(0)),
        Box::new(BoundExpressionAST::Literal(Value::Int(v))),
    )
}

fn delete_where_x_equals(v: u32) -> BoundStatementAST {
    BoundStatementAST::Delete(BoundDeleteStatementAST {
        table_reference: BoundBaseTableReferenceAST {
            first_page_id: PageID(0),
            schema: int_schema(),
        },
        condition: Some(where_x_equals(v)),
    })
}

fn xmax_of(data: &[u8]) -> u32 {
    u32::from_le_bytes([data[4], data[5], data[6], data[7]])
}

fn xmin_of(data: &[u8]) -> u32 {
    u32::from_le_bytes([data[0], data[1], data[2], data[3]])
}

/// Build the executor tree for a delete plan, as the engine's driver would.
fn build_delete_executor(plan: Plan, context: ExecutorContext) -> DeleteExecutor {
    let dp = match plan {
        Plan::Delete(dp) => dp,
        _ => panic!("expected a delete plan"),
    };
    let child = match &*dp.child {
        Plan::SeqScan(sp) => Executor::SeqScan(SeqScanExecutor::new(SeqScanPlan {
            first_page_id: sp.first_page_id,
            schema: sp.schema.clone(),
        })),
        Plan::Filter(fp) => {
            let scan = match &*fp.child {
                Plan::SeqScan(sp) => SeqScanExecutor::new(SeqScanPlan {
                    first_page_id: sp.first_page_id,
                    schema: sp.schema.clone(),
                }),
                _ => panic!("filter child must be a scan"),
            };
            Executor::Filter(FilterExecutor::new(
                FilterPlan {
                    condition: fp.condition.clone(),
                    schema: fp.schema.clone(),
                    child: Box::new(Plan::SeqScan(SeqScanPlan {
                        first_page_id: PageID(0),
                        schema: fp.schema.clone(),
                    })),
                },
                scan,
            ))
        }
        _ => panic!("delete child must be a scan or a filtered scan"),
    };
    DeleteExecutor::new(dp, Box::new(child), context)
}

#[test]
fn e4_heap_allocates_new_page() {
    let mut store = PageStore::new();
    let heap = TableHeap::new(PageID(0), TransactionID(2));
    // fill page 0 until the next insert no longer fits there
    let row = vec![0xee_u8; 92];
    let per_tuple: usize = 92 + 8 + 8;
    let fitting: usize = (PAGE_SIZE - HEADER_SIZE) / per_tuple;
    for _ in 0..fitting {
        heap.insert(&mut store, &row).unwrap();
    }
    assert_eq!(store.pages.len(), 1);
    // the next insert must open a second page and link the chain
    heap.insert(&mut store, &row).unwrap();
    assert_eq!(store.pages.len(), 2);
    assert_eq!(store.pages[0].next_page_id(), PageID(1));
    assert_eq!(store.pages[1].page_id(), PageID(1));
    assert_eq!(store.pages[1].tuple_count(), 1);
    assert_eq!(store.pages[0].tuple_count(), fitting);
}

#[test]
fn p5_scan_yields_every_tuple_once() {
    let mut store = PageStore::new();
    let heap = TableHeap::new(PageID(0), TransactionID(2));
    let row = vec![0x55_u8; 500];
    for _ in 0..10 {
        heap.insert(&mut store, &row).unwrap();
    }
    assert!(store.pages.len() > 1);
    let total: usize = (0..store.pages.len())
        .map(|p| store.pages[p].tuple_count())
        .sum();
    assert_eq!(total, 10);
    let scanned = heap.scan_all(&store);
    assert_eq!(scanned.len(), total);
    let mut seen: Vec<Rid> = Vec::new();
    for (k, t) in scanned.iter().enumerate() {
        let rid = t.rid.expect("scanned tuples carry their rid");
        assert!(!seen.contains(&rid), "rid yielded twice");
        if k > 0 {
            let prev = seen[k - 1];
            assert!(
                (prev.page_id.0, prev.slot_index) < (rid.page_id.0, rid.slot_index),
                "scan order is page order then slot order"
            );
        }
        seen.push(rid);
        let expected = store.pages[rid.page_id.0 as usize].get_tuple(rid.slot_index as usize);
        assert_eq!(t.data, expected);
    }
}

#[test]
fn p6_mvcc_stamping() {
    let mut store = PageStore::new();
    let heap = TableHeap::new(PageID(0), TransactionID(5));
    heap.insert(&mut store, &7u32.to_le_bytes()).unwrap();
    let t = store.pages[0].get_tuple(0);
    assert_eq!(xmin_of(&t), 5);
    assert_eq!(xmax_of(&t), INVALID_TRANSACTION_ID);
    let deleter = TableHeap::new(PageID(0), TransactionID(9));
    deleter
        .delete(&mut store, Rid { page_id: PageID(0), slot_index: 0 })
        .unwrap();
    let t = store.pages[0].get_tuple(0);
    assert_eq!(xmin_of(&t), 5, "xmin survives deletion");
    assert_eq!(xmax_of(&t), 9);
}

#[test]
fn heap_tuple_too_large() {
    let mut store = PageStore::new();
    let heap = TableHeap::new(PageID(0), TransactionID(1));
    let row = vec![0u8; PAGE_SIZE];
    assert_eq!(heap.insert(&mut store, &row), Err(HeapError::TupleTooLarge));
    assert_eq!(store.pages.len(), 1);
    assert_eq!(store.pages[0].tuple_count(), 0);
}

#[test]
fn heap_delete_invalid_rid() {
    let mut store = PageStore::new();
    let heap = TableHeap::new(PageID(0), TransactionID(1));
    heap.insert(&mut store, &1u32.to_le_bytes()).unwrap();
    let bad_page = Rid { page_id: PageID(7), slot_index: 0 };
    assert_eq!(heap.delete(&mut store, bad_page), Err(HeapError::InvalidRid));
    let bad_slot = Rid { page_id: PageID(0), slot_index: 3 };
    assert_eq!(heap.delete(&mut store, bad_slot), Err(HeapError::InvalidRid));
    assert_eq!(xmax_of(&store.pages[0].get_tuple(0)), INVALID_TRANSACTION_ID);
}

#[test]
fn e5_plan_delete_tree() {
    let planner = Planner::new(delete_where_x_equals(1));
    let plan = planner.plan();
    let dp = match plan {
        Plan::Delete(dp) => dp,
        _ => panic!("top node must be Delete"),
    };
    assert_eq!(dp.first_page_id, PageID(0));
    assert_eq!(dp.schema.columns.len(), 1);
    assert_eq!(dp.schema.columns[0].name, "__delete_count");
    assert_eq!(dp.schema.columns[0].data_type, DataType::Int);
    let fp = match &*dp.child {
        Plan::Filter(fp) => fp,
        _ => panic!("child must be Filter"),
    };
    assert!(matches!(
        &fp.condition,
        BoundExpressionAST::BinaryEq(l, r)
            if matches!(**l, BoundExpressionAST::ColumnRef(0))
                && matches!(**r, BoundExpressionAST::Literal(Value::Int(1)))
    ));
    match &*fp.child {
        Plan::SeqScan(sp) => {
            assert_eq!(sp.first_page_id, PageID(0));
            assert_eq!(sp.schema.columns[0].name, "x");
        }
        _ => panic!("filter child must be SeqScan"),
    }
}

#[test]
fn p7_planner_update_invariants() {
    let statement = BoundStatementAST::Update(BoundUpdateStatementAST {
        table_reference: BoundBaseTableReferenceAST {
            first_page_id: PageID(4),
            schema: int_schema(),
        },
        assignments: vec![BoundAssignmentAST {
            column_index: 0,
            expression: BoundExpressionAST::Literal(Value::Int(3)),
        }],
        condition: None,
    });
    let plan = Planner::new(statement).plan();
    let up = match plan {
        Plan::Update(up) => up,
        _ => panic!("top node must be Update"),
    };
    assert_eq!(up.first_page_id, PageID(4));
    assert_eq!(up.schema.columns.len(), 1);
    assert_eq!(up.schema.columns[0].name, "__update_count");
    assert_eq!(up.schema.columns[0].data_type, DataType::Int);
    assert_eq!(up.assignments.len(), 1);
    match &*up.child {
        Plan::SeqScan(sp) => assert_eq!(sp.first_page_id, PageID(4)),
        _ => panic!("no condition, so the child is the bare scan"),
    }
}

#[test]
fn plan_insert_count_schema() {
    let statement = BoundStatementAST::Insert(BoundInsertStatementAST {
        first_page_id: PageID(2),
        values: vec![BoundExpressionAST::Literal(Value::Int(40))],
    });
    let plan = Planner::new(statement).plan();
    let ip = match plan {
        Plan::Insert(ip) => ip,
        _ => panic!("top node must be Insert"),
    };
    assert_eq!(ip.first_page_id, PageID(2));
    assert_eq!(ip.values.len(), 1);
    assert_eq!(ip.schema.columns[0].name, "__insert_count");
    assert_eq!(ip.schema.columns[0].data_type, DataType::Int);
}

#[test]
fn plan_select_shapes() {
    // bare select: just the scan
    let bare = BoundStatementAST::Select(BoundSelectStatementAST {
        table_reference: BoundTableReferenceAST::Base(BoundBaseTableReferenceAST {
            first_page_id: PageID(1),
            schema: int_schema(),
        }),
        select_elements: vec![],
        condition: None,
    });
    assert!(matches!(Planner::new(bare).plan(), Plan::SeqScan(_)));
    // projected select: schema is derived from the elements
    let projected = BoundStatementAST::Select(BoundSelectStatementAST {
        table_reference: BoundTableReferenceAST::Base(BoundBaseTableReferenceAST {
            first_page_id: PageID(1),
            schema: int_schema(),
        }),
        select_elements: vec![BoundSelectElementAST {
            expression: where_x_equals(2),
            name: "is_two".to_owned(),
        }],
        condition: Some(where_x_equals(1)),
    });
    let plan = Planner::new(projected).plan();
    let pp = match plan {
        Plan::Project(pp) => pp,
        _ => panic!("top node must be Project"),
    };
    assert_eq!(pp.schema.columns.len(), 1);
    assert_eq!(pp.schema.columns[0].name, "is_two");
    assert_eq!(pp.schema.columns[0].data_type, DataType::Boolean);
    assert!(matches!(&*pp.child, Plan::Filter(_)));
}

#[test]
fn seq_scan_yields_all_in_order() {
    let mut store = PageStore::new();
    let heap = TableHeap::new(PageID(0), TransactionID(1));
    for v in [10u32, 20, 30] {
        heap.insert(&mut store, &v.to_le_bytes()).unwrap();
    }
    let mut scan = SeqScanExecutor::new(SeqScanPlan {
        first_page_id: PageID(0),
        schema: int_schema(),
    });
    scan.init();
    let mut values = Vec::new();
    while let Some(t) = scan.next(&store) {
        assert!(t.rid.is_some());
        values.push(u32::from_le_bytes([t.data[8], t.data[9], t.data[10], t.data[11]]));
    }
    assert_eq!(values, vec![10, 20, 30]);
}

#[test]
fn filter_keeps_matching_rows() {
    let mut store = PageStore::new();
    let heap = TableHeap::new(PageID(0), TransactionID(1));
    for v in [1u32, 2, 1] {
        heap.insert(&mut store, &v.to_le_bytes()).unwrap();
    }
    let scan = SeqScanExecutor::new(SeqScanPlan {
        first_page_id: PageID(0),
        schema: int_schema(),
    });
    let mut filter = FilterExecutor::new(
        FilterPlan {
            condition: where_x_equals(1),
            schema: int_schema(),
            child: Box::new(Plan::SeqScan(SeqScanPlan {
                first_page_id: PageID(0),
                schema: int_schema(),
            })),
        },
        scan,
    );
    filter.init();
    let mut rids = Vec::new();
    loop {
        match filter.next(&store).unwrap() {
            Some(t) => rids.push(t.rid.unwrap()),
            None => break,
        }
    }
    assert_eq!(
        rids,
        vec![
            Rid { page_id: PageID(0), slot_index: 0 },
            Rid { page_id: PageID(0), slot_index: 2 },
        ]
    );
}

#[test]
fn filter_type_error_is_fatal() {
    let mut store = PageStore::new();
    let heap = TableHeap::new(PageID(0), TransactionID(1));
    heap.insert(&mut store, &1u32.to_le_bytes()).unwrap();
    let scan = SeqScanExecutor::new(SeqScanPlan {
        first_page_id: PageID(0),
        schema: int_schema(),
    });
    let mut filter = FilterExecutor::new(
        FilterPlan {
            condition: BoundExpressionAST::Literal(Value::Int(1)),
            schema: int_schema(),
            child: Box::new(Plan::SeqScan(SeqScanPlan {
                first_page_id: PageID(0),
                schema: int_schema(),
            })),
        },
        scan,
    );
    filter.init();
    assert!(matches!(filter.next(&store), Err(ExecError::TypeError)));
}

#[test]
fn e6_execute_delete_where_x_equals_1() {
    let mut store = PageStore::new();
    let writer = TableHeap::new(PageID(0), TransactionID(5));
    for v in [1u32, 2, 1] {
        writer.insert(&mut store, &v.to_le_bytes()).unwrap();
    }
    let plan = Planner::new(delete_where_x_equals(1)).plan();
    let context = ExecutorContext { transaction_id: TransactionID(9) };
    let mut exec = build_delete_executor(plan, context);
    exec.init().unwrap();
    let mut yielded = 0usize;
    loop {
        match exec.next(&mut store).unwrap() {
            Some(t) => {
                assert!(t.rid.is_none(), "mutation sentinel rows carry no rid");
                assert!(t.data.is_empty());
                yielded += 1;
            }
            None => break,
        }
    }
    assert_eq!(yielded, 2);
    assert_eq!(exec.count, 2);
    // both matching tuples are still present, now stamped with the deleter
    let reader = TableHeap::new(PageID(0), TransactionID(9));
    let scanned = reader.scan_all(&store);
    assert_eq!(scanned.len(), 3);
    assert_eq!(xmax_of(&scanned[0].data), 9);
    assert_eq!(xmax_of(&scanned[1].data), INVALID_TRANSACTION_ID);
    assert_eq!(xmax_of(&scanned[2].data), 9);
    assert_eq!(xmin_of(&scanned[0].data), 5);
}

#[test]
fn delete_before_init_fails() {
    let mut store = PageStore::new();
    let writer = TableHeap::new(PageID(0), TransactionID(5));
    writer.insert(&mut store, &1u32.to_le_bytes()).unwrap();
    let plan = Planner::new(delete_where_x_equals(1)).plan();
    let context = ExecutorContext { transaction_id: TransactionID(9) };
    let mut exec = build_delete_executor(plan, context);
    // no init(): the table heap is missing
    assert!(matches!(exec.next(&mut store), Err(ExecError::NotInitialized)));
}

#[test]
fn delete_on_empty_table_yields_none() {
    let mut store = PageStore::new();
    let plan = Planner::new(delete_where_x_equals(1)).plan();
    let context = ExecutorContext { transaction_id: TransactionID(9) };
    let mut exec = build_delete_executor(plan, context);
    exec.init().unwrap();
    assert!(matches!(exec.next(&mut store), Ok(None)));
    assert_eq!(exec.count, 0);
}

#[test]
fn insert_executor_inserts_once() {
    let mut store = PageStore::new();
    let statement = BoundStatementAST::Insert(BoundInsertStatementAST {
        first_page_id: PageID(0),
        values: vec![BoundExpressionAST::Literal(Value::Int(42))],
    });
    let plan = Planner::new(statement).plan();
    let ip = match plan {
        Plan::Insert(ip) => ip,
        _ => panic!("expected an insert plan"),
    };
    let mut exec = InsertExecutor::new(ip, ExecutorContext { transaction_id: TransactionID(3) });
    exec.init().unwrap();
    let out = exec.next(&mut store).unwrap().expect("first pull yields the count row");
    assert!(out.rid.is_none());
    // one-column count row carrying 1
    assert_eq!(
        u32::from_le_bytes([out.data[8], out.data[9], out.data[10], out.data[11]]),
        1
    );
    assert!(matches!(exec.next(&mut store), Ok(None)));
    // the row landed on the table, stamped by the inserting transaction
    assert_eq!(store.pages[0].tuple_count(), 1);
    let t = store.pages[0].get_tuple(0);
    assert_eq!(xmin_of(&t), 3);
    assert_eq!(xmax_of(&t), INVALID_TRANSACTION_ID);
    assert_eq!(u32::from_le_bytes([t[8], t[9], t[10], t[11]]), 42);
}

#[test]
fn insert_executor_type_error() {
    let mut store = PageStore::new();
    let statement = BoundStatementAST::Insert(BoundInsertStatementAST {
        first_page_id: PageID(0),
        values: vec![BoundExpressionAST::Literal(Value::Boolean(true))],
    });
    let plan = Planner::new(statement).plan();
    let ip = match plan {
        Plan::Insert(ip) => ip,
        _ => panic!("expected an insert plan"),
    };
    let mut exec = InsertExecutor::new(ip, ExecutorContext { transaction_id: TransactionID(3) });
    exec.init().unwrap();
    assert!(matches!(exec.next(&mut store), Err(ExecError::TypeError)));
    assert_eq!(store.pages[0].tuple_count(), 0);
}

#[test]
fn heap_update_preserves_mvcc_history() {
    let mut store = PageStore::new();
    let writer = TableHeap::new(PageID(0), TransactionID(5));
    writer.insert(&mut store, &1u32.to_le_bytes()).unwrap();
    let updater = TableHeap::new(PageID(0), TransactionID(8));
    updater
        .update(&mut store, Rid { page_id: PageID(0), slot_index: 0 }, &2u32.to_le_bytes())
        .unwrap();
    // old version: xmin kept, xmax stamped by the updater
    let old_version = store.pages[0].get_tuple(0);
    assert_eq!(xmin_of(&old_version), 5);
    assert_eq!(xmax_of(&old_version), 8);
    assert_eq!(u32::from_le_bytes([old_version[8], old_version[9], old_version[10], old_version[11]]), 1);
    // new version: fresh xmin, live xmax, the new row bytes
    assert_eq!(store.pages[0].tuple_count(), 2);
    let new_version = store.pages[0].get_tuple(1);
    assert_eq!(xmin_of(&new_version), 8);
    assert_eq!(xmax_of(&new_version), INVALID_TRANSACTION_ID);
    assert_eq!(u32::from_le_bytes([new_version[8], new_version[9], new_version[10], new_version[11]]), 2);
}

#[test]
fn update_executor_rewrites_matching_rows() {
    let mut store = PageStore::new();
    let writer = TableHeap::new(PageID(0), TransactionID(5));
    for v in [1u32, 2, 1] {
        writer.insert(&mut store, &v.to_le_bytes()).unwrap();
    }
    // UPDATE t SET x = 7 WHERE x = 1
    let statement = BoundStatementAST::Update(BoundUpdateStatementAST {
        table_reference: BoundBaseTableReferenceAST {
            first_page_id: PageID(0),
            schema: int_schema(),
        },
        assignments: vec![BoundAssignmentAST {
            column_index: 0,
            expression: BoundExpressionAST::Literal(Value::Int(7)),
        }],
        condition: Some(where_x_equals(1)),
    });
    let plan = Planner::new(statement).plan();
    let up = match plan {
        Plan::Update(up) => up,
        _ => panic!("expected an update plan"),
    };
    let child = match &*up.child {
        Plan::Filter(fp) => {
            let scan = match &*fp.child {
                Plan::SeqScan(sp) => SeqScanExecutor::new(SeqScanPlan {
                    first_page_id: sp.first_page_id,
                    schema: sp.schema.clone(),
                }),
                _ => panic!("filter child must be a scan"),
            };
            Executor::Filter(FilterExecutor::new(
                FilterPlan {
                    condition: fp.condition.clone(),
                    schema: fp.schema.clone(),
                    child: Box::new(Plan::SeqScan(SeqScanPlan {
                        first_page_id: PageID(0),
                        schema: fp.schema.clone(),
                    })),
                },
                scan,
            ))
        }
        _ => panic!("update child must be a filtered scan here"),
    };
    let mut exec = UpdateExecutor::new(
        up,
        Box::new(child),
        ExecutorContext { transaction_id: TransactionID(9) },
    );
    exec.init().unwrap();
    let mut yielded = 0usize;
    loop {
        match exec.next(&mut store).unwrap() {
            Some(t) => {
                assert!(t.rid.is_none());
                assert!(t.data.is_empty());
                yielded += 1;
            }
            None => break,
        }
    }
    assert_eq!(yielded, 2);
    assert_eq!(exec.count, 2);
    // old versions stamped dead, two new versions appended with x = 7
    let reader = TableHeap::new(PageID(0), TransactionID(9));
    let scanned = reader.scan_all(&store);
    assert_eq!(scanned.len(), 5);
    assert_eq!(xmax_of(&scanned[0].data), 9);
    assert_eq!(xmax_of(&scanned[1].data), INVALID_TRANSACTION_ID);
    assert_eq!(xmax_of(&scanned[2].data), 9);
    for k in [3usize, 4] {
        let d = &scanned[k].data;
        assert_eq!(xmin_of(d), 9);
        assert_eq!(xmax_of(d), INVALID_TRANSACTION_ID);
        assert_eq!(u32::from_le_bytes([d[8], d[9], d[10], d[11]]), 7);
    }
}

#[test]
fn project_executor_builds_output_rows() {
    let mut store = PageStore::new();
    let writer = TableHeap::new(PageID(0), TransactionID(5));
    for v in [1u32, 2] {
        writer.insert(&mut store, &v.to_le_bytes()).unwrap();
    }
    // SELECT x = 1 AS is_one FROM t
    let statement = BoundStatementAST::Select(BoundSelectStatementAST {
        table_reference: BoundTableReferenceAST::Base(BoundBaseTableReferenceAST {
            first_page_id: PageID(0),
            schema: int_schema(),
        }),
        select_elements: vec![BoundSelectElementAST {
            expression: where_x_equals(1),
            name: "is_one".to_owned(),
        }],
        condition: None,
    });
    let plan = Planner::new(statement).plan();
    let pp = match plan {
        Plan::Project(pp) => pp,
        _ => panic!("expected a projection"),
    };
    let scan = match &*pp.child {
        Plan::SeqScan(sp) => Executor::SeqScan(SeqScanExecutor::new(SeqScanPlan {
            first_page_id: sp.first_page_id,
            schema: sp.schema.clone(),
        })),
        _ => panic!("child must be the bare scan"),
    };
    let mut exec = ProjectExecutor::new(pp, Box::new(scan));
    exec.init().unwrap();
    let mut out = Vec::new();
    loop {
        match exec.next(&store).unwrap() {
            Some(t) => {
                assert!(t.rid.is_none(), "projection drops the rid");
                out.push(u32::from_le_bytes([t.data[8], t.data[9], t.data[10], t.data[11]]));
            }
            None => break,
        }
    }
    // booleans are stored as one or zero
    assert_eq!(out, vec![1, 0]);
}
