//! Plan trees and the planner that lowers bound statements into them.
//!
//! A plan is an immutable algebraic description of a statement. The planner
//! does no rewriting: a select becomes a sequential scan, wrapped in a
//! filter when a condition is present and in a projection when select
//! elements are present; each mutation becomes its node over the (possibly
//! filtered) scan of its base table, with a one-column `Int` result schema
//! carrying the affected-row count.

use vstd::prelude::*;

verus! {

use crate::binder::BoundAssignmentAST;
use crate::binder::BoundBaseTableReferenceAST;
use crate::binder::BoundDeleteStatementAST;
use crate::binder::BoundExpressionAST;
use crate::binder::BoundInsertStatementAST;
use crate::binder::BoundSelectElementAST;
use crate::binder::BoundSelectStatementAST;
use crate::binder::BoundStatementAST;
use crate::binder::BoundTableReferenceAST;
use crate::binder::BoundUpdateStatementAST;
use crate::binder::clone_assignments;
use crate::binder::clone_condition;
use crate::binder::clone_expressions;
use crate::binder::clone_select_elements;
use crate::binder::spec_data_type;
use crate::catalog::Column;
use crate::catalog::DataType;
use crate::catalog::Schema;
use crate::catalog::column_view;
use crate::catalog::is_count_schema;
use crate::catalog::schema_view;
use crate::common::PageID;

pub enum Plan {
    SeqScan(SeqScanPlan),
    Filter(FilterPlan),
    Project(ProjectPlan),
    Insert(InsertPlan),
    Delete(DeletePlan),
    Update(UpdatePlan),
}

pub struct SeqScanPlan {
    pub first_page_id: PageID,
    pub schema: Schema,
}

pub struct FilterPlan {
    pub condition: BoundExpressionAST,
    pub schema: Schema,
    pub child: Box<Plan>,
}

pub struct ProjectPlan {
    pub select_elements: Vec<BoundSelectElementAST>,
    pub schema: Schema,
    pub child: Box<Plan>,
}

pub struct InsertPlan {
    pub first_page_id: PageID,
    pub values: Vec<BoundExpressionAST>,
    pub schema: Schema,
}

pub struct DeletePlan {
    pub first_page_id: PageID,
    pub schema: Schema,
    pub child: Box<Plan>,
}

pub struct UpdatePlan {
    pub first_page_id: PageID,
    pub assignments: Vec<BoundAssignmentAST>,
    pub schema: Schema,
    pub child: Box<Plan>,
}

/// The output schema of a plan node.
pub open spec fn spec_schema(p: Plan) -> Schema {
    match p {
        Plan::SeqScan(plan) => plan.schema,
        Plan::Filter(plan) => plan.schema,
        Plan::Project(plan) => plan.schema,
        Plan::Insert(plan) => plan.schema,
        Plan::Delete(plan) => plan.schema,
        Plan::Update(plan) => plan.schema,
    }
}

impl Plan {
    pub fn schema(&self) -> (r: &Schema)
        ensures
            *r == spec_schema(*self),
    {
        match self {
            Plan::SeqScan(plan) => &plan.schema,
            Plan::Filter(plan) => &plan.schema,
            Plan::Project(plan) => &plan.schema,
            Plan::Insert(plan) => &plan.schema,
            Plan::Delete(plan) => &plan.schema,
            Plan::Update(plan) => &plan.schema,
        }
    }
}

/// `p` is the sequential scan of table `t`.
pub open spec fn is_scan_of(p: Plan, t: BoundBaseTableReferenceAST) -> bool {
    match p {
        Plan::SeqScan(sp) => {
            &&& sp.first_page_id == t.first_page_id
            &&& schema_view(sp.schema) == schema_view(t.schema)
        },
        _ => false,
    }
}

/// `p` is the scan of `t`, wrapped in a filter exactly when a condition is
/// present; the filter keeps the table's schema.
pub open spec fn is_filtered_scan_of(
    p: Plan,
    t: BoundBaseTableReferenceAST,
    condition: Option<BoundExpressionAST>,
) -> bool {
    match condition {
        None => is_scan_of(p, t),
        Some(c) => match p {
            Plan::Filter(fp) => {
                &&& fp.condition == c
                &&& schema_view(fp.schema) == schema_view(t.schema)
                &&& is_scan_of(*fp.child, t)
            },
            _ => false,
        },
    }
}

/// The shape the planner owes for a select statement.
pub open spec fn is_select_plan_for(p: Plan, s: BoundSelectStatementAST) -> bool {
    let BoundTableReferenceAST::Base(t) = s.table_reference;
    if s.select_elements@.len() == 0 {
        is_filtered_scan_of(p, t, s.condition)
    } else {
        match p {
            Plan::Project(pp) => {
                &&& pp.select_elements@ == s.select_elements@
                &&& schema_view(pp.schema) == s.select_elements@.map(
                    |i: int, el: BoundSelectElementAST| (el.name@, spec_data_type(el.expression)),
                )
                &&& is_filtered_scan_of(*pp.child, t, s.condition)
            },
            _ => false,
        }
    }
}

/// The shape the planner owes for an insert statement.
pub open spec fn is_insert_plan_for(p: Plan, s: BoundInsertStatementAST) -> bool {
    match p {
        Plan::Insert(ip) => {
            &&& ip.first_page_id == s.first_page_id
            &&& ip.values@ == s.values@
            &&& is_count_schema(ip.schema, "__insert_count"@)
        },
        _ => false,
    }
}

/// The shape the planner owes for a delete statement: the top node is
/// `Delete`, its `first_page_id` is the base table's, its schema is the
/// one-column `__delete_count : Int`, and its child is the (possibly
/// filtered) scan of the table.
pub open spec fn is_delete_plan_for(p: Plan, s: BoundDeleteStatementAST) -> bool {
    match p {
        Plan::Delete(dp) => {
            &&& dp.first_page_id == s.table_reference.first_page_id
            &&& is_count_schema(dp.schema, "__delete_count"@)
            &&& is_filtered_scan_of(*dp.child, s.table_reference, s.condition)
        },
        _ => false,
    }
}

/// The shape the planner owes for an update statement, symmetric to delete
/// with the statement's assignments carried on the node.
pub open spec fn is_update_plan_for(p: Plan, s: BoundUpdateStatementAST) -> bool {
    match p {
        Plan::Update(up) => {
            &&& up.first_page_id == s.table_reference.first_page_id
            &&& up.assignments@ == s.assignments@
            &&& is_count_schema(up.schema, "__update_count"@)
            &&& is_filtered_scan_of(*up.child, s.table_reference, s.condition)
        },
        _ => false,
    }
}

pub struct Planner {
    pub statement: BoundStatementAST,
}

impl Planner {
    pub fn new(statement: BoundStatementAST) -> (r: Self)
        ensures
            r.statement == statement,
    {
        Self { statement }
    }

    /// Lower the bound statement to its plan tree.
    pub fn plan(&self) -> (r: Plan)
        ensures
            match self.statement {
                BoundStatementAST::Select(s) => is_select_plan_for(r, s),
                BoundStatementAST::Insert(s) => is_insert_plan_for(r, s),
                BoundStatementAST::Delete(s) => is_delete_plan_for(r, s),
                BoundStatementAST::Update(s) => is_update_plan_for(r, s),
            },
    {
        match &self.statement {
            BoundStatementAST::Select(select_statement) => {
                self.plan_select_statement(select_statement)
            },
            BoundStatementAST::Insert(insert_statement) => {
                self.plan_insert_statement(insert_statement)
            },
            BoundStatementAST::Delete(delete_statement) => {
                self.plan_delete_statement(delete_statement)
            },
            BoundStatementAST::Update(update_statement) => {
                self.plan_update_statement(update_statement)
            },
        }
    }

    fn plan_select_statement(&self, select_statement: &BoundSelectStatementAST) -> (r: Plan)
        ensures
            is_select_plan_for(r, *select_statement),
    {
        let mut plan: Plan = self.plan_table_reference(&select_statement.table_reference);
        if let Some(condition) = &select_statement.condition {
            plan = Plan::Filter(FilterPlan {
                condition: condition.clone(),
                schema: plan.schema().clone(),
                child: Box::new(plan),
            });
        }
        if select_statement.select_elements.len() > 0 {
            let mut columns: Vec<Column> = Vec::new();
            let n: usize = select_statement.select_elements.len();
            let mut i: usize = 0;
            while i < n
                invariant
                    n == select_statement.select_elements@.len(),
                    i <= n,
                    columns@.len() == i,
                    forall|k: int|
                        0 <= k < i ==> column_view(#[trigger] columns@[k]) == (
                        select_statement.select_elements@[k].name@,
                        spec_data_type(select_statement.select_elements@[k].expression),
                        ),
                decreases n - i,
            {
                let element = &select_statement.select_elements[i];
                columns.push(
                    Column { name: element.name.clone(), data_type: element.expression.data_type() },
                );
                i = i + 1;
            }
            let schema = Schema { columns };
            proof {
                assert(schema_view(schema) =~= select_statement.select_elements@.map(
                    |k: int, el: BoundSelectElementAST| (el.name@, spec_data_type(el.expression)),
                ));
            }
            plan = Plan::Project(ProjectPlan {
                select_elements: clone_select_elements(&select_statement.select_elements),
                schema,
                child: Box::new(plan),
            });
        }
        plan
    }

    fn plan_table_reference(&self, table_reference: &BoundTableReferenceAST) -> (r: Plan)
        ensures
            ({
                let BoundTableReferenceAST::Base(t) = *table_reference;
                is_scan_of(r, t)
            }),
    {
        match table_reference {
            BoundTableReferenceAST::Base(table_reference) => {
                self.plan_base_table_reference(table_reference)
            },
        }
    }

    fn plan_base_table_reference(&self, table_reference: &BoundBaseTableReferenceAST) -> (r: Plan)
        ensures
            is_scan_of(r, *table_reference),
    {
        Plan::SeqScan(
            SeqScanPlan {
                first_page_id: table_reference.first_page_id,
                schema: table_reference.schema.clone(),
            },
        )
    }

    fn plan_insert_statement(&self, insert_statement: &BoundInsertStatementAST) -> (r: Plan)
        ensures
            is_insert_plan_for(r, *insert_statement),
    {
        Plan::Insert(
            InsertPlan {
                first_page_id: insert_statement.first_page_id,
                values: clone_expressions(&insert_statement.values),
                schema: Schema::count_schema("__insert_count"),
            },
        )
    }

    fn plan_delete_statement(&self, delete_statement: &BoundDeleteStatementAST) -> (r: Plan)
        ensures
            is_delete_plan_for(r, *delete_statement),
    {
        let mut plan: Plan = self.plan_base_table_reference(&delete_statement.table_reference);
        let first_page_id: PageID = match &plan {
            Plan::SeqScan(scan) => scan.first_page_id,
            _ => delete_statement.table_reference.first_page_id,
        };
        if let Some(condition) = &delete_statement.condition {
            plan = Plan::Filter(FilterPlan {
                condition: condition.clone(),
                schema: plan.schema().clone(),
                child: Box::new(plan),
            });
        }
        Plan::Delete(
            DeletePlan {
                first_page_id,
                schema: Schema::count_schema("__delete_count"),
                child: Box::new(plan),
            },
        )
    }

    fn plan_update_statement(&self, update_statement: &BoundUpdateStatementAST) -> (r: Plan)
        ensures
            is_update_plan_for(r, *update_statement),
    {
        let mut plan: Plan = self.plan_base_table_reference(&update_statement.table_reference);
        let first_page_id: PageID = match &plan {
            Plan::SeqScan(scan) => scan.first_page_id,
            _ => update_statement.table_reference.first_page_id,
        };
        if let Some(condition) = &update_statement.condition {
            plan = Plan::Filter(FilterPlan {
                condition: condition.clone(),
                schema: plan.schema().clone(),
                child: Box::new(plan),
            });
        }
        Plan::Update(
            UpdatePlan {
                first_page_id,
                assignments: clone_assignments(&update_statement.assignments),
                schema: Schema::count_schema("__update_count"),
                child: Box::new(plan),
            },
        )
    }
}

} // verus!
