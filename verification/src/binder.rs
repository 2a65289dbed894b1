//! Bound statements: the resolved ASTs the planner lowers.
//!
//! Expressions are a small language over a row's integer columns: literals,
//! column references and equality. `spec_eval` is the mathematical meaning
//! of an expression against a decoded row; `evaluate` is proved against it.
//! A `None` result is a type error (or an out-of-range column), which is
//! fatal for the statement.

use vstd::prelude::*;

verus! {

use crate::catalog::Schema;
use crate::catalog::Value;
use crate::catalog::DataType;
use crate::codec::get_u32;
use crate::codec::read_u32;
use crate::common::PageID;
use crate::tuple::TUPLE_HEADER_SIZE;

/// The integer columns of a tuple image: fixed-width `u32`s, little-endian,
/// following the MVCC header.
pub open spec fn row_values(t: Seq<u8>) -> Seq<u32> {
    if t.len() < TUPLE_HEADER_SIZE {
        Seq::empty()
    } else {
        Seq::new(
            ((t.len() - TUPLE_HEADER_SIZE) / 4) as nat,
            |i: int| read_u32(t, TUPLE_HEADER_SIZE + 4 * i),
        )
    }
}

/// A bound expression over the current row.
pub enum BoundExpressionAST {
    Literal(Value),
    ColumnRef(usize),
    BinaryEq(Box<BoundExpressionAST>, Box<BoundExpressionAST>),
}

/// The meaning of an expression against a decoded row; `None` is a type
/// error or an out-of-range column.
pub open spec fn spec_eval(e: BoundExpressionAST, row: Seq<u32>) -> Option<Value>
    decreases e,
{
    match e {
        BoundExpressionAST::Literal(v) => Some(v),
        BoundExpressionAST::ColumnRef(i) => if i < row.len() {
            Some(Value::Int(row[i as int]))
        } else {
            None
        },
        BoundExpressionAST::BinaryEq(l, r) => match (spec_eval(*l, row), spec_eval(*r, row)) {
            (Some(Value::Int(a)), Some(Value::Int(b))) => Some(Value::Boolean(a == b)),
            (Some(Value::Boolean(a)), Some(Value::Boolean(b))) => Some(Value::Boolean(a == b)),
            _ => None,
        },
    }
}

/// The static type of an expression (every column is `Int`).
pub open spec fn spec_data_type(e: BoundExpressionAST) -> DataType
    decreases e,
{
    match e {
        BoundExpressionAST::Literal(Value::Int(_)) => DataType::Int,
        BoundExpressionAST::Literal(Value::Boolean(_)) => DataType::Boolean,
        BoundExpressionAST::ColumnRef(_) => DataType::Int,
        BoundExpressionAST::BinaryEq(_, _) => DataType::Boolean,
    }
}

impl BoundExpressionAST {
    pub fn clone(&self) -> (r: Self)
        ensures
            r == *self,
        decreases self,
    {
        match self {
            BoundExpressionAST::Literal(v) => BoundExpressionAST::Literal(*v),
            BoundExpressionAST::ColumnRef(i) => BoundExpressionAST::ColumnRef(*i),
            BoundExpressionAST::BinaryEq(l, r) => BoundExpressionAST::BinaryEq(
                Box::new((**l).clone()),
                Box::new((**r).clone()),
            ),
        }
    }

    pub fn data_type(&self) -> (r: DataType)
        ensures
            r == spec_data_type(*self),
    {
        match self {
            BoundExpressionAST::Literal(Value::Int(_)) => DataType::Int,
            BoundExpressionAST::Literal(Value::Boolean(_)) => DataType::Boolean,
            BoundExpressionAST::ColumnRef(_) => DataType::Int,
            BoundExpressionAST::BinaryEq(_, _) => DataType::Boolean,
        }
    }

    /// Evaluate against the tuple image `data` (MVCC header included).
    pub fn evaluate(&self, data: &Vec<u8>) -> (r: Option<Value>)
        requires
            data@.len() >= TUPLE_HEADER_SIZE,
        ensures
            r == spec_eval(*self, row_values(data@)),
        decreases self,
    {
        match self {
            BoundExpressionAST::Literal(v) => Some(*v),
            BoundExpressionAST::ColumnRef(i) => {
                let arity: usize = (data.len() - TUPLE_HEADER_SIZE) / 4;
                if *i < arity {
                    proof {
                        vstd::arithmetic::div_mod::lemma_fundamental_div_mod(
                            data@.len() - TUPLE_HEADER_SIZE,
                            4,
                        );
                        assert(4 * (*i as int) + 4 <= 4 * (arity as int)) by (nonlinear_arith)
                            requires
                                (*i as int) < arity as int,
                        ;
                    }
                    Some(Value::Int(get_u32(data, TUPLE_HEADER_SIZE + 4 * *i)))
                } else {
                    None
                }
            },
            BoundExpressionAST::BinaryEq(l, r) => {
                let lv = l.evaluate(data);
                let rv = r.evaluate(data);
                match (lv, rv) {
                    (Some(Value::Int(a)), Some(Value::Int(b))) => Some(Value::Boolean(a == b)),
                    (Some(Value::Boolean(a)), Some(Value::Boolean(b))) => Some(
                        Value::Boolean(a == b),
                    ),
                    _ => None,
                }
            },
        }
    }
}

pub struct BoundBaseTableReferenceAST {
    pub first_page_id: PageID,
    pub schema: Schema,
}

pub enum BoundTableReferenceAST {
    Base(BoundBaseTableReferenceAST),
}

pub struct BoundSelectElementAST {
    pub expression: BoundExpressionAST,
    pub name: String,
}

impl BoundSelectElementAST {
    pub fn clone(&self) -> (r: Self)
        ensures
            r == *self,
    {
        BoundSelectElementAST { expression: self.expression.clone(), name: self.name.clone() }
    }
}

pub struct BoundSelectStatementAST {
    pub table_reference: BoundTableReferenceAST,
    pub select_elements: Vec<BoundSelectElementAST>,
    pub condition: Option<BoundExpressionAST>,
}

pub struct BoundInsertStatementAST {
    pub first_page_id: PageID,
    pub values: Vec<BoundExpressionAST>,
}

pub struct BoundDeleteStatementAST {
    pub table_reference: BoundBaseTableReferenceAST,
    pub condition: Option<BoundExpressionAST>,
}

pub struct BoundAssignmentAST {
    pub column_index: usize,
    pub expression: BoundExpressionAST,
}

impl BoundAssignmentAST {
    pub fn clone(&self) -> (r: Self)
        ensures
            r == *self,
    {
        BoundAssignmentAST {
            column_index: self.column_index,
            expression: self.expression.clone(),
        }
    }
}

pub struct BoundUpdateStatementAST {
    pub table_reference: BoundBaseTableReferenceAST,
    pub assignments: Vec<BoundAssignmentAST>,
    pub condition: Option<BoundExpressionAST>,
}

pub enum BoundStatementAST {
    Select(BoundSelectStatementAST),
    Insert(BoundInsertStatementAST),
    Delete(BoundDeleteStatementAST),
    Update(BoundUpdateStatementAST),
}

/// Clone an optional condition expression.
pub fn clone_condition(c: &Option<BoundExpressionAST>) -> (r: Option<BoundExpressionAST>)
    ensures
        r == *c,
{
    match c {
        None => None,
        Some(e) => Some(e.clone()),
    }
}

/// Clone a list of expressions.
pub fn clone_expressions(v: &Vec<BoundExpressionAST>) -> (r: Vec<BoundExpressionAST>)
    ensures
        r@ == v@,
{
    let mut r: Vec<BoundExpressionAST> = Vec::new();
    let n: usize = v.len();
    let mut i: usize = 0;
    while i < n
        invariant
            n == v@.len(),
            i <= n,
            r@ == v@.subrange(0, i as int),
        decreases n - i,
    {
        r.push(v[i].clone());
        proof {
            assert(v@.subrange(0, i as int).push(v@[i as int]) =~= v@.subrange(0, i + 1));
        }
        i = i + 1;
    }
    proof {
        assert(v@.subrange(0, n as int) =~= v@);
    }
    r
}

/// Clone a list of select elements.
pub fn clone_select_elements(v: &Vec<BoundSelectElementAST>) -> (r: Vec<BoundSelectElementAST>)
    ensures
        r@ == v@,
{
    let mut r: Vec<BoundSelectElementAST> = Vec::new();
    let n: usize = v.len();
    let mut i: usize = 0;
    while i < n
        invariant
            n == v@.len(),
            i <= n,
            r@ == v@.subrange(0, i as int),
        decreases n - i,
    {
        r.push(v[i].clone());
        proof {
            assert(v@.subrange(0, i as int).push(v@[i as int]) =~= v@.subrange(0, i + 1));
        }
        i = i + 1;
    }
    proof {
        assert(v@.subrange(0, n as int) =~= v@);
    }
    r
}

/// Clone a list of assignments.
pub fn clone_assignments(v: &Vec<BoundAssignmentAST>) -> (r: Vec<BoundAssignmentAST>)
    ensures
        r@ == v@,
{
    let mut r: Vec<BoundAssignmentAST> = Vec::new();
    let n: usize = v.len();
    let mut i: usize = 0;
    while i < n
        invariant
            n == v@.len(),
            i <= n,
            r@ == v@.subrange(0, i as int),
        decreases n - i,
    {
        r.push(v[i].clone());
        proof {
            assert(v@.subrange(0, i as int).push(v@[i as int]) =~= v@.subrange(0, i + 1));
        }
        i = i + 1;
    }
    proof {
        assert(v@.subrange(0, n as int) =~= v@);
    }
    r
}


/// The row image of a sequence of integer column values: each value as four
/// little-endian bytes, in order.
pub open spec fn encode_row(vals: Seq<u32>) -> Seq<u8>
    decreases vals.len(),
{
    if vals.len() == 0 {
        Seq::empty()
    } else {
        encode_row(vals.drop_last()) + vstd::bytes::spec_u32_to_le_bytes(vals.last())
    }
}

/// The column values a list of insert expressions evaluates to, with no
/// input row; `None` when any expression is not an integer.
pub open spec fn eval_values(es: Seq<BoundExpressionAST>) -> Option<Seq<u32>>
    decreases es.len(),
{
    if es.len() == 0 {
        Some(Seq::empty())
    } else {
        match (eval_values(es.drop_last()), spec_eval(es.last(), Seq::empty())) {
            (Some(rest), Some(Value::Int(v))) => Some(rest.push(v)),
            _ => None,
        }
    }
}

/// When a value list evaluates, each of its expressions evaluates to the
/// integer at its position, and the result has one value per expression.
pub proof fn lemma_eval_values_index(es: Seq<BoundExpressionAST>, k: int)
    requires
        eval_values(es) is Some,
        0 <= k < es.len(),
    ensures
        eval_values(es).unwrap().len() == es.len(),
        spec_eval(es[k], Seq::empty()) == Some(
            Value::Int(eval_values(es).unwrap()[k]),
        ),
    decreases es.len(),
{
    lemma_eval_values_len(es);
    if k == es.len() - 1 {
    } else {
        lemma_eval_values_index(es.drop_last(), k);
        assert(es.drop_last()[k] == es[k]);
    }
}

/// A value list that evaluates yields one value per expression.
pub proof fn lemma_eval_values_len(es: Seq<BoundExpressionAST>)
    requires
        eval_values(es) is Some,
    ensures
        eval_values(es).unwrap().len() == es.len(),
    decreases es.len(),
{
    if es.len() > 0 {
        lemma_eval_values_len(es.drop_last());
    }
}


/// The row an update writes: each assignment's expression is evaluated
/// against the original row and stored at its column; `None` when an
/// expression is not an integer or a column is out of range.
pub open spec fn apply_assignments(asgs: Seq<BoundAssignmentAST>, row: Seq<u32>) -> Option<Seq<u32>>
    decreases asgs.len(),
{
    if asgs.len() == 0 {
        Some(row)
    } else {
        match (apply_assignments(asgs.drop_last(), row), spec_eval(
            asgs.last().expression,
            row,
        )) {
            (Some(acc), Some(Value::Int(v))) => if asgs.last().column_index < acc.len() {
                Some(acc.update(asgs.last().column_index as int, v))
            } else {
                None
            },
            _ => None,
        }
    }
}

/// Applying assignments keeps the row's arity.
pub proof fn lemma_apply_assignments_len(asgs: Seq<BoundAssignmentAST>, row: Seq<u32>)
    requires
        apply_assignments(asgs, row) is Some,
    ensures
        apply_assignments(asgs, row).unwrap().len() == row.len(),
    decreases asgs.len(),
{
    if asgs.len() > 0 {
        lemma_apply_assignments_len(asgs.drop_last(), row);
    }
}


/// An encoded row is four bytes per value.
pub proof fn lemma_encode_row_len(vals: Seq<u32>)
    ensures
        encode_row(vals).len() == 4 * vals.len(),
    decreases vals.len(),
{
    vstd::bytes::lemma_auto_spec_u32_to_from_le_bytes();
    if vals.len() > 0 {
        lemma_encode_row_len(vals.drop_last());
    }
}

/// The four bytes of column `i` in an encoded row are that value's
/// little-endian image.
pub proof fn lemma_encode_row_slice(vals: Seq<u32>, i: int)
    requires
        0 <= i < vals.len(),
    ensures
        encode_row(vals).subrange(4 * i, 4 * i + 4) == vstd::bytes::spec_u32_to_le_bytes(vals[i]),
    decreases vals.len(),
{
    lemma_encode_row_len(vals);
    lemma_encode_row_len(vals.drop_last());
    if i == vals.len() - 1 {
        assert(encode_row(vals).subrange(4 * i, 4 * i + 4)
            =~= vstd::bytes::spec_u32_to_le_bytes(vals[i]));
    } else {
        lemma_encode_row_slice(vals.drop_last(), i);
        assert(encode_row(vals).subrange(4 * i, 4 * i + 4) =~= encode_row(
            vals.drop_last(),
        ).subrange(4 * i, 4 * i + 4));
    }
}

/// Row codec round trip: the columns read back from a tuple image built
/// over an encoded row are exactly the encoded values.
pub proof fn lemma_row_values_of_encoded(xmin: u32, xmax: u32, vals: Seq<u32>)
    ensures
        row_values(crate::tuple::tuple_bytes(xmin, xmax, encode_row(vals))) == vals,
{
    vstd::bytes::lemma_auto_spec_u32_to_from_le_bytes();
    lemma_encode_row_len(vals);
    let t = crate::tuple::tuple_bytes(xmin, xmax, encode_row(vals));
    assert(t.len() == TUPLE_HEADER_SIZE + 4 * vals.len());
    vstd::arithmetic::div_mod::lemma_div_multiples_vanish(vals.len() as int, 4);
    assert(row_values(t).len() == vals.len());
    assert forall|i: int| 0 <= i < vals.len() implies row_values(t)[i] == vals[i] by {
        lemma_encode_row_slice(vals, i);
        assert(t.subrange(
            TUPLE_HEADER_SIZE + 4 * i,
            TUPLE_HEADER_SIZE + 4 * i + 4,
        ) =~= encode_row(vals).subrange(4 * i, 4 * i + 4));
    }
    assert(row_values(t) =~= vals);
}


/// A value stored into an output column: integers as themselves, booleans
/// as one or zero.
pub open spec fn value_as_column(v: Value) -> u32 {
    match v {
        Value::Int(x) => x,
        Value::Boolean(b) => if b {
            1
        } else {
            0
        },
    }
}

/// The output columns of a projection against a row; `None` when any
/// element's expression fails to evaluate.
pub open spec fn eval_elements(els: Seq<BoundSelectElementAST>, row: Seq<u32>) -> Option<Seq<u32>>
    decreases els.len(),
{
    if els.len() == 0 {
        Some(Seq::empty())
    } else {
        match (eval_elements(els.drop_last(), row), spec_eval(els.last().expression, row)) {
            (Some(rest), Some(v)) => Some(rest.push(value_as_column(v))),
            _ => None,
        }
    }
}

/// Every prefix of an element list that evaluates as a whole evaluates too.
pub proof fn lemma_eval_elements_some_prefix(
    els: Seq<BoundSelectElementAST>,
    row: Seq<u32>,
    k: int,
)
    requires
        eval_elements(els, row) is Some,
        0 <= k <= els.len(),
    ensures
        eval_elements(els.subrange(0, k), row) is Some,
    decreases els.len() - k,
{
    if k == els.len() {
        assert(els.subrange(0, k) =~= els);
    } else {
        lemma_eval_elements_some_prefix(els, row, k + 1);
        let s1 = els.subrange(0, k + 1);
        assert(s1.drop_last() =~= els.subrange(0, k));
    }
}

} // verus!
