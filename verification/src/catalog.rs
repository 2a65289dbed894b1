//! Schemas, columns and runtime values.
//!
//! Rows are sequences of integer columns; a schema names each column and
//! gives its type. The schema view (`schema_view`) is the mathematical
//! shape contracts speak of: the sequence of (name, type) pairs.

use vstd::prelude::*;

verus! {

#[derive(Clone, Copy, Debug, PartialEq, Eq, Structural)]
pub enum DataType {
    Int,
    Boolean,
}

/// A runtime value an expression can evaluate to.
#[derive(Clone, Copy, Debug, PartialEq, Eq, Structural)]
pub enum Value {
    Int(u32),
    Boolean(bool),
}

pub struct Column {
    pub name: String,
    pub data_type: DataType,
}

impl Column {
    pub fn clone(&self) -> (r: Self)
        ensures
            r.name@ == self.name@,
            r.data_type == self.data_type,
    {
        Column { name: self.name.clone(), data_type: self.data_type }
    }
}

pub struct Schema {
    pub columns: Vec<Column>,
}

/// The mathematical shape of a column: its name and type.
pub open spec fn column_view(c: Column) -> (Seq<char>, DataType) {
    (c.name@, c.data_type)
}

/// The mathematical shape of a schema.
pub open spec fn schema_view(s: Schema) -> Seq<(Seq<char>, DataType)> {
    s.columns@.map(|i: int, c: Column| column_view(c))
}

/// A schema of exactly one column with the given name and the `Int` type —
/// the shape every mutation plan's result schema has.
pub open spec fn is_count_schema(s: Schema, name: Seq<char>) -> bool {
    &&& s.columns@.len() == 1
    &&& s.columns@[0].name@ == name
    &&& s.columns@[0].data_type == DataType::Int
}

impl Schema {
    pub fn clone(&self) -> (r: Self)
        ensures
            schema_view(r) == schema_view(*self),
            r.columns@.len() == self.columns@.len(),
    {
        let mut columns: Vec<Column> = Vec::new();
        let n: usize = self.columns.len();
        let mut i: usize = 0;
        while i < n
            invariant
                n == self.columns@.len(),
                i <= n,
                columns@.len() == i,
                forall|k: int|
                    0 <= k < i ==> column_view(#[trigger] columns@[k]) == column_view(
                        self.columns@[k],
                    ),
            decreases n - i,
        {
            columns.push(self.columns[i].clone());
            i = i + 1;
        }
        let r = Schema { columns };
        proof {
            assert(schema_view(r) =~= schema_view(*self));
        }
        r
    }

    /// Build the one-column `Int` schema a mutation plan reports its row
    /// count through.
    pub fn count_schema(name: &str) -> (r: Schema)
        ensures
            is_count_schema(r, name@),
    {
        let mut columns: Vec<Column> = Vec::new();
        columns.push(Column { name: name.to_owned(), data_type: DataType::Int });
        Schema { columns }
    }
}

} // verus!
