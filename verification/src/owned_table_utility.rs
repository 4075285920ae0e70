//! Shorthand constructors for owned tables and their columns.

use vstd::prelude::*;

use crate::database::ColModel;
use crate::database::OwnedColumn;
use crate::database::OwnedTable;
use crate::identifier::Identifier;
use crate::scalar::Scalar;

verus! {

/// A 64-bit integer column under a name.
pub fn bigint(name: &str, values: Vec<i64>) -> (r: (Identifier, OwnedColumn))
    ensures
        r.0@ == name@,
        r.1@ == ColModel::BigInt(values@),
{
    (Identifier::new(name), OwnedColumn::BigInt(values))
}

/// A 128-bit integer column under a name.
pub fn int128(name: &str, values: Vec<i128>) -> (r: (Identifier, OwnedColumn))
    ensures
        r.0@ == name@,
        r.1@ == ColModel::Int128(values@),
{
    (Identifier::new(name), OwnedColumn::Int128(values))
}

/// A string column under a name.
pub fn varchar(name: &str, values: Vec<String>) -> (r: (Identifier, OwnedColumn))
    ensures
        r.0@ == name@,
        r.1@ matches ColModel::VarChar(w) && w.len() == values@.len() && (forall|i: int|
            0 <= i < values@.len() ==> w[i] == values@[i]@),
{
    (Identifier::new(name), OwnedColumn::VarChar(values))
}

/// A field-element column under a name.
pub fn scalar(name: &str, values: Vec<Scalar>) -> (r: (Identifier, OwnedColumn))
    ensures
        r.0@ == name@,
        r.1@ == ColModel::Scalar(values@),
{
    (Identifier::new(name), OwnedColumn::Scalar(values))
}

/// A table from named columns, kept in the given order.
pub fn owned_table(columns: Vec<(Identifier, OwnedColumn)>) -> (r: OwnedTable)
    ensures
        r@.len() == columns@.len(),
        forall|i: int| 0 <= i < columns@.len() ==> #[trigger] r@[i] == (
        columns@[i].0@,
        columns@[i].1@,
        ),
{
    OwnedTable { columns }
}

} // verus!
