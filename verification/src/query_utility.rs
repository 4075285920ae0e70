//! Shorthand constructors for provable group-by queries: column
//! references resolved against an accessor, literals, filters, and the
//! assembled `GroupByExpr`.

use vstd::prelude::*;

use crate::database::ColumnType;
use crate::database::col_model_type;
use crate::database::col_of;
use crate::database::has_col;
use crate::group_by_expr::GroupByExpr;
use crate::group_by_expr::SumExpr;
use crate::identifier::Identifier;
use crate::identifier::TableRef;
use crate::owned_accessor::OwnedTableTestAccessor;
use crate::owned_accessor::acc_has;
use crate::owned_accessor::acc_table;
use crate::provable_expr::ColumnExpr;
use crate::provable_expr::LiteralValue;
use crate::provable_expr::ProvableExpr;

verus! {

/// A column reference with its type resolved through the accessor.
pub fn column(t: &TableRef, name: &str, accessor: &OwnedTableTestAccessor) -> (r: ProvableExpr)
    requires
        acc_has(accessor.tables@, t@),
        has_col(acc_table(accessor.tables@, t@), name@),
    ensures
        r matches ProvableExpr::Column(c) && c.column_id@ == name@ && c.column_type
            == col_model_type(col_of(acc_table(accessor.tables@, t@), name@)),
{
    let id = Identifier::new(name);
    match accessor.lookup_column(t, &id) {
        Some(ty) => ProvableExpr::Column(ColumnExpr { column_id: id, column_type: ty }),
        None => {
            proof {
                assert(false);
            }
            vstd::pervasive::unreached()
        },
    }
}

/// A 128-bit integer literal.
pub fn const_int128(v: i128) -> (r: ProvableExpr)
    ensures
        r matches ProvableExpr::Literal(l) && l matches LiteralValue::Int128(x) && x == v,
{
    ProvableExpr::Literal(LiteralValue::Int128(v))
}

/// A string literal.
pub fn const_varchar(s: &str) -> (r: ProvableExpr)
    ensures
        r matches ProvableExpr::Literal(l) && l matches LiteralValue::VarChar(x) && x@ == s@,
{
    ProvableExpr::Literal(LiteralValue::VarChar(s.to_owned()))
}

/// An equality test between two provable expressions.
pub fn equal(left: ProvableExpr, right: ProvableExpr) -> (r: ProvableExpr)
    ensures
        r matches ProvableExpr::Equal(l, rr) && (*l) == left && (*rr) == right,
{
    ProvableExpr::Equal(Box::new(left), Box::new(right))
}

/// A conjunction of two provable filters.
pub fn and(left: ProvableExpr, right: ProvableExpr) -> (r: ProvableExpr)
    ensures
        r matches ProvableExpr::And(l, rr) && (*l) == left && (*rr) == right,
{
    ProvableExpr::And(Box::new(left), Box::new(right))
}

/// The source table of a query.
pub fn tab(t: &TableRef) -> (r: TableRef)
    ensures
        r@ == t@,
{
    t.clone_ref()
}

/// Typed column references for a list of names, resolved through the
/// accessor.
pub fn cols_expr(t: &TableRef, names: &[&str], accessor: &OwnedTableTestAccessor) -> (r: Vec<
    ColumnExpr,
>)
    requires
        acc_has(accessor.tables@, t@),
        forall|k: int| 0 <= k < names@.len() ==> has_col(
            acc_table(accessor.tables@, t@),
            names@[k]@,
        ),
    ensures
        r@.len() == names@.len(),
        forall|k: int| 0 <= k < names@.len() ==> (#[trigger] r@[k]).column_id@ == names@[k]@
            && r@[k].column_type == col_model_type(
            col_of(acc_table(accessor.tables@, t@), names@[k]@),
        ),
{
    let mut r: Vec<ColumnExpr> = Vec::new();
    let n = names.len();
    let mut k: usize = 0;
    while k < n
        invariant
            k <= n,
            n == names@.len(),
            acc_has(accessor.tables@, t@),
            forall|m: int| 0 <= m < names@.len() ==> has_col(
                acc_table(accessor.tables@, t@),
                names@[m]@,
            ),
            r@.len() == k,
            forall|m: int| 0 <= m < k ==> (#[trigger] r@[m]).column_id@ == names@[m]@
                && r@[m].column_type == col_model_type(
                col_of(acc_table(accessor.tables@, t@), names@[m]@),
            ),
        decreases n - k,
    {
        let id = Identifier::new(names[k]);
        match accessor.lookup_column(t, &id) {
            Some(ty) => {
                r.push(ColumnExpr { column_id: id, column_type: ty });
            },
            None => {
                proof {
                    assert(false);
                }
                vstd::pervasive::unreached()
            },
        }
        k = k + 1;
    }
    r
}

/// SUM aggregates for a list of columns, each under its alias and with
/// its declared result type.
pub fn sums_expr(
    t: &TableRef,
    names: &[&str],
    aliases: &[&str],
    types: &[ColumnType],
    accessor: &OwnedTableTestAccessor,
) -> (r: Vec<SumExpr>)
    requires
        acc_has(accessor.tables@, t@),
        aliases@.len() == names@.len(),
        types@.len() == names@.len(),
        forall|k: int| 0 <= k < names@.len() ==> has_col(
            acc_table(accessor.tables@, t@),
            names@[k]@,
        ),
    ensures
        r@.len() == names@.len(),
        forall|k: int| 0 <= k < names@.len() ==> (#[trigger] r@[k]).column.column_id@ == names@[k]@
            && r@[k].column.column_type == col_model_type(
            col_of(acc_table(accessor.tables@, t@), names@[k]@),
        ) && r@[k].alias@ == aliases@[k]@ && r@[k].result_type == types@[k],
{
    let mut r: Vec<SumExpr> = Vec::new();
    let n = names.len();
    let mut k: usize = 0;
    while k < n
        invariant
            k <= n,
            n == names@.len(),
            aliases@.len() == n,
            types@.len() == n,
            acc_has(accessor.tables@, t@),
            forall|m: int| 0 <= m < names@.len() ==> has_col(
                acc_table(accessor.tables@, t@),
                names@[m]@,
            ),
            r@.len() == k,
            forall|m: int| 0 <= m < k ==> (#[trigger] r@[m]).column.column_id@ == names@[m]@
                && r@[m].column.column_type == col_model_type(
                col_of(acc_table(accessor.tables@, t@), names@[m]@),
            ) && r@[m].alias@ == aliases@[m]@ && r@[m].result_type == types@[m],
        decreases n - k,
    {
        let id = Identifier::new(names[k]);
        match accessor.lookup_column(t, &id) {
            Some(ty) => {
                r.push(
                    SumExpr {
                        column: ColumnExpr { column_id: id, column_type: ty },
                        alias: Identifier::new(aliases[k]),
                        result_type: types[k],
                    },
                );
            },
            None => {
                proof {
                    assert(false);
                }
                vstd::pervasive::unreached()
            },
        }
        k = k + 1;
    }
    r
}

/// Assemble a group-by query.
pub fn group_by(
    group_by_exprs: Vec<ColumnExpr>,
    sum_expr: Vec<SumExpr>,
    count_alias: &str,
    table: TableRef,
    where_clause: ProvableExpr,
) -> (r: GroupByExpr)
    ensures
        r.group_by_exprs == group_by_exprs,
        r.sum_expr == sum_expr,
        r.count_alias@ == count_alias@,
        r.table == table,
        r.where_clause == where_clause,
{
    GroupByExpr {
        group_by_exprs,
        sum_expr,
        count_alias: Identifier::new(count_alias),
        table,
        where_clause,
    }
}

} // verus!
