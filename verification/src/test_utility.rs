//! Shorthand constructors for intermediate query trees, mirroring the
//! clauses of a SELECT statement one small function at a time.

use vstd::prelude::*;

use crate::identifier::Identifier;
use crate::intermediate_ast::AggExpr;
use crate::intermediate_ast::AliasedResultExpr;
use crate::intermediate_ast::BinaryOperator;
use crate::intermediate_ast::Expression;
use crate::intermediate_ast::Literal;
use crate::intermediate_ast::OrderBy;
use crate::intermediate_ast::OrderByDirection;
use crate::intermediate_ast::ResultExpr;
use crate::intermediate_ast::SelectResultExpr;
use crate::intermediate_ast::SelectStatement;
use crate::intermediate_ast::SetExpression;
use crate::intermediate_ast::Slice;
use crate::intermediate_ast::TableExpression;
use crate::intermediate_ast::UnaryOperator;

verus! {

/// The shape of an aliased result column over a plain column reference.
pub open spec fn is_col_res(e: SelectResultExpr, name: Seq<char>, alias: Seq<char>) -> bool {
    &&& e matches SelectResultExpr::AliasedResultExpr(a)
    &&& a.alias@ == alias
    &&& a.expr matches ResultExpr::NonAgg(b)
    &&& (*b) matches Expression::Column(c)
    &&& c@ == name
}

/// The shape of an aliased aggregate result column over a column reference.
pub open spec fn is_agg_res(
    e: SelectResultExpr,
    agg: AggExpr,
    name: Seq<char>,
    alias: Seq<char>,
) -> bool {
    &&& e matches SelectResultExpr::AliasedResultExpr(a)
    &&& a.alias@ == alias
    &&& a.expr matches ResultExpr::Agg(g)
    &&& g == agg
    &&& match agg {
        AggExpr::Max(b) => (*b) matches Expression::Column(c) && c@ == name,
        AggExpr::Min(b) => (*b) matches Expression::Column(c) && c@ == name,
        AggExpr::Sum(b) => (*b) matches Expression::Column(c) && c@ == name,
        AggExpr::Count(b) => (*b) matches Expression::Column(c) && c@ == name,
        AggExpr::CountALL => true,
    }
}

/// An equality test between a named column and a literal.
pub fn equal(name: &str, literal: Literal) -> (r: Box<Expression>)
    ensures
        (*r) matches Expression::Binary { op: BinaryOperator::Equal, left, right }
            && ((*left) matches Expression::Column(c) && c@ == name@) && (*right)
            == Expression::Literal(literal),
{
    Box::new(
        Expression::Binary {
            op: BinaryOperator::Equal,
            left: Box::new(Expression::Column(Identifier::new(name))),
            right: Box::new(Expression::Literal(literal)),
        },
    )
}

/// Logical negation of a predicate.
pub fn not(expr: Box<Expression>) -> (r: Box<Expression>)
    ensures
        (*r) matches Expression::Unary { op: UnaryOperator::Not, expr: e } && e == expr,
{
    Box::new(Expression::Unary { op: UnaryOperator::Not, expr })
}

/// Conjunction of two predicates.
pub fn and(left: Box<Expression>, right: Box<Expression>) -> (r: Box<Expression>)
    ensures
        (*r) matches Expression::Binary { op: BinaryOperator::And, left: l, right: rr } && l
            == left && rr == right,
{
    Box::new(Expression::Binary { op: BinaryOperator::And, left, right })
}

/// Disjunction of two predicates.
pub fn or(left: Box<Expression>, right: Box<Expression>) -> (r: Box<Expression>)
    ensures
        (*r) matches Expression::Binary { op: BinaryOperator::Or, left: l, right: rr } && l == left
            && rr == right,
{
    Box::new(Expression::Binary { op: BinaryOperator::Or, left, right })
}

/// A FROM-clause table, optionally schema-qualified.
pub fn tab(schema: Option<&str>, name: &str) -> (r: Box<TableExpression>)
    ensures
        (*r) matches TableExpression::Named { table, schema: sc } && table@ == name@ && (
        match schema {
            Some(s) => sc matches Some(x) && x@ == s@,
            None => sc is None,
        }),
{
    let sc = match schema {
        Some(s) => Some(Identifier::new(s)),
        None => None,
    };
    Box::new(TableExpression::Named { table: Identifier::new(name), schema: sc })
}

/// A bare column reference.
pub fn col(name: &str) -> (r: Box<Expression>)
    ensures
        (*r) matches Expression::Column(c) && c@ == name@,
{
    Box::new(Expression::Column(Identifier::new(name)))
}

/// A bare literal.
pub fn lit(literal: Literal) -> (r: Box<Expression>)
    ensures
        (*r) == Expression::Literal(literal),
{
    Box::new(Expression::Literal(literal))
}

/// `SELECT *`.
pub fn col_res_all() -> (r: SelectResultExpr)
    ensures
        r == SelectResultExpr::ALL,
{
    SelectResultExpr::ALL
}

/// A column selected under an alias.
pub fn col_res(name: &str, alias: &str) -> (r: SelectResultExpr)
    ensures
        is_col_res(r, name@, alias@),
{
    SelectResultExpr::AliasedResultExpr(
        AliasedResultExpr {
            expr: ResultExpr::NonAgg(Box::new(Expression::Column(Identifier::new(name)))),
            alias: Identifier::new(alias),
        },
    )
}

/// Each named column selected under its own name.
pub fn cols_res(names: &[&str]) -> (r: Vec<SelectResultExpr>)
    ensures
        r@.len() == names@.len(),
        forall|i: int| 0 <= i < names@.len() ==> is_col_res(#[trigger] r@[i], names@[i]@, names@[i]@),
{
    let mut r: Vec<SelectResultExpr> = Vec::new();
    let n = names.len();
    let mut i: usize = 0;
    while i < n
        invariant
            i <= n,
            n == names@.len(),
            r@.len() == i,
            forall|k: int| 0 <= k < i ==> is_col_res(#[trigger] r@[k], names@[k]@, names@[k]@),
        decreases n - i,
    {
        r.push(col_res(names[i], names[i]));
        i = i + 1;
    }
    r
}

/// `MIN(column) AS alias`.
pub fn min_res(name: &str, alias: &str) -> (r: SelectResultExpr)
    ensures
        exists|g: AggExpr| is_agg_res(r, g, name@, alias@) && g is Min,
{
    let g = AggExpr::Min(Box::new(Expression::Column(Identifier::new(name))));
    let ghost gw = g;
    let r = SelectResultExpr::AliasedResultExpr(
        AliasedResultExpr { expr: ResultExpr::Agg(g), alias: Identifier::new(alias) },
    );
    proof {
        assert(is_agg_res(r, gw, name@, alias@) && gw is Min);
    }
    r
}

/// `MAX(column) AS alias`.
pub fn max_res(name: &str, alias: &str) -> (r: SelectResultExpr)
    ensures
        exists|g: AggExpr| is_agg_res(r, g, name@, alias@) && g is Max,
{
    let g = AggExpr::Max(Box::new(Expression::Column(Identifier::new(name))));
    let ghost gw = g;
    let r = SelectResultExpr::AliasedResultExpr(
        AliasedResultExpr { expr: ResultExpr::Agg(g), alias: Identifier::new(alias) },
    );
    proof {
        assert(is_agg_res(r, gw, name@, alias@) && gw is Max);
    }
    r
}

/// `SUM(column) AS alias`.
pub fn sum_res(name: &str, alias: &str) -> (r: SelectResultExpr)
    ensures
        exists|g: AggExpr| is_agg_res(r, g, name@, alias@) && g is Sum,
{
    let g = AggExpr::Sum(Box::new(Expression::Column(Identifier::new(name))));
    let ghost gw = g;
    let r = SelectResultExpr::AliasedResultExpr(
        AliasedResultExpr { expr: ResultExpr::Agg(g), alias: Identifier::new(alias) },
    );
    proof {
        assert(is_agg_res(r, gw, name@, alias@) && gw is Sum);
    }
    r
}

/// `COUNT(column) AS alias`.
pub fn count_res(name: &str, alias: &str) -> (r: SelectResultExpr)
    ensures
        exists|g: AggExpr| is_agg_res(r, g, name@, alias@) && g is Count,
{
    let g = AggExpr::Count(Box::new(Expression::Column(Identifier::new(name))));
    let ghost gw = g;
    let r = SelectResultExpr::AliasedResultExpr(
        AliasedResultExpr { expr: ResultExpr::Agg(g), alias: Identifier::new(alias) },
    );
    proof {
        assert(is_agg_res(r, gw, name@, alias@) && gw is Count);
    }
    r
}

/// `COUNT(*) AS alias`.
pub fn count_all_res(alias: &str) -> (r: SelectResultExpr)
    ensures
        is_agg_res(r, AggExpr::CountALL, alias@, alias@),
{
    SelectResultExpr::AliasedResultExpr(
        AliasedResultExpr { expr: ResultExpr::Agg(AggExpr::CountALL), alias: Identifier::new(alias) },
    )
}

/// A query body with a WHERE clause.
pub fn query(
    result_columns: Vec<SelectResultExpr>,
    tab: Box<TableExpression>,
    where_expr: Box<Expression>,
    group_by: Vec<Identifier>,
) -> (r: Box<SetExpression>)
    ensures
        (*r) matches SetExpression::Query {
            result_columns: rc,
            from,
            where_expr: w,
            group_by: g,
        } && rc == result_columns && from@.len() == 1 && from@[0] == tab && (w matches Some(we)
            && we == where_expr) && g == group_by,
{
    let mut from: Vec<Box<TableExpression>> = Vec::new();
    from.push(tab);
    Box::new(
        SetExpression::Query { result_columns, from, where_expr: Some(where_expr), group_by },
    )
}

/// A query body with no WHERE clause.
pub fn query_all(
    result_columns: Vec<SelectResultExpr>,
    tab: Box<TableExpression>,
    group_by: Vec<Identifier>,
) -> (r: Box<SetExpression>)
    ensures
        (*r) matches SetExpression::Query {
            result_columns: rc,
            from,
            where_expr: w,
            group_by: g,
        } && rc == result_columns && from@.len() == 1 && from@[0] == tab && w is None && g
            == group_by,
{
    let mut from: Vec<Box<TableExpression>> = Vec::new();
    from.push(tab);
    Box::new(SetExpression::Query { result_columns, from, where_expr: None, group_by })
}

/// A full SELECT statement.
pub fn select(expr: Box<SetExpression>, order_by: Vec<OrderBy>, slice: Option<Slice>) -> (r:
    SelectStatement)
    ensures
        r.expr == expr,
        r.order_by == order_by,
        r.slice == slice,
{
    SelectStatement { expr, order_by, slice }
}

/// A single ORDER BY key.
pub fn order(id: &str, direction: OrderByDirection) -> (r: Vec<OrderBy>)
    ensures
        r@.len() == 1,
        r@[0].expr@ == id@,
        r@[0].direction == direction,
{
    let mut r: Vec<OrderBy> = Vec::new();
    r.push(OrderBy { expr: Identifier::new(id), direction });
    r
}

/// ORDER BY keys zipped with their directions; extra entries on either
/// side are dropped.
pub fn orders(ids: &[&str], directions: &[OrderByDirection]) -> (r: Vec<OrderBy>)
    ensures
        r@.len() == vstd::math::min(ids@.len() as int, directions@.len() as int),
        forall|i: int| 0 <= i < r@.len() ==> (#[trigger] r@[i]).expr@ == ids@[i]@ && r@[i].direction
            == directions@[i],
{
    let mut r: Vec<OrderBy> = Vec::new();
    let n = if ids.len() < directions.len() {
        ids.len()
    } else {
        directions.len()
    };
    let mut i: usize = 0;
    while i < n
        invariant
            i <= n,
            n <= ids@.len(),
            n <= directions@.len(),
            n == vstd::math::min(ids@.len() as int, directions@.len() as int),
            r@.len() == i,
            forall|k: int| 0 <= k < i ==> (#[trigger] r@[k]).expr@ == ids@[k]@ && r@[k].direction
                == directions@[k],
        decreases n - i,
    {
        r.push(OrderBy { expr: Identifier::new(ids[i]), direction: directions[i] });
        i = i + 1;
    }
    r
}

/// A LIMIT / OFFSET pair.
pub fn slice(number_rows: u64, offset_value: i64) -> (r: Option<Slice>)
    ensures
        r == Some(Slice { number_rows, offset_value }),
{
    Some(Slice { number_rows, offset_value })
}

/// GROUP BY keys from column names.
pub fn group_by(ids: &[&str]) -> (r: Vec<Identifier>)
    ensures
        r@.len() == ids@.len(),
        forall|i: int| 0 <= i < ids@.len() ==> (#[trigger] r@[i])@ == ids@[i]@,
{
    let mut r: Vec<Identifier> = Vec::new();
    let n = ids.len();
    let mut i: usize = 0;
    while i < n
        invariant
            i <= n,
            n == ids@.len(),
            r@.len() == i,
            forall|k: int| 0 <= k < i ==> (#[trigger] r@[k])@ == ids@[k]@,
        decreases n - i,
    {
        r.push(Identifier::new(ids[i]));
        i = i + 1;
    }
    r
}

} // verus!
