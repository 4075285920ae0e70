//! The intermediate query tree: the already-parsed form of a SELECT
//! statement that a planner lowers onto the provable operators. Building
//! these nodes is ordinary tree construction; no proof logic lives here.

use vstd::prelude::*;

use crate::identifier::Identifier;

verus! {

/// A literal value appearing in a query.
#[derive(Clone, Debug, PartialEq, Eq)]
pub enum Literal {
    BigInt(i64),
    Int128(i128),
    VarChar(String),
}

#[derive(Clone, Copy, Debug, PartialEq, Eq, Structural)]
pub enum BinaryOperator {
    Equal,
    And,
    Or,
    Add,
    Subtract,
    Multiply,
}

#[derive(Clone, Copy, Debug, PartialEq, Eq, Structural)]
pub enum UnaryOperator {
    Not,
}

/// A boolean or arithmetic expression over columns and literals.
#[derive(Debug)]
pub enum Expression {
    Column(Identifier),
    Literal(Literal),
    Unary { op: UnaryOperator, expr: Box<Expression> },
    Binary { op: BinaryOperator, left: Box<Expression>, right: Box<Expression> },
}

/// An aggregate over an expression.
#[derive(Debug)]
pub enum AggExpr {
    Max(Box<Expression>),
    Min(Box<Expression>),
    Sum(Box<Expression>),
    Count(Box<Expression>),
    CountALL,
}

#[derive(Debug)]
pub enum ResultExpr {
    NonAgg(Box<Expression>),
    Agg(AggExpr),
}

/// A result column with its output alias.
#[derive(Debug)]
pub struct AliasedResultExpr {
    pub expr: ResultExpr,
    pub alias: Identifier,
}

#[derive(Debug)]
pub enum SelectResultExpr {
    ALL,
    AliasedResultExpr(AliasedResultExpr),
}

/// A table named in a FROM clause, with an optional schema qualifier.
#[derive(Debug)]
pub enum TableExpression {
    Named { table: Identifier, schema: Option<Identifier> },
}

#[derive(Clone, Copy, Debug, PartialEq, Eq, Structural)]
pub enum OrderByDirection {
    Asc,
    Desc,
}

#[derive(Debug)]
pub struct OrderBy {
    pub expr: Identifier,
    pub direction: OrderByDirection,
}

/// LIMIT / OFFSET bounds.
#[derive(Clone, Copy, Debug, PartialEq, Eq, Structural)]
pub struct Slice {
    pub number_rows: u64,
    pub offset_value: i64,
}

/// The body of a SELECT: result columns, sources, filter and grouping.
#[derive(Debug)]
pub enum SetExpression {
    Query {
        result_columns: Vec<SelectResultExpr>,
        from: Vec<Box<TableExpression>>,
        where_expr: Option<Box<Expression>>,
        group_by: Vec<Identifier>,
    },
}

/// A complete SELECT statement.
#[derive(Debug)]
pub struct SelectStatement {
    pub expr: Box<SetExpression>,
    pub order_by: Vec<OrderBy>,
    pub slice: Option<Slice>,
}

} // verus!
