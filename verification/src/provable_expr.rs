//! Provable filter expressions.
//!
//! A filter is a boolean tree of equality tests between a column and a
//! literal, combined with AND / OR / NOT. The prover evaluates it row by
//! row into a selection mask; `row_sat` is the mathematical meaning both
//! sides agree on.

use vstd::prelude::*;

use crate::database::CellValue;
use crate::database::ColumnType;
use crate::database::OwnedColumn;
use crate::database::OwnedTable;
use crate::database::TableModel;
use crate::database::cell_value;
use crate::database::col_model_len;
use crate::database::col_model_type;
use crate::database::col_of;
use crate::database::has_col;
use crate::database::table_nrows;
use crate::database::table_wf;
use crate::identifier::Identifier;
use crate::scalar::Scalar;
use crate::scalar::emod;

verus! {

/// A reference to a column together with its resolved type.
#[derive(Debug)]
pub struct ColumnExpr {
    pub column_id: Identifier,
    pub column_type: ColumnType,
}

/// A literal a filter compares a column against.
#[derive(Debug)]
pub enum LiteralValue {
    BigInt(i64),
    Int128(i128),
    VarChar(String),
    Scalar(Scalar),
}

/// A boolean filter expression.
#[derive(Debug)]
pub enum ProvableExpr {
    Column(ColumnExpr),
    Literal(LiteralValue),
    Equal(Box<ProvableExpr>, Box<ProvableExpr>),
    And(Box<ProvableExpr>, Box<ProvableExpr>),
    Or(Box<ProvableExpr>, Box<ProvableExpr>),
    Not(Box<ProvableExpr>),
}

/// Whether a literal may be compared against a column of the given type:
/// the two integer widths promote into one another and into the field,
/// strings compare only with strings.
pub open spec fn lit_compat(ct: ColumnType, l: LiteralValue) -> bool {
    match l {
        LiteralValue::BigInt(_) => ct != ColumnType::VarChar,
        LiteralValue::Int128(_) => ct != ColumnType::VarChar,
        LiteralValue::VarChar(_) => ct == ColumnType::VarChar,
        LiteralValue::Scalar(s) => ct == ColumnType::Scalar && s.is_canonical(),
    }
}

/// The comparison value of a literal against a column of type `ct`.
pub open spec fn lit_value(ct: ColumnType, l: LiteralValue) -> CellValue {
    match l {
        LiteralValue::BigInt(v) => if ct == ColumnType::Scalar {
            CellValue::Fld(emod(v as int))
        } else {
            CellValue::Int(v as int)
        },
        LiteralValue::Int128(v) => if ct == ColumnType::Scalar {
            CellValue::Fld(emod(v as int))
        } else {
            CellValue::Int(v as int)
        },
        LiteralValue::VarChar(s) => CellValue::Str(s@),
        LiteralValue::Scalar(s) => CellValue::Fld(s.value as int),
    }
}

/// Well-typedness of a filter against a table's schema: every equality
/// compares an existing column of the recorded type with a compatible
/// literal, and the boolean connectives apply only to such tests.
pub open spec fn wt_filter(e: ProvableExpr, t: TableModel) -> bool
    decreases e,
{
    match e {
        ProvableExpr::Equal(l, r) => {
            &&& (*l) matches ProvableExpr::Column(c)
            &&& (*r) matches ProvableExpr::Literal(v)
            &&& has_col(t, c.column_id@)
            &&& col_model_type(col_of(t, c.column_id@)) == c.column_type
            &&& lit_compat(c.column_type, v)
        },
        ProvableExpr::And(l, r) => wt_filter(*l, t) && wt_filter(*r, t),
        ProvableExpr::Or(l, r) => wt_filter(*l, t) && wt_filter(*r, t),
        ProvableExpr::Not(x) => wt_filter(*x, t),
        _ => false,
    }
}

/// Truth of a filter at row `i` of table `t`.
pub open spec fn row_sat(e: ProvableExpr, t: TableModel, i: int) -> bool
    decreases e,
{
    match e {
        ProvableExpr::Equal(l, r) => match (*l) {
            ProvableExpr::Column(c) => match (*r) {
                ProvableExpr::Literal(v) => cell_value(col_of(t, c.column_id@), i) == lit_value(
                    c.column_type,
                    v,
                ),
                _ => false,
            },
            _ => false,
        },
        ProvableExpr::And(l, r) => row_sat(*l, t, i) && row_sat(*r, t, i),
        ProvableExpr::Or(l, r) => row_sat(*l, t, i) || row_sat(*r, t, i),
        ProvableExpr::Not(x) => !row_sat(*x, t, i),
        _ => false,
    }
}

/// Whether the cell at row `i` equals the literal under the promotion
/// rules.
fn cell_matches_literal(col: &OwnedColumn, i: usize, v: &LiteralValue) -> (r: bool)
    requires
        i < col_model_len(col@),
    ensures
        r == (cell_value(col@, i as int) == lit_value(col_model_type(col@), *v)),
{
    match (col, v) {
        (OwnedColumn::BigInt(x), LiteralValue::BigInt(b)) => x[i] == *b,
        (OwnedColumn::BigInt(x), LiteralValue::Int128(b)) => (x[i] as i128) == *b,
        (OwnedColumn::Int128(x), LiteralValue::BigInt(b)) => x[i] == (*b as i128),
        (OwnedColumn::Int128(x), LiteralValue::Int128(b)) => x[i] == *b,
        (OwnedColumn::Scalar(x), LiteralValue::BigInt(b)) => x[i].value == Scalar::from_i64(
            *b,
        ).value,
        (OwnedColumn::Scalar(x), LiteralValue::Int128(b)) => x[i].value == Scalar::from_i128(
            *b,
        ).value,
        (OwnedColumn::Scalar(x), LiteralValue::Scalar(s)) => x[i].value == s.value,
        (OwnedColumn::VarChar(x), LiteralValue::VarChar(s)) => {
            let r = x[i] == *s;
            proof {
                assert(cell_value(col@, i as int) == CellValue::Str(x@[i as int]@));
            }
            r
        },
        _ => {
            proof {
                lemma_mismatch_never_equal(col@, i as int, *v);
            }
            false
        },
    }
}

proof fn lemma_mismatch_never_equal(c: crate::database::ColModel, i: int, v: LiteralValue)
    requires
        !(c is BigInt && v is BigInt),
        !(c is BigInt && v is Int128),
        !(c is Int128 && v is BigInt),
        !(c is Int128 && v is Int128),
        !(c is Scalar && v is BigInt),
        !(c is Scalar && v is Int128),
        !(c is Scalar && v is Scalar),
        !(c is VarChar && v is VarChar),
    ensures
        cell_value(c, i) != lit_value(col_model_type(c), v),
{
}

/// Evaluate a filter into its selection mask: one truth value per row.
pub fn eval_filter(e: &ProvableExpr, tbl: &OwnedTable) -> (r: Vec<bool>)
    requires
        wt_filter(*e, tbl@),
        table_wf(tbl@),
    ensures
        r@.len() == table_nrows(tbl@),
        forall|i: int| 0 <= i < r@.len() ==> r@[i] == row_sat(*e, tbl@, i),
    decreases *e,
{
    match e {
        ProvableExpr::Equal(l, r) => {
            let c = match &(**l) {
                ProvableExpr::Column(c) => c,
                _ => {
                    proof {
                        assert(false);
                    }
                    vstd::pervasive::unreached()
                },
            };
            let v = match &(**r) {
                ProvableExpr::Literal(v) => v,
                _ => {
                    proof {
                        assert(false);
                    }
                    vstd::pervasive::unreached()
                },
            };
            let idx = match tbl.find_column(&c.column_id) {
                Some(idx) => idx,
                None => {
                    proof {
                        assert(false);
                    }
                    vstd::pervasive::unreached()
                },
            };
            let col = &tbl.columns[idx].1;
            proof {
                assert(col@ == col_of(tbl@, c.column_id@));
                assert(col_model_len(col@) == table_nrows(tbl@));
            }
            let n = tbl.nrows();
            let mut mask: Vec<bool> = Vec::new();
            let mut i: usize = 0;
            while i < n
                invariant
                    i <= n,
                    n == table_nrows(tbl@),
                    col@ == col_of(tbl@, c.column_id@),
                    col_model_len(col@) == n,
                    wt_filter(*e, tbl@),
                    (*e) matches ProvableExpr::Equal(bl, br) && (*bl)
                        matches ProvableExpr::Column(ci) && (*br) matches ProvableExpr::Literal(vi)
                        && ci.column_id@ == c.column_id@ && ci.column_type == c.column_type && vi
                        == *v,
                    col_model_type(col@) == c.column_type,
                    mask@.len() == i,
                    forall|k: int| 0 <= k < i ==> mask@[k] == row_sat(*e, tbl@, k),
                decreases n - i,
            {
                let m = cell_matches_literal(col, i, v);
                mask.push(m);
                i = i + 1;
            }
            mask
        },
        ProvableExpr::And(l, r) => {
            let ml = eval_filter(l, tbl);
            let mr = eval_filter(r, tbl);
            let n = tbl.nrows();
            let mut mask: Vec<bool> = Vec::new();
            let mut i: usize = 0;
            while i < n
                invariant
                    i <= n,
                    n == table_nrows(tbl@),
                    ml@.len() == n,
                    mr@.len() == n,
                    (*e) matches ProvableExpr::And(bl, br) && (forall|k: int|
                        0 <= k < n ==> ml@[k] == row_sat(*bl, tbl@, k)) && (forall|k: int|
                        0 <= k < n ==> mr@[k] == row_sat(*br, tbl@, k)),
                    mask@.len() == i,
                    forall|k: int| 0 <= k < i ==> mask@[k] == row_sat(*e, tbl@, k),
                decreases n - i,
            {
                mask.push(ml[i] && mr[i]);
                i = i + 1;
            }
            mask
        },
        ProvableExpr::Or(l, r) => {
            let ml = eval_filter(l, tbl);
            let mr = eval_filter(r, tbl);
            let n = tbl.nrows();
            let mut mask: Vec<bool> = Vec::new();
            let mut i: usize = 0;
            while i < n
                invariant
                    i <= n,
                    n == table_nrows(tbl@),
                    ml@.len() == n,
                    mr@.len() == n,
                    (*e) matches ProvableExpr::Or(bl, br) && (forall|k: int|
                        0 <= k < n ==> ml@[k] == row_sat(*bl, tbl@, k)) && (forall|k: int|
                        0 <= k < n ==> mr@[k] == row_sat(*br, tbl@, k)),
                    mask@.len() == i,
                    forall|k: int| 0 <= k < i ==> mask@[k] == row_sat(*e, tbl@, k),
                decreases n - i,
            {
                mask.push(ml[i] || mr[i]);
                i = i + 1;
            }
            mask
        },
        ProvableExpr::Not(x) => {
            let mx = eval_filter(x, tbl);
            let n = tbl.nrows();
            let mut mask: Vec<bool> = Vec::new();
            let mut i: usize = 0;
            while i < n
                invariant
                    i <= n,
                    n == table_nrows(tbl@),
                    mx@.len() == n,
                    (*e) matches ProvableExpr::Not(bx) && (forall|k: int|
                        0 <= k < n ==> mx@[k] == row_sat(*bx, tbl@, k)),
                    mask@.len() == i,
                    forall|k: int| 0 <= k < i ==> mask@[k] == row_sat(*e, tbl@, k),
                decreases n - i,
            {
                mask.push(!mx[i]);
                i = i + 1;
            }
            mask
        },
        _ => {
            proof {
                assert(false);
            }
            vstd::pervasive::unreached()
        },
    }
}

/// Well-typedness of a filter, decided at plan time.
pub fn check_filter(e: &ProvableExpr, tbl: &OwnedTable) -> (r: bool)
    ensures
        r == wt_filter(*e, tbl@),
    decreases *e,
{
    match e {
        ProvableExpr::Equal(l, r) => {
            let c = match &(**l) {
                ProvableExpr::Column(c) => c,
                _ => {
                    return false;
                },
            };
            let v = match &(**r) {
                ProvableExpr::Literal(v) => v,
                _ => {
                    return false;
                },
            };
            let idx = match tbl.find_column(&c.column_id) {
                Some(idx) => idx,
                None => {
                    return false;
                },
            };
            let ct = tbl.columns[idx].1.column_type();
            proof {
                assert(tbl@[idx as int].1 == col_of(tbl@, c.column_id@));
            }
            if !(ct == c.column_type) {
                return false;
            }
            match v {
                LiteralValue::BigInt(_) => !(ct == ColumnType::VarChar),
                LiteralValue::Int128(_) => !(ct == ColumnType::VarChar),
                LiteralValue::VarChar(_) => ct == ColumnType::VarChar,
                LiteralValue::Scalar(s) => ct == ColumnType::Scalar && s.value < crate::scalar::FIELD_MODULUS,
            }
        },
        ProvableExpr::And(l, r) => check_filter(l, tbl) && check_filter(r, tbl),
        ProvableExpr::Or(l, r) => check_filter(l, tbl) && check_filter(r, tbl),
        ProvableExpr::Not(x) => check_filter(x, tbl),
        _ => false,
    }
}

} // verus!
