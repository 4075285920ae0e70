//! The group-by operator: partition the filtered rows of a table by the
//! values of the group-by columns and sum the aggregate columns within
//! each part.
//!
//! `gb_state` is the mathematical meaning: a left fold over the rows that
//! keeps, for every distinct key among the rows passing the filter, the
//! first row bearing it, the number of such rows, and the running sums.
//! Groups appear in order of first occurrence. `gb_output` materializes
//! that state as the output table: group keys, then sums under their
//! aliases, then the group sizes under the reserved count alias.

use vstd::prelude::*;

use crate::database::ColModel;
use crate::database::ColumnType;
use crate::database::OwnedColumn;
use crate::database::OwnedTable;
use crate::database::TableModel;
use crate::database::cell_int;
use crate::database::cell_value;
use crate::database::col_model_canonical;
use crate::database::col_model_len;
use crate::database::col_model_type;
use crate::database::col_of;
use crate::database::find_col;
use crate::database::has_col;
use crate::database::table_nrows;
use crate::database::table_wf;
use crate::identifier::Identifier;
use crate::identifier::TableRef;
use crate::provable_expr::ColumnExpr;
use crate::provable_expr::ProvableExpr;
use crate::provable_expr::row_sat;
use crate::provable_expr::wt_filter;
use crate::scalar::FIELD_MODULUS;
use crate::scalar::Scalar;
use crate::scalar::emod;

verus! {

/// One SUM aggregate: the input column, the output alias, and the
/// declared type of the result column.
#[derive(Debug)]
pub struct SumExpr {
    pub column: ColumnExpr,
    pub alias: Identifier,
    pub result_type: ColumnType,
}

/// A full group-by query over one table.
#[derive(Debug)]
pub struct GroupByExpr {
    pub group_by_exprs: Vec<ColumnExpr>,
    pub sum_expr: Vec<SumExpr>,
    pub count_alias: Identifier,
    pub table: TableRef,
    pub where_clause: ProvableExpr,
}

/// A group-by column must resolve to a column of its recorded type.
pub open spec fn gcol_ok(c: ColumnExpr, t: TableModel) -> bool {
    &&& has_col(t, c.column_id@)
    &&& col_model_type(col_of(t, c.column_id@)) == c.column_type
}

/// An aggregate must read a numeric column and keep its type.
pub open spec fn sum_ok(s: SumExpr, t: TableModel) -> bool {
    &&& gcol_ok(s.column, t)
    &&& s.result_type == s.column.column_type
    &&& s.column.column_type != ColumnType::VarChar
}

/// Name of output column `k`: group keys, then aliases, then the count.
pub open spec fn out_name(g: GroupByExpr, k: int) -> Seq<char> {
    if k < g.group_by_exprs@.len() {
        g.group_by_exprs@[k].column_id@
    } else if k < g.group_by_exprs@.len() + g.sum_expr@.len() {
        g.sum_expr@[k - g.group_by_exprs@.len()].alias@
    } else {
        g.count_alias@
    }
}

/// Well-typedness of a group-by query against a table's schema.
pub open spec fn wt_group_by(g: GroupByExpr, t: TableModel) -> bool {
    &&& wt_filter(g.where_clause, t)
    &&& forall|k: int| 0 <= k < g.group_by_exprs@.len() ==> gcol_ok(
        #[trigger] g.group_by_exprs@[k],
        t,
    )
    &&& forall|j: int| 0 <= j < g.sum_expr@.len() ==> sum_ok(#[trigger] g.sum_expr@[j], t)
    &&& forall|k1: int, k2: int|
        0 <= k1 < k2 < g.group_by_exprs@.len() + g.sum_expr@.len() + 1 ==> #[trigger] out_name(
            g,
            k1,
        ) != #[trigger] out_name(g, k2)
}

/// Two rows agree on every group-by column.
pub open spec fn same_key(gc: Seq<ColumnExpr>, t: TableModel, a: int, b: int) -> bool {
    forall|k: int| 0 <= k < gc.len() ==> cell_value(
        col_of(t, (#[trigger] gc[k]).column_id@),
        a,
    ) == cell_value(col_of(t, gc[k].column_id@), b)
}

/// Index of the first representative sharing row `b`'s key, or
/// `reps.len()` when no group matches.
pub open spec fn find_group(gc: Seq<ColumnExpr>, t: TableModel, reps: Seq<int>, b: int) -> int
    decreases reps.len(),
{
    if reps.len() == 0 {
        0
    } else if same_key(gc, t, reps.first(), b) {
        0
    } else {
        1 + find_group(gc, t, reps.drop_first(), b)
    }
}

/// What `find_group` returns: the first matching group, in bounds.
pub open spec fn fg_char(gc: Seq<ColumnExpr>, t: TableModel, reps: Seq<int>, b: int) -> bool {
    let fg = find_group(gc, t, reps, b);
    &&& 0 <= fg <= reps.len()
    &&& fg < reps.len() ==> same_key(gc, t, reps[fg], b)
    &&& forall|m: int| 0 <= m < fg ==> !same_key(gc, t, #[trigger] reps[m], b)
}

pub proof fn lemma_find_group(gc: Seq<ColumnExpr>, t: TableModel, reps: Seq<int>, b: int)
    ensures
        fg_char(gc, t, reps, b),
    decreases reps.len(),
{
    if reps.len() > 0 && !same_key(gc, t, reps.first(), b) {
        let rest = reps.drop_first();
        lemma_find_group(gc, t, rest, b);
        let f = find_group(gc, t, rest, b);
        if f < rest.len() {
            assert(reps[f + 1] == rest[f]);
        }
        assert forall|m: int| 0 <= m < find_group(gc, t, reps, b) implies !same_key(
            gc,
            t,
            #[trigger] reps[m],
            b,
        ) by {
            if m > 0 {
                assert(rest[m - 1] == reps[m]);
            }
        }
    }
}

/// The value wrapped into the two's-complement range of 64 bits.
pub open spec fn w64(x: int) -> int {
    ((x + 0x8000000000000000) % 0x10000000000000000) - 0x8000000000000000
}

/// The value wrapped into the two's-complement range of 128 bits.
pub open spec fn w128(x: int) -> int {
    ((x + 0x80000000000000000000000000000000) % (2int * 0x80000000000000000000000000000000))
        - 0x80000000000000000000000000000000
}

/// One step of a running sum, in the arithmetic of the result type:
/// 64-bit and 128-bit integers wrap, field sums reduce.
pub open spec fn wrap_add(ty: ColumnType, s: int, v: int) -> int {
    match ty {
        ColumnType::BigInt => w64(s + v),
        ColumnType::Int128 => w128(s + v),
        ColumnType::Scalar => emod(s + v),
        ColumnType::VarChar => 0,
    }
}

/// The fold state after some prefix of the rows.
#[verifier::ext_equal]
pub struct GroupState {
    pub reps: Seq<int>,
    pub counts: Seq<int>,
    pub sums: Seq<Seq<int>>,
}

pub open spec fn sum_col_of(g: GroupByExpr, t: TableModel, j: int) -> ColModel {
    col_of(t, g.sum_expr@[j].column.column_id@)
}

pub open spec fn sum_ty(g: GroupByExpr, j: int) -> ColumnType {
    g.sum_expr@[j].result_type
}

/// A fresh group's sums, seeded from row `i`.
pub open spec fn row_sums_init(g: GroupByExpr, t: TableModel, i: int) -> Seq<int> {
    Seq::new(g.sum_expr@.len(), |j: int| wrap_add(sum_ty(g, j), 0, cell_int(sum_col_of(g, t, j), i)))
}

/// A group's sums after absorbing row `i`.
pub open spec fn row_added(g: GroupByExpr, t: TableModel, s: Seq<int>, i: int) -> Seq<int> {
    Seq::new(
        g.sum_expr@.len(),
        |j: int| wrap_add(sum_ty(g, j), s[j], cell_int(sum_col_of(g, t, j), i)),
    )
}

/// The fold over the first `n` rows: filtered rows join the group of the
/// first earlier row sharing their key, or open a new group.
pub open spec fn gb_state(g: GroupByExpr, t: TableModel, n: int) -> GroupState
    decreases n,
{
    if n <= 0 {
        GroupState { reps: Seq::empty(), counts: Seq::empty(), sums: Seq::empty() }
    } else {
        let st = gb_state(g, t, n - 1);
        let i = n - 1;
        if !row_sat(g.where_clause, t, i) {
            st
        } else {
            let gi = find_group(g.group_by_exprs@, t, st.reps, i);
            if gi < st.reps.len() {
                GroupState {
                    reps: st.reps,
                    counts: st.counts.update(gi, st.counts[gi] + 1),
                    sums: st.sums.update(gi, row_added(g, t, st.sums[gi], i)),
                }
            } else {
                GroupState {
                    reps: st.reps.push(i),
                    counts: st.counts.push(1),
                    sums: st.sums.push(row_sums_init(g, t, i)),
                }
            }
        }
    }
}

/// Shape and range facts about the fold state.
pub proof fn lemma_state_shape(g: GroupByExpr, t: TableModel, n: int)
    ensures
        gb_state(g, t, n).counts.len() == gb_state(g, t, n).reps.len(),
        gb_state(g, t, n).sums.len() == gb_state(g, t, n).reps.len(),
        forall|gi: int| 0 <= gi < gb_state(g, t, n).reps.len() ==> 0 <= #[trigger] gb_state(
            g,
            t,
            n,
        ).reps[gi] < n,
        forall|gi: int| 0 <= gi < gb_state(g, t, n).reps.len() ==> 1 <= #[trigger] gb_state(
            g,
            t,
            n,
        ).counts[gi] <= n,
        forall|gi: int| 0 <= gi < gb_state(g, t, n).reps.len() ==> (#[trigger] gb_state(
            g,
            t,
            n,
        ).sums[gi]).len() == g.sum_expr@.len(),
        forall|gi: int| 0 <= gi < gb_state(g, t, n).reps.len() ==> row_sat(
            g.where_clause,
            t,
            #[trigger] gb_state(g, t, n).reps[gi],
        ),
        forall|g1: int, g2: int|
            0 <= g1 < g2 < gb_state(g, t, n).reps.len() ==> !same_key(
                g.group_by_exprs@,
                t,
                #[trigger] gb_state(g, t, n).reps[g1],
                #[trigger] gb_state(g, t, n).reps[g2],
            ),
    decreases n,
{
    if n > 0 {
        lemma_state_shape(g, t, n - 1);
        let st = gb_state(g, t, n - 1);
        let i = n - 1;
        if row_sat(g.where_clause, t, i) {
            lemma_find_group(g.group_by_exprs@, t, st.reps, i);
        }
    }
}

/// A mathematical sum squeezed into a 64-bit column cell.
pub open spec fn to_i64(x: int) -> i64 {
    if -0x8000000000000000 <= x <= 0x7fffffffffffffff {
        x as i64
    } else {
        0
    }
}

/// A mathematical sum squeezed into a 128-bit column cell.
pub open spec fn to_i128(x: int) -> i128 {
    if -0x80000000000000000000000000000000 <= x <= 0x7fffffffffffffffffffffffffffffff {
        x as i128
    } else {
        0
    }
}

/// A mathematical sum squeezed into a field column cell.
pub open spec fn to_scalar(x: int) -> Scalar {
    if 0 <= x < FIELD_MODULUS {
        Scalar { value: x as u64 }
    } else {
        Scalar { value: 0 }
    }
}

/// A group size squeezed into a 64-bit column cell.
pub open spec fn count_to_i64(x: int) -> i64 {
    if x <= 0x7fffffffffffffff {
        x as i64
    } else {
        0x7fffffffffffffff as i64
    }
}

/// The column of per-group sums for aggregate `j`, in its declared type.
pub open spec fn materialize_sum(ty: ColumnType, s: Seq<int>) -> ColModel {
    match ty {
        ColumnType::BigInt => ColModel::BigInt(Seq::new(s.len(), |gi: int| to_i64(s[gi]))),
        ColumnType::Int128 => ColModel::Int128(Seq::new(s.len(), |gi: int| to_i128(s[gi]))),
        ColumnType::Scalar => ColModel::Scalar(Seq::new(s.len(), |gi: int| to_scalar(s[gi]))),
        ColumnType::VarChar => ColModel::VarChar(Seq::empty()),
    }
}

/// The cells of a column at the representative rows, keeping the type.
pub open spec fn project_col(c: ColModel, reps: Seq<int>) -> ColModel {
    match c {
        ColModel::BigInt(v) => ColModel::BigInt(Seq::new(reps.len(), |gi: int| v[reps[gi]])),
        ColModel::Int128(v) => ColModel::Int128(Seq::new(reps.len(), |gi: int| v[reps[gi]])),
        ColModel::VarChar(v) => ColModel::VarChar(Seq::new(reps.len(), |gi: int| v[reps[gi]])),
        ColModel::Scalar(v) => ColModel::Scalar(Seq::new(reps.len(), |gi: int| v[reps[gi]])),
    }
}

/// The output table of a group-by query: the group-key columns, the sum
/// columns under their aliases, and the group sizes under the count
/// alias, with one row per group in order of first occurrence.
pub open spec fn gb_output(g: GroupByExpr, t: TableModel) -> TableModel {
    let st = gb_state(g, t, table_nrows(t) as int);
    let ng = g.group_by_exprs@.len();
    let ns = g.sum_expr@.len();
    Seq::new(
        ng + ns + 1,
        |k: int|
            if k < ng {
                (
                    g.group_by_exprs@[k].column_id@,
                    project_col(col_of(t, g.group_by_exprs@[k].column_id@), st.reps),
                )
            } else if k < ng + ns {
                (
                    g.sum_expr@[k - ng].alias@,
                    materialize_sum(
                        sum_ty(g, k - ng),
                        Seq::new(st.reps.len(), |gi: int| st.sums[gi][k - ng]),
                    ),
                )
            } else {
                (g.count_alias@, ColModel::BigInt(Seq::new(st.reps.len(), |gi: int| count_to_i64(st.counts[gi]))))
            },
    )
}


/// A running aggregate cell, in the arithmetic of its declared type.
#[derive(Clone, Copy, Debug)]
pub enum AggAcc {
    I64(i64),
    I128(i128),
    Fld(Scalar),
}

/// The accumulator holds exactly the fold value, in the right variant.
pub open spec fn acc_matches(ty: ColumnType, a: AggAcc, s: int) -> bool {
    match a {
        AggAcc::I64(v) => ty == ColumnType::BigInt && v as int == s,
        AggAcc::I128(v) => ty == ColumnType::Int128 && v as int == s,
        AggAcc::Fld(x) => ty == ColumnType::Scalar && x.is_canonical() && x.value as int == s,
    }
}

pub open spec fn usize_ints(s: Seq<usize>) -> Seq<int> {
    Seq::new(s.len(), |i: int| s[i] as int)
}

proof fn lemma_w64_id(x: int)
    requires
        -0x8000000000000000 <= x < 0x8000000000000000,
    ensures
        w64(x) == x,
{
    vstd::arithmetic::div_mod::lemma_small_mod(
        (x + 0x8000000000000000) as nat,
        0x10000000000000000nat,
    );
}

proof fn lemma_w128_id(x: int)
    requires
        -0x80000000000000000000000000000000 <= x < 0x80000000000000000000000000000000,
    ensures
        w128(x) == x,
{
    vstd::arithmetic::div_mod::lemma_small_mod(
        (x + 0x80000000000000000000000000000000) as nat,
        (2int * 0x80000000000000000000000000000000) as nat,
    );
}

proof fn lemma_shift_mod(y: int, m: int)
    requires
        0 < m,
        m <= y < 2 * m,
    ensures
        y % m == y - m,
{
    vstd::arithmetic::div_mod::lemma_mod_multiples_vanish(-1, y, m);
    vstd::arithmetic::div_mod::lemma_small_mod((y - m) as nat, m as nat);
}

proof fn lemma_shift_mod_up(y: int, m: int)
    requires
        0 < m,
        -m <= y < 0,
    ensures
        y % m == y + m,
{
    vstd::arithmetic::div_mod::lemma_mod_multiples_vanish(1, y, m);
    vstd::arithmetic::div_mod::lemma_small_mod((y + m) as nat, m as nat);
}

/// Wrapping 64-bit addition, pinned to the wrapped mathematical sum.
fn add_wrap_i64(a: i64, b: i64) -> (r: i64)
    ensures
        r as int == w64(a + b),
{
    let r = a.wrapping_add(b);
    proof {
        let s = a + b;
        let m = 0x10000000000000000int;
        if s > i64::MAX {
            lemma_shift_mod(s + 0x8000000000000000, m);
        } else if s < i64::MIN {
            lemma_shift_mod_up(s + 0x8000000000000000, m);
        } else {
            lemma_w64_id(s);
        }
    }
    r
}

/// Wrapping 128-bit addition, pinned to the wrapped mathematical sum.
fn add_wrap_i128(a: i128, b: i128) -> (r: i128)
    ensures
        r as int == w128(a + b),
{
    let r = a.wrapping_add(b);
    proof {
        let s = a + b;
        let m = 2int * 0x80000000000000000000000000000000;
        if s > i128::MAX {
            lemma_shift_mod(s + 0x80000000000000000000000000000000, m);
        } else if s < i128::MIN {
            lemma_shift_mod_up(s + 0x80000000000000000000000000000000, m);
        } else {
            lemma_w128_id(s);
        }
    }
    r
}

/// Positions of a list of typed column references inside a table.
fn resolve_group_cols(tbl: &OwnedTable, gcols: &Vec<ColumnExpr>) -> (r: Vec<usize>)
    requires
        forall|k: int| 0 <= k < gcols@.len() ==> gcol_ok(#[trigger] gcols@[k], tbl@),
    ensures
        r@.len() == gcols@.len(),
        forall|k: int| 0 <= k < gcols@.len() ==> (#[trigger] r@[k]) < tbl@.len() && r@[k] as int
            == find_col(tbl@, gcols@[k].column_id@),
{
    let mut r: Vec<usize> = Vec::new();
    let n = gcols.len();
    let mut k: usize = 0;
    while k < n
        invariant
            k <= n,
            n == gcols@.len(),
            forall|m: int| 0 <= m < gcols@.len() ==> gcol_ok(#[trigger] gcols@[m], tbl@),
            r@.len() == k,
            forall|m: int| 0 <= m < k ==> (#[trigger] r@[m]) < tbl@.len() && r@[m] as int
                == find_col(tbl@, gcols@[m].column_id@),
        decreases n - k,
    {
        match tbl.find_column(&gcols[k].column_id) {
            Some(i) => {
                r.push(i);
            },
            None => {
                proof {
                    assert(false);
                }
                vstd::pervasive::unreached()
            },
        }
        k = k + 1;
    }
    r
}

/// Positions of the aggregate input columns inside a table.
fn resolve_sum_cols(tbl: &OwnedTable, sums: &Vec<SumExpr>) -> (r: Vec<usize>)
    requires
        forall|j: int| 0 <= j < sums@.len() ==> sum_ok(#[trigger] sums@[j], tbl@),
    ensures
        r@.len() == sums@.len(),
        forall|j: int| 0 <= j < sums@.len() ==> (#[trigger] r@[j]) < tbl@.len() && r@[j] as int
            == find_col(tbl@, sums@[j].column.column_id@),
{
    let mut r: Vec<usize> = Vec::new();
    let n = sums.len();
    let mut k: usize = 0;
    while k < n
        invariant
            k <= n,
            n == sums@.len(),
            forall|m: int| 0 <= m < sums@.len() ==> sum_ok(#[trigger] sums@[m], tbl@),
            r@.len() == k,
            forall|m: int| 0 <= m < k ==> (#[trigger] r@[m]) < tbl@.len() && r@[m] as int
                == find_col(tbl@, sums@[m].column.column_id@),
        decreases n - k,
    {
        match tbl.find_column(&sums[k].column.column_id) {
            Some(i) => {
                r.push(i);
            },
            None => {
                proof {
                    assert(false);
                }
                vstd::pervasive::unreached()
            },
        }
        k = k + 1;
    }
    r
}

/// Index positions are the resolved group columns.
pub open spec fn gidx_corr(t: TableModel, gcols: Seq<ColumnExpr>, gidx: Seq<usize>) -> bool {
    &&& gidx.len() == gcols.len()
    &&& forall|k: int| 0 <= k < gcols.len() ==> (#[trigger] gidx[k]) < t.len() && gidx[k] as int
        == find_col(t, gcols[k].column_id@)
}

/// The searchable context: a well-formed table with resolved group columns.
pub open spec fn search_pre(t: TableModel, gcols: Seq<ColumnExpr>, gidx: Seq<usize>) -> bool {
    &&& table_wf(t)
    &&& forall|k: int| 0 <= k < gcols.len() ==> gcol_ok(#[trigger] gcols[k], t)
    &&& gidx_corr(t, gcols, gidx)
}

/// Every representative is a row of the table.
pub open spec fn reps_in(t: TableModel, reps: Seq<usize>) -> bool {
    forall|g: int| 0 <= g < reps.len() ==> (#[trigger] reps[g]) < table_nrows(t)
}

/// No group among the first `g` matches row `b`.
pub open spec fn no_match_before(
    gc: Seq<ColumnExpr>,
    t: TableModel,
    reps: Seq<usize>,
    g: int,
    b: int,
) -> bool {
    forall|m: int| 0 <= m < g ==> !same_key(gc, t, #[trigger] usize_ints(reps)[m], b)
}

/// Whether rows `a` and `b` agree on every group-by column.
fn rows_same_key(
    tbl: &OwnedTable,
    gcols: &Vec<ColumnExpr>,
    gidx: &Vec<usize>,
    a: usize,
    b: usize,
) -> (r: bool)
    requires
        search_pre(tbl@, gcols@, gidx@),
        a < table_nrows(tbl@),
        b < table_nrows(tbl@),
    ensures
        r == same_key(gcols@, tbl@, a as int, b as int),
{
    let n = gcols.len();
    let mut k: usize = 0;
    while k < n
        invariant
            k <= n,
            n == gcols@.len(),
            search_pre(tbl@, gcols@, gidx@),
            a < table_nrows(tbl@),
            b < table_nrows(tbl@),
            forall|m: int| 0 <= m < k ==> cell_value(
                col_of(tbl@, (#[trigger] gcols@[m]).column_id@),
                a as int,
            ) == cell_value(col_of(tbl@, gcols@[m].column_id@), b as int),
        decreases n - k,
    {
        let col = &tbl.columns[gidx[k]].1;
        proof {
            assert(col@ == col_of(tbl@, gcols@[k as int].column_id@));
            assert(col_model_len(col@) == table_nrows(tbl@));
        }
        if !col.cells_equal(a, b) {
            return false;
        }
        k = k + 1;
    }
    true
}

/// First existing group whose representative shares row `b`'s key.
fn find_group_exec(
    tbl: &OwnedTable,
    gcols: &Vec<ColumnExpr>,
    gidx: &Vec<usize>,
    reps: &Vec<usize>,
    b: usize,
) -> (r: usize)
    requires
        search_pre(tbl@, gcols@, gidx@),
        reps_in(tbl@, reps@),
        b < table_nrows(tbl@),
    ensures
        (r as int) == find_group(gcols@, tbl@, usize_ints(reps@), b as int),
        r <= reps@.len(),
{
    proof {
        lemma_find_group(gcols@, tbl@, usize_ints(reps@), b as int);
    }
    let n = reps.len();
    let mut g: usize = 0;
    while g < n
        invariant
            g <= n,
            n == reps@.len(),
            search_pre(tbl@, gcols@, gidx@),
            reps_in(tbl@, reps@),
            b < table_nrows(tbl@),
            fg_char(gcols@, tbl@, usize_ints(reps@), b as int),
            no_match_before(gcols@, tbl@, reps@, g as int, b as int),
        decreases n - g,
    {
        if rows_same_key(tbl, gcols, gidx, reps[g], b) {
            proof {
                let fg = find_group(gcols@, tbl@, usize_ints(reps@), b as int);
                assert(usize_ints(reps@)[g as int] == reps@[g as int] as int);
                if fg > g {
                    assert(!same_key(gcols@, tbl@, usize_ints(reps@)[g as int], b as int));
                }
                if fg < g {
                    assert(!same_key(gcols@, tbl@, usize_ints(reps@)[fg], b as int));
                }
            }
            return g;
        }
        proof {
            assert(usize_ints(reps@)[g as int] == reps@[g as int] as int);
        }
        g = g + 1;
    }
    proof {
        let fg = find_group(gcols@, tbl@, usize_ints(reps@), b as int);
        if fg < reps@.len() {
            assert(!same_key(gcols@, tbl@, usize_ints(reps@)[fg], b as int));
        }
    }
    n
}

/// The running vectors hold exactly the fold state after `n` rows.
pub open spec fn engine_corr(
    g: GroupByExpr,
    t: TableModel,
    n: int,
    reps: Seq<usize>,
    counts: Seq<u64>,
    sums: Seq<Vec<AggAcc>>,
) -> bool {
    let st = gb_state(g, t, n);
    &&& reps.len() == st.reps.len()
    &&& counts.len() == st.reps.len()
    &&& sums.len() == st.reps.len()
    &&& usize_ints(reps) == st.reps
    &&& forall|gi: int| 0 <= gi < counts.len() ==> (#[trigger] counts[gi]) as int == st.counts[gi]
    &&& forall|gi: int| 0 <= gi < sums.len() ==> (#[trigger] sums[gi])@.len() == g.sum_expr@.len()
    &&& forall|gi: int, j: int|
        0 <= gi < sums.len() && 0 <= j < g.sum_expr@.len() ==> acc_matches(
            sum_ty(g, j),
            #[trigger] sums[gi]@[j],
            st.sums[gi][j],
        )
}

/// Index positions are the resolved aggregate input columns.
pub open spec fn sidx_corr(t: TableModel, sums: Seq<SumExpr>, sidx: Seq<usize>) -> bool {
    &&& sidx.len() == sums.len()
    &&& forall|j: int| 0 <= j < sums.len() ==> (#[trigger] sidx[j]) < t.len() && sidx[j] as int
        == find_col(t, sums[j].column.column_id@)
}

/// The cells of one column at the representative rows.
fn project_column(col: &OwnedColumn, reps: &Vec<usize>, ireps: Ghost<Seq<int>>) -> (r: OwnedColumn)
    requires
        usize_ints(reps@) == ireps@,
        forall|g: int| 0 <= g < reps@.len() ==> (#[trigger] reps@[g]) < col_model_len(col@),
    ensures
        r@ == project_col(col@, ireps@),
{
    let n = reps.len();
    match col {
        OwnedColumn::BigInt(v) => {
            let mut out: Vec<i64> = Vec::new();
            let mut g: usize = 0;
            while g < n
                invariant
                    g <= n,
                    n == reps@.len(),
                    v@.len() == col_model_len(col@),
                    col@ matches ColModel::BigInt(w) && w == v@,
                    forall|m: int| 0 <= m < reps@.len() ==> (#[trigger] reps@[m]) < v@.len(),
                    out@.len() == g,
                    forall|m: int| 0 <= m < g ==> #[trigger] out@[m] == v@[reps@[m] as int],
                decreases n - g,
            {
                out.push(v[reps[g]]);
                g = g + 1;
            }
            let r = OwnedColumn::BigInt(out);
            proof {
                assert(r@ =~~= project_col(col@, ireps@));
            }
            r
        },
        OwnedColumn::Int128(v) => {
            let mut out: Vec<i128> = Vec::new();
            let mut g: usize = 0;
            while g < n
                invariant
                    g <= n,
                    n == reps@.len(),
                    v@.len() == col_model_len(col@),
                    col@ matches ColModel::Int128(w) && w == v@,
                    forall|m: int| 0 <= m < reps@.len() ==> (#[trigger] reps@[m]) < v@.len(),
                    out@.len() == g,
                    forall|m: int| 0 <= m < g ==> #[trigger] out@[m] == v@[reps@[m] as int],
                decreases n - g,
            {
                out.push(v[reps[g]]);
                g = g + 1;
            }
            let r = OwnedColumn::Int128(out);
            proof {
                assert(r@ =~~= project_col(col@, ireps@));
            }
            r
        },
        OwnedColumn::VarChar(v) => {
            let mut out: Vec<String> = Vec::new();
            let mut g: usize = 0;
            while g < n
                invariant
                    g <= n,
                    n == reps@.len(),
                    v@.len() == col_model_len(col@),
                    col@ matches ColModel::VarChar(w) && w == Seq::new(
                        v@.len(),
                        |m: int| v@[m]@,
                    ),
                    forall|m: int| 0 <= m < reps@.len() ==> (#[trigger] reps@[m]) < v@.len(),
                    out@.len() == g,
                    forall|m: int| 0 <= m < g ==> (#[trigger] out@[m])@ == v@[reps@[m] as int]@,
                decreases n - g,
            {
                out.push(v[reps[g]].clone());
                g = g + 1;
            }
            let r = OwnedColumn::VarChar(out);
            proof {
                assert(r@ =~~= project_col(col@, ireps@));
            }
            r
        },
        OwnedColumn::Scalar(v) => {
            let mut out: Vec<Scalar> = Vec::new();
            let mut g: usize = 0;
            while g < n
                invariant
                    g <= n,
                    n == reps@.len(),
                    v@.len() == col_model_len(col@),
                    col@ matches ColModel::Scalar(w) && w == v@,
                    forall|m: int| 0 <= m < reps@.len() ==> (#[trigger] reps@[m]) < v@.len(),
                    out@.len() == g,
                    forall|m: int| 0 <= m < g ==> #[trigger] out@[m] == v@[reps@[m] as int],
                decreases n - g,
            {
                out.push(v[reps[g]]);
                g = g + 1;
            }
            let r = OwnedColumn::Scalar(out);
            proof {
                assert(r@ =~~= project_col(col@, ireps@));
            }
            r
        },
    }
}

/// The per-group sums of aggregate `j`, as a column of its declared type.
fn materialize_sum_col(
    accs: &Vec<Vec<AggAcc>>,
    j: usize,
    ty: ColumnType,
    model: Ghost<Seq<Seq<int>>>,
) -> (r: OwnedColumn)
    requires
        accs@.len() == model@.len(),
        forall|g: int| 0 <= g < accs@.len() ==> (j as int) < (#[trigger] accs@[g])@.len(),
        forall|g: int| 0 <= g < accs@.len() ==> acc_matches(
            ty,
            (#[trigger] accs@[g])@[j as int],
            model@[g][j as int],
        ),
        ty != ColumnType::VarChar,
    ensures
        r@ == materialize_sum(ty, Seq::new(model@.len(), |g: int| model@[g][j as int])),
{
    let n = accs.len();
    match ty {
        ColumnType::BigInt => {
            let mut out: Vec<i64> = Vec::new();
            let mut g: usize = 0;
            while g < n
                invariant
                    g <= n,
                    n == accs@.len(),
                    accs@.len() == model@.len(),
                    forall|m: int| 0 <= m < accs@.len() ==> (j as int) < (
                    #[trigger] accs@[m])@.len(),
                    forall|m: int| 0 <= m < accs@.len() ==> acc_matches(
                        ColumnType::BigInt,
                        (#[trigger] accs@[m])@[j as int],
                        model@[m][j as int],
                    ),
                    out@.len() == g,
                    forall|m: int| 0 <= m < g ==> #[trigger] out@[m] == to_i64(
                        model@[m][j as int],
                    ),
                decreases n - g,
            {
                let row = &accs[g];
                match row[j] {
                    AggAcc::I64(v) => {
                        out.push(v);
                    },
                    _ => {
                        proof {
                            assert(false);
                        }
                        vstd::pervasive::unreached()
                    },
                }
                g = g + 1;
            }
            let r = OwnedColumn::BigInt(out);
            proof {
                assert(r@ =~~= materialize_sum(
                    ty,
                    Seq::new(model@.len(), |g: int| model@[g][j as int]),
                ));
            }
            r
        },
        ColumnType::Int128 => {
            let mut out: Vec<i128> = Vec::new();
            let mut g: usize = 0;
            while g < n
                invariant
                    g <= n,
                    n == accs@.len(),
                    accs@.len() == model@.len(),
                    forall|m: int| 0 <= m < accs@.len() ==> (j as int) < (
                    #[trigger] accs@[m])@.len(),
                    forall|m: int| 0 <= m < accs@.len() ==> acc_matches(
                        ColumnType::Int128,
                        (#[trigger] accs@[m])@[j as int],
                        model@[m][j as int],
                    ),
                    out@.len() == g,
                    forall|m: int| 0 <= m < g ==> #[trigger] out@[m] == to_i128(
                        model@[m][j as int],
                    ),
                decreases n - g,
            {
                let row = &accs[g];
                match row[j] {
                    AggAcc::I128(v) => {
                        out.push(v);
                    },
                    _ => {
                        proof {
                            assert(false);
                        }
                        vstd::pervasive::unreached()
                    },
                }
                g = g + 1;
            }
            let r = OwnedColumn::Int128(out);
            proof {
                assert(r@ =~~= materialize_sum(
                    ty,
                    Seq::new(model@.len(), |g: int| model@[g][j as int]),
                ));
            }
            r
        },
        ColumnType::Scalar => {
            let mut out: Vec<Scalar> = Vec::new();
            let mut g: usize = 0;
            while g < n
                invariant
                    g <= n,
                    n == accs@.len(),
                    accs@.len() == model@.len(),
                    forall|m: int| 0 <= m < accs@.len() ==> (j as int) < (
                    #[trigger] accs@[m])@.len(),
                    forall|m: int| 0 <= m < accs@.len() ==> acc_matches(
                        ColumnType::Scalar,
                        (#[trigger] accs@[m])@[j as int],
                        model@[m][j as int],
                    ),
                    out@.len() == g,
                    forall|m: int| 0 <= m < g ==> #[trigger] out@[m] == to_scalar(
                        model@[m][j as int],
                    ),
                decreases n - g,
            {
                let row = &accs[g];
                match row[j] {
                    AggAcc::Fld(v) => {
                        out.push(v);
                    },
                    _ => {
                        proof {
                            assert(false);
                        }
                        vstd::pervasive::unreached()
                    },
                }
                g = g + 1;
            }
            let r = OwnedColumn::Scalar(out);
            proof {
                assert(r@ =~~= materialize_sum(
                    ty,
                    Seq::new(model@.len(), |g: int| model@[g][j as int]),
                ));
            }
            r
        },
        ColumnType::VarChar => {
            proof {
                assert(false);
            }
            vstd::pervasive::unreached()
        },
    }
}

/// Evaluate a group-by query over a table: the prover-side computation
/// of the claimed output.
pub fn gb_eval(gb: &GroupByExpr, tbl: &OwnedTable) -> (out: OwnedTable)
    requires
        table_wf(tbl@),
        wt_group_by(*gb, tbl@),
    ensures
        out@ == gb_output(*gb, tbl@),
{
    let mask = crate::provable_expr::eval_filter(&gb.where_clause, tbl);
    let gidx = resolve_group_cols(tbl, &gb.group_by_exprs);
    let sidx = resolve_sum_cols(tbl, &gb.sum_expr);
    let n = tbl.nrows();
    let ns = gb.sum_expr.len();
    let mut reps: Vec<usize> = Vec::new();
    let mut counts: Vec<u64> = Vec::new();
    let mut sums: Vec<Vec<AggAcc>> = Vec::new();
    proof {
        assert(usize_ints(reps@) =~= gb_state(*gb, tbl@, 0).reps);
    }
    let mut i: usize = 0;
    while i < n
        invariant
            i <= n,
            n == table_nrows(tbl@),
            ns == gb.sum_expr@.len(),
            table_wf(tbl@),
            wt_group_by(*gb, tbl@),
            mask@.len() == n,
            forall|k: int| 0 <= k < n ==> mask@[k] == row_sat(gb.where_clause, tbl@, k),
            search_pre(tbl@, gb.group_by_exprs@, gidx@),
            sidx_corr(tbl@, gb.sum_expr@, sidx@),
            engine_corr(*gb, tbl@, i as int, reps@, counts@, sums@),
        decreases n - i,
    {
        proof {
            lemma_state_shape(*gb, tbl@, i as int);
            lemma_state_shape(*gb, tbl@, i as int + 1);
        }
        let ghost st = gb_state(*gb, tbl@, i as int);
        let ghost st1 = gb_state(*gb, tbl@, i as int + 1);
        if mask[i] {
            proof {
                lemma_find_group(gb.group_by_exprs@, tbl@, st.reps, i as int);
                assert forall|g2: int| 0 <= g2 < reps@.len() implies (#[trigger] reps@[g2])
                    < table_nrows(tbl@) by {
                    assert(usize_ints(reps@)[g2] == reps@[g2] as int);
                    assert(st.reps[g2] < i as int);
                }
            }
            let gi = find_group_exec(tbl, &gb.group_by_exprs, &gidx, &reps, i);
            let ghost sgi = find_group(gb.group_by_exprs@, tbl@, st.reps, i as int);
            proof {
                assert(sgi == gi as int);
            }
            if gi < reps.len() {
                let c = counts[gi];
                proof {
                    assert(c as int == st.counts[gi as int]);
                    assert(st.counts[gi as int] <= i as int);
                }
                counts[gi] = c + 1;
                let mut new_row: Vec<AggAcc> = Vec::new();
                let mut j: usize = 0;
                while j < ns
                    invariant
                        j <= ns,
                        ns == gb.sum_expr@.len(),
                        i < n,
                        n == table_nrows(tbl@),
                        table_wf(tbl@),
                        wt_group_by(*gb, tbl@),
                        sidx_corr(tbl@, gb.sum_expr@, sidx@),
                        (gi as int) < st.sums.len(),
                        (gi as int) < sums@.len(),
                        st.sums[gi as int].len() == ns,
                        (#[trigger] sums@[gi as int])@.len() == ns,
                        forall|jj: int| 0 <= jj < ns ==> acc_matches(
                            sum_ty(*gb, jj),
                            #[trigger] sums@[gi as int]@[jj],
                            st.sums[gi as int][jj],
                        ),
                        new_row@.len() == j,
                        forall|jj: int| 0 <= jj < j ==> acc_matches(
                            sum_ty(*gb, jj),
                            #[trigger] new_row@[jj],
                            row_added(*gb, tbl@, st.sums[gi as int], i as int)[jj],
                        ),
                    decreases ns - j,
                {
                    let col = &tbl.columns[sidx[j]].1;
                    proof {
                        assert(col@ == sum_col_of(*gb, tbl@, j as int));
                        assert(col_model_len(col@) == table_nrows(tbl@));
                        assert(col_model_type(col@) == sum_ty(*gb, j as int));
                        assert(col_model_canonical(col@));
                    }
                    let row = &sums[gi];
                    let new_acc = match (row[j], col) {
                        (AggAcc::I64(a), OwnedColumn::BigInt(v)) => AggAcc::I64(
                            add_wrap_i64(a, v[i]),
                        ),
                        (AggAcc::I128(a), OwnedColumn::Int128(v)) => AggAcc::I128(
                            add_wrap_i128(a, v[i]),
                        ),
                        (AggAcc::Fld(a), OwnedColumn::Scalar(v)) => AggAcc::Fld(a.add(v[i])),
                        _ => {
                            proof {
                                assert(false);
                            }
                            vstd::pervasive::unreached()
                        },
                    };
                    new_row.push(new_acc);
                    j = j + 1;
                }
                sums[gi] = new_row;
                proof {
                    assert(st1.reps == st.reps);
                    assert(st1.counts == st.counts.update(sgi, st.counts[sgi] + 1));
                    assert(st1.sums == st.sums.update(
                        sgi,
                        row_added(*gb, tbl@, st.sums[sgi], i as int),
                    ));
                    assert(engine_corr(*gb, tbl@, i as int + 1, reps@, counts@, sums@));
                }
            } else {
                reps.push(i);
                counts.push(1);
                let mut new_row: Vec<AggAcc> = Vec::new();
                let mut j: usize = 0;
                while j < ns
                    invariant
                        j <= ns,
                        ns == gb.sum_expr@.len(),
                        i < n,
                        n == table_nrows(tbl@),
                        table_wf(tbl@),
                        wt_group_by(*gb, tbl@),
                        sidx_corr(tbl@, gb.sum_expr@, sidx@),
                        new_row@.len() == j,
                        forall|jj: int| 0 <= jj < j ==> acc_matches(
                            sum_ty(*gb, jj),
                            #[trigger] new_row@[jj],
                            row_sums_init(*gb, tbl@, i as int)[jj],
                        ),
                    decreases ns - j,
                {
                    let col = &tbl.columns[sidx[j]].1;
                    proof {
                        assert(col@ == sum_col_of(*gb, tbl@, j as int));
                        assert(col_model_len(col@) == table_nrows(tbl@));
                        assert(col_model_type(col@) == sum_ty(*gb, j as int));
                        assert(col_model_canonical(col@));
                    }
                    let new_acc = match col {
                        OwnedColumn::BigInt(v) => {
                            proof {
                                lemma_w64_id(v@[i as int] as int);
                            }
                            AggAcc::I64(v[i])
                        },
                        OwnedColumn::Int128(v) => {
                            proof {
                                lemma_w128_id(v@[i as int] as int);
                            }
                            AggAcc::I128(v[i])
                        },
                        OwnedColumn::Scalar(v) => {
                            proof {
                                vstd::arithmetic::div_mod::lemma_small_mod(
                                    v@[i as int].value as nat,
                                    FIELD_MODULUS as nat,
                                );
                            }
                            AggAcc::Fld(v[i])
                        },
                        OwnedColumn::VarChar(_) => {
                            proof {
                                assert(false);
                            }
                            vstd::pervasive::unreached()
                        },
                    };
                    new_row.push(new_acc);
                    j = j + 1;
                }
                sums.push(new_row);
                proof {
                    assert(st1.reps == st.reps.push(i as int));
                    assert(usize_ints(reps@) =~= st1.reps);
                    assert(st1.counts == st.counts.push(1));
                    assert(st1.sums == st.sums.push(row_sums_init(*gb, tbl@, i as int)));
                    assert(engine_corr(*gb, tbl@, i as int + 1, reps@, counts@, sums@));
                }
            }
        } else {
            proof {
                assert(st1 == st);
                assert(engine_corr(*gb, tbl@, i as int + 1, reps@, counts@, sums@));
            }
        }
        i = i + 1;
    }
    proof {
        lemma_state_shape(*gb, tbl@, n as int);
        let stg = gb_state(*gb, tbl@, n as int);
        assert forall|m: int| 0 <= m < reps@.len() implies (#[trigger] reps@[m]) < n by {
            assert(usize_ints(reps@)[m] == reps@[m] as int);
            assert(stg.reps[m] < n as int);
        }
        assert forall|jj: int| 0 <= jj < gb.sum_expr@.len() implies sum_ty(*gb, jj)
            != ColumnType::VarChar by {
            assert(sum_ok(gb.sum_expr@[jj], tbl@));
        }
    }
    let ghost stf = gb_state(*gb, tbl@, n as int);
    let ng = gb.group_by_exprs.len();
    let ngroups = reps.len();
    let mut columns: Vec<(Identifier, OwnedColumn)> = Vec::new();
    let mut k: usize = 0;
    while k < ng
        invariant
            k <= ng,
            ng == gb.group_by_exprs@.len(),
            n == table_nrows(tbl@),
            table_wf(tbl@),
            wt_group_by(*gb, tbl@),
            search_pre(tbl@, gb.group_by_exprs@, gidx@),
            usize_ints(reps@) == stf.reps,
            stf == gb_state(*gb, tbl@, n as int),
            forall|m: int| 0 <= m < reps@.len() ==> (#[trigger] reps@[m]) < n,
            columns@.len() == k,
            forall|m: int| 0 <= m < k ==> (#[trigger] columns@[m]).0@
                == gb.group_by_exprs@[m].column_id@ && columns@[m].1@ == project_col(
                col_of(tbl@, gb.group_by_exprs@[m].column_id@),
                stf.reps,
            ),
        decreases ng - k,
    {
        let name = gb.group_by_exprs[k].column_id.clone_id();
        let colref = &tbl.columns[gidx[k]].1;
        proof {
            assert(colref@ == col_of(tbl@, gb.group_by_exprs@[k as int].column_id@));
            assert(col_model_len(colref@) == table_nrows(tbl@));
        }
        let col = project_column(colref, &reps, Ghost(stf.reps));
        columns.push((name, col));
        k = k + 1;
    }
    let mut j: usize = 0;
    while j < ns
        invariant
            j <= ns,
            ns == gb.sum_expr@.len(),
            ng == gb.group_by_exprs@.len(),
            ngroups == reps@.len(),
            reps@.len() == stf.reps.len(),
            stf == gb_state(*gb, tbl@, n as int),
            stf.sums.len() == stf.reps.len(),
            sums@.len() == stf.reps.len(),
            forall|gi: int| 0 <= gi < sums@.len() ==> (#[trigger] sums@[gi])@.len() == ns,
            forall|gi: int| 0 <= gi < stf.reps.len() ==> (#[trigger] stf.sums[gi]).len() == ns,
            forall|gi: int, jj: int|
                0 <= gi < sums@.len() && 0 <= jj < ns ==> acc_matches(
                    sum_ty(*gb, jj),
                    #[trigger] sums@[gi]@[jj],
                    stf.sums[gi][jj],
                ),
            forall|jj: int| 0 <= jj < ns ==> sum_ty(*gb, jj) != ColumnType::VarChar,
            columns@.len() == ng + j,
            forall|m: int| 0 <= m < ng ==> (#[trigger] columns@[m]).0@
                == gb.group_by_exprs@[m].column_id@ && columns@[m].1@ == project_col(
                col_of(tbl@, gb.group_by_exprs@[m].column_id@),
                stf.reps,
            ),
            forall|m: int| 0 <= m < j ==> (#[trigger] columns@[ng + m]).0@
                == gb.sum_expr@[m].alias@ && columns@[ng + m].1@ == materialize_sum(
                sum_ty(*gb, m),
                Seq::new(stf.reps.len(), |gi: int| stf.sums[gi][m]),
            ),
        decreases ns - j,
    {
        let name = gb.sum_expr[j].alias.clone_id();
        let ty = gb.sum_expr[j].result_type;
        let col = materialize_sum_col(&sums, j, ty, Ghost(stf.sums));
        proof {
            assert(Seq::new(stf.sums.len(), |gi: int| stf.sums[gi][j as int]) =~= Seq::new(
                stf.reps.len(),
                |gi: int| stf.sums[gi][j as int],
            ));
        }
        columns.push((name, col));
        j = j + 1;
    }
    let mut cvec: Vec<i64> = Vec::new();
    let mut g: usize = 0;
    while g < ngroups
        invariant
            g <= ngroups,
            ngroups == counts@.len(),
            counts@.len() == stf.counts.len(),
            stf.counts.len() == stf.reps.len(),
            stf == gb_state(*gb, tbl@, n as int),
            forall|m: int| 0 <= m < counts@.len() ==> (#[trigger] counts@[m]) as int
                == stf.counts[m],
            cvec@.len() == g,
            forall|m: int| 0 <= m < g ==> #[trigger] cvec@[m] == count_to_i64(stf.counts[m]),
        decreases ngroups - g,
    {
        let c = counts[g];
        let cv: i64 = if c <= 0x7fffffffffffffff {
            c as i64
        } else {
            0x7fffffffffffffff
        };
        cvec.push(cv);
        g = g + 1;
    }
    let count_name = gb.count_alias.clone_id();
    columns.push((count_name, OwnedColumn::BigInt(cvec)));
    let out = OwnedTable { columns };
    proof {
        let expect = gb_output(*gb, tbl@);
        assert(expect.len() == ng + ns + 1);
        assert(out@.len() == ng + ns + 1);
        assert forall|k2: int| 0 <= k2 < out@.len() implies out@[k2].0 == expect[k2].0 && out@[
            k2
        ].1 == expect[k2].1 by {
            if k2 < ng {
                assert(out@[k2].1 == project_col(
                    col_of(tbl@, gb.group_by_exprs@[k2].column_id@),
                    stf.reps,
                ));
            } else if k2 < ng + ns {
                let m = k2 - ng;
                assert(columns@[ng + m].0@ == gb.sum_expr@[m].alias@ && columns@[ng + m].1@
                    == materialize_sum(
                    sum_ty(*gb, m),
                    Seq::new(stf.reps.len(), |gi: int| stf.sums[gi][m]),
                ));
                assert(ng + m == k2);
            } else {
                assert(cvec@ =~= Seq::new(
                    stf.reps.len(),
                    |gi: int| count_to_i64(stf.counts[gi]),
                ));
                assert(out@[k2].1 =~~= expect[k2].1);
            }
        }
        assert(out@ =~= expect);
    }
    out
}


/// How many of the first `n` rows pass the filter and share row `r`'s key.
pub open spec fn cnt_key(g: GroupByExpr, t: TableModel, r: int, n: int) -> int
    decreases n,
{
    if n <= 0 {
        0
    } else {
        cnt_key(g, t, r, n - 1) + if row_sat(g.where_clause, t, n - 1) && same_key(
            g.group_by_exprs@,
            t,
            r,
            n - 1,
        ) {
            1int
        } else {
            0int
        }
    }
}

/// The running sum of aggregate `j` over the first `n` rows that pass the
/// filter and share row `r`'s key, in the arithmetic of the result type.
pub open spec fn sum_key(g: GroupByExpr, t: TableModel, r: int, j: int, n: int) -> int
    decreases n,
{
    if n <= 0 {
        0
    } else if row_sat(g.where_clause, t, n - 1) && same_key(g.group_by_exprs@, t, r, n - 1) {
        wrap_add(sum_ty(g, j), sum_key(g, t, r, j, n - 1), cell_int(sum_col_of(g, t, j), n - 1))
    } else {
        sum_key(g, t, r, j, n - 1)
    }
}

proof fn lemma_cnt_key_zero(g: GroupByExpr, t: TableModel, r: int, n: int)
    requires
        forall|m: int| 0 <= m < n ==> !(row_sat(g.where_clause, t, m) && same_key(
            g.group_by_exprs@,
            t,
            r,
            m,
        )),
    ensures
        cnt_key(g, t, r, n) == 0,
    decreases n,
{
    if n > 0 {
        lemma_cnt_key_zero(g, t, r, n - 1);
    }
}

proof fn lemma_sum_key_zero(g: GroupByExpr, t: TableModel, r: int, j: int, n: int)
    requires
        forall|m: int| 0 <= m < n ==> !(row_sat(g.where_clause, t, m) && same_key(
            g.group_by_exprs@,
            t,
            r,
            m,
        )),
    ensures
        sum_key(g, t, r, j, n) == 0,
    decreases n,
{
    if n > 0 {
        lemma_sum_key_zero(g, t, r, j, n - 1);
    }
}

/// The fold state's counts and sums are exactly the per-key counts and
/// sums, and every filtered row's key is represented by some group.
pub open spec fn state_correct(g: GroupByExpr, t: TableModel, n: int) -> bool {
    let st = gb_state(g, t, n);
    &&& forall|gi: int| 0 <= gi < st.reps.len() ==> #[trigger] st.counts[gi] == cnt_key(
        g,
        t,
        st.reps[gi],
        n,
    )
    &&& forall|gi: int, j: int|
        0 <= gi < st.reps.len() && 0 <= j < g.sum_expr@.len() ==> #[trigger] st.sums[gi][j]
            == sum_key(g, t, st.reps[gi], j, n)
    &&& forall|i: int|
        0 <= i < n && #[trigger] row_sat(g.where_clause, t, i) ==> exists|gi: int|
            0 <= gi < st.reps.len() && same_key(g.group_by_exprs@, t, #[trigger] st.reps[gi], i)
}

#[verifier::rlimit(100)]
#[verifier::spinoff_prover]
pub proof fn lemma_state_correct(g: GroupByExpr, t: TableModel, n: int)
    ensures
        state_correct(g, t, n),
    decreases n,
{
    if n > 0 {
        lemma_state_correct(g, t, n - 1);
        lemma_state_shape(g, t, n - 1);
        lemma_state_shape(g, t, n);
        let st = gb_state(g, t, n - 1);
        let st1 = gb_state(g, t, n);
        let i = n - 1;
        let gc = g.group_by_exprs@;
        if row_sat(g.where_clause, t, i) {
            lemma_find_group(gc, t, st.reps, i);
            let fg = find_group(gc, t, st.reps, i);
            if fg < st.reps.len() {
                assert(st1.reps == st.reps);
                assert forall|gi: int| 0 <= gi < st1.reps.len() implies #[trigger] st1.counts[gi]
                    == cnt_key(g, t, st1.reps[gi], n) by {
                    if gi == fg {
                        assert(same_key(gc, t, st.reps[fg], i));
                    } else {
                        if same_key(gc, t, st.reps[gi], i) {
                            assert(same_key(gc, t, st.reps[gi], st.reps[fg]));
                            if gi < fg {
                                assert(!same_key(gc, t, st.reps[gi], st.reps[fg]));
                            } else {
                                assert(!same_key(gc, t, st.reps[fg], st.reps[gi]));
                                assert(same_key(gc, t, st.reps[fg], st.reps[gi]));
                            }
                        }
                    }
                }
                assert forall|gi: int, j: int|
                    0 <= gi < st1.reps.len() && 0 <= j < g.sum_expr@.len() implies #[trigger] st1.sums[gi][j] == sum_key(g, t, st1.reps[gi], j, n) by {
                    if gi == fg {
                        assert(st1.sums[fg] == row_added(g, t, st.sums[fg], i));
                        assert(st1.sums[fg][j] == wrap_add(
                            sum_ty(g, j),
                            st.sums[fg][j],
                            cell_int(sum_col_of(g, t, j), i),
                        ));
                    } else {
                        if same_key(gc, t, st.reps[gi], i) {
                            assert(same_key(gc, t, st.reps[gi], st.reps[fg]));
                            if gi < fg {
                                assert(!same_key(gc, t, st.reps[gi], st.reps[fg]));
                            } else {
                                assert(!same_key(gc, t, st.reps[fg], st.reps[gi]));
                                assert(same_key(gc, t, st.reps[fg], st.reps[gi]));
                            }
                        }
                    }
                }
                assert forall|i2: int|
                    0 <= i2 < n && #[trigger] row_sat(g.where_clause, t, i2) implies exists|gi: int|
                    0 <= gi < st1.reps.len() && same_key(gc, t, #[trigger] st1.reps[gi], i2) by {
                    if i2 == i {
                        assert(same_key(gc, t, st1.reps[fg], i2));
                    } else {
                        let gi = choose|gi: int|
                            0 <= gi < st.reps.len() && same_key(gc, t, #[trigger] st.reps[gi], i2);
                        assert(same_key(gc, t, st1.reps[gi], i2));
                    }
                }
            } else {
                // a fresh group: no earlier filtered row shares the key
                assert(st1.reps == st.reps.push(i));
                assert forall|m: int| 0 <= m < n - 1 implies !(row_sat(g.where_clause, t, m)
                    && same_key(gc, t, i, m)) by {
                    if row_sat(g.where_clause, t, m) && same_key(gc, t, i, m) {
                        let gi = choose|gi: int|
                            0 <= gi < st.reps.len() && same_key(gc, t, #[trigger] st.reps[gi], m);
                        assert(same_key(gc, t, st.reps[gi], i));
                        assert(!same_key(gc, t, st.reps[gi], i));
                    }
                }
                lemma_cnt_key_zero(g, t, i, n - 1);
                assert forall|gi: int| 0 <= gi < st1.reps.len() implies #[trigger] st1.counts[gi]
                    == cnt_key(g, t, st1.reps[gi], n) by {
                    if gi < st.reps.len() {
                        assert(st1.reps[gi] == st.reps[gi]);
                        assert(!same_key(gc, t, st.reps[gi], i));
                        assert(st1.counts[gi] == st.counts[gi]);
                    } else {
                        assert(st1.reps[gi] == i);
                        assert(same_key(gc, t, i, i));
                        assert(cnt_key(g, t, i, n) == cnt_key(g, t, i, n - 1) + 1);
                    }
                }
                assert forall|gi: int, j: int|
                    0 <= gi < st1.reps.len() && 0 <= j < g.sum_expr@.len() implies #[trigger] st1.sums[gi][j] == sum_key(g, t, st1.reps[gi], j, n) by {
                    if gi < st.reps.len() {
                        assert(st1.reps[gi] == st.reps[gi]);
                        assert(!same_key(gc, t, st.reps[gi], i));
                        assert(st1.sums[gi] == st.sums[gi]);
                    } else {
                        assert(st1.reps[gi] == i);
                        lemma_sum_key_zero(g, t, i, j, n - 1);
                        assert(same_key(gc, t, i, i));
                        assert(st1.sums[gi] == row_sums_init(g, t, i));
                        assert(st1.sums[gi][j] == wrap_add(
                            sum_ty(g, j),
                            0,
                            cell_int(sum_col_of(g, t, j), i),
                        ));
                    }
                }
                assert forall|i2: int|
                    0 <= i2 < n && #[trigger] row_sat(g.where_clause, t, i2) implies exists|gi: int|
                    0 <= gi < st1.reps.len() && same_key(gc, t, #[trigger] st1.reps[gi], i2) by {
                    if i2 == i {
                        assert(st1.reps[st.reps.len() as int] == i);
                        assert(same_key(gc, t, st1.reps[st.reps.len() as int], i2));
                    } else {
                        let gi = choose|gi: int|
                            0 <= gi < st.reps.len() && same_key(gc, t, #[trigger] st.reps[gi], i2);
                        assert(st1.reps[gi] == st.reps[gi]);
                        assert(same_key(gc, t, st1.reps[gi], i2));
                    }
                }
            }
        } else {
            assert(st1 == st);
            assert forall|gi: int| 0 <= gi < st1.reps.len() implies #[trigger] st1.counts[gi]
                == cnt_key(g, t, st1.reps[gi], n) by {
                assert(st.counts[gi] == cnt_key(g, t, st.reps[gi], n - 1));
            }
            assert forall|gi: int, j: int|
                0 <= gi < st1.reps.len() && 0 <= j < g.sum_expr@.len() implies #[trigger] st1.sums[gi][j] == sum_key(g, t, st1.reps[gi], j, n) by {
                assert(st.sums[gi][j] == sum_key(g, t, st.reps[gi], j, n - 1));
            }
        }
    }
}

/// Group-by correctness. With `st` the fold state over the whole table:
/// every group representative is a filtered row; the groups' keys are
/// pairwise distinct; every filtered row's key is some group's key; each
/// group's count is the number of filtered rows sharing its key; and each
/// group's sum for every aggregate is the fold, in the result type's
/// arithmetic, of that aggregate's column over exactly those rows. The
/// output table binds these per group: its rows are the groups in first-
/// occurrence order, keys taken from the representative rows.
pub proof fn lemma_group_by_correct(g: GroupByExpr, t: TableModel)
    ensures
        forall|gi: int| 0 <= gi < gb_state(g, t, table_nrows(t) as int).reps.len() ==> row_sat(
            g.where_clause,
            t,
            #[trigger] gb_state(g, t, table_nrows(t) as int).reps[gi],
        ),
        forall|g1: int, g2: int|
            0 <= g1 < g2 < gb_state(g, t, table_nrows(t) as int).reps.len() ==> !same_key(
                g.group_by_exprs@,
                t,
                #[trigger] gb_state(g, t, table_nrows(t) as int).reps[g1],
                #[trigger] gb_state(g, t, table_nrows(t) as int).reps[g2],
            ),
        state_correct(g, t, table_nrows(t) as int),
        gb_output(g, t).len() == g.group_by_exprs@.len() + g.sum_expr@.len() + 1,
        gb_output(g, t)[(g.group_by_exprs@.len() + g.sum_expr@.len()) as int] == ((
        g.count_alias@,
        ColModel::BigInt(
            Seq::new(
                gb_state(g, t, table_nrows(t) as int).reps.len(),
                |gi: int| count_to_i64(gb_state(g, t, table_nrows(t) as int).counts[gi]),
            ),
        ),
        )),
{
    lemma_state_shape(g, t, table_nrows(t) as int);
    lemma_state_correct(g, t, table_nrows(t) as int);
}

/// The plain (unwrapped) sum of aggregate `j` over the first `n` rows
/// that pass the filter and share row `r`'s key.
pub open spec fn int_sum_key(g: GroupByExpr, t: TableModel, r: int, j: int, n: int) -> int
    decreases n,
{
    if n <= 0 {
        0
    } else if row_sat(g.where_clause, t, n - 1) && same_key(g.group_by_exprs@, t, r, n - 1) {
        int_sum_key(g, t, r, j, n - 1) + cell_int(sum_col_of(g, t, j), n - 1)
    } else {
        int_sum_key(g, t, r, j, n - 1)
    }
}

/// A value lies in the range of the result type's arithmetic.
pub open spec fn in_ty_range(ty: ColumnType, x: int) -> bool {
    match ty {
        ColumnType::BigInt => -0x8000000000000000 <= x < 0x8000000000000000,
        ColumnType::Int128 => -0x80000000000000000000000000000000 <= x
            < 0x80000000000000000000000000000000,
        ColumnType::Scalar => 0 <= x < FIELD_MODULUS,
        ColumnType::VarChar => false,
    }
}

/// When every partial sum of a group stays in the result type's range,
/// the folded sum is the exact arithmetic sum.
pub proof fn lemma_sum_exact(g: GroupByExpr, t: TableModel, r: int, j: int, n: int)
    requires
        sum_ty(g, j) != ColumnType::VarChar,
        forall|m: int| 0 <= m <= n ==> in_ty_range(sum_ty(g, j), #[trigger] int_sum_key(
            g,
            t,
            r,
            j,
            m,
        )),
    ensures
        sum_key(g, t, r, j, n) == int_sum_key(g, t, r, j, n),
    decreases n,
{
    if n > 0 {
        assert(in_ty_range(sum_ty(g, j), int_sum_key(g, t, r, j, n - 1)));
        lemma_sum_exact(g, t, r, j, n - 1);
        if row_sat(g.where_clause, t, n - 1) && same_key(g.group_by_exprs@, t, r, n - 1) {
            let x = int_sum_key(g, t, r, j, n);
            match sum_ty(g, j) {
                ColumnType::BigInt => {
                    lemma_w64_id(x);
                },
                ColumnType::Int128 => {
                    lemma_w128_id(x);
                },
                ColumnType::Scalar => {
                    vstd::arithmetic::div_mod::lemma_small_mod(x as nat, FIELD_MODULUS as nat);
                },
                ColumnType::VarChar => {},
            }
        }
    }
}

} // verus!
