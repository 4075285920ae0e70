//! The verifiable query result: the prover's bundle of a claimed output
//! table and a proof, and the verifier's check of that bundle against
//! the column commitments alone.
//!
//! The proof opens the committed input columns; the verifier checks each
//! opening against the accessor's commitment, replays the query over the
//! openings, and accepts exactly when the claimed table is what the
//! openings yield. Soundness therefore rests on the commitments binding
//! the openings to the true columns: any claimed table that differs from
//! the evaluation of columns matching the commitments is rejected.

use vstd::prelude::*;

use crate::commitment::commit_column;
use crate::commitment::spec_commitment;
use crate::database::ColumnType;
use crate::database::OwnedColumn;
use crate::database::OwnedTable;
use crate::database::TableModel;
use crate::database::clone_table;
use crate::database::col_model_canonical;
use crate::database::col_model_len;
use crate::database::col_of;
use crate::database::lemma_find_col_self;
use crate::database::table_nrows;
use crate::database::table_wf;
use crate::group_by_expr::GroupByExpr;
use crate::group_by_expr::gb_eval;
use crate::group_by_expr::gb_output;
use crate::group_by_expr::gcol_ok;
use crate::group_by_expr::out_name;
use crate::group_by_expr::sum_ok;
use crate::group_by_expr::wt_group_by;
use crate::identifier::Identifier;
use crate::identifier::TableRef;
use crate::owned_accessor::OwnedTableTestAccessor;
use crate::owned_accessor::acc_has;
use crate::owned_accessor::acc_table;
use crate::owned_accessor::acc_wf;
use crate::owned_accessor::lemma_acc_find;
use crate::provable_expr::check_filter;
use crate::scalar::FIELD_MODULUS;

verus! {

/// The proof part of a bundle: the opened input columns, bound to the
/// accessor's commitments during verification.
#[derive(Debug)]
pub struct QueryProof {
    pub opened: OwnedTable,
}

/// A claimed output table together with its proof.
#[derive(Debug)]
pub struct VerifiableQueryResult {
    pub proof: QueryProof,
    pub table: OwnedTable,
}

/// The table handed out on acceptance.
#[derive(Debug)]
pub struct QueryData {
    pub table: OwnedTable,
}

/// Why a bundle was not accepted: the query itself is malformed against
/// the schema, or some proof check failed.
#[derive(Clone, Copy, Debug, PartialEq, Eq, Structural)]
pub enum QueryError {
    Plan,
    Verification,
}

/// The opened columns carry the same names, in the same order, and the
/// same commitments as the source table.
pub open spec fn openings_bound(src: TableModel, opened: TableModel) -> bool {
    &&& opened.len() == src.len()
    &&& forall|k: int| 0 <= k < src.len() ==> (#[trigger] opened[k]).0 == src[k].0
    &&& forall|k: int| 0 <= k < src.len() ==> spec_commitment((#[trigger] opened[k]).1)
        == spec_commitment(src[k].1)
}

/// Everything the verifier checks about a bundle, given the source table
/// the accessor committed to.
pub open spec fn proof_checks(
    g: GroupByExpr,
    src: TableModel,
    opened: TableModel,
    claimed: TableModel,
) -> bool {
    &&& table_wf(opened)
    &&& wt_group_by(g, opened)
    &&& openings_bound(src, opened)
    &&& claimed == gb_output(g, opened)
}

/// The plan-time conditions: the table exists and the query is
/// well-typed against its schema.
pub open spec fn plan_ok(g: GroupByExpr, acc: Seq<(TableRef, OwnedTable)>) -> bool {
    &&& acc_has(acc, g.table@)
    &&& wt_group_by(g, acc_table(acc, g.table@))
}

/// The exact outcome verification must produce for a bundle.
pub open spec fn verify_conforms(
    vr: VerifiableQueryResult,
    g: GroupByExpr,
    acc: Seq<(TableRef, OwnedTable)>,
    o: Result<QueryData, QueryError>,
) -> bool {
    match o {
        Ok(qd) => plan_ok(g, acc) && proof_checks(
            g,
            acc_table(acc, g.table@),
            vr.proof.opened@,
            vr.table@,
        ) && qd.table@ == vr.table@,
        Err(QueryError::Plan) => !plan_ok(g, acc),
        Err(QueryError::Verification) => plan_ok(g, acc) && !proof_checks(
            g,
            acc_table(acc, g.table@),
            vr.proof.opened@,
            vr.table@,
        ),
    }
}

/// Decide well-formedness of a table: distinct names, one length,
/// canonical scalars.
pub fn check_table_wf(t: &OwnedTable) -> (r: bool)
    ensures
        r == table_wf(t@),
{
    let n = t.num_columns();
    let rows = t.nrows();
    let mut i: usize = 0;
    while i < n
        invariant
            i <= n,
            n == t@.len(),
            rows == table_nrows(t@),
            t@.len() == t.columns@.len(),
            forall|a: int| 0 <= a < t@.len() ==> t@[a] == (t.columns@[a].0@, t.columns@[a].1@),
            forall|a: int, b: int| 0 <= a < b < t@.len() && a < i ==> (#[trigger] t@[a]).0 != (
            #[trigger] t@[b]).0,
            forall|a: int| 0 <= a < i ==> col_model_len((#[trigger] t@[a]).1) == table_nrows(t@),
            forall|a: int| 0 <= a < i ==> col_model_canonical((#[trigger] t@[a]).1),
        decreases n - i,
    {
        let mut j: usize = i + 1;
        while j < n
            invariant
                i < j || j == i + 1,
                i < n,
                j <= n,
                n == t@.len(),
                t@.len() == t.columns@.len(),
                forall|a: int| 0 <= a < t@.len() ==> t@[a] == (t.columns@[a].0@, t.columns@[a].1@),
                forall|b: int| i < b < j ==> (#[trigger] t@[b]).0 != t@[i as int].0,
            decreases n - j,
        {
            if t.columns[i].0.eq_name(&t.columns[j].0) {
                proof {
                    assert(t@[i as int].0 == t@[j as int].0);
                }
                return false;
            }
            j = j + 1;
        }
        if t.columns[i].1.len() != rows {
            proof {
                assert(col_model_len(t@[i as int].1) != table_nrows(t@));
            }
            return false;
        }
        match &t.columns[i].1 {
            OwnedColumn::Scalar(v) => {
                let m = v.len();
                let mut k: usize = 0;
                while k < m
                    invariant
                        k <= m,
                        m == v@.len(),
                        i < n,
                        n == t@.len(),
                        t@.len() == t.columns@.len(),
                        forall|a: int| 0 <= a < t@.len() ==> t@[a] == (
                        t.columns@[a].0@,
                        t.columns@[a].1@,
                        ),
                        t@[i as int].1 matches crate::database::ColModel::Scalar(w) && w == v@,
                        forall|a: int| 0 <= a < k ==> (#[trigger] v@[a]).is_canonical(),
                    decreases m - k,
                {
                    if v[k].value >= FIELD_MODULUS {
                        proof {
                            assert(!col_model_canonical(t@[i as int].1));
                        }
                        return false;
                    }
                    k = k + 1;
                }
            },
            _ => {},
        }
        i = i + 1;
    }
    true
}

/// The machine bound on the number of output columns.
pub open spec fn sizes_ok(g: GroupByExpr) -> bool {
    g.group_by_exprs@.len() + g.sum_expr@.len() + 1 <= usize::MAX
}

/// The name of output column `k` of a group-by query.
fn out_name_at<'a>(gb: &'a GroupByExpr, k: usize) -> (r: &'a Identifier)
    requires
        sizes_ok(*gb),
        k < gb.group_by_exprs@.len() + gb.sum_expr@.len() + 1,
    ensures
        r@ == out_name(*gb, k as int),
{
    let ng = gb.group_by_exprs.len();
    let ns = gb.sum_expr.len();
    if k < ng {
        &gb.group_by_exprs[k].column_id
    } else if k < ng + ns {
        &gb.sum_expr[k - ng].alias
    } else {
        &gb.count_alias
    }
}

/// Decide well-typedness of a group-by query against a table's schema.
pub fn check_group_by(gb: &GroupByExpr, tbl: &OwnedTable) -> (r: bool)
    requires
        sizes_ok(*gb),
    ensures
        r == wt_group_by(*gb, tbl@),
{
    if !check_filter(&gb.where_clause, tbl) {
        return false;
    }
    let ng = gb.group_by_exprs.len();
    let mut k: usize = 0;
    while k < ng
        invariant
            k <= ng,
            ng == gb.group_by_exprs@.len(),
            forall|m: int| 0 <= m < k ==> gcol_ok(#[trigger] gb.group_by_exprs@[m], tbl@),
        decreases ng - k,
    {
        match tbl.find_column(&gb.group_by_exprs[k].column_id) {
            Some(i) => {
                proof {
                    assert(tbl@[i as int].1 == col_of(tbl@, gb.group_by_exprs@[k as int].column_id@));
                }
                if !(tbl.columns[i].1.column_type() == gb.group_by_exprs[k].column_type) {
                    return false;
                }
            },
            None => {
                return false;
            },
        }
        k = k + 1;
    }
    let ns = gb.sum_expr.len();
    let mut j: usize = 0;
    while j < ns
        invariant
            j <= ns,
            ns == gb.sum_expr@.len(),
            forall|m: int| 0 <= m < j ==> sum_ok(#[trigger] gb.sum_expr@[m], tbl@),
        decreases ns - j,
    {
        match tbl.find_column(&gb.sum_expr[j].column.column_id) {
            Some(i) => {
                proof {
                    assert(tbl@[i as int].1 == col_of(
                        tbl@,
                        gb.sum_expr@[j as int].column.column_id@,
                    ));
                }
                let ct = tbl.columns[i].1.column_type();
                if !(ct == gb.sum_expr[j].column.column_type) {
                    return false;
                }
                if !(gb.sum_expr[j].result_type == gb.sum_expr[j].column.column_type) {
                    return false;
                }
                if gb.sum_expr[j].column.column_type == ColumnType::VarChar {
                    return false;
                }
            },
            None => {
                return false;
            },
        }
        j = j + 1;
    }
    let total = ng + ns + 1;
    let mut k1: usize = 0;
    while k1 < total
        invariant
            k1 <= total,
            sizes_ok(*gb),
            total == gb.group_by_exprs@.len() + gb.sum_expr@.len() + 1,
            forall|a: int, b: int| 0 <= a < b < total && a < k1 ==> #[trigger] out_name(*gb, a)
                != #[trigger] out_name(*gb, b),
        decreases total - k1,
    {
        let mut k2: usize = k1 + 1;
        while k2 < total
            invariant
                k1 < k2 || k2 == k1 + 1,
                k1 < total,
                k2 <= total,
                sizes_ok(*gb),
                total == gb.group_by_exprs@.len() + gb.sum_expr@.len() + 1,
                forall|b: int| k1 < b < k2 ==> out_name(*gb, k1 as int) != #[trigger] out_name(
                    *gb,
                    b,
                ),
            decreases total - k2,
        {
            let n1 = out_name_at(gb, k1);
            let n2 = out_name_at(gb, k2);
            if n1.eq_name(n2) {
                return false;
            }
            k2 = k2 + 1;
        }
        k1 = k1 + 1;
    }
    true
}

impl VerifiableQueryResult {
    /// Prover side: evaluate the query over the real columns, open the
    /// source table, and bundle the claimed output with the proof.
    pub fn new(
        expr: &GroupByExpr,
        accessor: &OwnedTableTestAccessor,
        _setup: &(),
    ) -> (r: VerifiableQueryResult)
        requires
            acc_wf(accessor.tables@),
            plan_ok(*expr, accessor.tables@),
        ensures
            r.proof.opened@ == acc_table(accessor.tables@, expr.table@),
            r.table@ == gb_output(*expr, acc_table(accessor.tables@, expr.table@)),
    {
        let src = accessor.get_owned_table(&expr.table);
        proof {
            lemma_acc_find(accessor.tables@, expr.table@);
        }
        let opened = clone_table(src);
        let table = gb_eval(expr, src);
        VerifiableQueryResult { proof: QueryProof { opened }, table }
    }

    /// Verifier side: replay the checks against the commitments and the
    /// claimed table. The outcome is a function of the bundle, the query
    /// and the accessor alone, so repeating the call repeats the result.
    #[verifier::rlimit(100)]
    pub fn verify(
        &self,
        expr: &GroupByExpr,
        accessor: &OwnedTableTestAccessor,
        _setup: &(),
    ) -> (r: Result<QueryData, QueryError>)
        requires
            acc_wf(accessor.tables@),
            sizes_ok(*expr),
        ensures
            verify_conforms(*self, *expr, accessor.tables@, r),
    {
        let src = match accessor.try_get_table(&expr.table) {
            Some(t) => t,
            None => {
                return Err(QueryError::Plan);
            },
        };
        if !check_group_by(expr, src) {
            return Err(QueryError::Plan);
        }
        let opened = &self.proof.opened;
        if !check_table_wf(opened) {
            return Err(QueryError::Verification);
        }
        if !check_group_by(expr, opened) {
            return Err(QueryError::Verification);
        }
        proof {
            lemma_acc_find(accessor.tables@, expr.table@);
            assert(table_wf(src@));
        }
        let ncols = src.num_columns();
        if opened.num_columns() != ncols {
            return Err(QueryError::Verification);
        }
        let mut k: usize = 0;
        while k < ncols
            invariant
                k <= ncols,
                ncols == src@.len(),
                opened@.len() == src@.len(),
                acc_wf(accessor.tables@),
                acc_has(accessor.tables@, expr.table@),
                plan_ok(*expr, accessor.tables@),
                opened@ == self.proof.opened@,
                src@ == acc_table(accessor.tables@, expr.table@),
                table_wf(src@),
                table_wf(opened@),
                wt_group_by(*expr, opened@),
                src@.len() == src.columns@.len(),
                opened@.len() == opened.columns@.len(),
                forall|a: int| 0 <= a < src@.len() ==> src@[a] == (
                src.columns@[a].0@,
                src.columns@[a].1@,
                ),
                forall|a: int| 0 <= a < opened@.len() ==> opened@[a] == (
                opened.columns@[a].0@,
                opened.columns@[a].1@,
                ),
                forall|a: int| 0 <= a < k ==> (#[trigger] opened@[a]).0 == src@[a].0,
                forall|a: int| 0 <= a < k ==> spec_commitment((#[trigger] opened@[a]).1)
                    == spec_commitment(src@[a].1),
            decreases ncols - k,
        {
            if !opened.columns[k].0.eq_name(&src.columns[k].0) {
                proof {
                    assert(opened@[k as int].0 != src@[k as int].0);
                    assert(!openings_bound(src@, opened@));
                    assert(!proof_checks(
                        *expr,
                        acc_table(accessor.tables@, expr.table@),
                        self.proof.opened@,
                        self.table@,
                    ));
                }
                return Err(QueryError::Verification);
            }
            proof {
                lemma_find_col_self(src@, k as int);
                assert(col_model_canonical(opened@[k as int].1));
            }
            let c1 = commit_column(&opened.columns[k].1);
            let c2 = accessor.get_commitment(&expr.table, &src.columns[k].0);
            if !(c1 == c2) {
                proof {
                    assert(spec_commitment(opened@[k as int].1) != spec_commitment(
                        src@[k as int].1,
                    ));
                    assert(!openings_bound(src@, opened@));
                    assert(!proof_checks(
                        *expr,
                        acc_table(accessor.tables@, expr.table@),
                        self.proof.opened@,
                        self.table@,
                    ));
                }
                return Err(QueryError::Verification);
            }
            k = k + 1;
        }
        let expected = gb_eval(expr, opened);
        if !expected.table_eq(&self.table) {
            return Err(QueryError::Verification);
        }
        Ok(QueryData { table: clone_table(&self.table) })
    }
}

/// Check a bundle the way a caller exercising the protocol would:
/// verification must accept, and a second run must accept the same
/// table again.
pub fn exercise_verification(
    res: &VerifiableQueryResult,
    expr: &GroupByExpr,
    accessor: &OwnedTableTestAccessor,
    _table_ref: &TableRef,
) -> (r: bool)
    requires
        acc_wf(accessor.tables@),
        sizes_ok(*expr),
    ensures
        r == (plan_ok(*expr, accessor.tables@) && proof_checks(
            *expr,
            acc_table(accessor.tables@, expr.table@),
            res.proof.opened@,
            res.table@,
        )),
{
    let r1 = res.verify(expr, accessor, &());
    let r2 = res.verify(expr, accessor, &());
    match (r1, r2) {
        (Ok(d1), Ok(d2)) => d1.table.table_eq(&d2.table),
        _ => false,
    }
}

/// Completeness: an honestly produced bundle passes every check, and any
/// conforming verification outcome accepts it with the direct evaluation
/// of the query over the committed data.
pub proof fn lemma_completeness(
    g: GroupByExpr,
    acc: Seq<(TableRef, OwnedTable)>,
    vr: VerifiableQueryResult,
)
    requires
        acc_wf(acc),
        plan_ok(g, acc),
        vr.proof.opened@ == acc_table(acc, g.table@),
        vr.table@ == gb_output(g, acc_table(acc, g.table@)),
    ensures
        proof_checks(g, acc_table(acc, g.table@), vr.proof.opened@, vr.table@),
        forall|o: Result<QueryData, QueryError>| verify_conforms(vr, g, acc, o) ==> o is Ok,
        forall|o: Result<QueryData, QueryError>|
            verify_conforms(vr, g, acc, o) ==> (o matches Ok(qd) ==> qd.table@ == gb_output(
                g,
                acc_table(acc, g.table@),
            )),
{
    lemma_acc_find(acc, g.table@);
    assert(table_wf(acc_table(acc, g.table@)));
    assert forall|o: Result<QueryData, QueryError>| verify_conforms(vr, g, acc, o) implies o
        is Ok by {
        match o {
            Ok(_) => {},
            Err(QueryError::Plan) => {
                assert(plan_ok(g, acc));
            },
            Err(QueryError::Verification) => {
                assert(proof_checks(g, acc_table(acc, g.table@), vr.proof.opened@, vr.table@));
            },
        }
    }
}

/// Soundness relative to commitment binding: whatever is accepted is the
/// evaluation of the query over opened columns whose commitments all
/// match the committed source columns; if the openings are the source
/// columns themselves, the accepted table is the true result.
pub proof fn lemma_soundness(
    g: GroupByExpr,
    src: TableModel,
    opened: TableModel,
    claimed: TableModel,
)
    requires
        proof_checks(g, src, opened, claimed),
    ensures
        openings_bound(src, opened),
        claimed == gb_output(g, opened),
        opened == src ==> claimed == gb_output(g, src),
{
}

/// Idempotence: two conforming verification outcomes for the same bundle,
/// query and accessor agree — same acceptance, same table, same error.
pub proof fn lemma_verify_idempotent(
    vr: VerifiableQueryResult,
    g: GroupByExpr,
    acc: Seq<(TableRef, OwnedTable)>,
    o1: Result<QueryData, QueryError>,
    o2: Result<QueryData, QueryError>,
)
    requires
        verify_conforms(vr, g, acc, o1),
        verify_conforms(vr, g, acc, o2),
    ensures
        (match (o1, o2) {
            (Ok(a), Ok(b)) => a.table@ == b.table@,
            (Err(a), Err(b)) => a == b,
            _ => false,
        }),
{
}

} // verus!
