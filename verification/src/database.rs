//! The column and table model.
//!
//! A table is a list of named, typed, length-homogeneous columns. The
//! mathematical model of a column (`ColModel`) carries the same data as
//! sequences, and every contract in the query layer is stated over these
//! models.

use vstd::prelude::*;

use crate::identifier::Identifier;
use crate::scalar::Scalar;

verus! {

/// The type of one column's values.
#[derive(Clone, Copy, Debug, PartialEq, Eq, Structural, Hash)]
pub enum ColumnType {
    BigInt,
    Int128,
    VarChar,
    Scalar,
}

/// One typed column of values, owned by a table.
#[derive(Clone, Debug, PartialEq)]
pub enum OwnedColumn {
    BigInt(Vec<i64>),
    Int128(Vec<i128>),
    VarChar(Vec<String>),
    Scalar(Vec<Scalar>),
}

/// The mathematical model of a column.
#[verifier::ext_equal]
pub enum ColModel {
    BigInt(Seq<i64>),
    Int128(Seq<i128>),
    VarChar(Seq<Seq<char>>),
    Scalar(Seq<Scalar>),
}

impl View for OwnedColumn {
    type V = ColModel;

    open spec fn view(&self) -> ColModel {
        match self {
            OwnedColumn::BigInt(v) => ColModel::BigInt(v@),
            OwnedColumn::Int128(v) => ColModel::Int128(v@),
            OwnedColumn::VarChar(v) => ColModel::VarChar(Seq::new(v@.len(), |i: int| v@[i]@)),
            OwnedColumn::Scalar(v) => ColModel::Scalar(v@),
        }
    }
}

pub open spec fn col_model_len(c: ColModel) -> nat {
    match c {
        ColModel::BigInt(v) => v.len(),
        ColModel::Int128(v) => v.len(),
        ColModel::VarChar(v) => v.len(),
        ColModel::Scalar(v) => v.len(),
    }
}

pub open spec fn col_model_type(c: ColModel) -> ColumnType {
    match c {
        ColModel::BigInt(_) => ColumnType::BigInt,
        ColModel::Int128(_) => ColumnType::Int128,
        ColModel::VarChar(_) => ColumnType::VarChar,
        ColModel::Scalar(_) => ColumnType::Scalar,
    }
}

/// Scalar cells must be canonical residues for the model to be meaningful.
pub open spec fn col_model_canonical(c: ColModel) -> bool {
    match c {
        ColModel::Scalar(v) => forall|i: int| 0 <= i < v.len() ==> (#[trigger] v[i]).is_canonical(),
        _ => true,
    }
}

/// The value of one cell, in the domain where cells are compared:
/// integers compare as integers (so the two integer widths unify),
/// strings as character sequences, field elements as residues.
pub enum CellValue {
    Int(int),
    Str(Seq<char>),
    Fld(int),
}

pub open spec fn cell_value(c: ColModel, i: int) -> CellValue {
    match c {
        ColModel::BigInt(v) => CellValue::Int(v[i] as int),
        ColModel::Int128(v) => CellValue::Int(v[i] as int),
        ColModel::VarChar(v) => CellValue::Str(v[i]),
        ColModel::Scalar(v) => CellValue::Fld(v[i].value as int),
    }
}

/// The numeric addend a cell contributes to a SUM aggregate.
pub open spec fn cell_int(c: ColModel, i: int) -> int {
    match c {
        ColModel::BigInt(v) => v[i] as int,
        ColModel::Int128(v) => v[i] as int,
        ColModel::VarChar(_) => 0,
        ColModel::Scalar(v) => v[i].value as int,
    }
}

impl OwnedColumn {
    pub fn len(&self) -> (r: usize)
        ensures
            r == col_model_len(self@),
    {
        match self {
            OwnedColumn::BigInt(v) => v.len(),
            OwnedColumn::Int128(v) => v.len(),
            OwnedColumn::VarChar(v) => v.len(),
            OwnedColumn::Scalar(v) => v.len(),
        }
    }

    pub fn column_type(&self) -> (r: ColumnType)
        ensures
            r == col_model_type(self@),
    {
        match self {
            OwnedColumn::BigInt(_) => ColumnType::BigInt,
            OwnedColumn::Int128(_) => ColumnType::Int128,
            OwnedColumn::VarChar(_) => ColumnType::VarChar,
            OwnedColumn::Scalar(_) => ColumnType::Scalar,
        }
    }

    /// Whether the cells at two rows of this column hold the same value.
    pub fn cells_equal(&self, i: usize, j: usize) -> (r: bool)
        requires
            i < col_model_len(self@),
            j < col_model_len(self@),
        ensures
            r == (cell_value(self@, i as int) == cell_value(self@, j as int)),
    {
        match self {
            OwnedColumn::BigInt(v) => v[i] == v[j],
            OwnedColumn::Int128(v) => v[i] == v[j],
            OwnedColumn::VarChar(v) => v[i] == v[j],
            OwnedColumn::Scalar(v) => v[i].value == v[j].value,
        }
    }
}

/// Deep equality of two columns: same variant, same values.
pub fn columns_equal(a: &OwnedColumn, b: &OwnedColumn) -> (r: bool)
    ensures
        r == (a@ == b@),
{
    match (a, b) {
        (OwnedColumn::BigInt(x), OwnedColumn::BigInt(y)) => {
            let r = eq_vec_i64(x, y);
            proof {
                if x@ =~= y@ {
                    assert(a@ == b@);
                }
            }
            r
        },
        (OwnedColumn::Int128(x), OwnedColumn::Int128(y)) => {
            let r = eq_vec_i128(x, y);
            proof {
                if x@ =~= y@ {
                    assert(a@ == b@);
                }
            }
            r
        },
        (OwnedColumn::VarChar(x), OwnedColumn::VarChar(y)) => {
            let r = eq_vec_string(x, y);
            proof {
                if r {
                    assert(a@ =~~= b@);
                } else if a@ == b@ {
                    let sx = Seq::new(x@.len(), |i: int| x@[i]@);
                    let sy = Seq::new(y@.len(), |i: int| y@[i]@);
                    assert(sx == sy);
                    assert(x@.len() == y@.len()) by {
                        assert(sx.len() == sy.len());
                    }
                    assert forall|k: int| 0 <= k < x@.len() implies x@[k]@ == y@[k]@ by {
                        assert(sx[k] == sy[k]);
                    }
                    assert(false);
                }
            }
            r
        },
        (OwnedColumn::Scalar(x), OwnedColumn::Scalar(y)) => {
            let r = eq_vec_scalar(x, y);
            proof {
                if x@ =~= y@ {
                    assert(a@ == b@);
                }
            }
            r
        },
        _ => false,
    }
}

fn eq_vec_i64(x: &Vec<i64>, y: &Vec<i64>) -> (r: bool)
    ensures
        r == (x@ =~= y@),
{
    if x.len() != y.len() {
        return false;
    }
    let n = x.len();
    let mut i: usize = 0;
    while i < n
        invariant
            i <= n,
            n == x@.len(),
            n == y@.len(),
            forall|k: int| 0 <= k < i ==> x@[k] == y@[k],
        decreases n - i,
    {
        if x[i] != y[i] {
            return false;
        }
        i = i + 1;
    }
    true
}

fn eq_vec_i128(x: &Vec<i128>, y: &Vec<i128>) -> (r: bool)
    ensures
        r == (x@ =~= y@),
{
    if x.len() != y.len() {
        return false;
    }
    let n = x.len();
    let mut i: usize = 0;
    while i < n
        invariant
            i <= n,
            n == x@.len(),
            n == y@.len(),
            forall|k: int| 0 <= k < i ==> x@[k] == y@[k],
        decreases n - i,
    {
        if x[i] != y[i] {
            return false;
        }
        i = i + 1;
    }
    true
}

fn eq_vec_scalar(x: &Vec<Scalar>, y: &Vec<Scalar>) -> (r: bool)
    ensures
        r == (x@ =~= y@),
{
    if x.len() != y.len() {
        return false;
    }
    let n = x.len();
    let mut i: usize = 0;
    while i < n
        invariant
            i <= n,
            n == x@.len(),
            n == y@.len(),
            forall|k: int| 0 <= k < i ==> x@[k] == y@[k],
        decreases n - i,
    {
        if x[i].value != y[i].value {
            return false;
        }
        i = i + 1;
    }
    true
}

fn eq_vec_string(x: &Vec<String>, y: &Vec<String>) -> (r: bool)
    ensures
        r == (x@.len() == y@.len() && (forall|k: int| 0 <= k < x@.len() ==> x@[k]@ == y@[k]@)),
{
    if x.len() != y.len() {
        return false;
    }
    let n = x.len();
    let mut i: usize = 0;
    while i < n
        invariant
            i <= n,
            n == x@.len(),
            n == y@.len(),
            forall|k: int| 0 <= k < i ==> x@[k]@ == y@[k]@,
        decreases n - i,
    {
        if !(x[i] == y[i]) {
            return false;
        }
        i = i + 1;
    }
    true
}

/// A deep copy of a column, bit for bit.
pub fn clone_column(c: &OwnedColumn) -> (r: OwnedColumn)
    ensures
        r@ == c@,
{
    match c {
        OwnedColumn::BigInt(v) => OwnedColumn::BigInt(copy_vec_i64(v)),
        OwnedColumn::Int128(v) => OwnedColumn::Int128(copy_vec_i128(v)),
        OwnedColumn::VarChar(v) => {
            let w = copy_vec_string(v);
            let r = OwnedColumn::VarChar(w);
            proof {
                assert(r@ =~~= c@);
            }
            r
        },
        OwnedColumn::Scalar(v) => OwnedColumn::Scalar(copy_vec_scalar(v)),
    }
}

pub fn copy_vec_i64(v: &Vec<i64>) -> (r: Vec<i64>)
    ensures
        r@ =~= v@,
{
    let mut r: Vec<i64> = Vec::new();
    let n = v.len();
    let mut i: usize = 0;
    while i < n
        invariant
            i <= n,
            n == v@.len(),
            r@ =~= v@.subrange(0, i as int),
        decreases n - i,
    {
        r.push(v[i]);
        i = i + 1;
    }
    r
}

fn copy_vec_i128(v: &Vec<i128>) -> (r: Vec<i128>)
    ensures
        r@ =~= v@,
{
    let mut r: Vec<i128> = Vec::new();
    let n = v.len();
    let mut i: usize = 0;
    while i < n
        invariant
            i <= n,
            n == v@.len(),
            r@ =~= v@.subrange(0, i as int),
        decreases n - i,
    {
        r.push(v[i]);
        i = i + 1;
    }
    r
}

fn copy_vec_scalar(v: &Vec<Scalar>) -> (r: Vec<Scalar>)
    ensures
        r@ =~= v@,
{
    let mut r: Vec<Scalar> = Vec::new();
    let n = v.len();
    let mut i: usize = 0;
    while i < n
        invariant
            i <= n,
            n == v@.len(),
            r@ =~= v@.subrange(0, i as int),
        decreases n - i,
    {
        r.push(v[i]);
        i = i + 1;
    }
    r
}

fn copy_vec_string(v: &Vec<String>) -> (r: Vec<String>)
    ensures
        r@.len() == v@.len(),
        forall|k: int| 0 <= k < v@.len() ==> r@[k]@ == v@[k]@,
{
    let mut r: Vec<String> = Vec::new();
    let n = v.len();
    let mut i: usize = 0;
    while i < n
        invariant
            i <= n,
            n == v@.len(),
            r@.len() == i,
            forall|k: int| 0 <= k < i ==> r@[k]@ == v@[k]@,
        decreases n - i,
    {
        r.push(v[i].clone());
        i = i + 1;
    }
    r
}

/// A named collection of columns that all share one row count.
#[derive(Clone, Debug, PartialEq)]
pub struct OwnedTable {
    pub columns: Vec<(Identifier, OwnedColumn)>,
}

/// The mathematical model of a table: name and model of each column, in order.
pub type TableModel = Seq<(Seq<char>, ColModel)>;

impl View for OwnedTable {
    type V = TableModel;

    open spec fn view(&self) -> TableModel {
        Seq::new(self.columns@.len(), |i: int| (self.columns@[i].0@, self.columns@[i].1@))
    }
}

/// Index of the column with the given name, or -1 when absent.
pub open spec fn find_col(t: TableModel, name: Seq<char>) -> int
    decreases t.len(),
{
    if t.len() == 0 {
        -1
    } else if t.first().0 == name {
        0
    } else {
        let r = find_col(t.drop_first(), name);
        if r < 0 {
            -1
        } else {
            r + 1
        }
    }
}

pub open spec fn has_col(t: TableModel, name: Seq<char>) -> bool {
    find_col(t, name) >= 0
}

pub open spec fn col_of(t: TableModel, name: Seq<char>) -> ColModel {
    t[find_col(t, name)].1
}

/// Row count of a table model: the length its columns share.
pub open spec fn table_nrows(t: TableModel) -> nat {
    if t.len() == 0 {
        0
    } else {
        col_model_len(t[0].1)
    }
}

/// Well-formedness: distinct column names, one shared length, canonical scalars.
pub open spec fn table_wf(t: TableModel) -> bool {
    &&& forall|i: int, j: int| 0 <= i < j < t.len() ==> (#[trigger] t[i]).0 != (#[trigger] t[j]).0
    &&& forall|i: int| 0 <= i < t.len() ==> col_model_len((#[trigger] t[i]).1) == table_nrows(t)
    &&& forall|i: int| 0 <= i < t.len() ==> col_model_canonical((#[trigger] t[i]).1)
}

/// `find_col` returns the first index bearing the name, and -1 only when
/// no column bears it.
pub proof fn lemma_find_col(t: TableModel, name: Seq<char>)
    ensures
        find_col(t, name) == -1 || (0 <= find_col(t, name) < t.len()),
        find_col(t, name) >= 0 ==> t[find_col(t, name)].0 == name,
        find_col(t, name) >= 0 ==> forall|j: int| 0 <= j < find_col(t, name) ==> (#[trigger] t[j]).0
            != name,
        find_col(t, name) == -1 ==> forall|j: int| 0 <= j < t.len() ==> (#[trigger] t[j]).0 != name,
    decreases t.len(),
{
    if t.len() > 0 && t.first().0 != name {
        let s = t.drop_first();
        lemma_find_col(s, name);
        let r = find_col(s, name);
        if r >= 0 {
            assert(t[r + 1] == s[r]);
            assert forall|j: int| 0 <= j < find_col(t, name) implies (#[trigger] t[j]).0
                != name by {
                if j > 0 {
                    assert(s[j - 1] == t[j]);
                }
            }
        } else {
            assert forall|j: int| 0 <= j < t.len() implies (#[trigger] t[j]).0 != name by {
                if j > 0 {
                    assert(s[j - 1] == t[j]);
                }
            }
        }
    }
}

/// With distinct names, a column is found exactly at its own position.
pub proof fn lemma_find_col_self(t: TableModel, k: int)
    requires
        0 <= k < t.len(),
        forall|i: int, j: int| 0 <= i < j < t.len() ==> (#[trigger] t[i]).0 != (#[trigger] t[j]).0,
    ensures
        find_col(t, t[k].0) == k,
{
    lemma_find_col(t, t[k].0);
    let fc = find_col(t, t[k].0);
    if fc == -1 {
        assert(t[k].0 != t[k].0);
    } else if fc < k {
        assert(t[fc].0 != t[k].0);
        assert(t[fc].0 == t[k].0);
    } else if fc > k {
        assert(t[k].0 != t[k].0);
    }
}

impl OwnedTable {
    pub fn num_columns(&self) -> (r: usize)
        ensures
            r == self@.len(),
    {
        self.columns.len()
    }

    pub fn nrows(&self) -> (r: usize)
        ensures
            r == table_nrows(self@),
    {
        if self.columns.len() == 0 {
            0
        } else {
            self.columns[0].1.len()
        }
    }

    /// Position of the column named `name`, searched front to back.
    pub fn find_column(&self, name: &Identifier) -> (r: Option<usize>)
        ensures
            match r {
                Some(i) => find_col(self@, name@) == i && i < self@.len(),
                None => find_col(self@, name@) == -1,
            },
    {
        let n = self.columns.len();
        let mut i: usize = 0;
        while i < n
            invariant
                i <= n,
                n == self@.len(),
                self@.len() == self.columns@.len(),
                forall|j: int| 0 <= j < i ==> (#[trigger] self@[j]).0 != name@,
                forall|j: int| 0 <= j < self@.len() ==> self@[j] == (
                self.columns@[j].0@,
                self.columns@[j].1@,
                ),
            decreases n - i,
        {
            if self.columns[i].0.eq_name(name) {
                proof {
                    lemma_find_col(self@, name@);
                    assert(self@[i as int].0 == name@);
                    let fc = find_col(self@, name@);
                    if fc == -1 {
                        assert(self@[i as int].0 != name@);
                    } else if fc < i {
                        assert(self@[fc].0 != name@);
                        assert(self@[fc].0 == name@);
                    } else if fc > i {
                        assert(self@[i as int].0 != name@);
                    }
                }
                return Some(i);
            }
            i = i + 1;
        }
        proof {
            lemma_find_col(self@, name@);
        }
        None
    }

    /// Deep equality of two tables: same column names, order and data.
    pub fn table_eq(&self, other: &OwnedTable) -> (r: bool)
        ensures
            r == (self@ == other@),
    {
        if self.columns.len() != other.columns.len() {
            proof {
                assert(self@.len() != other@.len());
            }
            return false;
        }
        let n = self.columns.len();
        let mut i: usize = 0;
        while i < n
            invariant
                i <= n,
                n == self.columns@.len(),
                n == other.columns@.len(),
                forall|k: int| 0 <= k < i ==> #[trigger] self@[k] == other@[k],
            decreases n - i,
        {
            if !self.columns[i].0.eq_name(&other.columns[i].0) {
                proof {
                    assert(self@[i as int].0 != other@[i as int].0);
                }
                return false;
            }
            if !columns_equal(&self.columns[i].1, &other.columns[i].1) {
                proof {
                    assert(self@[i as int].1 != other@[i as int].1);
                }
                return false;
            }
            i = i + 1;
        }
        proof {
            assert(self@ =~= other@);
        }
        true
    }
}

/// A deep copy of a table.
pub fn clone_table(t: &OwnedTable) -> (r: OwnedTable)
    ensures
        r@ == t@,
{
    let mut columns: Vec<(Identifier, OwnedColumn)> = Vec::new();
    let n = t.columns.len();
    let mut i: usize = 0;
    while i < n
        invariant
            i <= n,
            n == t.columns@.len(),
            columns@.len() == i,
            forall|k: int| 0 <= k < i ==> (#[trigger] columns@[k]).0@ == t.columns@[k].0@
                && columns@[k].1@ == t.columns@[k].1@,
        decreases n - i,
    {
        let name = t.columns[i].0.clone_id();
        let col = clone_column(&t.columns[i].1);
        columns.push((name, col));
        i = i + 1;
    }
    let r = OwnedTable { columns };
    proof {
        assert(r@ =~= t@);
    }
    r
}

} // verus!
