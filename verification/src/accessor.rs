//! A minimal accessor over 64-bit integer tables, fed directly from maps
//! of column data. It answers lengths, column data, column types and
//! commitments by table and column name.

use std::collections::HashMap;

use vstd::prelude::*;

use crate::commitment::Commitment;
use crate::commitment::compute_commitment_for_testing;
use crate::commitment::spec_commitment;
use crate::database::ColModel;
use crate::database::ColumnType;

verus! {

/// A borrowed view of one column's data. Only 64-bit integer columns
/// flow through this accessor.
#[derive(Clone, Debug, PartialEq)]
pub enum Column {
    BigInt(Vec<i64>),
}

/// Tables of named integer columns, keyed by a textual table name.
#[derive(Debug)]
pub struct TestAccessor {
    pub tables: Vec<(String, Vec<(String, Vec<i64>)>)>,
}

/// Index of the table with the given name, or -1 when absent.
pub open spec fn tacc_find(s: Seq<(String, Vec<(String, Vec<i64>)>)>, name: Seq<char>) -> int
    decreases s.len(),
{
    if s.len() == 0 {
        -1
    } else if s.first().0@ == name {
        0
    } else {
        let k = tacc_find(s.drop_first(), name);
        if k < 0 {
            -1
        } else {
            k + 1
        }
    }
}

/// Index of the column with the given name inside one table, or -1.
pub open spec fn tcol_find(cols: Seq<(String, Vec<i64>)>, name: Seq<char>) -> int
    decreases cols.len(),
{
    if cols.len() == 0 {
        -1
    } else if cols.first().0@ == name {
        0
    } else {
        let k = tcol_find(cols.drop_first(), name);
        if k < 0 {
            -1
        } else {
            k + 1
        }
    }
}

/// All columns of one table share a single length.
pub open spec fn tcols_wf(cols: Seq<(String, Vec<i64>)>) -> bool {
    forall|i: int| 0 <= i < cols.len() ==> (#[trigger] cols[i]).1@.len() == tcols_nrows(cols)
}

pub open spec fn tcols_nrows(cols: Seq<(String, Vec<i64>)>) -> nat {
    if cols.len() == 0 {
        0
    } else {
        cols[0].1@.len()
    }
}

pub open spec fn tacc_wf(s: Seq<(String, Vec<(String, Vec<i64>)>)>) -> bool {
    &&& forall|i: int, j: int| 0 <= i < j < s.len() ==> (#[trigger] s[i]).0@ != (#[trigger] s[j]).0@
    &&& forall|i: int| 0 <= i < s.len() ==> tcols_wf((#[trigger] s[i]).1@)
}

pub proof fn lemma_tacc_find(s: Seq<(String, Vec<(String, Vec<i64>)>)>, name: Seq<char>)
    ensures
        tacc_find(s, name) == -1 || (0 <= tacc_find(s, name) < s.len()),
        tacc_find(s, name) >= 0 ==> s[tacc_find(s, name)].0@ == name,
        tacc_find(s, name) == -1 ==> forall|j: int| 0 <= j < s.len() ==> (#[trigger] s[j]).0@
            != name,
        tacc_find(s, name) >= 0 ==> forall|j: int| 0 <= j < tacc_find(s, name) ==> (
        #[trigger] s[j]).0@ != name,
    decreases s.len(),
{
    if s.len() > 0 && s.first().0@ != name {
        let t = s.drop_first();
        lemma_tacc_find(t, name);
        if tacc_find(t, name) >= 0 {
            assert(s[tacc_find(t, name) + 1] == t[tacc_find(t, name)]);
            assert forall|j: int| 0 <= j < tacc_find(s, name) implies (#[trigger] s[j]).0@
                != name by {
                if j > 0 {
                    assert(t[j - 1] == s[j]);
                }
            }
        } else {
            assert forall|j: int| 0 <= j < s.len() implies (#[trigger] s[j]).0@ != name by {
                if j > 0 {
                    assert(t[j - 1] == s[j]);
                }
            }
        }
    }
}

pub proof fn lemma_tcol_find(cols: Seq<(String, Vec<i64>)>, name: Seq<char>)
    ensures
        tcol_find(cols, name) == -1 || (0 <= tcol_find(cols, name) < cols.len()),
        tcol_find(cols, name) >= 0 ==> cols[tcol_find(cols, name)].0@ == name,
        tcol_find(cols, name) == -1 ==> forall|j: int| 0 <= j < cols.len() ==> (
        #[trigger] cols[j]).0@ != name,
        tcol_find(cols, name) >= 0 ==> forall|j: int| 0 <= j < tcol_find(cols, name) ==> (
        #[trigger] cols[j]).0@ != name,
    decreases cols.len(),
{
    if cols.len() > 0 && cols.first().0@ != name {
        let t = cols.drop_first();
        lemma_tcol_find(t, name);
        if tcol_find(t, name) >= 0 {
            assert(cols[tcol_find(t, name) + 1] == t[tcol_find(t, name)]);
            assert forall|j: int| 0 <= j < tcol_find(cols, name) implies (#[trigger] cols[j]).0@
                != name by {
                if j > 0 {
                    assert(t[j - 1] == cols[j]);
                }
            }
        } else {
            assert forall|j: int| 0 <= j < cols.len() implies (#[trigger] cols[j]).0@ != name by {
                if j > 0 {
                    assert(t[j - 1] == cols[j]);
                }
            }
        }
    }
}

/// Relies on std's `HashMap::iter`: visits every entry exactly once, in
/// an unspecified order. The result lists each (key, value) pair of the
/// map, with pairwise distinct keys.
#[verifier::external_body]
fn map_entries(m: &HashMap<String, Vec<i64>>) -> (r: Vec<(String, Vec<i64>)>)
    ensures
        pairs_match(m@, r@),
        forall|i: int, j: int| 0 <= i < j < r@.len() ==> (#[trigger] r@[i]).0@ != (
        #[trigger] r@[j]).0@,
{
    let mut r = Vec::new();
    for (k, v) in m.iter() {
        r.push((k.clone(), v.clone()));
    }
    r
}

impl TestAccessor {
    pub fn new() -> (r: TestAccessor)
        ensures
            r.tables@.len() == 0,
            tacc_wf(r.tables@),
    {
        TestAccessor { tables: Vec::new() }
    }

    /// Register (or replace) a table from a map of named columns, which
    /// must all share one length.
    pub fn add_table(&mut self, table: &str, columns: &HashMap<String, Vec<i64>>)
        requires
            tacc_wf(old(self).tables@),
            !(tacc_find(old(self).tables@, table@) >= 0),
            forall|k1: String, k2: String|
                columns@.contains_key(k1) && columns@.contains_key(k2) ==> (
                #[trigger] columns@[k1])@.len() == (#[trigger] columns@[k2])@.len(),
        ensures
            tacc_wf(final(self).tables@),
            final(self).tables@.len() == old(self).tables@.len() + 1,
            final(self).tables@.last().0@ == table@,
            forall|j: int| 0 <= j < old(self).tables@.len() ==> #[trigger] final(self).tables@[j]
                == old(self).tables@[j],
            pairs_match(columns@, final(self).tables@.last().1@),
    {
        let cols = map_entries(columns);
        proof {
            assert forall|i: int| 0 <= i < cols@.len() implies (#[trigger] cols@[i]).1@.len()
                == tcols_nrows(cols@) by {
                if cols@.len() > 0 {
                    let k0 = choose|k: String| m_pair(columns@, k, cols@[0].0@, cols@[0].1);
                    let ki = choose|k: String| m_pair(columns@, k, cols@[i].0@, cols@[i].1);
                    assert(columns@.contains_key(k0) && columns@[k0]@ == cols@[0].1@);
                    assert(columns@.contains_key(ki) && columns@[ki]@ == cols@[i].1@);
                }
            }
            lemma_tacc_find(self.tables@, table@);
        }
        let ghost gv = cols;
        let name: String = table.to_owned();
        let ghost oldseq = self.tables@;
        self.tables.push((name, cols));
        proof {
            assert(self.tables@.last().1 == gv);
            assert(self.tables@.last().1@ == gv@);
            assert forall|i: int, j: int|
                0 <= i < j < self.tables@.len() implies (#[trigger] self.tables@[i]).0@ != (
            #[trigger] self.tables@[j]).0@ by {
                if j < self.tables@.len() - 1 {
                    assert(oldseq[i] == self.tables@[i] && oldseq[j] == self.tables@[j]);
                } else {
                    assert(self.tables@[i] == oldseq[i]);
                }
            }
            assert forall|i: int| 0 <= i < self.tables@.len() implies tcols_wf(
                (#[trigger] self.tables@[i]).1@,
            ) by {
                if i < self.tables@.len() - 1 {
                    assert(self.tables@[i] == oldseq[i]);
                }
            }
        }
    }

    /// Row count of a stored table.
    pub fn get_length(&self, table: &str) -> (r: usize)
        requires
            tacc_wf(self.tables@),
            tacc_find(self.tables@, table@) >= 0,
        ensures
            r == tcols_nrows(self.tables@[tacc_find(self.tables@, table@)].1@),
    {
        let cols = self.table_columns(table);
        if cols.len() == 0 {
            0
        } else {
            cols[0].1.len()
        }
    }

    fn table_columns(&self, table: &str) -> (r: &Vec<(String, Vec<i64>)>)
        requires
            tacc_find(self.tables@, table@) >= 0,
        ensures
            r@ == self.tables@[tacc_find(self.tables@, table@)].1@,
    {
        proof {
            lemma_tacc_find(self.tables@, table@);
        }
        let key: String = table.to_owned();
        let n = self.tables.len();
        let mut i: usize = 0;
        while i < n
            invariant
                i <= n,
                n == self.tables@.len(),
                key@ == table@,
                0 <= tacc_find(self.tables@, table@) < n,
                self.tables@[tacc_find(self.tables@, table@)].0@ == table@,
                forall|j: int| 0 <= j < tacc_find(self.tables@, table@) ==> (
                #[trigger] self.tables@[j]).0@ != table@,
                forall|j: int| 0 <= j < i ==> (#[trigger] self.tables@[j]).0@ != table@,
            decreases n - i,
        {
            if self.tables[i].0 == key {
                return &self.tables[i].1;
            }
            i = i + 1;
        }
        proof {
            assert(false);
        }
        vstd::pervasive::unreached()
    }

    /// The data of one column, copied out.
    pub fn get_column(&self, table: &str, column: &str) -> (r: Column)
        requires
            tacc_wf(self.tables@),
            tacc_find(self.tables@, table@) >= 0,
            tcol_find(self.tables@[tacc_find(self.tables@, table@)].1@, column@) >= 0,
        ensures
            (match r {
                Column::BigInt(v) => v@ == self.tables@[tacc_find(self.tables@, table@)].1@[
                    tcol_find(self.tables@[tacc_find(self.tables@, table@)].1@, column@)
                ].1@,
            }),
    {
        let cols = self.table_columns(table);
        let data = find_column_data(cols, column);
        Column::BigInt(crate::database::copy_vec_i64(data))
    }

    /// The commitment to one column.
    pub fn get_commitment(&self, table: &str, column: &str) -> (r: Commitment)
        requires
            tacc_wf(self.tables@),
            tacc_find(self.tables@, table@) >= 0,
            tcol_find(self.tables@[tacc_find(self.tables@, table@)].1@, column@) >= 0,
        ensures
            r == spec_commitment(
                ColModel::BigInt(
                    self.tables@[tacc_find(self.tables@, table@)].1@[
                        tcol_find(self.tables@[tacc_find(self.tables@, table@)].1@, column@)
                    ].1@,
                ),
            ),
    {
        let cols = self.table_columns(table);
        let data = find_column_data(cols, column);
        compute_commitment_for_testing(data.as_slice())
    }

    /// The declared type of one column, or nothing when absent.
    pub fn lookup_column(&self, table: &str, column: &str) -> (r: Option<ColumnType>)
        requires
            tacc_wf(self.tables@),
            tacc_find(self.tables@, table@) >= 0,
        ensures
            r == Some(ColumnType::BigInt) <==> tcol_find(
                self.tables@[tacc_find(self.tables@, table@)].1@,
                column@,
            ) >= 0,
            r is Some ==> r == Some(ColumnType::BigInt),
    {
        let cols = self.table_columns(table);
        proof {
            lemma_tcol_find(cols@, column@);
        }
        let key: String = column.to_owned();
        let n = cols.len();
        let mut i: usize = 0;
        while i < n
            invariant
                i <= n,
                n == cols@.len(),
                key@ == column@,
                tacc_find(self.tables@, table@) >= 0,
                cols@ == self.tables@[tacc_find(self.tables@, table@)].1@,
                tcol_find(cols@, column@) == -1 || (0 <= tcol_find(cols@, column@) < n
                    && cols@[tcol_find(cols@, column@)].0@ == column@),
                tcol_find(cols@, column@) >= 0 ==> forall|j: int|
                    0 <= j < tcol_find(cols@, column@) ==> (#[trigger] cols@[j]).0@ != column@,
                tcol_find(cols@, column@) == -1 ==> forall|j: int| 0 <= j < n ==> (
                #[trigger] cols@[j]).0@ != column@,
                forall|j: int| 0 <= j < i ==> (#[trigger] cols@[j]).0@ != column@,
            decreases n - i,
        {
            if cols[i].0 == key {
                proof {
                    assert(cols@[i as int].0@ == column@);
                    lemma_tcol_find(cols@, column@);
                    if tcol_find(cols@, column@) == -1 {
                        assert(cols@[i as int].0@ != column@);
                        assert(false);
                    }
                    assert(tcol_find(cols@, column@) >= 0);
                    assert(cols@ == self.tables@[tacc_find(self.tables@, table@)].1@);
                    assert(tcol_find(
                        self.tables@[tacc_find(self.tables@, table@)].1@,
                        column@,
                    ) >= 0);
                }
                return Some(ColumnType::BigInt);
            }
            i = i + 1;
        }
        None
    }
}

/// The list `cols` holds exactly the entries of the map `m`.
pub open spec fn pairs_match(m: Map<String, Vec<i64>>, cols: Seq<(String, Vec<i64>)>) -> bool {
    &&& forall|i: int| 0 <= i < cols.len() ==> exists|k: String|
        m_pair(m, k, (#[trigger] cols[i]).0@, cols[i].1)
    &&& forall|k: String| #[trigger] m.contains_key(k) ==> exists|i: int| 0 <= i < cols.len()
        && m_pair(m, k, (#[trigger] cols[i]).0@, cols[i].1)
}

pub open spec fn m_pair(m: Map<String, Vec<i64>>, k: String, name: Seq<char>, data: Vec<i64>) -> bool {
    m.contains_key(k) && k@ == name && m[k]@ == data@
}

fn find_column_data<'a>(cols: &'a Vec<(String, Vec<i64>)>, column: &str) -> (r: &'a Vec<i64>)
    requires
        tcol_find(cols@, column@) >= 0,
    ensures
        r@ == cols@[tcol_find(cols@, column@)].1@,
{
    proof {
        lemma_tcol_find(cols@, column@);
    }
    let key: String = column.to_owned();
    let n = cols.len();
    let mut i: usize = 0;
    while i < n
        invariant
            i <= n,
            n == cols@.len(),
            key@ == column@,
            0 <= tcol_find(cols@, column@) < n,
            cols@[tcol_find(cols@, column@)].0@ == column@,
            forall|j: int| 0 <= j < tcol_find(cols@, column@) ==> (#[trigger] cols@[j]).0@
                != column@,
            forall|j: int| 0 <= j < i ==> (#[trigger] cols@[j]).0@ != column@,
        decreases n - i,
    {
        if cols[i].0 == key {
            return &cols[i].1;
        }
        i = i + 1;
    }
    proof {
        assert(false);
    }
    vstd::pervasive::unreached()
}

} // verus!
