//! The accessor over owned tables: the storage abstraction the query
//! protocol reads.
//!
//! It answers for each table the row count, and for each column its data
//! (prover side only), its type and its commitment. The verifier side of
//! the protocol reads nothing but lengths, types and commitments.

use vstd::prelude::*;

use crate::commitment::Commitment;
use crate::commitment::commit_column;
use crate::commitment::spec_commitment;
use crate::database::ColumnType;
use crate::database::OwnedTable;
use crate::database::TableModel;
use crate::database::col_model_type;
use crate::database::col_of;
use crate::database::has_col;
use crate::database::lemma_find_col;
use crate::database::table_nrows;
use crate::database::table_wf;
use crate::identifier::Identifier;
use crate::identifier::TableRef;

verus! {

/// An in-memory accessor: tables keyed by their reference.
#[derive(Debug)]
pub struct OwnedTableTestAccessor {
    pub tables: Vec<(TableRef, OwnedTable)>,
}

/// Index of the table with the given reference, or -1 when absent.
pub open spec fn acc_find(s: Seq<(TableRef, OwnedTable)>, r: (Seq<char>, Seq<char>)) -> int
    decreases s.len(),
{
    if s.len() == 0 {
        -1
    } else if s.first().0@ == r {
        0
    } else {
        let k = acc_find(s.drop_first(), r);
        if k < 0 {
            -1
        } else {
            k + 1
        }
    }
}

pub open spec fn acc_has(s: Seq<(TableRef, OwnedTable)>, r: (Seq<char>, Seq<char>)) -> bool {
    acc_find(s, r) >= 0
}

/// The model of the table stored under a reference.
pub open spec fn acc_table(s: Seq<(TableRef, OwnedTable)>, r: (Seq<char>, Seq<char>)) -> TableModel {
    s[acc_find(s, r)].1@
}

/// Well-formedness of the store: distinct references, well-formed tables.
pub open spec fn acc_wf(s: Seq<(TableRef, OwnedTable)>) -> bool {
    &&& forall|i: int, j: int| 0 <= i < j < s.len() ==> (#[trigger] s[i]).0@ != (#[trigger] s[j]).0@
    &&& forall|i: int| 0 <= i < s.len() ==> table_wf((#[trigger] s[i]).1@)
}

pub proof fn lemma_acc_find(s: Seq<(TableRef, OwnedTable)>, r: (Seq<char>, Seq<char>))
    ensures
        acc_find(s, r) == -1 || (0 <= acc_find(s, r) < s.len()),
        acc_find(s, r) >= 0 ==> s[acc_find(s, r)].0@ == r,
        acc_find(s, r) >= 0 ==> forall|j: int| 0 <= j < acc_find(s, r) ==> (#[trigger] s[j]).0@
            != r,
        acc_find(s, r) == -1 ==> forall|j: int| 0 <= j < s.len() ==> (#[trigger] s[j]).0@ != r,
    decreases s.len(),
{
    if s.len() > 0 && s.first().0@ != r {
        let t = s.drop_first();
        lemma_acc_find(t, r);
        let k = acc_find(t, r);
        if k >= 0 {
            assert(s[k + 1] == t[k]);
            assert forall|j: int| 0 <= j < acc_find(s, r) implies (#[trigger] s[j]).0@ != r by {
                if j > 0 {
                    assert(t[j - 1] == s[j]);
                }
            }
        } else {
            assert forall|j: int| 0 <= j < s.len() implies (#[trigger] s[j]).0@ != r by {
                if j > 0 {
                    assert(t[j - 1] == s[j]);
                }
            }
        }
    }
}

impl OwnedTableTestAccessor {
    /// An accessor with no tables. The setup argument is the commitment
    /// scheme's public parameters, opaque to this store.
    pub fn new_empty_with_setup(_setup: ()) -> (r: OwnedTableTestAccessor)
        ensures
            r.tables@.len() == 0,
            acc_wf(r.tables@),
    {
        OwnedTableTestAccessor { tables: Vec::new() }
    }

    /// Register a table under a reference not yet in the store. The offset
    /// positions the table's rows inside a larger committed range; this
    /// store keeps every table at the origin and ignores it.
    pub fn add_table(&mut self, table_ref: TableRef, data: OwnedTable, _table_offset: usize)
        requires
            acc_wf(old(self).tables@),
            table_wf(data@),
            !acc_has(old(self).tables@, table_ref@),
        ensures
            final(self).tables@ == old(self).tables@.push((table_ref, data)),
            acc_wf(final(self).tables@),
            forall|r: (Seq<char>, Seq<char>)| acc_has(old(self).tables@, r) ==> #[trigger] acc_has(
                final(self).tables@,
                r,
            ) && acc_table(final(self).tables@, r) == acc_table(old(self).tables@, r),
            acc_has(final(self).tables@, table_ref@),
            acc_table(final(self).tables@, table_ref@) == data@,
    {
        proof {
            lemma_acc_find(old(self).tables@, table_ref@);
        }
        let ghost oldseq = self.tables@;
        let ghost tr = table_ref@;
        let ghost d = data;
        self.tables.push((table_ref, data));
        proof {
            let s = self.tables@;
            lemma_push_find(oldseq, (tr.0, tr.1), d);
            assert forall|r: (Seq<char>, Seq<char>)| acc_has(oldseq, r) implies #[trigger] acc_has(
                s,
                r,
            ) && acc_table(s, r) == acc_table(oldseq, r) by {
                lemma_acc_find(oldseq, r);
                lemma_push_keep(oldseq, r, s.last());
            }
            assert forall|i: int, j: int| 0 <= i < j < s.len() implies (#[trigger] s[i]).0@ != (
            #[trigger] s[j]).0@ by {
                lemma_acc_find(oldseq, s[j].0@);
                if j < s.len() - 1 {
                    assert(oldseq[i] == s[i] && oldseq[j] == s[j]);
                } else {
                    if acc_has(oldseq, tr) {
                    }
                }
            }
        }
    }

    /// The stored table under a reference, when present.
    pub fn try_get_table(&self, table_ref: &TableRef) -> (r: Option<&OwnedTable>)
        ensures
            match r {
                Some(t) => acc_has(self.tables@, table_ref@) && t@ == acc_table(
                    self.tables@,
                    table_ref@,
                ),
                None => !acc_has(self.tables@, table_ref@),
            },
    {
        proof {
            lemma_acc_find(self.tables@, table_ref@);
        }
        let n = self.tables.len();
        let mut i: usize = 0;
        while i < n
            invariant
                i <= n,
                n == self.tables@.len(),
                acc_find(self.tables@, table_ref@) == -1 || (0 <= acc_find(
                    self.tables@,
                    table_ref@,
                ) < n && self.tables@[acc_find(self.tables@, table_ref@)].0@ == table_ref@),
                acc_find(self.tables@, table_ref@) >= 0 ==> forall|j: int|
                    0 <= j < acc_find(self.tables@, table_ref@) ==> (
                    #[trigger] self.tables@[j]).0@ != table_ref@,
                acc_find(self.tables@, table_ref@) == -1 ==> forall|j: int| 0 <= j < n ==> (
                #[trigger] self.tables@[j]).0@ != table_ref@,
                forall|j: int| 0 <= j < i ==> (#[trigger] self.tables@[j]).0@ != table_ref@,
            decreases n - i,
        {
            if self.tables[i].0.eq_ref(table_ref) {
                proof {
                    if acc_find(self.tables@, table_ref@) == -1 {
                        assert(self.tables@[i as int].0@ != table_ref@);
                    }
                }
                return Some(&self.tables[i].1);
            }
            i = i + 1;
        }
        None
    }

    /// Row count of a stored table.
    pub fn get_length(&self, table_ref: &TableRef) -> (r: usize)
        requires
            acc_has(self.tables@, table_ref@),
        ensures
            r == table_nrows(acc_table(self.tables@, table_ref@)),
    {
        let t = self.get_owned_table(table_ref);
        t.nrows()
    }

    /// The stored table itself; only the prover reads this.
    pub fn get_owned_table(&self, table_ref: &TableRef) -> (r: &OwnedTable)
        requires
            acc_has(self.tables@, table_ref@),
        ensures
            r@ == acc_table(self.tables@, table_ref@),
    {
        proof {
            lemma_acc_find(self.tables@, table_ref@);
        }
        let n = self.tables.len();
        let mut i: usize = 0;
        while i < n
            invariant
                i <= n,
                n == self.tables@.len(),
                acc_has(self.tables@, table_ref@),
                0 <= acc_find(self.tables@, table_ref@) < n,
                self.tables@[acc_find(self.tables@, table_ref@)].0@ == table_ref@,
                forall|j: int| 0 <= j < acc_find(self.tables@, table_ref@) ==> (
                #[trigger] self.tables@[j]).0@ != table_ref@,
                forall|j: int| 0 <= j < i ==> (#[trigger] self.tables@[j]).0@ != table_ref@,
            decreases n - i,
        {
            if self.tables[i].0.eq_ref(table_ref) {
                return &self.tables[i].1;
            }
            i = i + 1;
        }
        proof {
            assert(false);
        }
        vstd::pervasive::unreached()
    }

    /// The declared type of a column, or nothing when the table has no
    /// column of that name.
    pub fn lookup_column(&self, table_ref: &TableRef, column_id: &Identifier) -> (r: Option<
        ColumnType,
    >)
        requires
            acc_has(self.tables@, table_ref@),
        ensures
            match r {
                Some(t) => has_col(acc_table(self.tables@, table_ref@), column_id@) && t
                    == col_model_type(col_of(acc_table(self.tables@, table_ref@), column_id@)),
                None => !has_col(acc_table(self.tables@, table_ref@), column_id@),
            },
    {
        let t = self.get_owned_table(table_ref);
        match t.find_column(column_id) {
            Some(i) => Some(t.columns[i].1.column_type()),
            None => None,
        }
    }

    /// The commitment to a column of a stored table.
    pub fn get_commitment(&self, table_ref: &TableRef, column_id: &Identifier) -> (r: Commitment)
        requires
            acc_wf(self.tables@),
            acc_has(self.tables@, table_ref@),
            has_col(acc_table(self.tables@, table_ref@), column_id@),
        ensures
            r == spec_commitment(col_of(acc_table(self.tables@, table_ref@), column_id@)),
    {
        proof {
            lemma_acc_find(self.tables@, table_ref@);
        }
        let t = self.get_owned_table(table_ref);
        proof {
            lemma_find_col(t@, column_id@);
        }
        match t.find_column(column_id) {
            Some(i) => commit_column(&t.columns[i].1),
            None => {
                proof {
                    assert(false);
                }
                vstd::pervasive::unreached()
            },
        }
    }
}

proof fn lemma_push_find(s: Seq<(TableRef, OwnedTable)>, r: (Seq<char>, Seq<char>), t: OwnedTable)
    requires
        !acc_has(s, r),
    ensures
        forall|x: (TableRef, OwnedTable)| x.0@ == r ==> acc_find(s.push(x), r) == s.len() as int
            && acc_table(s.push(x), r) == x.1@,
    decreases s.len(),
{
    assert forall|x: (TableRef, OwnedTable)| x.0@ == r implies acc_find(s.push(x), r)
        == s.len() as int && acc_table(s.push(x), r) == x.1@ by {
        lemma_push_find_one(s, r, x);
    }
}

proof fn lemma_push_find_one(
    s: Seq<(TableRef, OwnedTable)>,
    r: (Seq<char>, Seq<char>),
    x: (TableRef, OwnedTable),
)
    requires
        !acc_has(s, r),
        x.0@ == r,
    ensures
        acc_find(s.push(x), r) == s.len() as int,
        acc_table(s.push(x), r) == x.1@,
    decreases s.len(),
{
    let p = s.push(x);
    if s.len() == 0 {
        assert(p.first().0@ == r);
    } else {
        assert(p.first() == s.first());
        assert(p.drop_first() =~= s.drop_first().push(x));
        lemma_push_find_one(s.drop_first(), r, x);
        assert(p[s.len() as int] == x);
    }
}

proof fn lemma_push_keep(
    s: Seq<(TableRef, OwnedTable)>,
    r: (Seq<char>, Seq<char>),
    x: (TableRef, OwnedTable),
)
    requires
        acc_has(s, r),
    ensures
        acc_find(s.push(x), r) == acc_find(s, r),
        acc_table(s.push(x), r) == acc_table(s, r),
    decreases s.len(),
{
    let p = s.push(x);
    lemma_acc_find(s, r);
    if s.len() > 0 {
        if s.first().0@ == r {
            assert(p.first() == s.first());
        } else {
            assert(p.first() == s.first());
            assert(p.drop_first() =~= s.drop_first().push(x));
            lemma_push_keep(s.drop_first(), r, x);
            assert(p[acc_find(s, r)] == s[acc_find(s, r)]);
        }
    }
}

} // verus!
