//! Column commitments.
//!
//! A commitment is a succinct digest binding a column's contents, type and
//! length: a polynomial hash of the field encodings of the cells, seeded
//! with a tag for the column's type, together with the row count. Two
//! columns with different contents or lengths produce different
//! commitments except for hash collisions in the field.

use vstd::prelude::*;

use crate::database::ColModel;
use crate::database::ColumnType;
use crate::database::OwnedColumn;
use crate::database::col_model_len;
use crate::database::col_model_type;
use crate::scalar::FIELD_MODULUS;
use crate::scalar::Scalar;
use crate::scalar::emod;

verus! {

/// Base of the polynomial hash that folds cell encodings together.
pub const COMMIT_BASE: u64 = 1099511628211;

/// Base of the polynomial hash that encodes a string as a field element.
pub const STRING_HASH_BASE: u64 = 1000003;

/// Digest of one column: the folded hash and the row count.
#[derive(Clone, Copy, Debug, PartialEq, Eq, Structural, Hash)]
pub struct Commitment {
    pub hash: u64,
    pub length: u64,
}

/// Hash of the first `n` characters of a string, folded left to right.
pub open spec fn chars_hash(s: Seq<char>, n: int) -> int
    decreases n,
{
    if n <= 0 {
        7
    } else {
        emod(chars_hash(s, n - 1) * STRING_HASH_BASE + s[n - 1] as int)
    }
}

/// The field encoding of a whole string.
pub open spec fn string_encoding(s: Seq<char>) -> int {
    chars_hash(s, s.len() as int)
}

/// The field encoding of one cell: integers reduce into the field,
/// scalars stand as they are, strings hash.
pub open spec fn cell_encoding(c: ColModel, i: int) -> int {
    match c {
        ColModel::BigInt(v) => emod(v[i] as int),
        ColModel::Int128(v) => emod(v[i] as int),
        ColModel::VarChar(v) => string_encoding(v[i]),
        ColModel::Scalar(v) => v[i].value as int,
    }
}

/// Seed distinguishing the four column types in the digest.
pub open spec fn type_tag(t: ColumnType) -> int {
    match t {
        ColumnType::BigInt => 1,
        ColumnType::Int128 => 2,
        ColumnType::VarChar => 3,
        ColumnType::Scalar => 4,
    }
}

/// Hash of the first `n` cells of a column.
pub open spec fn column_hash(c: ColModel, n: int) -> int
    decreases n,
{
    if n <= 0 {
        type_tag(col_model_type(c))
    } else {
        emod(column_hash(c, n - 1) * COMMIT_BASE + cell_encoding(c, n - 1))
    }
}

/// The commitment a column's contents determine.
pub open spec fn spec_commitment(c: ColModel) -> Commitment {
    Commitment {
        hash: column_hash(c, col_model_len(c) as int) as u64,
        length: col_model_len(c) as u64,
    }
}

/// One fold step: `h * base + cell`, reduced.
fn fold_step(h: u64, base: u64, cell: u64) -> (r: u64)
    requires
        h < FIELD_MODULUS,
        cell < FIELD_MODULUS,
        base < FIELD_MODULUS,
    ensures
        r < FIELD_MODULUS,
        r == emod(h * base + cell),
{
    proof {
        assert((h as int) * (base as int) <= (u64::MAX as int) * (u64::MAX as int))
            by (nonlinear_arith)
            requires
                h <= u64::MAX,
                base <= u64::MAX,
        ;
    }
    let t: u128 = (h as u128) * (base as u128) + (cell as u128);
    (t % (FIELD_MODULUS as u128)) as u64
}

/// The field encoding of a string, computed character by character.
pub fn encode_string(s: &str) -> (r: u64)
    ensures
        r < FIELD_MODULUS,
        r == string_encoding(s@),
{
    let n = s.unicode_len();
    let mut h: u64 = 7;
    let mut i: usize = 0;
    while i < n
        invariant
            i <= n,
            n == s@.len(),
            h < FIELD_MODULUS,
            h == chars_hash(s@, i as int),
        decreases n - i,
    {
        let c = s.get_char(i);
        h = fold_step(h, STRING_HASH_BASE, (c as u64) % FIELD_MODULUS);
        proof {
            vstd::arithmetic::div_mod::lemma_small_mod(c as nat, FIELD_MODULUS as nat);
        }
        i = i + 1;
    }
    h
}

fn tag_of(t: ColumnType) -> (r: u64)
    ensures
        r == type_tag(t),
        r < FIELD_MODULUS,
{
    match t {
        ColumnType::BigInt => 1,
        ColumnType::Int128 => 2,
        ColumnType::VarChar => 3,
        ColumnType::Scalar => 4,
    }
}

/// Commit to a column: fold the encodings of its cells over the type tag.
pub fn commit_column(c: &OwnedColumn) -> (r: Commitment)
    requires
        crate::database::col_model_canonical(c@),
    ensures
        r == spec_commitment(c@),
{
    let n = c.len();
    let mut h: u64 = tag_of(c.column_type());
    let mut i: usize = 0;
    while i < n
        invariant
            i <= n,
            n == col_model_len(c@),
            crate::database::col_model_canonical(c@),
            h < FIELD_MODULUS,
            h == column_hash(c@, i as int),
        decreases n - i,
    {
        let cell: u64 = match c {
            OwnedColumn::BigInt(v) => Scalar::from_i64(v[i]).value,
            OwnedColumn::Int128(v) => Scalar::from_i128(v[i]).value,
            OwnedColumn::VarChar(v) => encode_string(v[i].as_str()),
            OwnedColumn::Scalar(v) => v[i].value,
        };
        h = fold_step(h, COMMIT_BASE, cell);
        i = i + 1;
    }
    Commitment { hash: h, length: n as u64 }
}

/// The commitment of a plain 64-bit integer column, for checking an
/// accessor's digests against independently supplied data.
pub fn compute_commitment_for_testing(data: &[i64]) -> (r: Commitment)
    ensures
        r == spec_commitment(ColModel::BigInt(data@)),
{
    let ghost model = ColModel::BigInt(data@);
    let n = data.len();
    let mut h: u64 = 1;
    let mut i: usize = 0;
    while i < n
        invariant
            i <= n,
            n == data@.len(),
            h < FIELD_MODULUS,
            h == column_hash(ColModel::BigInt(data@), i as int),
        decreases n - i,
    {
        let cell: u64 = Scalar::from_i64(data[i]).value;
        h = fold_step(h, COMMIT_BASE, cell);
        i = i + 1;
    }
    Commitment { hash: h, length: n as u64 }
}

} // verus!
