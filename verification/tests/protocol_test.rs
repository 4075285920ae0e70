use proof_of_sql::commitment::Commitment;
use proof_of_sql::commitment::commit_column;
use proof_of_sql::database::ColumnType;
use proof_of_sql::database::OwnedColumn;
use proof_of_sql::identifier::TableRef;
use proof_of_sql::owned_accessor::OwnedTableTestAccessor;
use proof_of_sql::owned_table_utility::bigint;
use proof_of_sql::owned_table_utility::owned_table;
use proof_of_sql::query_proof::QueryError;
use proof_of_sql::query_proof::QueryProof;
use proof_of_sql::query_proof::VerifiableQueryResult;
use proof_of_sql::query_proof::exercise_verification;
use proof_of_sql::query_utility::cols_expr;
use proof_of_sql::query_utility::const_int128;
use proof_of_sql::query_utility::equal;
use proof_of_sql::query_utility::group_by;
use proof_of_sql::query_utility::sums_expr;
use proof_of_sql::query_utility::tab;
use proof_of_sql::scalar::FIELD_MODULUS;
use proof_of_sql::scalar::Scalar;

fn simple_accessor() -> (TableRef, OwnedTableTestAccessor) {
    let data = owned_table(vec![
        bigint("a", vec![1, 2, 2, 1, 2]),
        bigint("b", vec![99, 99, 99, 99, 0]),
        bigint("c", vec![101, 102, 103, 104, 105]),
    ]);
    let t: TableRef = "sxt.t".parse().unwrap();
    let mut accessor = OwnedTableTestAccessor::new_empty_with_setup(());
    accessor.add_table(t.clone(), data, 0);
    (t, accessor)
}

#[test]
fn a_filter_matching_no_rows_yields_an_empty_accepted_table() {
    let (t, accessor) = simple_accessor();
    let expr = group_by(
        cols_expr(&t, &["a"], &accessor),
        sums_expr(&t, &["c"], &["sum_c"], &[ColumnType::BigInt], &accessor),
        "__count__",
        tab(&t),
        equal(proof_of_sql::query_utility::column(&t, "b", &accessor), const_int128(7)),
    );
    let res = VerifiableQueryResult::new(&expr, &accessor, &());
    assert!(exercise_verification(&res, &expr, &accessor, &t));
    let res = res.verify(&expr, &accessor, &()).unwrap().table;
    let expected = owned_table(vec![
        bigint("a", Vec::new()),
        bigint("sum_c", Vec::new()),
        bigint("__count__", Vec::new()),
    ]);
    assert_eq!(res, expected);
}

#[test]
fn an_empty_group_by_list_yields_one_grand_total_row() {
    let (t, accessor) = simple_accessor();
    let expr = group_by(
        vec![],
        sums_expr(&t, &["c"], &["sum_c"], &[ColumnType::BigInt], &accessor),
        "__count__",
        tab(&t),
        equal(proof_of_sql::query_utility::column(&t, "b", &accessor), const_int128(99)),
    );
    let res = VerifiableQueryResult::new(&expr, &accessor, &());
    let res = res.verify(&expr, &accessor, &()).unwrap().table;
    let expected = owned_table(vec![
        bigint("sum_c", vec![101 + 102 + 103 + 104]),
        bigint("__count__", vec![4]),
    ]);
    assert_eq!(res, expected);
}

#[test]
fn verification_gives_the_same_outcome_when_repeated() {
    let (t, accessor) = simple_accessor();
    let expr = group_by(
        cols_expr(&t, &["a"], &accessor),
        sums_expr(&t, &["c"], &["sum_c"], &[ColumnType::BigInt], &accessor),
        "__count__",
        tab(&t),
        equal(proof_of_sql::query_utility::column(&t, "b", &accessor), const_int128(99)),
    );
    let res = VerifiableQueryResult::new(&expr, &accessor, &());
    let first = res.verify(&expr, &accessor, &()).unwrap().table;
    let second = res.verify(&expr, &accessor, &()).unwrap().table;
    assert_eq!(first, second);
}

#[test]
fn a_tampered_opening_is_rejected() {
    let (t, accessor) = simple_accessor();
    let expr = group_by(
        cols_expr(&t, &["a"], &accessor),
        sums_expr(&t, &["c"], &["sum_c"], &[ColumnType::BigInt], &accessor),
        "__count__",
        tab(&t),
        equal(proof_of_sql::query_utility::column(&t, "b", &accessor), const_int128(99)),
    );
    let res = VerifiableQueryResult::new(&expr, &accessor, &());
    // Claim the same output but open a doctored "b" column that widens
    // the filter: the commitment check must catch it.
    let bad_opened = owned_table(vec![
        bigint("a", vec![1, 2, 2, 1, 2]),
        bigint("b", vec![99, 99, 99, 99, 99]),
        bigint("c", vec![101, 102, 103, 104, 105]),
    ]);
    let bad = VerifiableQueryResult {
        proof: QueryProof { opened: bad_opened },
        table: res.table,
    };
    assert!(matches!(
        bad.verify(&expr, &accessor, &()),
        Err(QueryError::Verification)
    ));
}

#[test]
fn a_tampered_claimed_table_is_rejected() {
    let (t, accessor) = simple_accessor();
    let expr = group_by(
        cols_expr(&t, &["a"], &accessor),
        sums_expr(&t, &["c"], &["sum_c"], &[ColumnType::BigInt], &accessor),
        "__count__",
        tab(&t),
        equal(proof_of_sql::query_utility::column(&t, "b", &accessor), const_int128(99)),
    );
    let res = VerifiableQueryResult::new(&expr, &accessor, &());
    let lying_table = owned_table(vec![
        bigint("a", vec![1, 2]),
        bigint("sum_c", vec![9999, 205]),
        bigint("__count__", vec![2, 2]),
    ]);
    let bad = VerifiableQueryResult {
        proof: res.proof,
        table: lying_table,
    };
    assert!(bad.verify(&expr, &accessor, &()).is_err());
}

#[test]
fn an_unknown_column_is_a_plan_error() {
    let (t, accessor) = simple_accessor();
    let mut expr = group_by(
        cols_expr(&t, &["a"], &accessor),
        sums_expr(&t, &["c"], &["sum_c"], &[ColumnType::BigInt], &accessor),
        "__count__",
        tab(&t),
        equal(proof_of_sql::query_utility::column(&t, "b", &accessor), const_int128(99)),
    );
    let res = VerifiableQueryResult::new(&expr, &accessor, &());
    // Re-point the aggregate at a column the table does not have.
    expr.sum_expr[0].column.column_id = proof_of_sql::identifier::Identifier::new("missing");
    assert!(matches!(
        res.verify(&expr, &accessor, &()),
        Err(QueryError::Plan)
    ));
}

#[test]
fn scalars_encode_signed_integers_into_the_field() {
    assert_eq!(Scalar::from_i64(0).value, 0);
    assert_eq!(Scalar::from_i64(17).value, 17);
    assert_eq!(Scalar::from_i64(-1).value, FIELD_MODULUS - 1);
    assert_eq!(
        Scalar::from_i128(-(FIELD_MODULUS as i128)).value,
        0
    );
    let a = Scalar::from_i64(FIELD_MODULUS as i64 - 1);
    let b = Scalar::from_i64(5);
    assert_eq!(a.add(b).value, 4);
    assert_eq!(Scalar::from_i64(3).mul(Scalar::from_i64(7)).value, 21);
}

#[test]
fn commitments_bind_contents_and_length() {
    let c1 = commit_column(&OwnedColumn::BigInt(vec![1, 2, 3]));
    let c2 = commit_column(&OwnedColumn::BigInt(vec![1, 2, 3]));
    let c3 = commit_column(&OwnedColumn::BigInt(vec![1, 2, 4]));
    let c4 = commit_column(&OwnedColumn::BigInt(vec![1, 2]));
    assert_eq!(c1, c2);
    assert_ne!(c1, c3);
    assert_ne!(c1, c4);
    let s1 = commit_column(&OwnedColumn::VarChar(vec!["x".to_string(), "y".to_string()]));
    let s2 = commit_column(&OwnedColumn::VarChar(vec!["x".to_string(), "z".to_string()]));
    assert_ne!(s1, s2);
    let _: Commitment = c1;
}

#[test]
fn table_references_parse_as_schema_dot_name() {
    let t: TableRef = "sxt.t".parse().unwrap();
    assert_eq!(t.schema.name, "sxt");
    assert_eq!(t.name.name, "t");
    assert!("nodot".parse::<TableRef>().is_err());
    assert!(".empty".parse::<TableRef>().is_err());
    assert!("empty.".parse::<TableRef>().is_err());
}
