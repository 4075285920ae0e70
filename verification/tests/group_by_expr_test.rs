use proof_of_sql::database::ColumnType;
use proof_of_sql::identifier::TableRef;
use proof_of_sql::owned_accessor::OwnedTableTestAccessor;
use proof_of_sql::owned_table_utility::bigint;
use proof_of_sql::owned_table_utility::int128;
use proof_of_sql::owned_table_utility::owned_table;
use proof_of_sql::owned_table_utility::scalar;
use proof_of_sql::owned_table_utility::varchar;
use proof_of_sql::query_proof::VerifiableQueryResult;
use proof_of_sql::query_proof::exercise_verification;
use proof_of_sql::query_utility::and;
use proof_of_sql::query_utility::cols_expr;
use proof_of_sql::query_utility::const_int128;
use proof_of_sql::query_utility::const_varchar;
use proof_of_sql::query_utility::equal;
use proof_of_sql::query_utility::group_by;
use proof_of_sql::query_utility::sums_expr;
use proof_of_sql::query_utility::tab;
use proof_of_sql::scalar::Scalar;

#[test]
fn we_can_prove_a_simple_group_by_with_bigint_columns() {
    let data = owned_table(vec![
        bigint("a", vec![1, 2, 2, 1, 2]),
        bigint("b", vec![99, 99, 99, 99, 0]),
        bigint("c", vec![101, 102, 103, 104, 105]),
    ]);
    let t: TableRef = "sxt.t".parse().unwrap();
    let mut accessor = OwnedTableTestAccessor::new_empty_with_setup(());
    accessor.add_table(t.clone(), data, 0);
    let expr = group_by(
        cols_expr(&t, &["a"], &accessor),
        sums_expr(&t, &["c"], &["sum_c"], &[ColumnType::BigInt], &accessor),
        "__count__",
        tab(&t),
        equal(proof_of_sql::query_utility::column(&t, "b", &accessor), const_int128(99)),
    );
    let res = VerifiableQueryResult::new(&expr, &accessor, &());
    assert!(exercise_verification(&res, &expr, &accessor, &t));
    let res = res.verify(&expr, &accessor, &()).unwrap().table;
    let expected = owned_table(vec![
        bigint("a", vec![1, 2]),
        bigint("sum_c", vec![101 + 104, 102 + 103]),
        bigint("__count__", vec![2, 2]),
    ]);
    assert_eq!(res, expected);
}

#[test]
fn we_can_prove_a_complex_group_by_query_with_many_columns() {
    let scalar_filter_data: Vec<Scalar> = [
        333, 222, 222, 333, 222, 333, 333, 333, 222, 222, 222, 333, 222, 222, 222, 222, 222, 222,
        333, 333,
    ]
    .iter()
    .map(|i| Scalar::from_i64(*i))
    .collect();
    let scalar_group_data: Vec<Scalar> =
        [5, 4, 5, 4, 4, 4, 5, 4, 4, 4, 5, 4, 4, 4, 5, 4, 4, 4, 4, 5]
            .iter()
            .map(|i| Scalar::from_i64(*i))
            .collect();
    let scalar_sum_data: Vec<Scalar> = [
        119, 522, 100, 325, 501, 447, 759, 375, 212, 532, 459, 616, 579, 179, 695, 963, 532, 868,
        331, 830,
    ]
    .iter()
    .map(|i| Scalar::from_i64(*i))
    .collect();
    let data = owned_table(vec![
        bigint(
            "bigint_filter",
            vec![
                30, 20, 30, 30, 30, 20, 30, 20, 30, 20, 30, 20, 20, 20, 30, 30, 20, 20, 20, 30,
            ],
        ),
        bigint(
            "bigint_group",
            vec![7, 6, 6, 6, 7, 7, 6, 6, 6, 6, 7, 7, 6, 7, 6, 7, 7, 7, 6, 7],
        ),
        bigint(
            "bigint_sum",
            vec![
                834, 985, 832, 300, 146, 624, 553, 637, 770, 574, 913, 600, 336, 984, 198, 257,
                781, 196, 537, 358,
            ],
        ),
        int128(
            "int128_filter",
            vec![
                1030, 1030, 1030, 1020, 1020, 1030, 1020, 1020, 1020, 1030, 1030, 1030, 1020,
                1020, 1030, 1020, 1020, 1030, 1020, 1030,
            ],
        ),
        int128(
            "int128_group",
            vec![8, 8, 8, 8, 8, 8, 9, 9, 8, 9, 8, 9, 8, 9, 8, 9, 8, 8, 8, 8],
        ),
        int128(
            "int128_sum",
            vec![
                275, 225, 315, 199, 562, 578, 563, 513, 634, 829, 613, 295, 509, 923, 133, 973,
                700, 464, 622, 943,
            ],
        ),
        varchar(
            "varchar_filter",
            [
                "f2", "f2", "f3", "f2", "f2", "f3", "f3", "f2", "f2", "f3", "f2", "f2", "f2",
                "f3", "f2", "f3", "f2", "f2", "f3", "f3",
            ]
            .iter()
            .map(|s| s.to_string())
            .collect(),
        ),
        varchar(
            "varchar_group",
            [
                "g1", "g2", "g1", "g1", "g1", "g1", "g2", "g1", "g1", "g1", "g2", "g2", "g1",
                "g1", "g1", "g2", "g1", "g2", "g1", "g1",
            ]
            .iter()
            .map(|s| s.to_string())
            .collect(),
        ),
        scalar("scalar_filter", scalar_filter_data),
        scalar("scalar_group", scalar_group_data),
        scalar("scalar_sum", scalar_sum_data),
    ]);

    let t: TableRef = "sxt.t".parse().unwrap();
    let mut accessor = OwnedTableTestAccessor::new_empty_with_setup(());
    accessor.add_table(t.clone(), data, 0);

    // SELECT scalar_group, int128_group, bigint_group, sum(int128_filter) as sum_int, sum(bigint_filter) as sum_bigint, sum(scalar_filter) as sum_scal, count(*) as __count__
    //  FROM sxt.t WHERE int128_filter = 1020 AND varchar_filter = 'f2'
    //  GROUP BY scalar_group, int128_group, bigint_group
    let expr = group_by(
        cols_expr(
            &t,
            &["scalar_group", "int128_group", "bigint_group"],
            &accessor,
        ),
        sums_expr(
            &t,
            &["bigint_sum", "int128_sum", "scalar_sum"],
            &["sum_int", "sum_128", "sum_scal"],
            &[ColumnType::BigInt, ColumnType::Int128, ColumnType::Scalar],
            &accessor,
        ),
        "__count__",
        tab(&t),
        and(
            equal(proof_of_sql::query_utility::column(&t, "int128_filter", &accessor), const_int128(1020)),
            equal(proof_of_sql::query_utility::column(&t, "varchar_filter", &accessor), const_varchar("f2")),
        ),
    );
    let res = VerifiableQueryResult::new(&expr, &accessor, &());
    assert!(exercise_verification(&res, &expr, &accessor, &t));
    let res = res.verify(&expr, &accessor, &()).unwrap().table;
    let expected = owned_table(vec![
        scalar(
            "scalar_group",
            [4, 4, 4].iter().map(|i| Scalar::from_i64(*i)).collect(),
        ),
        int128("int128_group", vec![8, 8, 9]),
        bigint("bigint_group", vec![6, 7, 6]),
        bigint("sum_int", vec![1406, 927, 637]),
        int128("sum_128", vec![1342, 1262, 513]),
        scalar(
            "sum_scal",
            [1116, 1033, 375].iter().map(|i| Scalar::from_i64(*i)).collect(),
        ),
        bigint("__count__", vec![3, 2, 1]),
    ]);
    assert_eq!(res, expected);

    // SELECT sum(int128_filter) as sum_int, sum(bigint_filter) as sum_bigint, sum(scalar_filter) as sum_scal, count(*) as __count__
    //  FROM sxt.t WHERE int128_filter = 1020 AND varchar_filter = 'f2'
    let expr = group_by(
        vec![],
        sums_expr(
            &t,
            &["bigint_sum", "int128_sum", "scalar_sum"],
            &["sum_int", "sum_128", "sum_scal"],
            &[ColumnType::BigInt, ColumnType::Int128, ColumnType::Scalar],
            &accessor,
        ),
        "__count__",
        tab(&t),
        and(
            equal(proof_of_sql::query_utility::column(&t, "int128_filter", &accessor), const_int128(1020)),
            equal(proof_of_sql::query_utility::column(&t, "varchar_filter", &accessor), const_varchar("f2")),
        ),
    );
    let res = VerifiableQueryResult::new(&expr, &accessor, &());
    assert!(exercise_verification(&res, &expr, &accessor, &t));
    let res = res.verify(&expr, &accessor, &()).unwrap().table;
    let expected = owned_table(vec![
        bigint("sum_int", vec![1406 + 927 + 637]),
        int128("sum_128", vec![1342 + 1262 + 513]),
        scalar(
            "sum_scal",
            [1116 + 1033 + 375].iter().map(|i| Scalar::from_i64(*i)).collect(),
        ),
        bigint("__count__", vec![3 + 2 + 1]),
    ]);
    assert_eq!(res, expected);
}
