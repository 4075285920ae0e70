use proof_of_sql::intermediate_ast::AggExpr;
use proof_of_sql::intermediate_ast::BinaryOperator;
use proof_of_sql::intermediate_ast::Expression;
use proof_of_sql::intermediate_ast::Literal;
use proof_of_sql::intermediate_ast::OrderByDirection;
use proof_of_sql::intermediate_ast::ResultExpr;
use proof_of_sql::intermediate_ast::SelectResultExpr;
use proof_of_sql::intermediate_ast::SetExpression;
use proof_of_sql::intermediate_ast::Slice;
use proof_of_sql::intermediate_ast::TableExpression;
use proof_of_sql::intermediate_ast::UnaryOperator;
use proof_of_sql::test_utility::and;
use proof_of_sql::test_utility::col;
use proof_of_sql::test_utility::col_res;
use proof_of_sql::test_utility::col_res_all;
use proof_of_sql::test_utility::cols_res;
use proof_of_sql::test_utility::count_all_res;
use proof_of_sql::test_utility::count_res;
use proof_of_sql::test_utility::equal;
use proof_of_sql::test_utility::group_by;
use proof_of_sql::test_utility::lit;
use proof_of_sql::test_utility::max_res;
use proof_of_sql::test_utility::min_res;
use proof_of_sql::test_utility::not;
use proof_of_sql::test_utility::or;
use proof_of_sql::test_utility::order;
use proof_of_sql::test_utility::orders;
use proof_of_sql::test_utility::query;
use proof_of_sql::test_utility::query_all;
use proof_of_sql::test_utility::select;
use proof_of_sql::test_utility::slice;
use proof_of_sql::test_utility::tab;

#[test]
fn boolean_builders_assemble_the_expected_trees() {
    let e = equal("a", Literal::BigInt(3));
    match *e {
        Expression::Binary { op, ref left, ref right } => {
            assert!(matches!(op, BinaryOperator::Equal));
            assert!(matches!(**left, Expression::Column(ref c) if c.name == "a"));
            assert!(matches!(**right, Expression::Literal(Literal::BigInt(3))));
        }
        _ => panic!("expected a binary node"),
    }
    let n = not(col("b"));
    assert!(matches!(
        *n,
        Expression::Unary { op: UnaryOperator::Not, .. }
    ));
    let a = and(col("x"), col("y"));
    assert!(matches!(*a, Expression::Binary { op: BinaryOperator::And, .. }));
    let o = or(col("x"), col("y"));
    assert!(matches!(*o, Expression::Binary { op: BinaryOperator::Or, .. }));
    let l = lit(Literal::VarChar("v".to_string()));
    assert!(matches!(*l, Expression::Literal(Literal::VarChar(ref s)) if s == "v"));
}

#[test]
fn result_builders_carry_names_aliases_and_aggregates() {
    assert!(matches!(col_res_all(), SelectResultExpr::ALL));
    let c = col_res("a", "a_out");
    match c {
        SelectResultExpr::AliasedResultExpr(a) => {
            assert_eq!(a.alias.name, "a_out");
            assert!(matches!(a.expr, ResultExpr::NonAgg(_)));
        }
        _ => panic!("expected an aliased column"),
    }
    let cs = cols_res(&["a", "b"]);
    assert_eq!(cs.len(), 2);
    for (e, want) in cs.iter().zip(["a", "b"]) {
        match e {
            SelectResultExpr::AliasedResultExpr(a) => assert_eq!(a.alias.name, want),
            _ => panic!("expected an aliased column"),
        }
    }
    let agg_shapes = [
        (min_res("m", "min_m"), "min_m"),
        (max_res("m", "max_m"), "max_m"),
        (count_res("m", "cnt_m"), "cnt_m"),
    ];
    for (e, want) in agg_shapes {
        match e {
            SelectResultExpr::AliasedResultExpr(a) => {
                assert_eq!(a.alias.name, want);
                assert!(matches!(a.expr, ResultExpr::Agg(_)));
            }
            _ => panic!("expected an aliased aggregate"),
        }
    }
    match count_all_res("total") {
        SelectResultExpr::AliasedResultExpr(a) => {
            assert_eq!(a.alias.name, "total");
            assert!(matches!(a.expr, ResultExpr::Agg(AggExpr::CountALL)));
        }
        _ => panic!("expected an aliased aggregate"),
    }
}

#[test]
fn statement_builders_assemble_a_full_select() {
    let body = query(
        vec![proof_of_sql::test_utility::sum_res("c", "sum_c")],
        tab(Some("sxt"), "t"),
        equal("b", Literal::Int128(99)),
        group_by(&["a"]),
    );
    match *body {
        SetExpression::Query { ref result_columns, ref from, ref where_expr, ref group_by } => {
            assert_eq!(result_columns.len(), 1);
            assert_eq!(from.len(), 1);
            assert!(matches!(
                *from[0],
                TableExpression::Named { ref table, ref schema }
                    if table.name == "t" && schema.as_ref().unwrap().name == "sxt"
            ));
            assert!(where_expr.is_some());
            assert_eq!(group_by.len(), 1);
            assert_eq!(group_by[0].name, "a");
        }
    }
    let body_all = query_all(cols_res(&["a"]), tab(None, "t"), group_by(&[]));
    match *body_all {
        SetExpression::Query { ref where_expr, .. } => assert!(where_expr.is_none()),
    }
    let stmt = select(
        query_all(cols_res(&["a"]), tab(None, "t"), group_by(&[])),
        order("a", OrderByDirection::Asc),
        slice(10, 2),
    );
    assert_eq!(stmt.order_by.len(), 1);
    assert_eq!(stmt.order_by[0].expr.name, "a");
    assert!(matches!(stmt.order_by[0].direction, OrderByDirection::Asc));
    assert_eq!(stmt.slice, Some(Slice { number_rows: 10, offset_value: 2 }));
    let two = orders(
        &["a", "b"],
        &[OrderByDirection::Asc, OrderByDirection::Desc],
    );
    assert_eq!(two.len(), 2);
    assert_eq!(two[1].expr.name, "b");
    assert!(matches!(two[1].direction, OrderByDirection::Desc));
}
