use datafusion_core::catalog::Catalog;
use datafusion_core::datatypes::{DataType, Field, Schema, SqlType};
use datafusion_core::error::ExecutionError;
use datafusion_core::logical::{Expr, FunctionMeta, LogicalPlan};
use datafusion_core::optimizer::collect_expr;
use datafusion_core::planner::SqlToRel;
use datafusion_core::sql::{OrderByExpr, SqlNode, SqlOperator, SqlValue};

fn person_catalog() -> Catalog {
    let mut catalog = Catalog::new();
    catalog.register_table(
        "person",
        Schema::new(vec![
            Field::new("id", DataType::UInt32, false),
            Field::new("first_name", DataType::Utf8, false),
            Field::new("last_name", DataType::Utf8, false),
            Field::new("age", DataType::Int32, false),
            Field::new("state", DataType::Utf8, false),
            Field::new("salary", DataType::Float64, false),
        ]),
    );
    catalog.register_function(FunctionMeta::new(
        "sqrt".to_string(),
        vec![Field::new("n", DataType::Float64, false)],
        DataType::Float64,
    ));
    catalog
}

fn ident(name: &str) -> SqlNode {
    SqlNode::Identifier(name.to_string())
}

fn long(n: i64) -> SqlNode {
    SqlNode::Value(SqlValue::Long(n))
}

fn text(s: &str) -> SqlNode {
    SqlNode::Value(SqlValue::SingleQuotedString(s.to_string()))
}

fn binary(left: SqlNode, op: SqlOperator, right: SqlNode) -> SqlNode {
    SqlNode::BinaryExpr { left: Box::new(left), op, right: Box::new(right) }
}

fn call(id: &str, args: Vec<SqlNode>) -> SqlNode {
    SqlNode::Function { id: id.to_string(), args }
}

fn select(projection: Vec<SqlNode>, relation: Option<&str>) -> SqlNode {
    SqlNode::Select {
        projection,
        relation: relation.map(|r| Box::new(ident(r))),
        selection: None,
        order_by: None,
        group_by: None,
        having: None,
        limit: None,
    }
}

fn with_selection(node: SqlNode, filter: SqlNode) -> SqlNode {
    match node {
        SqlNode::Select { projection, relation, order_by, group_by, having, limit, .. } => SqlNode::Select {
            projection,
            relation,
            selection: Some(Box::new(filter)),
            order_by,
            group_by,
            having,
            limit,
        },
        other => other,
    }
}

fn with_order_by(node: SqlNode, keys: Vec<OrderByExpr>) -> SqlNode {
    match node {
        SqlNode::Select { projection, relation, selection, group_by, having, limit, .. } => SqlNode::Select {
            projection,
            relation,
            selection,
            order_by: Some(keys),
            group_by,
            having,
            limit,
        },
        other => other,
    }
}

fn with_group_by(node: SqlNode, keys: Vec<SqlNode>) -> SqlNode {
    match node {
        SqlNode::Select { projection, relation, selection, order_by, having, limit, .. } => SqlNode::Select {
            projection,
            relation,
            selection,
            order_by,
            group_by: Some(keys),
            having,
            limit,
        },
        other => other,
    }
}

fn plan(sql: &SqlNode) -> LogicalPlan {
    SqlToRel::new(person_catalog()).sql_to_rel(sql).unwrap()
}

/// Plan the statement, write the plan as text, compare to the expected text.
fn quick_test(sql: SqlNode, expected: &str) {
    assert_eq!(expected, plan(&sql).to_text());
}

#[test]
fn select_no_relation() {
    // SELECT 1
    quick_test(
        select(vec![long(1)], None),
        "Projection: Int64(1)\
         \n  EmptyRelation",
    );
}

#[test]
fn select_scalar_func_with_literal_no_relation() {
    // SELECT sqrt(9)
    quick_test(
        select(vec![call("sqrt", vec![long(9)])], None),
        "Projection: sqrt(CAST(Int64(9) AS Float64))\
         \n  EmptyRelation",
    );
}

#[test]
fn select_simple_selection() {
    // SELECT id, first_name, last_name FROM person WHERE state = 'CO'
    let sql = with_selection(
        select(vec![ident("id"), ident("first_name"), ident("last_name")], Some("person")),
        binary(ident("state"), SqlOperator::Eq, text("CO")),
    );
    let expected = "Projection: #0, #1, #2\
                    \n  Selection: #4 Eq Utf8(\"CO\")\
                    \n    TableScan: person projection=None";
    quick_test(sql, expected);
}

#[test]
fn select_compound_selection() {
    // SELECT id, first_name, last_name FROM person
    // WHERE state = 'CO' AND age >= 21 AND age <= 65
    let filter = binary(
        binary(
            binary(ident("state"), SqlOperator::Eq, text("CO")),
            SqlOperator::And,
            binary(ident("age"), SqlOperator::GtEq, long(21)),
        ),
        SqlOperator::And,
        binary(ident("age"), SqlOperator::LtEq, long(65)),
    );
    let sql = with_selection(
        select(vec![ident("id"), ident("first_name"), ident("last_name")], Some("person")),
        filter,
    );
    let expected =
        "Projection: #0, #1, #2\
        \n  Selection: #4 Eq Utf8(\"CO\") And CAST(#3 AS Int64) GtEq Int64(21) And CAST(#3 AS Int64) LtEq Int64(65)\
        \n    TableScan: person projection=None";
    quick_test(sql, expected);
}

#[test]
fn select_all_boolean_operators() {
    // SELECT age, first_name, last_name FROM person WHERE age = 21 AND age != 21
    // AND age > 21 AND age >= 21 AND age < 65 AND age <= 65
    let comparisons = vec![
        binary(ident("age"), SqlOperator::Eq, long(21)),
        binary(ident("age"), SqlOperator::NotEq, long(21)),
        binary(ident("age"), SqlOperator::Gt, long(21)),
        binary(ident("age"), SqlOperator::GtEq, long(21)),
        binary(ident("age"), SqlOperator::Lt, long(65)),
        binary(ident("age"), SqlOperator::LtEq, long(65)),
    ];
    let mut iter = comparisons.into_iter();
    let first = iter.next().unwrap();
    let filter = iter.fold(first, |acc, c| binary(acc, SqlOperator::And, c));
    let sql = with_selection(
        select(vec![ident("age"), ident("first_name"), ident("last_name")], Some("person")),
        filter,
    );
    let expected = "Projection: #3, #1, #2\
                    \n  Selection: CAST(#3 AS Int64) Eq Int64(21) \
                    And CAST(#3 AS Int64) NotEq Int64(21) \
                    And CAST(#3 AS Int64) Gt Int64(21) \
                    And CAST(#3 AS Int64) GtEq Int64(21) \
                    And CAST(#3 AS Int64) Lt Int64(65) \
                    And CAST(#3 AS Int64) LtEq Int64(65)\
                    \n    TableScan: person projection=None";
    quick_test(sql, expected);
}

#[test]
fn select_simple_aggregate() {
    // SELECT MIN(age) FROM person
    quick_test(
        select(vec![call("MIN", vec![ident("age")])], Some("person")),
        "Aggregate: groupBy=[[]], aggr=[[MIN(#3)]]\
         \n  TableScan: person projection=None",
    );
}

#[test]
fn test_sum_aggregate() {
    // SELECT SUM(age) from person
    quick_test(
        select(vec![call("SUM", vec![ident("age")])], Some("person")),
        "Aggregate: groupBy=[[]], aggr=[[SUM(#3)]]\
         \n  TableScan: person projection=None",
    );
}

#[test]
fn select_simple_aggregate_with_groupby() {
    // SELECT state, MIN(age), MAX(age) FROM person GROUP BY state
    let sql = with_group_by(
        select(
            vec![ident("state"), call("MIN", vec![ident("age")]), call("MAX", vec![ident("age")])],
            Some("person"),
        ),
        vec![ident("state")],
    );
    quick_test(
        sql,
        "Aggregate: groupBy=[[#4]], aggr=[[MIN(#3), MAX(#3)]]\
         \n  TableScan: person projection=None",
    );
}

#[test]
fn select_count_one() {
    // SELECT COUNT(1) FROM person
    let sql = select(vec![call("COUNT", vec![long(1)])], Some("person"));
    let expected = "Aggregate: groupBy=[[]], aggr=[[COUNT(#0)]]\
                    \n  TableScan: person projection=None";
    quick_test(sql, expected);
}

#[test]
fn select_scalar_func() {
    // SELECT sqrt(age) FROM person
    let sql = select(vec![call("sqrt", vec![ident("age")])], Some("person"));
    let expected = "Projection: sqrt(CAST(#3 AS Float64))\
                    \n  TableScan: person projection=None";
    quick_test(sql, expected);
}

#[test]
fn select_order_by() {
    // SELECT id FROM person ORDER BY id
    let sql = with_order_by(
        select(vec![ident("id")], Some("person")),
        vec![OrderByExpr { expr: Box::new(ident("id")), asc: true }],
    );
    let expected = "Sort: #0 ASC\
                    \n  Projection: #0\
                    \n    TableScan: person projection=None";
    quick_test(sql, expected);
}

#[test]
fn select_order_by_desc() {
    // SELECT id FROM person ORDER BY id DESC
    let sql = with_order_by(
        select(vec![ident("id")], Some("person")),
        vec![OrderByExpr { expr: Box::new(ident("id")), asc: false }],
    );
    let expected = "Sort: #0 DESC\
                    \n  Projection: #0\
                    \n    TableScan: person projection=None";
    quick_test(sql, expected);
}

#[test]
fn test_collect_expr() {
    let mut accum: Vec<usize> = Vec::new();
    collect_expr(
        &Expr::Cast { expr: Box::new(Expr::Column(3)), data_type: DataType::Float64 },
        &mut accum,
    );
    collect_expr(
        &Expr::Cast { expr: Box::new(Expr::Column(3)), data_type: DataType::Float64 },
        &mut accum,
    );
    println!("accum: {:?}", accum);
    assert_eq!(1, accum.len());
    assert!(accum.contains(&3));
}

#[test]
fn unknown_table_is_an_error() {
    let sql = select(vec![ident("id")], Some("nobody"));
    match SqlToRel::new(person_catalog()).sql_to_rel(&sql) {
        Err(ExecutionError::General(m)) => assert_eq!("no schema found for table nobody", m),
        other => panic!("unexpected {:?}", other),
    }
}

#[test]
fn unknown_identifier_is_an_error() {
    let sql = select(vec![ident("height")], Some("person"));
    match SqlToRel::new(person_catalog()).sql_to_rel(&sql) {
        Err(ExecutionError::ExecutionError(m)) => assert!(m.contains("height")),
        other => panic!("unexpected {:?}", other),
    }
}

#[test]
fn unknown_function_is_an_error() {
    let sql = select(vec![call("cbrt", vec![long(8)])], None);
    match SqlToRel::new(person_catalog()).sql_to_rel(&sql) {
        Err(ExecutionError::General(m)) => assert_eq!("Invalid function cbrt", m),
        other => panic!("unexpected {:?}", other),
    }
}

#[test]
fn having_is_not_implemented() {
    let sql = match select(vec![ident("id")], Some("person")) {
        SqlNode::Select { projection, relation, selection, order_by, group_by, limit, .. } => SqlNode::Select {
            projection,
            relation,
            selection,
            order_by,
            group_by,
            having: Some(Box::new(binary(ident("id"), SqlOperator::Gt, long(1)))),
            limit,
        },
        other => other,
    };
    match SqlToRel::new(person_catalog()).sql_to_rel(&sql) {
        Err(ExecutionError::General(m)) => assert_eq!("HAVING is not implemented yet", m),
        other => panic!("unexpected {:?}", other),
    }
}

#[test]
fn wildcard_is_not_implemented() {
    let sql = select(vec![SqlNode::Wildcard], Some("person"));
    assert!(matches!(
        SqlToRel::new(person_catalog()).sql_to_rel(&sql),
        Err(ExecutionError::NotImplemented(_))
    ));
}

#[test]
fn string_and_number_have_no_supertype() {
    let sql = select(vec![binary(ident("state"), SqlOperator::Plus, long(1))], Some("person"));
    match SqlToRel::new(person_catalog()).sql_to_rel(&sql) {
        Err(ExecutionError::General(m)) => assert_eq!(
            "No common supertype found for binary operator with input types Utf8 and Int64",
            m
        ),
        other => panic!("unexpected {:?}", other),
    }
}

#[test]
fn cast_to_unsupported_sql_type_is_an_error() {
    let sql = select(
        vec![SqlNode::Cast { expr: Box::new(ident("age")), data_type: SqlType::Date }],
        Some("person"),
    );
    match SqlToRel::new(person_catalog()).sql_to_rel(&sql) {
        Err(ExecutionError::NotImplemented(m)) => assert_eq!("Unsupported SQL type DATE", m),
        other => panic!("unexpected {:?}", other),
    }
}

#[test]
fn cast_in_sql_converts_the_type() {
    let sql = select(
        vec![SqlNode::Cast { expr: Box::new(ident("age")), data_type: SqlType::BigInt }],
        Some("person"),
    );
    assert_eq!(
        "Projection: CAST(#3 AS Int64)\n  TableScan: person projection=None",
        plan(&sql).to_text()
    );
}

#[test]
fn projection_schema_is_derived_from_expressions() {
    let sql = select(vec![ident("age"), long(7)], Some("person"));
    let p = plan(&sql);
    let schema = p.schema();
    assert_eq!(2, schema.len());
    assert_eq!("age", schema.field(0).name());
    assert_eq!(DataType::Int32, schema.field(0).data_type());
    assert_eq!("lit", schema.field(1).name());
    assert_eq!(DataType::Int64, schema.field(1).data_type());
}

#[test]
fn comparison_field_is_boolean() {
    let sql = select(vec![binary(ident("age"), SqlOperator::Gt, long(1))], Some("person"));
    let p = plan(&sql);
    assert_eq!(DataType::Boolean, p.schema().field(0).data_type());
    let sql = select(vec![binary(ident("age"), SqlOperator::Plus, long(1))], Some("person"));
    let p = plan(&sql);
    assert_eq!(DataType::Int64, p.schema().field(0).data_type());
}

#[test]
fn aggregate_schema_is_group_then_aggregates() {
    let sql = with_group_by(
        select(vec![call("count", vec![SqlNode::Wildcard]), call("max", vec![ident("age")])], Some("person")),
        vec![ident("state")],
    );
    let p = plan(&sql);
    let schema = p.schema();
    assert_eq!(3, schema.len());
    assert_eq!("state", schema.field(0).name());
    assert_eq!("count", schema.field(1).name());
    assert_eq!(DataType::UInt64, schema.field(1).data_type());
    assert_eq!("max", schema.field(2).name());
    assert_eq!(DataType::Int32, schema.field(2).data_type());
}

#[test]
fn limit_wraps_the_plan() {
    let sql = match select(vec![ident("id")], Some("person")) {
        SqlNode::Select { projection, relation, selection, order_by, group_by, having, .. } => SqlNode::Select {
            projection,
            relation,
            selection,
            order_by,
            group_by,
            having,
            limit: Some(Box::new(long(10))),
        },
        other => other,
    };
    assert_eq!(
        "Limit: Int64(10)\n  Projection: #0\n    TableScan: person projection=None",
        plan(&sql).to_text()
    );
}

#[test]
fn planning_twice_gives_the_same_plan() {
    let sql = with_selection(
        select(vec![ident("id"), call("sqrt", vec![ident("salary")])], Some("person")),
        binary(ident("age"), SqlOperator::GtEq, long(21)),
    );
    let a = plan(&sql);
    let b = plan(&sql);
    assert_eq!(a, b);
    assert_eq!(a.to_text(), b.to_text());
}

#[test]
fn null_tests_and_later_registrations() {
    let mut catalog = person_catalog();
    catalog.register_table("person", Schema::new(vec![Field::new("nick", DataType::Utf8, true)]));
    let sql = select(
        vec![SqlNode::IsNull(Box::new(ident("nick"))), SqlNode::IsNotNull(Box::new(ident("nick")))],
        Some("person"),
    );
    let p = SqlToRel::new(catalog).sql_to_rel(&sql).unwrap();
    assert_eq!(
        "Projection: #0 IS NULL, #0 IS NOT NULL\n  TableScan: person projection=None",
        p.to_text()
    );
    assert_eq!(DataType::Boolean, p.schema().field(1).data_type());
}
