use datafusion_core::catalog::Catalog;
use datafusion_core::datatypes::{get_supertype, DataType, Field, Schema, SqlType};
use datafusion_core::error::ExecutionError;
use datafusion_core::logical::{Expr, LogicalPlan, Operator, ScalarValue};
use datafusion_core::optimizer::{optimize, push_down_projection};
use datafusion_core::physical::{
    aggregate_kind, limit_value, selected_rows, Accumulator, AggregateKind, AggregateState, AggregateValue,
    LimitAction, LimitState,
};
use datafusion_core::planner::{convert_data_type, SqlToRel};
use datafusion_core::sql::{OrderByExpr, SqlNode, SqlOperator, SqlValue};

fn person_catalog() -> Catalog {
    let mut catalog = Catalog::new();
    catalog.register_table(
        "person",
        Schema::new(vec![
            Field::new("id", DataType::UInt32, false),
            Field::new("first_name", DataType::Utf8, false),
            Field::new("last_name", DataType::Utf8, false),
            Field::new("age", DataType::Int32, false),
            Field::new("state", DataType::Utf8, false),
            Field::new("salary", DataType::Float64, false),
        ]),
    );
    catalog
}

fn ident(name: &str) -> SqlNode {
    SqlNode::Identifier(name.to_string())
}

fn long(n: i64) -> SqlNode {
    SqlNode::Value(SqlValue::Long(n))
}

fn binary(left: SqlNode, op: SqlOperator, right: SqlNode) -> SqlNode {
    SqlNode::BinaryExpr { left: Box::new(left), op, right: Box::new(right) }
}

fn call(id: &str, args: Vec<SqlNode>) -> SqlNode {
    SqlNode::Function { id: id.to_string(), args }
}

fn query(
    projection: Vec<SqlNode>,
    selection: Option<SqlNode>,
    group_by: Option<Vec<SqlNode>>,
    order_by: Option<Vec<OrderByExpr>>,
) -> SqlNode {
    SqlNode::Select {
        projection,
        relation: Some(Box::new(ident("person"))),
        selection: selection.map(Box::new),
        order_by,
        group_by,
        having: None,
        limit: None,
    }
}

fn optimized(sql: &SqlNode) -> LogicalPlan {
    SqlToRel::new(person_catalog()).plan_query(sql).unwrap()
}

#[test]
fn optimized_selection_reads_projected_and_filtered_columns() {
    let sql = query(
        vec![ident("id"), ident("first_name"), ident("last_name")],
        Some(binary(
            ident("state"),
            SqlOperator::Eq,
            SqlNode::Value(SqlValue::SingleQuotedString("CO".to_string())),
        )),
        None,
        None,
    );
    assert_eq!(
        "Projection: #0, #1, #2\
         \n  Selection: #4 Eq Utf8(\"CO\")\
         \n    TableScan: person projection=Some([0, 1, 2, 4])",
        optimized(&sql).to_text()
    );
}

#[test]
fn optimized_aggregate_reads_its_argument() {
    let sql = query(vec![call("MIN", vec![ident("age")])], None, None, None);
    assert_eq!(
        "Aggregate: groupBy=[[]], aggr=[[MIN(#3)]]\
         \n  TableScan: person projection=Some([3])",
        optimized(&sql).to_text()
    );
}

#[test]
fn optimized_grouped_aggregate_reads_keys_and_arguments() {
    let sql = query(
        vec![ident("state"), call("MIN", vec![ident("age")]), call("MAX", vec![ident("age")])],
        None,
        Some(vec![ident("state")]),
        None,
    );
    assert_eq!(
        "Aggregate: groupBy=[[#4]], aggr=[[MIN(#3), MAX(#3)]]\
         \n  TableScan: person projection=Some([3, 4])",
        optimized(&sql).to_text()
    );
}

#[test]
fn optimization_stops_at_sort() {
    let sql = query(
        vec![ident("id")],
        None,
        None,
        Some(vec![OrderByExpr { expr: Box::new(ident("id")), asc: true }]),
    );
    assert_eq!(
        "Sort: #0 ASC\n  Projection: #0\n    TableScan: person projection=None",
        optimized(&sql).to_text()
    );
}

#[test]
fn range_predicate_casts_both_comparisons() {
    let sql = query(
        vec![ident("id")],
        Some(binary(
            binary(ident("age"), SqlOperator::GtEq, long(21)),
            SqlOperator::And,
            binary(ident("age"), SqlOperator::LtEq, long(65)),
        )),
        None,
        None,
    );
    let plan = SqlToRel::new(person_catalog()).sql_to_rel(&sql).unwrap();
    match plan {
        LogicalPlan::Projection { input, .. } => match *input {
            LogicalPlan::Selection { expr, .. } => assert_eq!(
                "CAST(#3 AS Int64) GtEq Int64(21) And CAST(#3 AS Int64) LtEq Int64(65)",
                expr.to_text()
            ),
            other => panic!("unexpected {:?}", other),
        },
        other => panic!("unexpected {:?}", other),
    }
    assert_eq!(Some(DataType::Int64), get_supertype(&DataType::Int32, &DataType::Int64));
}

#[test]
fn optimizing_twice_changes_nothing() {
    let sql = query(
        vec![call("max", vec![ident("salary")])],
        Some(binary(ident("age"), SqlOperator::Gt, long(30))),
        Some(vec![ident("state")]),
        None,
    );
    let once = optimized(&sql);
    let text = once.to_text();
    let twice = optimize(once);
    assert_eq!(text, twice.to_text());
    assert_eq!(
        "Aggregate: groupBy=[[#4]], aggr=[[max(#5)]]\
         \n  Selection: CAST(#3 AS Int64) Gt Int64(30)\
         \n    TableScan: person projection=Some([3, 4, 5])",
        text
    );
}

#[test]
fn push_down_sorts_the_columns() {
    let scan = LogicalPlan::TableScan {
        schema_name: "default".to_string(),
        table_name: "t".to_string(),
        schema: Schema::new(vec![Field::new("a", DataType::Int8, true)]),
        projection: None,
    };
    let plan = LogicalPlan::Selection {
        expr: Expr::BinaryExpr {
            left: Box::new(Expr::Column(5)),
            op: Operator::Lt,
            right: Box::new(Expr::Column(1)),
        },
        input: Box::new(scan),
    };
    let pushed = push_down_projection(plan, &vec![2, 7]);
    assert_eq!(
        "Selection: #5 Lt #1\n  TableScan: t projection=Some([1, 2, 5, 7])",
        pushed.to_text()
    );
}

#[test]
fn supertypes_follow_the_lattice() {
    assert_eq!(Some(DataType::Int64), get_supertype(&DataType::Int64, &DataType::Int8));
    assert_eq!(Some(DataType::UInt32), get_supertype(&DataType::UInt8, &DataType::UInt32));
    assert_eq!(Some(DataType::Int64), get_supertype(&DataType::UInt32, &DataType::Int16));
    assert_eq!(Some(DataType::Int16), get_supertype(&DataType::UInt8, &DataType::Int8));
    assert_eq!(Some(DataType::Float64), get_supertype(&DataType::Float32, &DataType::Float64));
    assert_eq!(Some(DataType::Float32), get_supertype(&DataType::Int32, &DataType::Float32));
    assert_eq!(Some(DataType::Utf8), get_supertype(&DataType::Utf8, &DataType::Utf8));
    assert_eq!(None, get_supertype(&DataType::Utf8, &DataType::Int32));
    assert_eq!(None, get_supertype(&DataType::Boolean, &DataType::Int32));
}

#[test]
fn sql_types_map_to_data_types() {
    assert_eq!(Ok(DataType::Boolean), convert_data_type(&SqlType::Boolean));
    assert_eq!(Ok(DataType::Int16), convert_data_type(&SqlType::SmallInt));
    assert_eq!(Ok(DataType::Int32), convert_data_type(&SqlType::Int));
    assert_eq!(Ok(DataType::Int64), convert_data_type(&SqlType::BigInt));
    assert_eq!(Ok(DataType::Float64), convert_data_type(&SqlType::Real));
    assert_eq!(Ok(DataType::Float64), convert_data_type(&SqlType::Float(Some(10))));
    assert_eq!(Ok(DataType::Utf8), convert_data_type(&SqlType::Varchar(Some(20))));
    assert!(matches!(convert_data_type(&SqlType::Timestamp), Err(ExecutionError::NotImplemented(_))));
}

#[test]
fn cast_to_own_type_adds_nothing() {
    let schema = Schema::new(vec![Field::new("a", DataType::Int32, true)]);
    let e = Expr::Column(0);
    let same = e.cast_to(&DataType::Int32, &schema).unwrap();
    assert_eq!(Expr::Column(0), same);
    let wider = e.cast_to(&DataType::Int64, &schema).unwrap();
    assert_eq!("CAST(#0 AS Int64)", wider.to_text());
    assert!(e.cast_to(&DataType::Int8, &schema).is_err());
}

#[test]
fn limit_zero_ends_at_once() {
    let mut limit = LimitState::new(0);
    assert_eq!(LimitAction::EndOfStream, limit.next(Some(5)));
    assert_eq!(LimitAction::EndOfStream, limit.next(Some(5)));
}

#[test]
fn limit_larger_than_input_passes_everything() {
    let mut limit = LimitState::new(100);
    assert_eq!(LimitAction::Emit(10), limit.next(Some(10)));
    assert_eq!(LimitAction::Emit(0), limit.next(Some(0)));
    assert_eq!(LimitAction::Emit(30), limit.next(Some(30)));
    assert_eq!(LimitAction::EndOfStream, limit.next(None));
    assert_eq!(LimitAction::EndOfStream, limit.next(Some(3)));
}

#[test]
fn limit_cuts_the_batch_that_crosses_it() {
    let mut limit = LimitState::new(15);
    assert_eq!(LimitAction::Emit(10), limit.next(Some(10)));
    assert_eq!(LimitAction::Emit(5), limit.next(Some(10)));
    assert_eq!(LimitAction::EndOfStream, limit.next(Some(10)));
}

#[test]
fn limit_literals() {
    assert_eq!(Ok(7), limit_value(&Expr::Literal(ScalarValue::Int64(7))));
    assert_eq!(Ok(0), limit_value(&Expr::Literal(ScalarValue::UInt8(0))));
    assert_eq!(Ok(300), limit_value(&Expr::Literal(ScalarValue::Int16(300))));
    assert!(matches!(
        limit_value(&Expr::Literal(ScalarValue::Int32(-1))),
        Err(ExecutionError::ExecutionError(_))
    ));
    assert!(matches!(limit_value(&Expr::Column(0)), Err(ExecutionError::ExecutionError(_))));
    assert!(matches!(
        limit_value(&Expr::Literal(ScalarValue::Utf8("3".to_string()))),
        Err(ExecutionError::ExecutionError(_))
    ));
}

#[test]
fn filter_keeps_rows_where_predicate_holds() {
    assert_eq!(vec![0, 2, 3], selected_rows(&vec![true, false, true, true, false]));
    assert_eq!(Vec::<usize>::new(), selected_rows(&vec![false, false, false]));
    assert_eq!(Vec::<usize>::new(), selected_rows(&vec![]));
}

#[test]
fn count_of_empty_input_is_one_zero_row() {
    let state = AggregateState::new(vec![AggregateKind::Count], 0);
    let rows = state.finish();
    assert_eq!(1, rows.len());
    assert_eq!(vec![AggregateValue::UInt64(0)], rows[0].values);
}

#[test]
fn no_grouping_on_empty_input_gives_one_row() {
    let state = AggregateState::new(vec![AggregateKind::Min, AggregateKind::Sum, AggregateKind::Avg], 0);
    let rows = state.finish();
    assert_eq!(1, rows.len());
    assert_eq!(
        vec![AggregateValue::Null, AggregateValue::Null, AggregateValue::Null],
        rows[0].values
    );
    let grouped = AggregateState::new(vec![AggregateKind::Count], 1);
    assert_eq!(0, grouped.finish().len());
}

#[test]
fn grouped_aggregation_folds_rows() {
    let mut state = AggregateState::new(
        vec![AggregateKind::Min, AggregateKind::Max, AggregateKind::Count, AggregateKind::Avg],
        1,
    );
    let co = || vec![ScalarValue::Utf8("CO".to_string())];
    let ca = || vec![ScalarValue::Utf8("CA".to_string())];
    state.accumulate(co(), &vec![Some(30), Some(30), Some(30), Some(30)]).unwrap();
    state.accumulate(ca(), &vec![Some(40), Some(40), Some(40), Some(40)]).unwrap();
    state.accumulate(co(), &vec![Some(20), Some(20), None, Some(20)]).unwrap();
    state.accumulate(co(), &vec![None, None, None, None]).unwrap();
    let rows = state.finish();
    assert_eq!(2, rows.len());
    assert_eq!(co(), rows[0].key);
    assert_eq!(
        vec![
            AggregateValue::Int64(20),
            AggregateValue::Int64(30),
            AggregateValue::UInt64(1),
            AggregateValue::Mean { sum: 50, count: 2 }
        ],
        rows[0].values
    );
    assert_eq!(ca(), rows[1].key);
    assert_eq!(
        vec![
            AggregateValue::Int64(40),
            AggregateValue::Int64(40),
            AggregateValue::UInt64(1),
            AggregateValue::Mean { sum: 40, count: 1 }
        ],
        rows[1].values
    );
}

#[test]
fn sum_overflow_is_an_error() {
    let mut acc = Accumulator::new(AggregateKind::Sum);
    acc.update(Some(i64::MAX)).unwrap();
    assert!(matches!(acc.update(Some(1)), Err(ExecutionError::ExecutionError(_))));
    assert_eq!(AggregateValue::Int64(i64::MAX), acc.result());
}

#[test]
fn aggregate_names_ignore_case() {
    let call = |name: &str| Expr::AggregateFunction {
        name: name.to_string(),
        args: vec![Expr::Column(0)],
        return_type: DataType::Int64,
    };
    assert_eq!(Some(AggregateKind::Min), aggregate_kind(&call("MIN")));
    assert_eq!(Some(AggregateKind::Avg), aggregate_kind(&call("Avg")));
    assert_eq!(Some(AggregateKind::Count), aggregate_kind(&call("count")));
    assert_eq!(None, aggregate_kind(&call("median")));
    assert_eq!(None, aggregate_kind(&Expr::Column(0)));
}

#[test]
fn select_one_plans_a_literal_over_nothing() {
    let sql = SqlNode::Select {
        projection: vec![long(1)],
        relation: None,
        selection: None,
        order_by: None,
        group_by: None,
        having: None,
        limit: None,
    };
    let plan = SqlToRel::new(Catalog::new()).plan_query(&sql).unwrap();
    assert_eq!("Projection: Int64(1)\n  EmptyRelation", plan.to_text());
    assert_eq!(1, plan.schema().len());
    assert_eq!(DataType::Int64, plan.schema().field(0).data_type());
}
