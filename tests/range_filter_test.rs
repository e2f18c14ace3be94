use std::collections::HashMap;

use range_filter::{
    build_verifiable_expr, col, evaluate, lit, lit_i64, neg, BinaryOp, BlockStats, ColStats,
    DataField, DataSchema, DataType, DataValue, ErrorCode, Expression, RangeFilter, ScalarFunc,
    StatColumns, StatType, UnaryOp,
};

fn value_text(v: &DataValue) -> String {
    match v {
        DataValue::Null => "NULL".to_string(),
        DataValue::Boolean(b) => format!("{}", b),
        DataValue::Int64(x) => format!("{}", x),
        DataValue::UInt64(x) => format!("{}", x),
        DataValue::String(s) => s.clone(),
    }
}

fn op_text(op: &BinaryOp) -> String {
    match op {
        BinaryOp::Lt => "<".to_string(),
        BinaryOp::LtEq => "<=".to_string(),
        BinaryOp::Gt => ">".to_string(),
        BinaryOp::GtEq => ">=".to_string(),
        BinaryOp::Eq => "=".to_string(),
        BinaryOp::NotEq => "!=".to_string(),
        BinaryOp::And => "and".to_string(),
        BinaryOp::Or => "or".to_string(),
        BinaryOp::Other(name) => name.clone(),
    }
}

fn text(e: &Expression) -> String {
    match e {
        Expression::Column(name) => name.clone(),
        Expression::Literal(v) => value_text(v),
        Expression::UnaryExpression { op, expr } => {
            let o = match op {
                UnaryOp::Negate => "-",
                UnaryOp::Not => "not",
            };
            format!("({} {})", o, text(expr))
        }
        Expression::BinaryExpression { left, op, right } => {
            format!("({} {} {})", text(left), op_text(op), text(right))
        }
        Expression::ScalarFunction { op, args } => {
            let name = match op {
                ScalarFunc::IsNull => "isNull".to_string(),
                ScalarFunc::IsNotNull => "isNotNull".to_string(),
                ScalarFunc::Other(n) => n.clone(),
            };
            let args: Vec<String> = args.iter().map(text).collect();
            format!("{}({})", name, args.join(", "))
        }
    }
}

fn like(column: &str, pattern: &str) -> Expression {
    Expression::create_binary_expression(
        BinaryOp::Other("like".to_string()),
        col(column),
        lit(DataValue::String(pattern.to_string())),
    )
}

fn ab_schema() -> DataSchema {
    DataSchema::new(vec![
        DataField::new("a", DataType::Int64, false),
        DataField::new("b", DataType::Int32, false),
    ])
}

fn abc_schema() -> DataSchema {
    DataSchema::new(vec![
        DataField::new("a", DataType::Int64, false),
        DataField::new("b", DataType::Int32, false),
        DataField::new("c", DataType::String, false),
    ])
}

fn block_stats() -> BlockStats {
    let mut stats: BlockStats = HashMap::new();
    stats.insert(0u32, ColStats {
        min: DataValue::Int64(1),
        max: DataValue::Int64(20),
        null_count: 1,
    });
    stats.insert(1u32, ColStats {
        min: DataValue::Int64(3),
        max: DataValue::Int64(10),
        null_count: 0,
    });
    stats
}

fn rewritten(expr: &Expression, schema: &DataSchema) -> String {
    let mut stat_columns: StatColumns = Vec::new();
    let res = build_verifiable_expr(expr, schema, &mut stat_columns).expect("columns resolve");
    text(&res)
}

#[test]
fn test_range_filter() {
    let schema = ab_schema();
    let stats = block_stats();

    let tests: Vec<(&str, Expression, bool)> = vec![
        ("a < 1 and b > 3", col("a").lt(lit_i64(1)).and(col("b").gt(lit_i64(3))), false),
        ("1 > -a or 3 >= b", lit_i64(1).gt(neg(col("a"))).or(lit_i64(3).gt_eq(col("b"))), true),
        ("a = 1 and b != 3", col("a").eq(lit_i64(1)).and(col("b").not_eq(lit_i64(3))), true),
        (
            "a is null",
            Expression::create_scalar_function(ScalarFunc::IsNull, vec![col("a")]),
            true,
        ),
        (
            "a is not null",
            Expression::create_scalar_function(ScalarFunc::IsNotNull, vec![col("a")]),
            true,
        ),
        ("null", Expression::create_literal(DataValue::Null), false),
        (
            "b >= 0 and c like '%sys%'",
            col("b").gt_eq(lit_i64(0)).and(like("c", "%sys%")),
            true,
        ),
    ];

    for (name, expr, expect) in tests {
        let prune = RangeFilter::try_create(&expr, schema.clone()).expect("filter builds");
        let actual = prune.eval(&stats).expect("filter evaluates");
        assert_eq!(expect, actual, "{:#?}", name);
    }
}

#[test]
fn test_build_verifiable_function() {
    let schema = abc_schema();

    let tests: Vec<(&str, Expression, &str)> = vec![
        (
            "a < 1 and b > 3",
            col("a").lt(lit_i64(1)).and(col("b").gt(lit_i64(3))),
            "((min_a < 1) and (max_b > 3))",
        ),
        (
            "1 > -a or 3 >= b",
            lit_i64(1).gt(neg(col("a"))).or(lit_i64(3).gt_eq(col("b"))),
            "(((- max_a) < 1) or (min_b <= 3))",
        ),
        (
            "a = 1 and b != 3",
            col("a").eq(lit_i64(1)).and(col("b").not_eq(lit_i64(3))),
            "(((min_a <= 1) and (max_a >= 1)) and ((min_b != 3) or (max_b != 3)))",
        ),
        (
            "a is null",
            Expression::create_scalar_function(ScalarFunc::IsNull, vec![col("a")]),
            "(nulls_a > 0)",
        ),
        (
            "a is not null",
            Expression::create_scalar_function(ScalarFunc::IsNotNull, vec![col("a")]),
            "isNotNull(min_a)",
        ),
        (
            "b >= 0 and c like '%sys%'",
            col("b").gt_eq(lit_i64(0)).and(like("c", "%sys%")),
            "((max_b >= 0) and true)",
        ),
    ];

    for (name, expr, expect) in tests {
        let actual = rewritten(&expr, &schema);
        assert_eq!(expect, actual, "{:#?}", name);
    }
}

#[test]
fn stat_columns_are_recorded_once_in_first_use_order() {
    let schema = abc_schema();
    let expr = col("b")
        .eq(lit_i64(1))
        .and(col("a").lt(lit_i64(5)))
        .and(col("b").gt(lit_i64(0)))
        .and(Expression::create_scalar_function(ScalarFunc::IsNull, vec![col("a")]));
    let mut stat_columns: StatColumns = Vec::new();
    build_verifiable_expr(&expr, &schema, &mut stat_columns).expect("columns resolve");
    let got: Vec<(usize, StatType, String)> = stat_columns
        .iter()
        .map(|c| (c.column_index, c.stat_type, c.stat_field.name.clone()))
        .collect();
    assert_eq!(
        got,
        vec![
            (1, StatType::Min, "min_b".to_string()),
            (1, StatType::Max, "max_b".to_string()),
            (0, StatType::Min, "min_a".to_string()),
            (0, StatType::Nulls, "nulls_a".to_string()),
        ]
    );
    assert_eq!(stat_columns[3].stat_field.data_type, DataType::UInt64);
    assert_eq!(stat_columns[0].stat_field.data_type, DataType::Int32);
}

#[test]
fn unknown_column_fails_the_build() {
    let schema = ab_schema();
    let expr = col("a").lt(lit_i64(1)).and(col("z").gt(lit_i64(3)));
    assert!(matches!(
        RangeFilter::try_create(&expr, schema.clone()),
        Err(ErrorCode::UnknownColumn)
    ));
    // an unknown column inside an opaque call is never resolved
    let opaque = like("z", "%x%");
    assert!(RangeFilter::try_create(&opaque, schema).is_ok());
}

#[test]
fn missing_statistics_force_a_scan() {
    let schema = ab_schema();
    let mut stats: BlockStats = HashMap::new();
    stats.insert(0u32, ColStats {
        min: DataValue::Int64(1),
        max: DataValue::Int64(20),
        null_count: 0,
    });
    // b has no statistics: even a predicate false on a alone must scan
    let expr = col("a").lt(lit_i64(0)).and(col("b").gt(lit_i64(100)));
    let f = RangeFilter::try_create(&expr, schema.clone()).unwrap();
    assert_eq!(f.eval(&stats), Ok(true));
    let only_a = col("a").lt(lit_i64(0));
    let f = RangeFilter::try_create(&only_a, schema).unwrap();
    assert_eq!(f.eval(&stats), Ok(false));
}

#[test]
fn null_literal_skips_whatever_the_statistics() {
    let schema = ab_schema();
    let f = RangeFilter::try_create(&lit(DataValue::Null), schema).unwrap();
    assert_eq!(f.eval(&block_stats()), Ok(false));
    assert_eq!(f.eval(&HashMap::new()), Ok(false));
    assert!(f.stat_columns.is_empty());
}

#[test]
fn opaque_call_never_prunes_a_provable_match() {
    let schema = abc_schema();
    let stats = block_stats();
    let matching = col("a").gt(lit_i64(5)).and(like("c", "%x%"));
    let f = RangeFilter::try_create(&matching, schema.clone()).unwrap();
    assert_eq!(text(&f.verifiable_expr), "((max_a > 5) and true)");
    assert_eq!(f.eval(&stats), Ok(true));
    let failing = col("a").gt(lit_i64(50)).and(like("c", "%x%"));
    let f = RangeFilter::try_create(&failing, schema).unwrap();
    assert_eq!(f.eval(&stats), Ok(false));
}

#[test]
fn equality_outside_the_range_skips() {
    let schema = ab_schema();
    let stats = block_stats();
    for (v, expect) in [(0i64, false), (1, true), (20, true), (21, false)] {
        let f = RangeFilter::try_create(&col("a").eq(lit_i64(v)), schema.clone()).unwrap();
        assert_eq!(f.eval(&stats), Ok(expect), "a = {}", v);
    }
}

#[test]
fn not_equal_on_a_constant_block_skips() {
    let schema = ab_schema();
    let mut stats: BlockStats = HashMap::new();
    stats.insert(1u32, ColStats {
        min: DataValue::Int64(3),
        max: DataValue::Int64(3),
        null_count: 0,
    });
    let f = RangeFilter::try_create(&col("b").not_eq(lit_i64(3)), schema.clone()).unwrap();
    assert_eq!(f.eval(&stats), Ok(false));
    let f = RangeFilter::try_create(&col("b").not_eq(lit_i64(4)), schema).unwrap();
    assert_eq!(f.eval(&stats), Ok(true));
}

#[test]
fn is_null_without_nulls_skips() {
    let schema = ab_schema();
    let f = RangeFilter::try_create(
        &Expression::create_scalar_function(ScalarFunc::IsNull, vec![col("b")]),
        schema,
    )
    .unwrap();
    assert_eq!(text(&f.verifiable_expr), "(nulls_b > 0)");
    assert_eq!(f.eval(&block_stats()), Ok(false));
}

#[test]
fn is_not_null_on_an_all_null_block_skips() {
    let schema = ab_schema();
    let mut stats: BlockStats = HashMap::new();
    stats.insert(0u32, ColStats { min: DataValue::Null, max: DataValue::Null, null_count: 4 });
    let f = RangeFilter::try_create(
        &Expression::create_scalar_function(ScalarFunc::IsNotNull, vec![col("a")]),
        schema.clone(),
    )
    .unwrap();
    assert_eq!(f.eval(&stats), Ok(false));
    // a comparison against a null bound is indeterminate: scan
    let f = RangeFilter::try_create(&col("a").lt(lit_i64(3)), schema).unwrap();
    assert_eq!(f.eval(&stats), Ok(true));
}

#[test]
fn double_negation_keeps_the_bound() {
    let schema = ab_schema();
    let expr = neg(neg(col("a"))).lt(lit_i64(1));
    assert_eq!(rewritten(&expr, &schema), "((- (- min_a)) < 1)");
    let f = RangeFilter::try_create(&expr, schema).unwrap();
    assert_eq!(f.eval(&block_stats()), Ok(false));
}

#[test]
fn negation_overflow_is_an_error_not_a_skip() {
    let schema = ab_schema();
    let mut stats: BlockStats = HashMap::new();
    stats.insert(0u32, ColStats {
        min: DataValue::Int64(i64::MIN),
        max: DataValue::Int64(i64::MIN),
        null_count: 0,
    });
    let f = RangeFilter::try_create(&lit_i64(0).gt(neg(col("a"))), schema).unwrap();
    assert_eq!(f.eval(&stats), Err(ErrorCode::Overflow));
}

#[test]
fn mismatched_types_are_an_error_not_a_skip() {
    let schema = ab_schema();
    let expr = col("a").lt(lit(DataValue::Boolean(true)));
    let f = RangeFilter::try_create(&expr, schema).unwrap();
    assert_eq!(text(&f.verifiable_expr), "(min_a < true)");
    assert_eq!(f.eval(&block_stats()), Err(ErrorCode::BadDataValueType));
}

fn string_stats(min: &str, max: &str) -> BlockStats {
    let mut stats = block_stats();
    stats.insert(2u32, ColStats {
        min: DataValue::String(min.to_string()),
        max: DataValue::String(max.to_string()),
        null_count: 0,
    });
    stats
}

fn s(v: &str) -> Expression {
    lit(DataValue::String(v.to_string()))
}

#[test]
fn string_equality_prunes_by_range() {
    let schema = abc_schema();
    let expr = col("c").eq(s("x"));
    assert_eq!(rewritten(&expr, &schema), "((min_c <= x) and (max_c >= x))");
    let f = RangeFilter::try_create(&expr, schema).unwrap();
    assert_eq!(f.eval(&string_stats("a", "m")), Ok(false));
    assert_eq!(f.eval(&string_stats("a", "z")), Ok(true));
    assert_eq!(f.eval(&string_stats("x", "x")), Ok(true));
}

#[test]
fn string_order_is_lexicographic() {
    let schema = abc_schema();
    let stats = string_stats("apple", "apricot");
    let cases = [
        (col("c").lt(s("app")), false),
        (col("c").lt(s("apples")), true),
        (col("c").gt(s("apricots")), false),
        (col("c").gt_eq(s("apricot")), true),
        (s("b").lt_eq(col("c")), false),
        (col("c").not_eq(s("apple")), true),
    ];
    for (expr, expect) in cases {
        let f = RangeFilter::try_create(&expr, schema.clone()).unwrap();
        assert_eq!(f.eval(&stats), Ok(expect), "{}", text(&expr));
    }
    let constant = string_stats("same", "same");
    let f = RangeFilter::try_create(&col("c").not_eq(s("same")), schema).unwrap();
    assert_eq!(f.eval(&constant), Ok(false));
}

#[test]
fn string_literal_against_negated_column() {
    let schema = abc_schema();
    let expr = s("x").gt(neg(col("a")));
    assert_eq!(rewritten(&expr, &schema), "((- max_a) < x)");
    let f = RangeFilter::try_create(&expr, schema).unwrap();
    // an integer bound compared with a string is a type mismatch, never a skip
    assert_eq!(f.eval(&block_stats()), Err(ErrorCode::BadDataValueType));
}

#[test]
fn unknown_column_compared_with_a_string_fails_the_build() {
    let schema = abc_schema();
    let expr = col("z").lt(s("x"));
    assert!(matches!(RangeFilter::try_create(&expr, schema), Err(ErrorCode::UnknownColumn)));
}

#[test]
fn unsupported_shapes_degrade_to_true() {
    let schema = ab_schema();
    for expr in [
        col("a").lt(col("b")),
        lit_i64(1).lt(lit_i64(2)),
        Expression::UnaryExpression { op: UnaryOp::Not, expr: Box::new(col("a").lt(lit_i64(1))) },
        lit_i64(7),
    ] {
        assert_eq!(rewritten(&expr, &schema), "true");
    }
    assert_eq!(rewritten(&range_filter::lit_bool(false), &schema), "false");
}

#[test]
fn evaluator_uses_three_valued_logic() {
    let schema = DataSchema::new(vec![DataField::new("x", DataType::Boolean, true)]);
    let row = vec![DataValue::Null];
    let e = col("x").and(lit(DataValue::Boolean(false)));
    assert!(matches!(evaluate(&e, &schema, &row), Ok(DataValue::Boolean(false))));
    let e = col("x").or(lit(DataValue::Boolean(false)));
    assert!(matches!(evaluate(&e, &schema, &row), Ok(DataValue::Null)));
    let e = like("x", "%");
    assert!(matches!(evaluate(&e, &schema, &row), Err(ErrorCode::UnknownFunction)));
}

#[test]
fn and_or_rewrite_side_by_side() {
    let schema = ab_schema();
    let a = col("a").gt_eq(lit_i64(4));
    let b = col("b").not_eq(lit_i64(7));
    let ra = rewritten(&col("a").gt_eq(lit_i64(4)), &schema);
    let rb = rewritten(&col("b").not_eq(lit_i64(7)), &schema);
    assert_eq!(rewritten(&a.and(b), &schema), format!("({} and {})", ra, rb));
    let a = col("a").gt_eq(lit_i64(4));
    let b = col("b").not_eq(lit_i64(7));
    assert_eq!(rewritten(&a.or(b), &schema), format!("({} or {})", ra, rb));
}

#[test]
fn negated_column_compares_its_negated_maximum() {
    let schema = ab_schema();
    let expr = lit_i64(-25).gt(neg(col("a")));
    assert_eq!(rewritten(&expr, &schema), "((- max_a) < -25)");
    // -a < -25 needs a > 25, and max_a is 20
    let f = RangeFilter::try_create(&expr, schema).unwrap();
    assert_eq!(f.eval(&block_stats()), Ok(false));
}

fn stats_of(rows: &[(Option<i64>, Option<i64>)]) -> BlockStats {
    let mut stats: BlockStats = HashMap::new();
    for col in 0..2u32 {
        let values: Vec<Option<i64>> =
            rows.iter().map(|r| if col == 0 { r.0 } else { r.1 }).collect();
        let present: Vec<i64> = values.iter().flatten().copied().collect();
        let to_value = |v: Option<&i64>| v.map_or(DataValue::Null, |x| DataValue::Int64(*x));
        stats.insert(col, ColStats {
            min: to_value(present.iter().min()),
            max: to_value(present.iter().max()),
            null_count: values.iter().filter(|v| v.is_none()).count() as u64,
        });
    }
    stats
}

fn row_values(r: &(Option<i64>, Option<i64>)) -> Vec<DataValue> {
    let v = |x: Option<i64>| x.map_or(DataValue::Null, DataValue::Int64);
    vec![v(r.0), v(r.1)]
}

#[test]
fn no_block_with_a_matching_row_is_skipped() {
    let schema = ab_schema();
    let rows = [(Some(4), Some(-3)), (None, Some(8)), (Some(-9), None), (Some(12), Some(0))];
    let stats = stats_of(&rows);
    let predicates = vec![
        col("a").lt(lit_i64(-8)),
        col("a").gt(lit_i64(11)),
        col("b").eq(lit_i64(0)),
        col("a").not_eq(lit_i64(4)),
        lit_i64(3).gt_eq(neg(col("b"))),
        Expression::create_scalar_function(ScalarFunc::IsNull, vec![col("b")]),
        Expression::create_scalar_function(ScalarFunc::IsNotNull, vec![col("a")]),
        col("a").lt(lit_i64(0)).or(col("b").gt(lit_i64(100))),
        col("a").gt(lit_i64(0)).and(col("b").lt(lit_i64(0))),
    ];
    for p in predicates {
        let matches = rows.iter().any(|r| {
            matches!(evaluate(&p, &schema, &row_values(r)), Ok(DataValue::Boolean(true)))
        });
        assert!(matches, "{}", text(&p));
        let f = RangeFilter::try_create(&p, schema.clone()).unwrap();
        assert_eq!(f.eval(&stats), Ok(true), "{}", text(&p));
    }
}

#[test]
fn false_positives_are_allowed() {
    let schema = ab_schema();
    let rows = [(Some(1), Some(3)), (Some(20), Some(10))];
    let stats = stats_of(&rows);
    let p = col("a").eq(lit_i64(5));
    assert!(!rows
        .iter()
        .any(|r| matches!(evaluate(&p, &schema, &row_values(r)), Ok(DataValue::Boolean(true)))));
    let f = RangeFilter::try_create(&p, schema).unwrap();
    assert_eq!(f.eval(&stats), Ok(true));
}
