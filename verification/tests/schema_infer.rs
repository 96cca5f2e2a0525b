use polars::datatypes::{DataType, Field, Schema};
use polars::error::PolarsError;
use polars::expr::{binary_expr, col, lit, Operator, ScalarValue};
use polars::frame::DataFrame;
use polars::logical_plan::{JoinType, LogicalPlanBuilder};
use polars::optimizer::optimize_identity;

fn names_of(s: &Schema) -> Vec<String> {
    s.fields().iter().map(|f| f.name().clone()).collect()
}

fn types_of(s: &Schema) -> Vec<DataType> {
    s.fields().iter().map(|f| f.data_type()).collect()
}

#[test]
fn merge_disjoint_is_exact_union() {
    let s1 = Schema::new(vec![
        Field::new("a", DataType::Int32, true),
        Field::new("b", DataType::Utf8, false),
    ]);
    let s2 = Schema::new(vec![
        Field::new("c", DataType::Float64, true),
        Field::new("d", DataType::Boolean, true),
    ]);
    let merged = Schema::try_merge(&vec![s1, s2]).unwrap();
    assert_eq!(names_of(&merged), vec!["a", "b", "c", "d"]);
    assert_eq!(
        types_of(&merged),
        vec![DataType::Int32, DataType::Utf8, DataType::Float64, DataType::Boolean]
    );
}

#[test]
fn merge_identical_duplicate_is_idempotent() {
    let s1 = Schema::new(vec![
        Field::new("a", DataType::Int32, true),
        Field::new("shared", DataType::Utf8, true),
    ]);
    let s2 = Schema::new(vec![
        Field::new("shared", DataType::Utf8, true),
        Field::new("b", DataType::Float64, true),
    ]);
    let merged = Schema::try_merge(&vec![s1, s2]).unwrap();
    assert_eq!(names_of(&merged), vec!["a", "shared", "b"]);

    let s = Schema::new(vec![
        Field::new("a", DataType::Int32, true),
        Field::new("b", DataType::Utf8, true),
    ]);
    let twice = Schema::try_merge(&vec![s.clone(), s]).unwrap();
    assert_eq!(names_of(&twice), vec!["a", "b"]);
}

#[test]
fn merge_conflicting_type_fails() {
    let s1 = Schema::new(vec![Field::new("a", DataType::Int32, true)]);
    let s2 = Schema::new(vec![Field::new("a", DataType::Utf8, true)]);
    let r = Schema::try_merge(&vec![s1, s2]);
    let e = r.err().unwrap();
    assert_eq!(e.column_name().unwrap(), "a");
    assert!(matches!(e, PolarsError::SchemaConflict(_)));
}

#[test]
fn merge_conflicting_nullability_fails() {
    let s1 = Schema::new(vec![Field::new("a", DataType::Int32, true)]);
    let s2 = Schema::new(vec![Field::new("a", DataType::Int32, false)]);
    let r = Schema::try_merge(&vec![s1, s2]);
    assert!(matches!(r, Err(PolarsError::SchemaConflict(n)) if n == "a"));
}

#[test]
fn join_collision_renames_right_field() {
    let left = DataFrame::new(Schema::new(vec![
        Field::new("days", DataType::Int32, true),
        Field::new("temp", DataType::Float64, true),
    ]));
    let right = DataFrame::new(Schema::new(vec![
        Field::new("days", DataType::Int32, true),
        Field::new("rain", DataType::Float64, true),
    ]));
    let joined = LogicalPlanBuilder::from_existing_df(left)
        .join(
            LogicalPlanBuilder::from_existing_df(right).build(),
            JoinType::Inner,
            "days".to_string(),
            "days".to_string(),
        )
        .unwrap()
        .build();
    assert_eq!(names_of(joined.schema()), vec!["days", "temp", "days_right", "rain"]);
    assert_eq!(
        types_of(joined.schema()),
        vec![DataType::Int32, DataType::Float64, DataType::Int32, DataType::Float64]
    );
}

#[test]
fn join_rename_collision_is_a_conflict() {
    let left = DataFrame::new(Schema::new(vec![
        Field::new("days", DataType::Int32, true),
        Field::new("days_right", DataType::Int32, true),
    ]));
    let right = DataFrame::new(Schema::new(vec![Field::new("days", DataType::Int32, true)]));
    let r = LogicalPlanBuilder::from_existing_df(left).join(
        LogicalPlanBuilder::from_existing_df(right).build(),
        JoinType::Left,
        "days".to_string(),
        "days".to_string(),
    );
    assert!(matches!(r, Err(PolarsError::SchemaConflict(n)) if n == "days_right"));
}

#[test]
fn join_keys_are_checked_only_at_execution_time() {
    let left = DataFrame::new(Schema::new(vec![Field::new("days", DataType::Int32, true)]));
    let right = DataFrame::new(Schema::new(vec![Field::new("rain", DataType::Float64, true)]));
    // construction succeeds although "days" is absent on the right
    let joined = LogicalPlanBuilder::from_existing_df(left)
        .join(
            LogicalPlanBuilder::from_existing_df(right).build(),
            JoinType::Left,
            "days".to_string(),
            "days".to_string(),
        )
        .unwrap()
        .build();
    // the deferred failure is explicit when the keys are resolved
    let r = joined.check_join_keys();
    assert!(matches!(r, Err(PolarsError::UnknownField(n)) if n == "days"));
}

#[test]
fn projection_emits_expression_list_order() {
    let df = DataFrame::new(Schema::new(vec![
        Field::new("colA", DataType::Int32, true),
        Field::new("colB", DataType::Utf8, true),
    ]));
    let lp = LogicalPlanBuilder::from_existing_df(df)
        .project(vec![col("colB").alias("x"), col("colA")])
        .unwrap()
        .build();
    assert_eq!(names_of(lp.schema()), vec!["x", "colA"]);
    assert_eq!(types_of(lp.schema()), vec![DataType::Utf8, DataType::Int32]);
}

#[test]
fn projection_unknown_column_fails() {
    let df = DataFrame::new(Schema::new(vec![Field::new("colA", DataType::Int32, true)]));
    let r = LogicalPlanBuilder::from_existing_df(df).project(vec![col("missing")]);
    assert!(matches!(r, Err(PolarsError::UnknownField(n)) if n == "missing"));
}

#[test]
fn projection_duplicate_output_name_fails() {
    let df = DataFrame::new(Schema::new(vec![
        Field::new("colA", DataType::Int32, true),
        Field::new("colB", DataType::Utf8, true),
    ]));
    let r = LogicalPlanBuilder::from_existing_df(df)
        .project(vec![col("colA"), col("colB").alias("colA")]);
    assert!(matches!(r, Err(PolarsError::SchemaConflict(n)) if n == "colA"));
}

#[test]
fn groupby_keys_precede_aggregates() {
    let df = DataFrame::new(Schema::new(vec![
        Field::new("region", DataType::Utf8, true),
        Field::new("city", DataType::Utf8, true),
        Field::new("temp", DataType::Float64, true),
    ]));
    let lp = LogicalPlanBuilder::from_existing_df(df)
        .groupby(
            vec!["region".to_string(), "city".to_string()],
            vec![col("temp").agg_min()],
        )
        .unwrap()
        .build();
    assert_eq!(names_of(lp.schema()), vec!["region", "city", "temp_min"]);
}

#[test]
fn groupby_unknown_key_fails() {
    let df = DataFrame::new(Schema::new(vec![Field::new("a", DataType::Int32, true)]));
    let r = LogicalPlanBuilder::from_existing_df(df)
        .groupby(vec!["nope".to_string()], vec![col("a").agg_min()]);
    assert!(matches!(r, Err(PolarsError::UnknownField(n)) if n == "nope"));
}

#[test]
fn filter_and_sort_pass_schema_through() {
    let df = DataFrame::new(Schema::new(vec![
        Field::new("a", DataType::Int32, true),
        Field::new("b", DataType::Utf8, true),
    ]));
    let base = LogicalPlanBuilder::from_existing_df(df).build();
    let input_names = names_of(base.schema());
    let input_types = types_of(base.schema());

    let predicate = binary_expr(col("a"), Operator::Gt, lit(ScalarValue::Int32(2)));
    let filtered = LogicalPlanBuilder::from(base).filter(predicate).build();
    assert_eq!(names_of(filtered.schema()), input_names);
    assert_eq!(types_of(filtered.schema()), input_types);

    let sorted = LogicalPlanBuilder::from(filtered).sort("b".to_string(), true).build();
    assert_eq!(names_of(sorted.schema()), input_names);
    assert_eq!(types_of(sorted.schema()), input_types);
}

#[test]
fn scan_filter_project_yields_projected_schema() {
    let df = DataFrame::new(Schema::new(vec![
        Field::new("days", DataType::Int32, true),
        Field::new("temp", DataType::Float64, true),
    ]));
    let predicate = binary_expr(col("days"), Operator::Lt, lit(ScalarValue::Int32(3)));
    let lp = LogicalPlanBuilder::from_existing_df(df)
        .filter(predicate)
        .project(vec![col("temp")])
        .unwrap()
        .build();
    assert_eq!(names_of(lp.schema()), vec!["temp"]);
    assert_eq!(types_of(lp.schema()), vec![DataType::Float64]);
}

#[test]
fn join_rendering_contains_children_and_key() {
    let left = DataFrame::new(Schema::new(vec![
        Field::new("days", DataType::Int32, true),
        Field::new("temp", DataType::Float64, true),
    ]));
    let right = DataFrame::new(Schema::new(vec![
        Field::new("days", DataType::Int32, true),
        Field::new("rain", DataType::Float64, true),
    ]));
    let left_plan = LogicalPlanBuilder::from_existing_df(left).build();
    let right_plan = LogicalPlanBuilder::from_existing_df(right).build();
    let left_text = left_plan.describe();
    let right_text = right_plan.describe();
    let joined = LogicalPlanBuilder::from(left_plan)
        .join(
            right_plan,
            JoinType::Left,
            "days".to_string(),
            "days".to_string(),
        )
        .unwrap()
        .build();
    let text = joined.describe();
    assert!(text.contains(&left_text));
    assert!(text.contains(&right_text));
    assert!(text.contains("days"));
}

#[test]
fn rendering_is_exact_for_a_small_plan() {
    let df = DataFrame::new(Schema::new(vec![
        Field::new("a", DataType::Int32, true),
        Field::new("b", DataType::Utf8, true),
    ]));
    let scan = LogicalPlanBuilder::from_existing_df(df).build();
    assert_eq!(scan.describe(), "TABLE: [\"a\", \"b\"]");

    let predicate = binary_expr(col("a"), Operator::GtEq, lit(ScalarValue::Int32(1)));
    let filtered = LogicalPlanBuilder::from(scan).filter(predicate).build();
    assert_eq!(
        filtered.describe(),
        "FILTER (col(\"a\") >= lit(Int32))\nFROM\nTABLE: [\"a\", \"b\"]"
    );
}

#[test]
fn table_rendering_bounds_column_prefix() {
    let df = DataFrame::new(Schema::new(vec![
        Field::new("c1", DataType::Int32, true),
        Field::new("c2", DataType::Int32, true),
        Field::new("c3", DataType::Int32, true),
        Field::new("c4", DataType::Int32, true),
        Field::new("c5", DataType::Int32, true),
    ]));
    let scan = LogicalPlanBuilder::from_existing_df(df).build();
    let text = scan.describe();
    assert_eq!(text, "TABLE: [\"c1\", \"c2\", \"c3\", \"c4\"]");
    assert!(!text.contains("c5"));
}

#[test]
fn identity_optimizer_preserves_schema_and_rendering() {
    let df = DataFrame::new(Schema::new(vec![
        Field::new("days", DataType::Int32, true),
        Field::new("temp", DataType::Float64, true),
    ]));
    let lp = LogicalPlanBuilder::from_existing_df(df)
        .sort("days".to_string(), false)
        .project(vec![col("temp").alias("t")])
        .unwrap()
        .build();
    let names_before = names_of(lp.schema());
    let types_before = types_of(lp.schema());
    let text_before = lp.describe();
    let optimized = optimize_identity(lp);
    assert_eq!(names_of(optimized.schema()), names_before);
    assert_eq!(types_of(optimized.schema()), types_before);
    assert_eq!(optimized.describe(), text_before);
}

#[test]
fn scalar_datatype_covers_every_typed_variant() {
    assert_eq!(ScalarValue::Boolean(true).get_datatype().unwrap(), DataType::Boolean);
    assert_eq!(
        ScalarValue::Utf8("x".to_string()).get_datatype().unwrap(),
        DataType::Utf8
    );
    assert_eq!(ScalarValue::UInt8(1).get_datatype().unwrap(), DataType::UInt8);
    assert_eq!(ScalarValue::UInt16(1).get_datatype().unwrap(), DataType::UInt16);
    assert_eq!(ScalarValue::UInt32(1).get_datatype().unwrap(), DataType::UInt32);
    assert_eq!(ScalarValue::UInt64(1).get_datatype().unwrap(), DataType::UInt64);
    assert_eq!(ScalarValue::Int8(-1).get_datatype().unwrap(), DataType::Int8);
    assert_eq!(ScalarValue::Int16(-1).get_datatype().unwrap(), DataType::Int16);
    assert_eq!(ScalarValue::Int32(-1).get_datatype().unwrap(), DataType::Int32);
    assert_eq!(ScalarValue::Int64(-1).get_datatype().unwrap(), DataType::Int64);
    assert_eq!(
        ScalarValue::Float32(2.5f32.to_bits()).get_datatype().unwrap(),
        DataType::Float32
    );
    assert_eq!(
        ScalarValue::Float64(2.5f64.to_bits()).get_datatype().unwrap(),
        DataType::Float64
    );
}

#[test]
fn null_scalar_has_no_datatype() {
    let r = ScalarValue::Null.get_datatype();
    assert!(matches!(r, Err(PolarsError::UnsupportedScalar)));
}

#[test]
fn scan_csv_carries_its_schema() {
    let schema = Schema::new(vec![
        Field::new("a", DataType::Int64, true),
        Field::new("b", DataType::Utf8, true),
    ]);
    let lp = LogicalPlanBuilder::scan_csv("data.csv".to_string(), schema, true, Some(b';')).build();
    assert_eq!(names_of(lp.schema()), vec!["a", "b"]);
    assert_eq!(lp.describe(), "CSV SCAN data.csv");
}
