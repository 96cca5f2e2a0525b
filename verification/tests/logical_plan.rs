use polars::datatypes::{DataType, Field, Schema};
use polars::expr::col;
use polars::frame::DataFrame;
use polars::logical_plan::{JoinType, LogicalPlanBuilder};

fn get_df() -> DataFrame {
    DataFrame::new(Schema::new(vec![
        Field::new("sepal.length", DataType::Float64, true),
        Field::new("sepal.width", DataType::Float64, true),
        Field::new("petal.length", DataType::Float64, true),
        Field::new("petal.width", DataType::Float64, true),
        Field::new("variety", DataType::Utf8, true),
    ]))
}

#[test]
fn test_lazy_logical_plan_schema() {
    let df = get_df();
    let lp = LogicalPlanBuilder::from_existing_df(df.clone())
        .project(vec![col("variety").alias("foo")])
        .unwrap()
        .build();

    println!("{:#?}", lp.schema().fields());
    assert!(lp.schema().field_with_name("foo").is_ok());

    let lp = LogicalPlanBuilder::from_existing_df(df)
        .groupby(
            vec!["variety".to_string()],
            vec![col("sepal.width").agg_min()],
        )
        .unwrap()
        .build();
    println!("{:#?}", lp.schema().fields());
    assert!(lp.schema().field_with_name("sepal.width_min").is_ok());
}

#[test]
fn test_lazy_logical_plan_join() {
    let left = DataFrame::new(Schema::new(vec![
        Field::new("days", DataType::Int32, true),
        Field::new("temp", DataType::Float64, true),
    ]));

    let right = DataFrame::new(Schema::new(vec![
        Field::new("days", DataType::Int32, true),
        Field::new("rain", DataType::Float64, true),
    ]));

    let lf = LogicalPlanBuilder::from_existing_df(left)
        .join(
            LogicalPlanBuilder::from_existing_df(right).build(),
            JoinType::Left,
            "days".to_string(),
            "days".to_string(),
        )
        .unwrap()
        .project(vec![col("temp")])
        .unwrap()
        .build();

    println!("{}", lf.describe());

    let schema = lf.schema();
    println!("{:?}", schema.fields());
    assert_eq!(schema.fields().len(), 1);
    assert!(schema.field_with_name("temp").is_ok());
    assert_eq!(schema.fields()[0].data_type(), DataType::Float64);
}
