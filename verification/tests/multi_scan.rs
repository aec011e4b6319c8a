use apollo::datatypes::DataType;
use apollo::error::ApolloError;
use apollo::frame::DataFrame;
use apollo::multi_scan::extra_column_err;
use apollo::multi_scan::missing_column_err;
use apollo::multi_scan::reconcile;
use apollo::multi_scan::resolve_projection;
use apollo::multi_scan::ColumnSource;
use apollo::multi_scan::ExtraColumnsPolicy;
use apollo::multi_scan::MissingColumnsPolicy;
use apollo::schema::Schema;
use apollo::series::AnyValue;
use apollo::series::Series;

fn unified() -> Schema {
    let mut s = Schema::new();
    assert!(s.with_column("a", DataType::Int64));
    assert!(s.with_column("b", DataType::String));
    s
}

fn source1() -> DataFrame {
    let a = Series::new("a", DataType::Int64, vec![AnyValue::Int(1), AnyValue::Int(2)]).unwrap();
    let b = Series::new(
        "b",
        DataType::String,
        vec![AnyValue::String("x".to_string()), AnyValue::String("y".to_string())],
    )
    .unwrap();
    DataFrame::new(2, vec![a, b]).unwrap()
}

fn source2() -> DataFrame {
    let a = Series::new("a", DataType::Int64, vec![AnyValue::Int(3)]).unwrap();
    DataFrame::new(1, vec![a]).unwrap()
}

#[test]
fn missing_column_is_inserted_as_null() {
    let u = unified();
    let s1 = source1();
    let first = resolve_projection(
        &u,
        &s1.schema(),
        "one.parquet",
        MissingColumnsPolicy::Insert,
        ExtraColumnsPolicy::Raise,
    )
    .unwrap();
    assert_eq!(first, vec![ColumnSource::Present(0), ColumnSource::Present(1)]);
    assert_eq!(reconcile(&u, &first, &s1).unwrap(), s1);

    let s2 = source2();
    let second = resolve_projection(
        &u,
        &s2.schema(),
        "two.parquet",
        MissingColumnsPolicy::Insert,
        ExtraColumnsPolicy::Raise,
    )
    .unwrap();
    assert_eq!(second, vec![ColumnSource::Present(0), ColumnSource::InsertNull]);
    let out = reconcile(&u, &second, &s2).unwrap();
    assert_eq!(out.height(), 1);
    assert_eq!(out.width(), 2);
    assert_eq!(out.column_at(0).unwrap().get(0), Some(&AnyValue::Int(3)));
    let b = out.column_at(1).unwrap();
    assert_eq!(b.name().as_str(), "b");
    assert_eq!(b.dtype(), &DataType::String);
    assert_eq!(b.get(0), Some(&AnyValue::Null));
}

#[test]
fn missing_column_is_raised() {
    let u = unified();
    let s2 = source2();
    let r = resolve_projection(
        &u,
        &s2.schema(),
        "two.parquet",
        MissingColumnsPolicy::Raise,
        ExtraColumnsPolicy::Raise,
    );
    assert_eq!(r, Err(missing_column_err("b")));
    match r {
        Err(ApolloError::ColumnNotFound(msg)) => assert_eq!(
            msg,
            "did not find column b, consider passing `missing_columns='insert'`"
        ),
        _ => panic!("expected a missing column error"),
    }
}

#[test]
fn extra_column_is_raised_or_ignored() {
    let mut u = Schema::new();
    u.with_column("b", DataType::String);
    let s1 = source1();
    let r = resolve_projection(
        &u,
        &s1.schema(),
        "dir/one.parquet",
        MissingColumnsPolicy::Raise,
        ExtraColumnsPolicy::Raise,
    );
    assert_eq!(r, Err(extra_column_err("a", "dir/one.parquet")));
    match extra_column_err("a", "dir/one.parquet") {
        ApolloError::SchemaMismatch(msg) => assert_eq!(
            msg,
            "extra column in file outside of expected schema: a, hint: specify this column in the schema, or pass extra_columns='ignore' in scan options. File containing extra column: 'dir/one.parquet'."
        ),
        _ => panic!("expected a schema mismatch"),
    }
    let p = resolve_projection(
        &u,
        &s1.schema(),
        "dir/one.parquet",
        MissingColumnsPolicy::Raise,
        ExtraColumnsPolicy::Ignore,
    )
    .unwrap();
    assert_eq!(p, vec![ColumnSource::Present(1)]);
    let out = reconcile(&u, &p, &s1).unwrap();
    assert_eq!(out.width(), 1);
    assert_eq!(out.column_at(0).unwrap().name().as_str(), "b");
}

#[test]
fn columns_come_out_in_the_order_of_the_unified_schema() {
    let u = unified();
    let b = Series::new("b", DataType::String, vec![AnyValue::String("x".to_string())]).unwrap();
    let extra = Series::new("z", DataType::Int8, vec![AnyValue::Int(9)]).unwrap();
    let a = Series::new("a", DataType::Int64, vec![AnyValue::Int(1)]).unwrap();
    let shuffled = DataFrame::new(1, vec![b, extra, a]).unwrap();
    let projection = resolve_projection(
        &u,
        &shuffled.schema(),
        "three.parquet",
        MissingColumnsPolicy::Raise,
        ExtraColumnsPolicy::Ignore,
    )
    .unwrap();
    assert_eq!(projection, vec![ColumnSource::Present(2), ColumnSource::Present(0)]);
    let out = reconcile(&u, &projection, &shuffled).unwrap();
    let names: Vec<&str> =
        (0..out.width()).map(|i| out.column_at(i).unwrap().name().as_str()).collect();
    assert_eq!(names, vec!["a", "b"]);
    assert_eq!(reconcile(&u, &vec![ColumnSource::Present(0)], &shuffled), None);
    assert_eq!(
        reconcile(&u, &vec![ColumnSource::Present(0), ColumnSource::Present(0)], &shuffled),
        None
    );
}
