use apollo::datatypes::DataType;
use apollo::datatypes::Field;
use apollo::error::ApolloError;
use apollo::physical_types::ApolloDataType;
use apollo::physical_types::BooleanType;
use apollo::physical_types::FixedSizeListType;
use apollo::physical_types::Float64Type;
use apollo::physical_types::Int32Type;
use apollo::physical_types::ListType;
use apollo::physical_types::PyApolloNumericType;
use apollo::physical_types::StringType;
use apollo::physical_types::StructType;
use apollo::physical_types::UInt8Type;
use apollo::python_error::ExceptionKind;
use apollo::python_error::PyException;
use apollo::python_source::apollo_schema_field_from_arrow_c_schema;
use apollo::python_source::init_apollo_schema_from_arrow_c_schema;
use apollo::python_source::PythonOptionsDsl;
use apollo::python_source::PythonScanSource;
use apollo::python_source::SchemaSource;
use apollo::schema::Schema;

fn options(schema_fn: SchemaSource) -> PythonOptionsDsl {
    PythonOptionsDsl {
        scan_fn: Some(1),
        schema_fn: Some(schema_fn),
        python_source: PythonScanSource::default(),
        validate_schema: false,
        is_pure: true,
    }
}

fn one_column(name: &str) -> Schema {
    let mut s = Schema::new();
    s.with_column(name, DataType::Int64);
    s
}

#[test]
fn the_schema_of_a_python_scan() {
    assert_eq!(PythonScanSource::default(), PythonScanSource::IOPlugin);
    let given = options(SchemaSource::Given(one_column("a")));
    assert_eq!(given.get_schema(Err("not called".to_string())), Ok(one_column("a")));
    let called = options(SchemaSource::Function(7));
    assert_eq!(called.get_schema(Ok(Ok(one_column("b")))), Ok(one_column("b")));
    let failed = options(SchemaSource::Function(7));
    assert_eq!(
        failed.get_schema(Err("TypeError: no".to_string())),
        Err(ApolloError::ComputeError("schema callable failed: TypeError: no".to_string()))
    );
    let unconverted = options(SchemaSource::Function(7));
    let not_a_schema = ApolloError::ComputeError("expected a apollo.Schema; got 3".to_string());
    assert_eq!(
        unconverted.get_schema(Ok(Err(not_a_schema))),
        Err(ApolloError::ComputeError("expected a apollo.Schema; got 3".to_string()))
    );
}

#[test]
fn a_schema_from_arrow_fields() {
    let imported = DataType::Struct(vec![
        Field::new("a", DataType::Int8),
        Field::new("b", DataType::String),
        Field::new("a", DataType::Int16),
        Field::new("c", DataType::Boolean),
    ]);
    let mut schema = Schema::new();
    assert_eq!(
        init_apollo_schema_from_arrow_c_schema(&mut schema, &imported, "<obj>"),
        Err(PyException {
            kind: ExceptionKind::DuplicateError,
            message: "arrow schema contained duplicate name: a".to_string(),
        })
    );
    assert_eq!(schema.len(), 2);
    assert_eq!(schema.get("a"), Some(&DataType::Int8));

    let good = DataType::Struct(vec![Field::new("x", DataType::Date), Field::new("y", DataType::Time)]);
    let mut schema = one_column("w");
    assert_eq!(init_apollo_schema_from_arrow_c_schema(&mut schema, &good, "<obj>"), Ok(()));
    assert_eq!((schema.index_of("w"), schema.index_of("x"), schema.index_of("y")), (Some(0), Some(1), Some(2)));
    let mut schema = one_column("y");
    assert!(init_apollo_schema_from_arrow_c_schema(&mut schema, &good, "<obj>").is_err());
    assert_eq!(schema.len(), 2);

    let mut schema = Schema::new();
    assert_eq!(
        init_apollo_schema_from_arrow_c_schema(&mut schema, &DataType::Int64, "<table>"),
        Err(PyException {
            kind: ExceptionKind::ValueError,
            message:
                "__arrow_c_schema__ of object passed to pl.Schema did not return struct dtype: object: <table>, dtype: i64"
                    .to_string(),
        })
    );
    assert_eq!(schema.len(), 0);
    assert_eq!(
        apollo_schema_field_from_arrow_c_schema(Field::new("f", DataType::Binary)),
        ("f".to_string(), DataType::Binary)
    );
}

fn numeric<T: PyApolloNumericType>() -> DataType {
    T::get_static_dtype()
}

#[test]
fn markers_know_their_type() {
    assert_eq!(numeric::<UInt8Type>(), DataType::UInt8);
    assert_eq!(numeric::<Int32Type>(), DataType::Int32);
    assert_eq!(numeric::<Float64Type>(), DataType::Float64);
    assert_eq!(StringType::get_static_dtype(), DataType::String);
    assert_eq!(BooleanType::get_static_dtype(), DataType::Boolean);
    assert_eq!(ListType::get_static_dtype(), DataType::List(Box::new(DataType::Null)));
    assert_eq!(StructType::get_static_dtype(), DataType::Struct(vec![]));
    assert_eq!(
        FixedSizeListType::get_static_dtype(),
        DataType::Array(Box::new(DataType::Null), 0)
    );
}

#[test]
fn extension_columns_wrap_their_storage() {
    let storage = apollo::series::Series::new(
        "g",
        DataType::Binary,
        vec![apollo::series::AnyValue::Binary(vec![1, 2]), apollo::series::AnyValue::Null],
    )
    .unwrap();
    let geo = DataType::Extension("geo".to_string(), Box::new(DataType::Binary));
    let column = apollo::extension::ext_to(&storage, geo.clone()).unwrap();
    assert_eq!(column.dtype(), geo);
    assert_eq!(column.typ(), "geo");
    assert_eq!(apollo::extension::ext_storage(&column), Ok(storage.clone()));
    assert_eq!(
        apollo::extension::ext_to(&storage, DataType::Binary),
        Err(ApolloError::ComputeError("ext.to() requires an Extension dtype".to_string()))
    );
}

#[test]
fn the_text_of_an_error_on_its_way_to_python() {
    let wrapped = ApolloError::NoData("nothing to read".to_string()).context("in scan".to_string());
    assert_eq!(
        apollo::python_error::PyApolloErr::Apollo(wrapped).message(),
        Some("nothing to read".to_string())
    );
    assert_eq!(
        apollo::python_error::PyApolloErr::Other("oops".to_string()).message(),
        Some("oops".to_string())
    );
    let raised = apollo::error::PythonError(5);
    assert_eq!(apollo::python_error::PyApolloErr::Python(raised).message(), None);
    let inside = ApolloError::Python { error: raised };
    assert_eq!(apollo::python_error::PyApolloErr::Apollo(inside).message(), None);
}

#[test]
fn functions_on_extension_types() {
    let storage = apollo::series::Series::full_null("g", DataType::Binary, 2);
    let geo = DataType::Extension("geo".to_string(), Box::new(DataType::Binary));
    let plain = apollo::extension::AnyColumn::Plain(storage.clone());
    let to = apollo::aexpr::IRExtensionFunction::To(geo.clone());
    let extended = apollo::extension::apply_extension(to, &plain).unwrap();
    match &extended {
        apollo::extension::AnyColumn::Extension(e) => assert_eq!(e.dtype(), geo),
        _ => panic!("expected a column of the extension type"),
    }
    let back =
        apollo::extension::apply_extension(apollo::aexpr::IRExtensionFunction::Storage, &extended);
    assert_eq!(back, Ok(apollo::extension::AnyColumn::Plain(storage.clone())));
    let same =
        apollo::extension::apply_extension(apollo::aexpr::IRExtensionFunction::Storage, &plain);
    assert_eq!(same, Ok(apollo::extension::AnyColumn::Plain(storage)));
    let not_an_extension = apollo::aexpr::IRExtensionFunction::To(DataType::Binary);
    assert_eq!(
        apollo::extension::apply_extension(not_an_extension, &plain),
        Err(ApolloError::ComputeError("ext.to() requires an Extension dtype".to_string()))
    );
}
