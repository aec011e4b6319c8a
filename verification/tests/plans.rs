use std::collections::VecDeque;

use apollo::aexpr::constant_evaluate;
use apollo::aexpr::has_column_leaf;
use apollo::aexpr::into_column;
use apollo::aexpr::AExpr;
use apollo::aexpr::ExprIR;
use apollo::aexpr::IRFunctionExpr;
use apollo::aexpr::ListFunction;
use apollo::aexpr::LiteralValue;
use apollo::aexpr::Operator;
use apollo::aexpr::StringFunction;
use apollo::arena::Arena;
use apollo::arena::Node;
use apollo::client::assert_cloud_eligible;
use apollo::client::ineligible_error;
use apollo::client::prepare_cloud_plan;
use apollo::constants::get_len_name;
use apollo::constants::get_literal_name;
use apollo::constants::get_pl_element_name;
use apollo::constants::get_pl_structfields_name;
use apollo::datatypes::DataType;
use apollo::datatypes::Field;
use apollo::datatypes::TimeUnit;
use apollo::datatypes::UnknownKind;
use apollo::dsl::CloudOptions;
use apollo::dsl::DslPlan;
use apollo::dsl::FileScanDsl;
use apollo::dsl::IpcScanOptions;
use apollo::dsl::LazyFrame;
use apollo::dsl::ScanSources;
use apollo::dsl::SinkType;
use apollo::dsl::UnifiedScanArgs;
use apollo::error::ApolloError;
use apollo::ipc::read_binview;
use apollo::ipc::read_null;
use apollo::ipc::skip_binview;
use apollo::ipc::skip_null;
use apollo::ipc::try_get_array_length;
use apollo::ipc::FieldNode;
use apollo::ipc::IpcBuffer;
use apollo::multi_scan::ExtraColumnsPolicy;
use apollo::multi_scan::MissingColumnsPolicy;
use apollo::path::scheme_of;
use apollo::path::CloudScheme;
use apollo::path::PlRefPath;
use apollo::scan::table_info_to_schemas;
use apollo::scan::ColumnInfo;
use apollo::scan::DataSourceFormat;
use apollo::scan::TableInfo;
use apollo::schema::Schema;
use apollo::series::AnyValue;
use apollo::type_coercion::check_namespace;
use apollo::type_coercion::get_function_dtypes;

fn lit(v: i64) -> AExpr {
    AExpr::Literal(LiteralValue { value: AnyValue::Int(v), dtype: DataType::Int64 })
}

#[test]
fn arena_handles_are_stable() {
    let mut arena: Arena<u32> = Arena::new();
    assert!(arena.is_empty());
    let a = arena.add(10);
    let b = arena.add(20);
    assert_eq!((a, b), (Node(0), Node(1)));
    let c = arena.add(30);
    assert_eq!(*arena.get(a), 10);
    assert_eq!(*arena.get(b), 20);
    assert_eq!(arena.replace(b, 99), 20);
    assert_eq!(*arena.get(a), 10);
    assert_eq!(*arena.get(b), 99);
    assert_eq!(*arena.get(c), 30);
    assert_eq!(arena.len(), 3);
    assert!(arena.contains(c));
    assert!(!arena.contains(Node(3)));
    assert_eq!(arena.try_get(Node(3)), None);
    assert_eq!(arena.try_get(a), Some(&10));
}

#[test]
fn reserved_names() {
    assert_eq!(get_literal_name(), "literal");
    assert_eq!(get_len_name(), "len");
    assert_eq!(get_pl_element_name(), "__PL_ELEMENT");
    assert_eq!(get_pl_structfields_name(), "__PL_STRUCTFIELDS");
}

#[test]
fn literals_are_constant_and_columns_are_not() {
    let schema = Schema::new();
    let mut arena: Arena<AExpr> = Arena::new();
    let one = arena.add(lit(1));
    let two = arena.add(lit(2));
    let sum = arena.add(AExpr::BinaryExpr { left: one, op: Operator::Plus, right: two });
    let col = arena.add(AExpr::Column("a".to_string()));
    let mixed = arena.add(AExpr::BinaryExpr { left: sum, op: Operator::Multiply, right: col });
    let len = arena.add(AExpr::Len);

    match constant_evaluate(one, &arena, &schema, 0) {
        Some(Some(lv)) => assert_eq!(lv.value, AnyValue::Int(1)),
        _ => panic!("a literal evaluates to itself"),
    }
    assert_eq!(constant_evaluate(sum, &arena, &schema, 0), Some(None));
    assert_eq!(constant_evaluate(len, &arena, &schema, 0), Some(None));
    assert_eq!(constant_evaluate(col, &arena, &schema, 0), None);
    assert_eq!(constant_evaluate(mixed, &arena, &schema, 0), None);

    assert_eq!(into_column(col, &arena), Some(&"a".to_string()));
    assert_eq!(into_column(sum, &arena), None);
}

#[test]
fn traversal_copes_with_shared_nodes_cycles_and_bad_handles() {
    let mut arena: Arena<AExpr> = Arena::new();
    let shared = arena.add(lit(1));
    let mut top = shared;
    for _ in 0..40 {
        top = arena.add(AExpr::BinaryExpr { left: top, op: Operator::Plus, right: top });
    }
    assert!(!has_column_leaf(top, &arena));
    let col = arena.add(AExpr::Column("x".to_string()));
    arena.replace(shared, AExpr::Cast { expr: col, dtype: DataType::Int32, strict: false });
    assert!(has_column_leaf(top, &arena));

    let mut looped: Arena<AExpr> = Arena::new();
    let a = looped.add(AExpr::Len);
    let b = looped.add(AExpr::Sort { expr: a, descending: false });
    looped.replace(a, AExpr::Sort { expr: b, descending: true });
    assert!(!has_column_leaf(b, &looped));
    let dangling = looped.add(AExpr::Filter { input: Node(77), by: a });
    assert!(!has_column_leaf(dangling, &looped));
    assert!(!has_column_leaf(Node(1000), &looped));
    let f = looped.add(AExpr::Function {
        input: vec![
            ExprIR { node: a, output_name: None },
            ExprIR { node: Node(4), output_name: Some("y".to_string()) },
        ],
        function: IRFunctionExpr::Coalesce,
    });
    assert!(!has_column_leaf(f, &looped));
    let c = looped.add(AExpr::Column("y".to_string()));
    assert_eq!(c, Node(4));
    assert!(has_column_leaf(f, &looped));
    let t = looped.add(AExpr::Ternary { predicate: a, truthy: b, falsy: f });
    assert!(has_column_leaf(t, &looped));
}

#[test]
fn namespaces_belong_to_types() {
    let s = IRFunctionExpr::StringExpr(StringFunction::Lowercase);
    assert_eq!(check_namespace(&s, &DataType::String), Ok(()));
    assert_eq!(
        check_namespace(&s, &DataType::Int64),
        Err(ApolloError::InvalidOperation("expected String type, got: i64".to_string()))
    );
    let l = IRFunctionExpr::ListExpr(ListFunction::Get);
    assert_eq!(check_namespace(&l, &DataType::List(Box::new(DataType::Int8))), Ok(()));
    assert_eq!(
        check_namespace(&l, &DataType::Datetime(TimeUnit::Milliseconds)),
        Err(ApolloError::InvalidOperation(
            "expected List type, got: datetime[ms]".to_string()
        ))
    );
    assert_eq!(check_namespace(&IRFunctionExpr::Floor, &DataType::String), Ok(()));
}

fn coercion_setup() -> (Arena<AExpr>, Schema) {
    let mut schema = Schema::new();
    schema.with_column("a", DataType::Int32);
    schema.with_column("b", DataType::Int64);
    schema.with_column("s", DataType::String);
    schema.with_column("u", DataType::Unknown(UnknownKind::Any));
    let mut arena = Arena::new();
    arena.add(AExpr::Column("a".to_string()));
    arena.add(AExpr::Column("b".to_string()));
    arena.add(AExpr::Column("s".to_string()));
    arena.add(AExpr::Column("u".to_string()));
    arena.add(AExpr::Column("missing".to_string()));
    arena.add(lit(5));
    (arena, schema)
}

fn inputs(nodes: &[usize]) -> Vec<ExprIR> {
    nodes.iter().map(|n| ExprIR { node: Node(*n), output_name: None }).collect()
}

#[test]
fn function_dtypes() {
    let (arena, schema) = coercion_setup();
    let f = IRFunctionExpr::Coalesce;
    assert_eq!(
        get_function_dtypes(&inputs(&[0, 1]), &arena, &schema, &f),
        Ok(Some(vec![DataType::Int32, DataType::Int64]))
    );
    assert_eq!(get_function_dtypes(&inputs(&[1, 5]), &arena, &schema, &f), Ok(None));
    assert_eq!(get_function_dtypes(&inputs(&[]), &arena, &schema, &f), Ok(None));
    assert_eq!(get_function_dtypes(&inputs(&[0, 4]), &arena, &schema, &f), Ok(None));
    assert_eq!(get_function_dtypes(&inputs(&[0, 3, 1]), &arena, &schema, &f), Ok(None));
    let s = IRFunctionExpr::StringExpr(StringFunction::LenBytes);
    assert_eq!(
        get_function_dtypes(&inputs(&[0, 2]), &arena, &schema, &s),
        Err(ApolloError::InvalidOperation("expected String type, got: i32".to_string()))
    );
    assert_eq!(
        get_function_dtypes(&inputs(&[2, 0]), &arena, &schema, &s),
        Ok(Some(vec![DataType::String, DataType::Int32]))
    );
    assert_eq!(get_function_dtypes(&inputs(&[4, 0]), &arena, &schema, &s), Ok(None));
}

fn nodes(lengths: &[i64]) -> VecDeque<FieldNode> {
    lengths.iter().map(|l| FieldNode { length: *l, null_count: 0 }).collect()
}

fn buffers(n: usize) -> VecDeque<IpcBuffer> {
    (0..n).map(|i| IpcBuffer { offset: 8 * i as i64, length: 8 }).collect()
}

#[test]
fn skipping_and_reading_null_arrays() {
    let mut q = nodes(&[3, 5]);
    assert_eq!(skip_null(&mut q), Ok(()));
    assert_eq!(q.len(), 1);
    let a = read_null(&mut q, DataType::Null, Some(2)).unwrap();
    assert_eq!((a.length, a.dtype), (2, DataType::Null));
    assert_eq!(
        skip_null(&mut q),
        Err(ApolloError::ComputeError(
            "out-of-spec: IPC: unable to fetch the field for null. The file or stream is corrupted."
                .to_string()
        ))
    );
    assert_eq!(
        read_null(&mut q, DataType::Null, None),
        Err(ApolloError::ComputeError(
            "IPC: unable to fetch the field for null\n\nThe file or stream is corrupted."
                .to_string()
        ))
    );
    let mut q = nodes(&[-1, 4]);
    assert_eq!(
        read_null(&mut q, DataType::Null, None),
        Err(ApolloError::ComputeError("out-of-spec: NegativeFooterLength".to_string()))
    );
    assert_eq!(q.len(), 1);
    assert!(read_null(&mut q, DataType::Int8, None).is_err());
    assert_eq!(q.len(), 0);
    assert_eq!(try_get_array_length(FieldNode { length: 9, null_count: 0 }, None), Ok(9));
    assert_eq!(try_get_array_length(FieldNode { length: 9, null_count: 0 }, Some(20)), Ok(9));
    assert_eq!(try_get_array_length(FieldNode { length: 9, null_count: 0 }, Some(4)), Ok(4));
}

#[test]
fn skipping_a_view_array_takes_what_it_owns() {
    let mut f = nodes(&[10, 11]);
    let mut b = buffers(6);
    let mut v: VecDeque<usize> = VecDeque::from(vec![3, 0]);
    assert_eq!(skip_binview(&mut f, &mut b, &mut v), Ok(()));
    assert_eq!((f.len(), b.len(), v.len()), (1, 1, 1));
    assert_eq!(b[0], IpcBuffer { offset: 40, length: 8 });

    assert_eq!(
        skip_binview(&mut f, &mut b, &mut v),
        Err(ApolloError::ComputeError("out-of-spec: IPC: missing views buffer.".to_string()))
    );
    assert_eq!((f.len(), b.len(), v.len()), (0, 0, 1));
    assert!(skip_binview(&mut f, &mut b, &mut v).is_err());
    assert_eq!(v.len(), 1);

    let mut f = nodes(&[1]);
    let mut b = buffers(3);
    let mut v: VecDeque<usize> = VecDeque::from(vec![2]);
    assert_eq!(
        skip_binview(&mut f, &mut b, &mut v),
        Err(ApolloError::ComputeError("out-of-spec: IPC: missing variadic buffer".to_string()))
    );
    assert_eq!((f.len(), b.len(), v.len()), (0, 0, 0));

    let mut f = nodes(&[1]);
    let mut b = buffers(2);
    let mut v: VecDeque<usize> = VecDeque::new();
    assert_eq!(
        skip_binview(&mut f, &mut b, &mut v),
        Err(ApolloError::ComputeError(
            "IPC: unable to fetch the variadic buffers\n\nThe file or stream is corrupted."
                .to_string()
        ))
    );
    assert_eq!((f.len(), b.len()), (0, 0));
}

#[test]
fn laying_out_a_view_array() {
    let mut f: VecDeque<FieldNode> = VecDeque::from(vec![FieldNode { length: 10, null_count: 2 }]);
    let mut b = buffers(5);
    let mut v: VecDeque<usize> = VecDeque::from(vec![2]);
    let layout = read_binview(&mut f, &mut v, &DataType::String, &mut b, Some(4)).unwrap();
    assert_eq!(layout.length, 4);
    assert!(layout.has_nulls);
    assert_eq!(layout.validity, IpcBuffer { offset: 0, length: 8 });
    assert_eq!(layout.views, IpcBuffer { offset: 8, length: 8 });
    assert_eq!(
        layout.variadic_buffers,
        vec![IpcBuffer { offset: 16, length: 8 }, IpcBuffer { offset: 24, length: 8 }]
    );
    assert_eq!((f.len(), b.len(), v.len()), (0, 1, 0));
    assert_eq!(
        read_binview(&mut f, &mut v, &DataType::String, &mut b, None),
        Err(ApolloError::ComputeError(
            "IPC: unable to fetch the field for str\n\nThe file or stream is corrupted."
                .to_string()
        ))
    );
    let mut f = nodes(&[1]);
    let mut b = buffers(1);
    assert_eq!(
        read_binview(&mut f, &mut v, &DataType::Binary, &mut b, None),
        Err(ApolloError::ComputeError(
            "out-of-spec: IPC: unable to fetch the buffer. The file or stream is corrupted."
                .to_string()
        ))
    );
    assert_eq!(b.len(), 0);
}

#[test]
fn schemes_of_paths() {
    assert_eq!(scheme_of("s3://bucket/key"), Some(CloudScheme::S3));
    assert_eq!(scheme_of("s3a://bucket/key"), Some(CloudScheme::S3a));
    assert_eq!(scheme_of("abfss://c@a/x"), Some(CloudScheme::Abfss));
    assert_eq!(scheme_of("https://host/x.csv"), Some(CloudScheme::Https));
    assert_eq!(scheme_of("file:///tmp/x"), Some(CloudScheme::File));
    assert_eq!(scheme_of("/tmp/x"), None);
    assert_eq!(scheme_of("s3:/x"), None);
    assert_eq!(scheme_of(""), None);
    assert_eq!(scheme_of("S3://x"), None);
    let p = PlRefPath::new("gs://b/k");
    assert!(p.has_scheme());
    assert_eq!(p.as_str(), "gs://b/k");
    assert!(p.is("gs://b/k"));
    assert!(!PlRefPath::new("data.csv").has_scheme());
}

fn scan(paths: &[&str], scan_type: FileScanDsl) -> DslPlan {
    DslPlan::Scan {
        sources: ScanSources::Paths(paths.iter().map(|p| PlRefPath::new(p)).collect()),
        scan_type: Box::new(scan_type),
        unified_scan_args: Box::new(UnifiedScanArgs::default()),
    }
}

fn file_sink(input: DslPlan) -> DslPlan {
    DslPlan::Sink {
        input: Box::new(input),
        payload: SinkType::File { target: PlRefPath::new("s3://out/x.parquet") },
    }
}

fn ineligible(reason: &str) -> ApolloError {
    ApolloError::InvalidOperation(format!(
        "logical plan ineligible for execution on Apollo Cloud: {reason}"
    ))
}

#[test]
fn cloud_eligibility() {
    let remote = || scan(&["s3://b/a.parquet", "_APOLLO_<>"], FileScanDsl::NDJson);
    let local = || scan(&["s3://b/a.parquet", "data/a.parquet"], FileScanDsl::NDJson);
    assert_eq!(assert_cloud_eligible(&file_sink(remote()), false, false), Ok(()));
    assert_eq!(
        assert_cloud_eligible(&remote(), false, false),
        Err(ineligible("does not contain a sink"))
    );
    assert_eq!(assert_cloud_eligible(&remote(), false, true), Ok(()));
    assert_eq!(
        assert_cloud_eligible(&file_sink(local()), false, false),
        Err(ineligible("contains scan of local file system"))
    );
    assert_eq!(assert_cloud_eligible(&file_sink(local()), true, false), Ok(()));
    assert_eq!(
        assert_cloud_eligible(&file_sink(scan(&["s3://b/x"], FileScanDsl::Anonymous)), false, false),
        Err(ineligible("contains anonymous scan"))
    );
    let opened = DslPlan::Scan {
        sources: ScanSources::Files(vec![3]),
        scan_type: Box::new(FileScanDsl::NDJson),
        unified_scan_args: Box::new(UnifiedScanArgs::default()),
    };
    let in_memory = DslPlan::Scan {
        sources: ScanSources::Buffers(vec![vec![1, 2]]),
        scan_type: Box::new(FileScanDsl::NDJson),
        unified_scan_args: Box::new(UnifiedScanArgs::default()),
    };
    let union = DslPlan::Union {
        inputs: vec![
            remote(),
            DslPlan::Filter { input: Box::new(in_memory), predicate: Node(0) },
            opened,
        ],
    };
    assert_eq!(
        assert_cloud_eligible(&file_sink(union), false, false),
        Err(ineligible("contains scan of in-memory buffer"))
    );
    let memory_sink = DslPlan::Sink { input: Box::new(local()), payload: SinkType::Memory };
    assert_eq!(
        assert_cloud_eligible(&memory_sink, false, false),
        Err(ineligible("contains memory sink"))
    );
    let many = DslPlan::SinkMultiple {
        inputs: vec![
            file_sink(DslPlan::PythonScan),
            DslPlan::Sink { input: Box::new(remote()), payload: SinkType::Callback(1) },
        ],
    };
    assert_eq!(
        assert_cloud_eligible(&many, false, false),
        Err(ineligible("contains callback sink"))
    );
    assert_eq!(ineligible_error("x"), Err(ineligible("x")));
}

#[test]
fn preparing_a_cloud_plan() {
    let plan = file_sink(scan(&["s3://b/a"], FileScanDsl::NDJson));
    assert_eq!(prepare_cloud_plan(&plan, false, false, Ok(vec![1, 2, 3])), Ok(vec![1, 2, 3]));
    let failed = ApolloError::ComputeError("cannot serialize".to_string());
    assert_eq!(
        prepare_cloud_plan(&plan, false, false, Err(failed)),
        Err(ApolloError::ComputeError("cannot serialize".to_string()))
    );
    let bad = scan(&["s3://b/a"], FileScanDsl::NDJson);
    assert_eq!(
        prepare_cloud_plan(&bad, false, false, Ok(vec![1])),
        Err(ineligible("does not contain a sink"))
    );
    assert_eq!(prepare_cloud_plan(&bad, false, true, Ok(vec![1])), Ok(vec![1]));
}

fn table(format: Option<DataSourceFormat>, location: Option<&str>) -> TableInfo {
    TableInfo {
        name: "t".to_string(),
        data_source_format: format,
        storage_location: location.map(|l| l.to_string()),
        columns: Some(vec![
            ColumnInfo { name: "a".to_string(), dtype: DataType::Int64, partition_index: None },
            ColumnInfo { name: "year".to_string(), dtype: DataType::Int32, partition_index: Some(0) },
            ColumnInfo { name: "b".to_string(), dtype: DataType::String, partition_index: None },
        ]),
    }
}

fn schema_of(fields: &[(&str, DataType)]) -> Schema {
    Schema::try_from_fields(fields.iter().map(|(n, d)| Field::new(n, d.clone())).collect()).unwrap()
}

#[test]
fn scanning_a_catalog_table() {
    let compute = |m: &str| ApolloError::ComputeError(m.to_string());
    assert_eq!(
        LazyFrame::scan_catalog_table(&table(None, Some("s3://b/t")), None),
        Err(compute("scan_catalog_table requires Some(_) for data_source_format"))
    );
    assert_eq!(
        LazyFrame::scan_catalog_table(&table(Some(DataSourceFormat::Parquet), None), None),
        Err(compute("scan_catalog_table requires Some(_) for storage_location"))
    );
    assert_eq!(
        LazyFrame::scan_catalog_table(&table(Some(DataSourceFormat::Avro), Some("s3://b/t")), None),
        Err(compute("not yet supported data_source_format: Avro"))
    );
    let data = schema_of(&[("a", DataType::Int64), ("b", DataType::String)]);
    let hive = schema_of(&[("year", DataType::Int32)]);
    let cloud = Some(CloudOptions { max_retries: 4 });
    let lf = LazyFrame::scan_catalog_table(
        &table(Some(DataSourceFormat::Parquet), Some("s3://b/t")),
        cloud,
    )
    .unwrap();
    match lf.logical_plan {
        DslPlan::Scan { sources, scan_type, unified_scan_args } => {
            assert_eq!(sources, ScanSources::Paths(vec![PlRefPath::new("s3://b/t")]));
            assert_eq!(
                *scan_type,
                FileScanDsl::Parquet { schema: Some(data), hive_schema: Some(hive) }
            );
            assert_eq!(unified_scan_args.cloud_options, cloud);
            assert_eq!(unified_scan_args.missing_columns, MissingColumnsPolicy::Raise);
            assert_eq!(unified_scan_args.extra_columns, ExtraColumnsPolicy::Raise);
        },
        _ => panic!("expected a scan"),
    }
    let lf =
        LazyFrame::scan_catalog_table(&table(Some(DataSourceFormat::Csv), Some("x.csv")), cloud)
            .unwrap();
    match lf.logical_plan {
        DslPlan::Scan { scan_type, unified_scan_args, .. } => {
            assert!(matches!(*scan_type, FileScanDsl::Csv { schema: Some(_), .. }));
            assert_eq!(unified_scan_args.cloud_options, None);
        },
        _ => panic!("expected a scan"),
    }
    let mut twice = table(Some(DataSourceFormat::Parquet), Some("s3://b/t"));
    twice.columns.as_mut().unwrap().push(ColumnInfo {
        name: "a".to_string(),
        dtype: DataType::Int8,
        partition_index: None,
    });
    assert_eq!(
        LazyFrame::scan_catalog_table(&twice, None),
        Err(ApolloError::Duplicate(
            "column with name 'a' has more than one occurrence".to_string()
        ))
    );
    let mut none = table(Some(DataSourceFormat::Parquet), Some("s3://b/t"));
    none.columns = None;
    assert_eq!(table_info_to_schemas(&none), Ok((None, None)));
}

#[test]
fn scanning_ipc() {
    let options = IpcScanOptions { record_batch_statistics: true };
    let lf = LazyFrame::scan_ipc(PlRefPath::new("a.ipc"), options, UnifiedScanArgs::default());
    let same = LazyFrame::scan_ipc_sources(
        ScanSources::Paths(vec![PlRefPath::new("a.ipc")]),
        options,
        UnifiedScanArgs::default(),
    );
    assert_eq!(lf, same);
    match lf.unwrap().logical_plan {
        DslPlan::Scan { scan_type, .. } => {
            assert_eq!(*scan_type, FileScanDsl::Ipc { record_batch_statistics: true })
        },
        _ => panic!("expected a scan"),
    }
}
