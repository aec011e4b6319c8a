use apollo::dsl::DslPlan;
use apollo::dsl::FileScanDsl;
use apollo::dsl::LazyFrame;
use apollo::dsl::ScanSources;
use apollo::error::ApolloError;
use apollo::error::ApolloResult;
use apollo::function_registry::DefaultFunctionRegistry;
use apollo::function_registry::FunctionOptions;
use apollo::function_registry::FunctionRegistry;
use apollo::function_registry::UserDefinedFunction;
use apollo::path::PlRefPath;
use apollo::table_functions::table_function_named;
use apollo::table_functions::ApolloTableFunctions;
use apollo::table_functions::TableFunctionArg;
use sqlparser::ast::Expr;
use sqlparser::ast::FunctionArg;
use sqlparser::ast::FunctionArgExpr;
use sqlparser::ast::SetExpr;
use sqlparser::ast::Statement;
use sqlparser::ast::TableFactor;
use sqlparser::ast::Value;
use sqlparser::dialect::GenericDialect;
use sqlparser::parser::Parser;
use std::collections::HashMap;

/// What a table function looks at of an argument of the parser.
fn convert(arg: &FunctionArg) -> TableFunctionArg {
    match arg {
        FunctionArg::Unnamed(FunctionArgExpr::Expr(Expr::Value(v))) => match &v.value {
            Value::SingleQuotedString(s) => TableFunctionArg::SingleQuoted(s.clone()),
            _ => TableFunctionArg::Other { shown: arg.to_string() },
        },
        _ => TableFunctionArg::Other { shown: arg.to_string() },
    }
}

/// Runs the table function of a query of the form `SELECT * FROM f(args)`.
fn execute(sql: &str) -> ApolloResult<(PlRefPath, LazyFrame)> {
    let statements = Parser::parse_sql(&GenericDialect {}, sql).expect("the query parses");
    let query = match &statements[0] {
        Statement::Query(q) => q,
        _ => panic!("expected a query"),
    };
    let select = match &*query.body {
        SetExpr::Select(s) => s,
        _ => panic!("expected a select"),
    };
    match &select.from[0].relation {
        TableFactor::Table { name, args: Some(args), .. } => {
            let function = ApolloTableFunctions::from_str(&name.to_string())?;
            let args: Vec<TableFunctionArg> = args.args.iter().map(convert).collect();
            function.execute(&args)
        },
        _ => panic!("expected a table function"),
    }
}

#[test]
fn test_empty_table_csv_function() {
    let actual = execute("SELECT * FROM read_csv()");
    assert!(actual.is_err());
}

#[test]
fn test_empty_table_parquet_function() {
    let actual = execute("SELECT * FROM read_parquet()");
    assert!(actual.is_err());
}

#[test]
fn test_empty_table_ipc_function() {
    let actual = execute("SELECT * FROM read_ipc()");
    assert!(actual.is_err());
}

#[test]
fn test_empty_table_json_function() {
    let actual = execute("SELECT * FROM read_json()");
    assert!(actual.is_err());
}

#[test]
fn table_functions_scan_the_file_they_are_given() {
    let (path, lf) = execute("SELECT * FROM READ_CSV('data/a.csv')").unwrap();
    assert_eq!(path, PlRefPath::new("data/a.csv"));
    match lf.logical_plan {
        DslPlan::Scan { sources, scan_type, .. } => {
            assert_eq!(sources, ScanSources::Paths(vec![PlRefPath::new("data/a.csv")]));
            assert_eq!(
                *scan_type,
                FileScanDsl::Csv { schema: None, try_parse_dates: true, missing_is_null: true }
            );
        },
        _ => panic!("expected a scan"),
    }
    let (_, lf) = execute("SELECT * FROM read_parquet('s3://b/a.parquet')").unwrap();
    assert!(matches!(
        lf.logical_plan,
        DslPlan::Scan { scan_type, .. } if *scan_type == FileScanDsl::Parquet { schema: None, hive_schema: None }
    ));
    let (_, lf) = execute("SELECT * FROM read_json('a.ndjson')").unwrap();
    assert!(matches!(
        lf.logical_plan,
        DslPlan::Scan { scan_type, .. } if *scan_type == FileScanDsl::NDJson
    ));
    let (_, lf) = execute("SELECT * FROM read_ipc('a.ipc')").unwrap();
    assert!(matches!(
        lf.logical_plan,
        DslPlan::Scan { scan_type, .. } if *scan_type == FileScanDsl::Ipc { record_batch_statistics: false }
    ));
}

#[test]
fn table_function_errors() {
    assert_eq!(
        execute("SELECT * FROM read_csv()"),
        Err(ApolloError::SQLSyntax(
            "`read_csv` expects a single file path; found 0 arguments".to_string()
        ))
    );
    assert_eq!(
        execute("SELECT * FROM read_json('a', 'b')"),
        Err(ApolloError::SQLSyntax(
            "`read_ndjson` expects a single file path; found 2 arguments".to_string()
        ))
    );
    assert_eq!(
        execute("SELECT * FROM read_ipc(42)"),
        Err(ApolloError::SQLSyntax(
            "expected a valid file path as a single-quoted string; found: 42".to_string()
        ))
    );
    assert_eq!(
        execute("SELECT * FROM read_excel('a.xlsx')"),
        Err(ApolloError::SQLInterface("'read_excel' is not a supported table function".to_string()))
    );
}

#[test]
fn names_of_table_functions() {
    assert_eq!(ApolloTableFunctions::from_str("Read_Parquet"), Ok(ApolloTableFunctions::ReadParquet));
    assert_eq!(ApolloTableFunctions::from_str("READ_IPC"), Ok(ApolloTableFunctions::ReadIpc));
    assert_eq!(ApolloTableFunctions::from_str("read_json"), Ok(ApolloTableFunctions::ReadJson));
    assert!(ApolloTableFunctions::from_str("read_ndjson").is_err());
    assert_eq!(table_function_named("read_csv", "READ_CSV"), Ok(ApolloTableFunctions::ReadCsv));
    assert_eq!(
        table_function_named("READ_CSV", "READ_CSV"),
        Err(ApolloError::SQLInterface("'READ_CSV' is not a supported table function".to_string()))
    );
    assert_eq!(
        ApolloTableFunctions::keywords(),
        vec!["read_csv", "read_parquet", "read_ipc", "read_json"]
    );
    for k in ApolloTableFunctions::keywords() {
        assert!(ApolloTableFunctions::from_str(k).is_ok());
    }
}

#[test]
fn paths_come_from_single_quoted_strings_only() {
    let f = ApolloTableFunctions::ReadCsv;
    let quoted = FunctionArg::Unnamed(FunctionArgExpr::Expr(Expr::Value(
        Value::SingleQuotedString("x.csv".to_string()).into(),
    )));
    assert_eq!(convert(&quoted), TableFunctionArg::SingleQuoted("x.csv".to_string()));
    assert_eq!(f.get_file_path_from_arg(&convert(&quoted)), Ok(PlRefPath::new("x.csv")));
    let double = FunctionArg::Unnamed(FunctionArgExpr::Expr(Expr::Value(
        Value::DoubleQuotedString("x.csv".to_string()).into(),
    )));
    assert_eq!(
        f.get_file_path_from_arg(&convert(&double)),
        Err(ApolloError::SQLSyntax(
            "expected a valid file path as a single-quoted string; found: \"x.csv\"".to_string()
        ))
    );
    let star = convert(&FunctionArg::Unnamed(FunctionArgExpr::Wildcard));
    assert_eq!(
        f.get_file_path_from_arg(&star),
        Err(ApolloError::SQLSyntax(
            "expected a valid file path as a single-quoted string; found: *".to_string()
        ))
    );
    assert_eq!(
        f.get_file_path_from_arg(&TableFunctionArg::SingleQuoted(String::new())),
        Ok(PlRefPath::new(""))
    );
    let (path, _) = f.execute(&[TableFunctionArg::SingleQuoted("dir/a b.csv".to_string())]).unwrap();
    assert_eq!(path.as_str(), "dir/a b.csv");
}

struct MyFunctionRegistry {
    functions: HashMap<String, UserDefinedFunction>,
}

impl MyFunctionRegistry {
    fn new(funcs: Vec<UserDefinedFunction>) -> Self {
        let functions = funcs.into_iter().map(|f| (f.name.to_string(), f)).collect();
        MyFunctionRegistry { functions }
    }
}

fn copy(f: &UserDefinedFunction) -> UserDefinedFunction {
    UserDefinedFunction { name: f.name.clone(), options: f.options, function: f.function }
}

impl FunctionRegistry for MyFunctionRegistry {
    fn register(&mut self, name: &str, fun: UserDefinedFunction) -> ApolloResult<()> {
        self.functions.insert(name.to_string(), fun);
        Ok(())
    }

    fn get_udf(&self, name: &str) -> ApolloResult<Option<UserDefinedFunction>> {
        Ok(self.functions.get(name).map(copy))
    }

    fn contains(&self, name: &str) -> bool {
        self.functions.contains_key(name)
    }
}

fn udf(name: &str, function: u64) -> UserDefinedFunction {
    UserDefinedFunction {
        name: name.to_string(),
        options: FunctionOptions { returns_scalar: false, allow_group_aware: true },
        function,
    }
}

#[test]
fn a_registry_of_the_caller_registers_and_finds() {
    let my_custom_sum = udf("my_custom_sum", 1);
    let mut registry = MyFunctionRegistry::new(vec![my_custom_sum]);
    assert!(registry.contains("my_custom_sum"));
    assert!(registry.get_udf("my_custom_sum").unwrap().is_some());
    assert!(!registry.contains("my_div"));

    let my_custom_divide = udf("my_custom_divide", 2);
    assert!(registry.register("my_div", my_custom_divide).is_ok());
    assert!(registry.contains("my_div"));
    let found = registry.get_udf("my_div").unwrap().unwrap();
    assert_eq!(found.name, "my_custom_divide");
    assert_eq!(found.function, 2);
    assert_eq!(registry.get_udf("foo").unwrap(), None);
}

#[test]
fn the_default_registry_registers_nothing() {
    let mut registry = DefaultFunctionRegistry {};
    assert_eq!(
        registry.register("f", udf("f", 1)),
        Err(ApolloError::ComputeError(
            "'register' not implemented on DefaultFunctionRegistry'".to_string()
        ))
    );
    assert_eq!(
        registry.get_udf("f"),
        Err(ApolloError::ComputeError(
            "'get_udf' not implemented on DefaultFunctionRegistry'".to_string()
        ))
    );
    assert!(!registry.contains("f"));
}
