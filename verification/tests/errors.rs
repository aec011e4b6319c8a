use apollo::error::ApolloError;
use apollo::error::ApolloWarning;
use apollo::error::IoErrorKind;
use apollo::python_error::apollo_exception;
use apollo::python_error::bindings_error_text;
use apollo::python_error::into_exception;
use apollo::python_error::warning_category;
use apollo::python_error::ExceptionKind;
use apollo::python_error::PyApolloErr;
use apollo::error::PythonError;
use apollo::python_error::PyException;
use apollo::python_error::Raised;
use apollo::python_error::WarningCategory;
use apollo::text::concat2;
use apollo::text::concat3;
use apollo::text::decimal_string;
use apollo::text::str_eq;

#[test]
fn decimal_numerals() {
    assert_eq!(decimal_string(0), "0");
    assert_eq!(decimal_string(7), "7");
    assert_eq!(decimal_string(10), "10");
    assert_eq!(decimal_string(4096), "4096");
    assert_eq!(decimal_string(1234567890), "1234567890");
    assert_eq!(decimal_string(usize::MAX), format!("{}", usize::MAX));
}

#[test]
fn text_helpers() {
    assert_eq!(concat2("ab", "cd"), "abcd");
    assert_eq!(concat3("a", "", "c"), "ac");
    assert!(str_eq("x", "x"));
    assert!(!str_eq("x", "y"));
}

#[test]
fn context_wraps_and_unwraps() {
    let base = ApolloError::ComputeError("boom".to_string());
    let wrapped = base.context("while reading".to_string()).context("in scan".to_string());
    match &wrapped {
        ApolloError::Context { error, msg } => {
            assert_eq!(msg, "in scan");
            assert!(matches!(**error, ApolloError::Context { .. }));
        },
        _ => panic!("expected a context"),
    }
    assert_eq!(wrapped.get_err(), ApolloError::ComputeError("boom".to_string()));
}

fn exception_of(e: ApolloError) -> PyException {
    match apollo_exception(e) {
        Raised::New(x) => x,
        Raised::Existing(_) => panic!("expected a new exception"),
    }
}

fn raised_by(e: PyApolloErr) -> PyException {
    match into_exception(e) {
        Raised::New(x) => x,
        Raised::Existing(_) => panic!("expected a new exception"),
    }
}

#[test]
fn every_error_kind_has_its_exception() {
    let m = || "m".to_string();
    assert_eq!(exception_of(ApolloError::AssertionError(m())).kind, ExceptionKind::AssertionError);
    assert_eq!(
        exception_of(ApolloError::ColumnNotFound(m())).kind,
        ExceptionKind::ColumnNotFoundError
    );
    assert_eq!(exception_of(ApolloError::ComputeError(m())).kind, ExceptionKind::ComputeError);
    assert_eq!(exception_of(ApolloError::Duplicate(m())).kind, ExceptionKind::DuplicateError);
    assert_eq!(
        exception_of(ApolloError::InvalidOperation(m())).kind,
        ExceptionKind::InvalidOperationError
    );
    assert_eq!(exception_of(ApolloError::NoData(m())).kind, ExceptionKind::NoDataError);
    assert_eq!(exception_of(ApolloError::OutOfBounds(m())).kind, ExceptionKind::OutOfBoundsError);
    assert_eq!(exception_of(ApolloError::SQLInterface(m())).kind, ExceptionKind::SQLInterfaceError);
    assert_eq!(exception_of(ApolloError::SQLSyntax(m())).kind, ExceptionKind::SQLSyntaxError);
    assert_eq!(
        exception_of(ApolloError::SchemaFieldNotFound(m())).kind,
        ExceptionKind::SchemaFieldNotFoundError
    );
    assert_eq!(exception_of(ApolloError::SchemaMismatch(m())).kind, ExceptionKind::SchemaError);
    assert_eq!(exception_of(ApolloError::ShapeMismatch(m())).kind, ExceptionKind::ShapeError);
    assert_eq!(
        exception_of(ApolloError::StringCacheMismatch(m())).kind,
        ExceptionKind::StringCacheMismatchError
    );
    assert_eq!(
        exception_of(ApolloError::StructFieldNotFound(m())).kind,
        ExceptionKind::StructFieldNotFoundError
    );
    assert_eq!(exception_of(ApolloError::ShapeMismatch(m())).message, "m");
}

#[test]
fn io_errors_map_by_kind_and_prefer_the_engine_message() {
    let io = |kind, msg: Option<&str>| ApolloError::IO {
        kind,
        error: "os error".to_string(),
        msg: msg.map(|m| m.to_string()),
    };
    let e = exception_of(io(IoErrorKind::NotFound, None));
    assert_eq!(e.kind, ExceptionKind::FileNotFoundError);
    assert_eq!(e.message, "os error");
    let e = exception_of(io(IoErrorKind::PermissionDenied, Some("opening a.csv")));
    assert_eq!(e.kind, ExceptionKind::PermissionError);
    assert_eq!(e.message, "opening a.csv");
    assert_eq!(
        exception_of(io(IoErrorKind::AlreadyExists, None)).kind,
        ExceptionKind::FileExistsError
    );
    assert_eq!(exception_of(io(IoErrorKind::Other, None)).kind, ExceptionKind::IOError);
}

#[test]
fn context_does_not_change_the_exception() {
    let e = ApolloError::OutOfBounds("index 9".to_string()).context("in gather".to_string());
    let x = exception_of(e);
    assert_eq!(x.kind, ExceptionKind::OutOfBoundsError);
    assert_eq!(x.message, "index 9");
}

#[test]
fn binding_failures_become_runtime_errors() {
    let x = raised_by(PyApolloErr::Other("bad \"call\"\n".to_string()));
    assert_eq!(x.kind, ExceptionKind::RuntimeError);
    assert_eq!(x.message, "BindingsError: \"bad \\\"call\\\"\\n\"");
    assert_eq!(bindings_error_text("\"x\""), "BindingsError: \"x\"");
}

#[test]
fn python_exceptions_pass_through() {
    let p = PythonError(17);
    assert_eq!(into_exception(PyApolloErr::Python(p)), Raised::Existing(p));
    let inside = ApolloError::Python { error: p }.context("in map".to_string());
    assert_eq!(into_exception(PyApolloErr::Apollo(inside)), Raised::Existing(p));
    assert_eq!(apollo_exception(ApolloError::Python { error: PythonError(3) }), Raised::Existing(PythonError(3)));
    let x = raised_by(PyApolloErr::Apollo(ApolloError::NoData("empty".to_string())));
    assert_eq!(x.kind, ExceptionKind::NoDataError);
    assert_eq!(x.message, "empty");
}

#[test]
fn warnings_have_categories() {
    assert_eq!(warning_category(ApolloWarning::Deprecation), WarningCategory::DeprecationWarning);
    assert_eq!(warning_category(ApolloWarning::UserWarning), WarningCategory::UserWarning);
    assert_eq!(
        warning_category(ApolloWarning::CategoricalRemappingWarning),
        WarningCategory::CategoricalRemappingWarning
    );
    assert_eq!(
        warning_category(ApolloWarning::MapWithoutReturnDtypeWarning),
        WarningCategory::MapWithoutReturnDtypeWarning
    );
}
