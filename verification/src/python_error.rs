//! How an error of the engine is shown to a Python caller: the exception
//! class and the text it is raised with.

use vstd::prelude::*;
use vstd::string::*;
use crate::error::ApolloError;
use crate::error::ErrorKind;
use crate::error::ErrorView;
use crate::error::IoErrorKind;
use crate::error::ApolloWarning;
use crate::error::PythonError;
use crate::error::material;
use crate::text::concat2;

verus! {

/// The exception classes an error can be raised as.
#[derive(Clone, Copy, Debug, PartialEq, Eq, Structural)]
pub enum ExceptionKind {
    AssertionError,
    ColumnNotFoundError,
    ComputeError,
    DuplicateError,
    InvalidOperationError,
    FileNotFoundError,
    PermissionError,
    FileExistsError,
    IOError,
    NoDataError,
    OutOfBoundsError,
    SQLInterfaceError,
    SQLSyntaxError,
    SchemaFieldNotFoundError,
    SchemaError,
    ShapeError,
    StringCacheMismatchError,
    StructFieldNotFoundError,
    RuntimeError,
    ValueError,
}

/// The warning categories a warning can be raised as.
#[derive(Clone, Copy, Debug, PartialEq, Eq, Structural)]
pub enum WarningCategory {
    CategoricalRemappingWarning,
    MapWithoutReturnDtypeWarning,
    UserWarning,
    DeprecationWarning,
}

/// An exception that the binding layer makes and raises.
#[derive(Debug, PartialEq, Eq)]
pub struct PyException {
    pub kind: ExceptionKind,
    pub message: String,
}

/// What is raised for an error.
#[derive(Debug, PartialEq, Eq)]
pub enum Raised {
    /// A new exception, of this class and with this text.
    New(PyException),
    /// The exception that Python code raised, handed on as it is.
    Existing(PythonError),
}

/// The mathematical value of what is raised.
pub enum RaisedView {
    New(ExceptionKind, Seq<char>),
    Existing(PythonError),
}

impl View for Raised {
    type V = RaisedView;

    open spec fn view(&self) -> RaisedView {
        match self {
            Raised::New(x) => RaisedView::New(x.kind, x.message@),
            Raised::Existing(p) => RaisedView::Existing(*p),
        }
    }
}

/// An error on its way to a Python caller.
#[derive(Debug, PartialEq, Eq)]
pub enum PyApolloErr {
    /// An error of the engine.
    Apollo(ApolloError),
    /// An exception that Python code raised; it is passed through untouched.
    Python(PythonError),
    /// A failure of the binding layer itself.
    Other(String),
}

impl PyApolloErr {
    /// The text of the error: that of the engine's error or the message of
    /// the binding layer. `None` for an exception that Python code raised,
    /// whose text the binding layer has.
    pub fn message(&self) -> (r: Option<String>)
        ensures
            match self {
                PyApolloErr::Apollo(e) => match raised(e@) {
                    RaisedView::New(_, m) => r matches Some(s) && s@ == m,
                    RaisedView::Existing(_) => r is None,
                },
                PyApolloErr::Python(p) => r is None,
                PyApolloErr::Other(m) => r matches Some(s) && s@ == m@,
            },
    {
        match self {
            PyApolloErr::Apollo(e) => error_text(e),
            PyApolloErr::Python(p) => None,
            PyApolloErr::Other(m) => Some(m.clone()),
        }
    }
}

fn error_text(e: &ApolloError) -> (r: Option<String>)
    ensures
        match raised(e@) {
            RaisedView::New(_, m) => r matches Some(s) && s@ == m && !(material(e@) is Context),
            RaisedView::Existing(_) => r is None,
        },
    decreases e,
{
    match e {
        ApolloError::AssertionError(m) => Some(m.clone()),
        ApolloError::ColumnNotFound(m) => Some(m.clone()),
        ApolloError::ComputeError(m) => Some(m.clone()),
        ApolloError::Duplicate(m) => Some(m.clone()),
        ApolloError::InvalidOperation(m) => Some(m.clone()),
        ApolloError::IO { kind, error, msg } => match msg {
            Some(m) => Some(m.clone()),
            None => Some(error.clone()),
        },
        ApolloError::NoData(m) => Some(m.clone()),
        ApolloError::OutOfBounds(m) => Some(m.clone()),
        ApolloError::SQLInterface(m) => Some(m.clone()),
        ApolloError::SQLSyntax(m) => Some(m.clone()),
        ApolloError::SchemaFieldNotFound(m) => Some(m.clone()),
        ApolloError::SchemaMismatch(m) => Some(m.clone()),
        ApolloError::ShapeMismatch(m) => Some(m.clone()),
        ApolloError::StringCacheMismatch(m) => Some(m.clone()),
        ApolloError::StructFieldNotFound(m) => Some(m.clone()),
        ApolloError::Context { error, msg } => error_text(&**error),
        ApolloError::Python { error } => None,
    }
}

/// The exception class of a message-only error.
pub open spec fn simple_exception_kind(kind: ErrorKind) -> ExceptionKind {
    match kind {
        ErrorKind::AssertionError => ExceptionKind::AssertionError,
        ErrorKind::ColumnNotFound => ExceptionKind::ColumnNotFoundError,
        ErrorKind::ComputeError => ExceptionKind::ComputeError,
        ErrorKind::Duplicate => ExceptionKind::DuplicateError,
        ErrorKind::InvalidOperation => ExceptionKind::InvalidOperationError,
        ErrorKind::NoData => ExceptionKind::NoDataError,
        ErrorKind::OutOfBounds => ExceptionKind::OutOfBoundsError,
        ErrorKind::SQLInterface => ExceptionKind::SQLInterfaceError,
        ErrorKind::SQLSyntax => ExceptionKind::SQLSyntaxError,
        ErrorKind::SchemaFieldNotFound => ExceptionKind::SchemaFieldNotFoundError,
        ErrorKind::SchemaMismatch => ExceptionKind::SchemaError,
        ErrorKind::ShapeMismatch => ExceptionKind::ShapeError,
        ErrorKind::StringCacheMismatch => ExceptionKind::StringCacheMismatchError,
        ErrorKind::StructFieldNotFound => ExceptionKind::StructFieldNotFoundError,
    }
}

/// The exception class of an I/O error.
pub open spec fn io_exception_kind(kind: IoErrorKind) -> ExceptionKind {
    match kind {
        IoErrorKind::NotFound => ExceptionKind::FileNotFoundError,
        IoErrorKind::PermissionDenied => ExceptionKind::PermissionError,
        IoErrorKind::AlreadyExists => ExceptionKind::FileExistsError,
        IoErrorKind::Other => ExceptionKind::IOError,
    }
}

/// What is raised for an error of the engine.
///
/// A context changes nothing: the error underneath decides. An error with
/// a message is raised as a new exception of its class with that message;
/// an I/O error with the engine's own message where there is one, else with
/// the storage's. An exception that Python code raised is handed on.
pub open spec fn raised(e: ErrorView) -> RaisedView {
    match material(e) {
        ErrorView::Simple(kind, m) => RaisedView::New(simple_exception_kind(kind), m),
        ErrorView::IO { kind, error, msg } => RaisedView::New(
            io_exception_kind(kind),
            match msg {
                Some(m) => m,
                None => error,
            },
        ),
        ErrorView::Python(p) => RaisedView::Existing(p),
        ErrorView::Context { .. } => RaisedView::New(ExceptionKind::RuntimeError, Seq::empty()),
    }
}

pub uninterp spec fn debug_quoted(s: Seq<char>) -> Seq<char>;

/// `s` as the standard library's `Debug` formatting of `str` writes it:
/// between double quotes, with the characters that need it escaped.
#[verifier::external_body]
fn debug_string(s: &str) -> (r: String)
    ensures
        r@ == debug_quoted(s@),
{
    format!("{:?}", s)
}

/// The text a failure of the binding layer is raised with, given its
/// message as `Debug` formatting writes it.
pub fn bindings_error_text(quoted: &str) -> (r: String)
    ensures
        r@ == "BindingsError: "@ + quoted@,
{
    concat2("BindingsError: ", quoted)
}

fn fresh(kind: ExceptionKind, message: String) -> (r: Raised)
    ensures
        r@ == RaisedView::New(kind, message@),
{
    Raised::New(PyException { kind, message })
}

/// What is raised for an error of the engine.
pub fn apollo_exception(err: ApolloError) -> (r: Raised)
    ensures
        r@ == raised(err@),
{
    match err.get_err() {
        ApolloError::AssertionError(m) => fresh(ExceptionKind::AssertionError, m),
        ApolloError::ColumnNotFound(m) => fresh(ExceptionKind::ColumnNotFoundError, m),
        ApolloError::ComputeError(m) => fresh(ExceptionKind::ComputeError, m),
        ApolloError::Duplicate(m) => fresh(ExceptionKind::DuplicateError, m),
        ApolloError::InvalidOperation(m) => fresh(ExceptionKind::InvalidOperationError, m),
        ApolloError::IO { kind, error, msg } => {
            let message = match msg {
                Some(m) => m,
                None => error,
            };
            let kind = match kind {
                IoErrorKind::NotFound => ExceptionKind::FileNotFoundError,
                IoErrorKind::PermissionDenied => ExceptionKind::PermissionError,
                IoErrorKind::AlreadyExists => ExceptionKind::FileExistsError,
                IoErrorKind::Other => ExceptionKind::IOError,
            };
            fresh(kind, message)
        },
        ApolloError::NoData(m) => fresh(ExceptionKind::NoDataError, m),
        ApolloError::OutOfBounds(m) => fresh(ExceptionKind::OutOfBoundsError, m),
        ApolloError::SQLInterface(m) => fresh(ExceptionKind::SQLInterfaceError, m),
        ApolloError::SQLSyntax(m) => fresh(ExceptionKind::SQLSyntaxError, m),
        ApolloError::SchemaFieldNotFound(m) => fresh(ExceptionKind::SchemaFieldNotFoundError, m),
        ApolloError::SchemaMismatch(m) => fresh(ExceptionKind::SchemaError, m),
        ApolloError::ShapeMismatch(m) => fresh(ExceptionKind::ShapeError, m),
        ApolloError::StringCacheMismatch(m) => fresh(ExceptionKind::StringCacheMismatchError, m),
        ApolloError::StructFieldNotFound(m) => fresh(ExceptionKind::StructFieldNotFoundError, m),
        ApolloError::Context { error, msg } => fresh(ExceptionKind::RuntimeError, String::new()),
        ApolloError::Python { error } => Raised::Existing(error),
    }
}

/// What reaches the Python caller.
///
/// An error of the engine is raised under its own class with its own
/// message; an exception that came from Python is handed back as it is; a
/// failure of the binding layer becomes a `RuntimeError` whose text is
/// `BindingsError: ` and the message in `Debug` formatting.
pub fn into_exception(err: PyApolloErr) -> (r: Raised)
    ensures
        r@ == match err {
            PyApolloErr::Apollo(e) => raised(e@),
            PyApolloErr::Python(p) => RaisedView::Existing(p),
            PyApolloErr::Other(m) => RaisedView::New(
                ExceptionKind::RuntimeError,
                "BindingsError: "@ + debug_quoted(m@),
            ),
        },
{
    match err {
        PyApolloErr::Apollo(e) => apollo_exception(e),
        PyApolloErr::Python(p) => Raised::Existing(p),
        PyApolloErr::Other(m) => {
            let quoted = debug_string(m.as_str());
            fresh(ExceptionKind::RuntimeError, bindings_error_text(quoted.as_str()))
        },
    }
}

/// The warning category that a warning of the engine is raised under.
pub fn warning_category(warning: ApolloWarning) -> (r: WarningCategory)
    ensures
        r == match warning {
            ApolloWarning::CategoricalRemappingWarning => WarningCategory::CategoricalRemappingWarning,
            ApolloWarning::MapWithoutReturnDtypeWarning => WarningCategory::MapWithoutReturnDtypeWarning,
            ApolloWarning::UserWarning => WarningCategory::UserWarning,
            ApolloWarning::Deprecation => WarningCategory::DeprecationWarning,
        },
{
    match warning {
        ApolloWarning::CategoricalRemappingWarning => WarningCategory::CategoricalRemappingWarning,
        ApolloWarning::MapWithoutReturnDtypeWarning => WarningCategory::MapWithoutReturnDtypeWarning,
        ApolloWarning::UserWarning => WarningCategory::UserWarning,
        ApolloWarning::Deprecation => WarningCategory::DeprecationWarning,
    }
}

} // verus!
