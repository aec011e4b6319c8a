//! Error and warning kinds of the engine.

use vstd::prelude::*;
use vstd::string::*;
use crate::text::concat2;
use crate::text::concat3;

verus! {

/// What went wrong on the storage side of an I/O error.
#[derive(Clone, Copy, Debug, PartialEq, Eq, Structural)]
pub enum IoErrorKind {
    NotFound,
    PermissionDenied,
    AlreadyExists,
    Other,
}

/// The kinds of error that carry nothing but a message.
#[derive(Clone, Copy, Debug, PartialEq, Eq, Structural)]
pub enum ErrorKind {
    AssertionError,
    ColumnNotFound,
    ComputeError,
    Duplicate,
    InvalidOperation,
    NoData,
    OutOfBounds,
    SQLInterface,
    SQLSyntax,
    SchemaFieldNotFound,
    SchemaMismatch,
    ShapeMismatch,
    StringCacheMismatch,
    StructFieldNotFound,
}

/// An exception that Python code raised, by the number under which the
/// binding layer keeps it. The engine hands it on and never looks inside.
#[derive(Clone, Copy, Debug, PartialEq, Eq, Structural)]
pub struct PythonError(pub u64);

/// An error raised by a plan node, an expression or a source or sink.
#[allow(inconsistent_fields)]
#[derive(Debug, PartialEq, Eq)]
pub enum ApolloError {
    AssertionError(String),
    ColumnNotFound(String),
    ComputeError(String),
    Duplicate(String),
    InvalidOperation(String),
    /// A failure of the underlying storage, with an optional message that
    /// says what the engine was doing.
    IO { kind: IoErrorKind, error: String, msg: Option<String> },
    NoData(String),
    OutOfBounds(String),
    SQLInterface(String),
    SQLSyntax(String),
    SchemaFieldNotFound(String),
    SchemaMismatch(String),
    ShapeMismatch(String),
    StringCacheMismatch(String),
    StructFieldNotFound(String),
    /// Another error, annotated with the place where it passed through.
    Context { error: Box<ApolloError>, msg: String },
    /// An exception that Python code raised while the engine called it.
    Python { error: PythonError },
}

pub type ApolloResult<T> = Result<T, ApolloError>;

/// The mathematical value of an [`ApolloError`].
#[allow(inconsistent_fields)]
pub enum ErrorView {
    Simple(ErrorKind, Seq<char>),
    IO { kind: IoErrorKind, error: Seq<char>, msg: Option<Seq<char>> },
    Context { error: Box<ErrorView>, msg: Seq<char> },
    Python(PythonError),
}

pub open spec fn option_text(o: Option<String>) -> Option<Seq<char>> {
    match o {
        Some(s) => Some(s@),
        None => None,
    }
}

impl ApolloError {
    /// The mathematical value of the error; `@` is short for it.
    pub open spec fn model(&self) -> ErrorView
        decreases self,
    {
        match self {
            ApolloError::AssertionError(m) => ErrorView::Simple(ErrorKind::AssertionError, m@),
            ApolloError::ColumnNotFound(m) => ErrorView::Simple(ErrorKind::ColumnNotFound, m@),
            ApolloError::ComputeError(m) => ErrorView::Simple(ErrorKind::ComputeError, m@),
            ApolloError::Duplicate(m) => ErrorView::Simple(ErrorKind::Duplicate, m@),
            ApolloError::InvalidOperation(m) => ErrorView::Simple(ErrorKind::InvalidOperation, m@),
            ApolloError::IO { kind, error, msg } => ErrorView::IO {
                kind: *kind,
                error: error@,
                msg: option_text(*msg),
            },
            ApolloError::NoData(m) => ErrorView::Simple(ErrorKind::NoData, m@),
            ApolloError::OutOfBounds(m) => ErrorView::Simple(ErrorKind::OutOfBounds, m@),
            ApolloError::SQLInterface(m) => ErrorView::Simple(ErrorKind::SQLInterface, m@),
            ApolloError::SQLSyntax(m) => ErrorView::Simple(ErrorKind::SQLSyntax, m@),
            ApolloError::SchemaFieldNotFound(m) => ErrorView::Simple(
                ErrorKind::SchemaFieldNotFound,
                m@,
            ),
            ApolloError::SchemaMismatch(m) => ErrorView::Simple(ErrorKind::SchemaMismatch, m@),
            ApolloError::ShapeMismatch(m) => ErrorView::Simple(ErrorKind::ShapeMismatch, m@),
            ApolloError::StringCacheMismatch(m) => ErrorView::Simple(
                ErrorKind::StringCacheMismatch,
                m@,
            ),
            ApolloError::StructFieldNotFound(m) => ErrorView::Simple(
                ErrorKind::StructFieldNotFound,
                m@,
            ),
            ApolloError::Context { error, msg } => ErrorView::Context {
                error: Box::new(error.model()),
                msg: msg@,
            },
            ApolloError::Python { error } => ErrorView::Python(*error),
        }
    }
}

impl View for ApolloError {
    type V = ErrorView;

    open spec fn view(&self) -> ErrorView {
        self.model()
    }
}

/// The error at the bottom of a stack of contexts.
pub open spec fn material(e: ErrorView) -> ErrorView
    decreases e,
{
    match e {
        ErrorView::Context { error, msg } => material(*error),
        _ => e,
    }
}

/// How many contexts wrap the material error.
pub open spec fn context_depth(e: ErrorView) -> nat
    decreases e,
{
    match e {
        ErrorView::Context { error, msg } => 1 + context_depth(*error),
        _ => 0,
    }
}

impl ApolloError {
    /// Wraps the error in a context that says where it passed through.
    pub fn context(self, msg: String) -> (r: ApolloError)
        ensures
            r@ == (ErrorView::Context { error: Box::new(self@), msg: msg@ }),
            material(r@) == material(self@),
            context_depth(r@) == context_depth(self@) + 1,
    {
        ApolloError::Context { error: Box::new(self), msg }
    }

    /// Takes every context off and gives back the error that they wrap.
    pub fn get_err(self) -> (r: ApolloError)
        ensures
            r@ == material(self@),
            !(r@ is Context),
        decreases self,
    {
        match self {
            ApolloError::Context { error, msg } => (*error).get_err(),
            e => e,
        }
    }
}

/// Wrapping an error and unwrapping it gives the error that was wrapped,
/// whenever that error carried no context of its own.
pub proof fn lemma_context_unwraps(e: ErrorView, msg: Seq<char>)
    requires
        !(e is Context),
    ensures
        material(ErrorView::Context { error: Box::new(e), msg }) == e,
{
    reveal_with_fuel(material, 2);
}

/// The kinds of warning the engine can raise through the warning function.
#[derive(Clone, Copy, Debug, PartialEq, Eq, Structural)]
pub enum ApolloWarning {
    Deprecation,
    UserWarning,
    CategoricalRemappingWarning,
    MapWithoutReturnDtypeWarning,
}

} // verus!
