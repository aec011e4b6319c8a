//! The registry of the functions that SQL queries can call by name.

use vstd::prelude::*;
use vstd::string::*;
use crate::error::ApolloError;
use crate::error::ApolloResult;
use crate::error::ErrorKind;
use crate::error::ErrorView;

verus! {

/// How a function treats its inputs.
#[derive(Clone, Copy, Debug, PartialEq, Eq, Structural)]
pub struct FunctionOptions {
    /// Whether the function returns one value for a whole column.
    pub returns_scalar: bool,
    /// Whether the function may be given columns of different lengths.
    pub allow_group_aware: bool,
}

/// A function of the caller, known to queries under a name.
#[derive(Debug, PartialEq, Eq)]
pub struct UserDefinedFunction {
    pub name: String,
    pub options: FunctionOptions,
    /// The caller's own number for the code of the function.
    pub function: u64,
}

/// A registry that holds user defined functions.
pub trait FunctionRegistry: Send + Sync {
    /// Register a function.
    fn register(&mut self, name: &str, fun: UserDefinedFunction) -> ApolloResult<()>;

    /// The function registered under a name.
    fn get_udf(&self, name: &str) -> ApolloResult<Option<UserDefinedFunction>>;

    /// Check if a function is registered.
    fn contains(&self, name: &str) -> bool;
}

/// A default registry that does not support registering or calling functions.
#[derive(Clone, Copy, Debug, PartialEq, Eq, Structural)]
pub struct DefaultFunctionRegistry {}

impl FunctionRegistry for DefaultFunctionRegistry {
    fn register(&mut self, _name: &str, _fun: UserDefinedFunction) -> (r: ApolloResult<()>)
        ensures
            r matches Err(e) && e@ == ErrorView::Simple(
                ErrorKind::ComputeError,
                "'register' not implemented on DefaultFunctionRegistry'"@,
            ),
    {
        Err(
            ApolloError::ComputeError(
                String::from_str("'register' not implemented on DefaultFunctionRegistry'"),
            ),
        )
    }

    fn get_udf(&self, _name: &str) -> (r: ApolloResult<Option<UserDefinedFunction>>)
        ensures
            r matches Err(e) && e@ == ErrorView::Simple(
                ErrorKind::ComputeError,
                "'get_udf' not implemented on DefaultFunctionRegistry'"@,
            ),
    {
        Err(
            ApolloError::ComputeError(
                String::from_str("'get_udf' not implemented on DefaultFunctionRegistry'"),
            ),
        )
    }

    fn contains(&self, _name: &str) -> (r: bool)
        ensures
            !r,
    {
        false
    }
}

} // verus!
