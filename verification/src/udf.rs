//! The shapes of the functions that a caller can put into a plan.

use vstd::prelude::*;
use vstd::string::*;
use crate::error::ApolloResult;
use crate::frame::DataFrame;
use crate::schema::Schema;

verus! {

/// A function from frame to frame that a plan applies.
pub trait DataFrameUdf: Send + Sync {
    /// The frames that the function can be called with.
    spec fn accepts(&self, df: DataFrame) -> bool;

    /// What the function may return for a frame.
    spec fn may_return(&self, df: DataFrame, r: ApolloResult<DataFrame>) -> bool;

    fn call_udf(&self, df: DataFrame) -> (r: ApolloResult<DataFrame>)
        requires
            self.accepts(df),
        ensures
            self.may_return(df, r),
    ;

    /// How the function is shown in a plan.
    fn display_str(&self) -> String;
}

impl<F> DataFrameUdf for F where F: Fn(DataFrame) -> ApolloResult<DataFrame> + Send + Sync {
    open spec fn accepts(&self, df: DataFrame) -> bool {
        call_requires(*self, (df,))
    }

    open spec fn may_return(&self, df: DataFrame, r: ApolloResult<DataFrame>) -> bool {
        call_ensures(*self, (df,), r)
    }

    fn call_udf(&self, df: DataFrame) -> (r: ApolloResult<DataFrame>) {
        self(df)
    }

    fn display_str(&self) -> (s: String)
        ensures
            s@ == "dyn DataFrameUdf"@,
    {
        String::from_str("dyn DataFrameUdf")
    }
}

/// A function from frame to frame that may change itself when called.
pub trait DataFrameUdfMut: Send + Sync {
    fn call_udf(&mut self, df: DataFrame) -> ApolloResult<DataFrame>;
}

/// A function that says which schema a user-defined function returns for
/// an input schema.
pub trait UdfSchema: Send + Sync {
    /// The schemas that the function can be called with.
    spec fn accepts(&self, input_schema: &Schema) -> bool;

    /// What the function may return for a schema.
    spec fn may_return(&self, input_schema: &Schema, r: ApolloResult<Schema>) -> bool;

    fn get_schema(&self, input_schema: &Schema) -> (r: ApolloResult<Schema>)
        requires
            self.accepts(input_schema),
        ensures
            self.may_return(input_schema, r),
    ;
}

impl<F> UdfSchema for F where F: Fn(&Schema) -> ApolloResult<Schema> + Send + Sync {
    open spec fn accepts(&self, input_schema: &Schema) -> bool {
        call_requires(*self, (input_schema,))
    }

    open spec fn may_return(&self, input_schema: &Schema, r: ApolloResult<Schema>) -> bool {
        call_ensures(*self, (input_schema,), r)
    }

    fn get_schema(&self, input_schema: &Schema) -> (r: ApolloResult<Schema>) {
        self(input_schema)
    }
}

/// How a mutable frame function is shown in a plan.
pub fn display_udf_mut() -> (s: String)
    ensures
        s@ == "dyn DataFrameUdfMut"@,
{
    String::from_str("dyn DataFrameUdfMut")
}

/// How a schema function is shown in a plan.
pub fn display_udf_schema() -> (s: String)
    ensures
        s@ == "dyn UdfSchema"@,
{
    String::from_str("dyn UdfSchema")
}

} // verus!
