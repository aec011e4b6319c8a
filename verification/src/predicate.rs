//! Handing a predicate to a Python scan as bytes.

use vstd::prelude::*;
use crate::error::ApolloResult;

verus! {

/// The predicate as the scan takes it, given what encoding it gave: the
/// bytes, or the error of the encoding. A scan is never handed `None`.
pub fn serialize(encoded: ApolloResult<Vec<u8>>) -> (r: ApolloResult<Option<Vec<u8>>>)
    ensures
        match encoded {
            Ok(buf) => r == Ok::<Option<Vec<u8>>, crate::error::ApolloError>(Some(buf)),
            Err(e) => r == Err::<Option<Vec<u8>>, crate::error::ApolloError>(e),
        },
{
    match encoded {
        Ok(buf) => Ok(Some(buf)),
        Err(e) => Err(e),
    }
}

} // verus!
