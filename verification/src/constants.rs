//! Names that the planner reserves for its own columns.

use vstd::prelude::*;
use vstd::string::*;

verus! {

pub const CSE_REPLACED: &'static str = "__APOLLO_CSER_";

pub const APOLLO_TMP_PREFIX: &'static str = "_APOLLO_";

pub const APOLLO_PLACEHOLDER: &'static str = "_APOLLO_<>";

pub const APOLLO_ELEMENT: &'static str = "__PL_ELEMENT";

pub const APOLLO_STRUCTFIELDS: &'static str = "__PL_STRUCTFIELDS";

pub const LEN: &'static str = "len";

/// The name of the column that a literal makes.
pub fn get_literal_name() -> (s: String)
    ensures
        s@ == "literal"@,
{
    String::from_str("literal")
}

/// The name of the column that a row count makes.
pub fn get_len_name() -> (s: String)
    ensures
        s@ == "len"@,
{
    String::from_str("len")
}

/// The name under which an element of a list is spoken of.
pub fn get_pl_element_name() -> (s: String)
    ensures
        s@ == "__PL_ELEMENT"@,
{
    String::from_str("__PL_ELEMENT")
}

/// The name under which the fields of a struct are spoken of.
pub fn get_pl_structfields_name() -> (s: String)
    ensures
        s@ == "__PL_STRUCTFIELDS"@,
{
    String::from_str("__PL_STRUCTFIELDS")
}

} // verus!
