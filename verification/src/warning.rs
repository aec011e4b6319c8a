//! The function through which the engine raises its warnings. The holder
//! is made once, when the process starts, and handed to whatever raises
//! warnings.

use vstd::prelude::*;
use crate::error::ApolloWarning;

verus! {

/// Holds the warning function that is in force.
pub struct WarningRegistry<F> {
    function: F,
}

impl<F> View for WarningRegistry<F> {
    type V = F;

    closed spec fn view(&self) -> F {
        self.function
    }
}

impl<F> WarningRegistry<F> {
    /// A registry in which `function` is in force.
    pub fn new(function: F) -> (r: WarningRegistry<F>)
        ensures
            r@ == function,
    {
        WarningRegistry { function }
    }
}

/// Puts `function` in force: it is what is called for every warning from
/// now on.
pub fn set_warning_function<F>(registry: &mut WarningRegistry<F>, function: F)
    ensures
        final(registry)@ == function,
{
    registry.function = function;
}

/// The warning function that is in force.
pub fn get_warning_function<F: Copy>(registry: &WarningRegistry<F>) -> (function: F)
    ensures
        function == registry@,
{
    registry.function
}

/// How the default warning function writes a warning: the kind of the
/// warning, a colon and the text.
pub open spec fn warning_line(text: Seq<char>, warning: ApolloWarning) -> Seq<char> {
    warning_name(warning) + ": "@ + text
}

/// The name of a kind of warning.
pub open spec fn warning_name(warning: ApolloWarning) -> Seq<char> {
    match warning {
        ApolloWarning::Deprecation => "Deprecation"@,
        ApolloWarning::UserWarning => "UserWarning"@,
        ApolloWarning::CategoricalRemappingWarning => "CategoricalRemappingWarning"@,
        ApolloWarning::MapWithoutReturnDtypeWarning => "MapWithoutReturnDtypeWarning"@,
    }
}

/// The line that the default warning function writes to the error stream.
pub fn format_warning(text: &str, warning: ApolloWarning) -> (line: String)
    ensures
        line@ == warning_line(text@, warning),
{
    let name = match warning {
        ApolloWarning::Deprecation => "Deprecation",
        ApolloWarning::UserWarning => "UserWarning",
        ApolloWarning::CategoricalRemappingWarning => "CategoricalRemappingWarning",
        ApolloWarning::MapWithoutReturnDtypeWarning => "MapWithoutReturnDtypeWarning",
    };
    crate::text::concat3(name, ": ", text)
}

} // verus!
