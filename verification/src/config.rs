//! The switches that are read from the environment once, when the process
//! or a query starts, and hold from then on.

use vstd::prelude::*;
use vstd::string::*;
use crate::error::ApolloError;
use crate::error::ApolloResult;
use crate::error::ErrorKind;
use crate::error::ErrorView;
use crate::text::str_eq;

verus! {

/// What to do with an extension type that is not known.
#[derive(Clone, Copy, Debug, PartialEq, Eq, Structural)]
pub enum UnknownExtensionTypeBehavior {
    LoadAsStorage,
    LoadAsGeneric,
    WarnAndLoadAsStorage,
}

/// Whether a switch is on: its variable is set to `1`.
pub open spec fn spec_env_flag(value: Option<&str>) -> bool {
    value matches Some(v) && v@ == "1"@
}

/// Whether a switch is on: its variable is set to `1`.
pub fn env_flag(value: Option<&str>) -> (on: bool)
    ensures
        on == spec_env_flag(value),
{
    match value {
        Some(v) => str_eq(v, "1"),
        None => false,
    }
}

/// What the variable for unknown extension types asks for, and whether
/// its value is one that is not understood.
pub open spec fn spec_unknown_extension_behavior(value: Option<&str>) -> (
    UnknownExtensionTypeBehavior,
    bool,
) {
    match value {
        None => (UnknownExtensionTypeBehavior::WarnAndLoadAsStorage, false),
        Some(v) => if v@ == "load_as_storage"@ {
            (UnknownExtensionTypeBehavior::LoadAsStorage, false)
        } else if v@ == "load_as_extension"@ {
            (UnknownExtensionTypeBehavior::LoadAsGeneric, false)
        } else if v@ == ""@ {
            (UnknownExtensionTypeBehavior::WarnAndLoadAsStorage, false)
        } else {
            (UnknownExtensionTypeBehavior::WarnAndLoadAsStorage, true)
        },
    }
}

/// Reads the variable for unknown extension types: `load_as_storage` and
/// `load_as_extension` say what to do; unset or empty, the type is loaded
/// as its storage with a warning; any other value is not understood, which
/// is worth a warning of its own, and is treated as unset.
pub fn unknown_extension_behavior(value: Option<&str>) -> (r: (UnknownExtensionTypeBehavior, bool))
    ensures
        r == spec_unknown_extension_behavior(value),
{
    match value {
        None => (UnknownExtensionTypeBehavior::WarnAndLoadAsStorage, false),
        Some(v) => {
            if str_eq(v, "load_as_storage") {
                (UnknownExtensionTypeBehavior::LoadAsStorage, false)
            } else if str_eq(v, "load_as_extension") {
                (UnknownExtensionTypeBehavior::LoadAsGeneric, false)
            } else if str_eq(v, "") {
                (UnknownExtensionTypeBehavior::WarnAndLoadAsStorage, false)
            } else {
                (UnknownExtensionTypeBehavior::WarnAndLoadAsStorage, true)
            }
        },
    }
}

/// The warning for a value of the variable that is not understood.
pub const INVALID_BEHAVIOR_WARNING: &'static str =
    "Invalid value for 'APOLLO_UNKNOWN_EXTENSION_TYPE_BEHAVIOR' environment variable. Expected one of 'load_as_storage' or 'load_as_extension'.";

/// The message of the error for an interval type that may not be imported.
pub open spec fn interval_import_message(interval_type: Seq<char>) -> Seq<char> {
    "could not import from `"@ + interval_type
        + "` type. Hint: This can be imported by setting APOLLO_IMPORT_INTERVAL_AS_STRUCT=1 in the environment. Note however that this is unstable functionality that may change at any time."@
}

/// Whether an interval type may be imported as a struct: only where the
/// switch for it is on.
pub fn check_allow_importing_interval_as_struct(interval_type: &str, allow: bool) -> (r: ApolloResult<()>)
    ensures
        match r {
            Ok(_) => allow,
            Err(e) => !allow && e@ == ErrorView::Simple(
                ErrorKind::ComputeError,
                interval_import_message(interval_type@),
            ),
        },
{
    if allow {
        return Ok(());
    }
    Err(
        ApolloError::ComputeError(
            crate::text::concat3(
                "could not import from `",
                interval_type,
                "` type. Hint: This can be imported by setting APOLLO_IMPORT_INTERVAL_AS_STRUCT=1 in the environment. Note however that this is unstable functionality that may change at any time.",
            ),
        ),
    )
}

/// What is to be set up when the process starts.
#[derive(Clone, Copy, Debug, PartialEq, Eq, Structural)]
pub struct StartupPlan {
    /// Whether the hook for keyboard interrupts is installed.
    pub catch_keyboard_interrupt: bool,
    /// What to do with unknown extension types.
    pub behavior: UnknownExtensionTypeBehavior,
    /// Whether the value of the variable was not understood, so that a
    /// warning is due.
    pub warn_invalid_behavior: bool,
}

/// Guards the setup of the process: it is done once.
#[derive(Debug)]
pub struct StartupRegistry {
    initialized: bool,
}

impl StartupRegistry {
    /// Whether the setup was done.
    pub closed spec fn spec_initialized(&self) -> bool {
        self.initialized
    }

    /// The guard of a process that is not set up yet.
    pub fn new() -> (r: StartupRegistry)
        ensures
            !r.spec_initialized(),
    {
        StartupRegistry { initialized: false }
    }

    /// Whether the setup was done.
    #[verifier::when_used_as_spec(spec_initialized)]
    pub fn initialized(&self) -> (b: bool)
        ensures
            b == self.spec_initialized(),
    {
        self.initialized
    }

    /// Says what is to be set up, the first time it is called; every
    /// later call says that nothing is, whatever it is given.
    ///
    /// `unknown_extension_env` is the value of the variable for unknown
    /// extension types.
    pub fn register_startup_deps(
        &mut self,
        catch_keyboard_interrupt: bool,
        unknown_extension_env: Option<&str>,
    ) -> (r: Option<StartupPlan>)
        ensures
            final(self).spec_initialized(),
            old(self).spec_initialized() ==> r is None,
            !old(self).spec_initialized() ==> r == Some(
                StartupPlan {
                    catch_keyboard_interrupt,
                    behavior: spec_unknown_extension_behavior(unknown_extension_env).0,
                    warn_invalid_behavior: spec_unknown_extension_behavior(unknown_extension_env).1,
                },
            ),
    {
        if self.initialized {
            return None;
        }
        self.initialized = true;
        let (behavior, warn_invalid_behavior) = unknown_extension_behavior(unknown_extension_env);
        Some(StartupPlan { catch_keyboard_interrupt, behavior, warn_invalid_behavior })
    }
}

} // verus!
