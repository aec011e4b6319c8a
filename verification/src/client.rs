//! Preparing a plan for execution by the cloud service: the check that it
//! reads and writes nothing that only this machine can reach.

use vstd::prelude::*;
use vstd::string::*;
use crate::dsl::DslPlan;
use crate::dsl::FileScanDsl;
use crate::dsl::ScanSources;
use crate::dsl::SinkType;
use crate::error::ApolloError;
use crate::error::ApolloResult;
use crate::error::ErrorKind;
use crate::error::ErrorView;
use crate::path::spec_scheme;
use crate::path::PlRefPath;
use crate::text::concat2;

verus! {

/// Why a plan cannot be executed by the cloud service.
#[derive(Clone, Copy, Debug, PartialEq, Eq, Structural)]
pub enum Ineligible {
    NoSink,
    LocalScan,
    OpenedFiles,
    MemoryBuffer,
    AnonymousScan,
    MemorySink,
    CallbackSink,
}

/// The words that say why.
pub open spec fn ineligible_reason(why: Ineligible) -> Seq<char> {
    match why {
        Ineligible::NoSink => "does not contain a sink"@,
        Ineligible::LocalScan => "contains scan of local file system"@,
        Ineligible::OpenedFiles => "contains scan of opened files"@,
        Ineligible::MemoryBuffer => "contains scan of in-memory buffer"@,
        Ineligible::AnonymousScan => "contains anonymous scan"@,
        Ineligible::MemorySink => "contains memory sink"@,
        Ineligible::CallbackSink => "contains callback sink"@,
    }
}

/// The message of the error for a plan that is not eligible.
pub open spec fn ineligible_message(reason: Seq<char>) -> Seq<char> {
    "logical plan ineligible for execution on Apollo Cloud: "@ + reason
}

/// Whether a path names a file of this machine: it has no scheme of a
/// remote store and is not the placeholder that the service fills in.
pub open spec fn is_local_path(p: PlRefPath) -> bool {
    spec_scheme(p.bytes()) is None && p@ != "_APOLLO_<>"@
}

/// What is wrong with one node, its inputs left aside.
pub open spec fn node_problem(plan: DslPlan, allow_local_scans: bool) -> Option<Ineligible> {
    match plan {
        DslPlan::Scan { sources, scan_type, unified_scan_args } => match sources {
            ScanSources::Paths(paths) => if !allow_local_scans && exists|i: int|
                0 <= i < paths@.len() && is_local_path(#[trigger] paths@[i]) {
                Some(Ineligible::LocalScan)
            } else if *scan_type is Anonymous {
                Some(Ineligible::AnonymousScan)
            } else {
                None
            },
            ScanSources::Files(_) => Some(Ineligible::OpenedFiles),
            ScanSources::Buffers(_) => Some(Ineligible::MemoryBuffer),
        },
        DslPlan::Sink { input, payload } => match payload {
            SinkType::Memory => Some(Ineligible::MemorySink),
            SinkType::Callback(_) => Some(Ineligible::CallbackSink),
            _ => None,
        },
        _ => None,
    }
}

/// The number of inputs of a node.
pub open spec fn input_count(plan: DslPlan) -> nat {
    match plan {
        DslPlan::Filter { input, predicate } => 1,
        DslPlan::Select { input, exprs } => 1,
        DslPlan::Sink { input, payload } => 1,
        DslPlan::Union { inputs } => inputs@.len(),
        DslPlan::SinkMultiple { inputs } => inputs@.len(),
        _ => 0,
    }
}

/// What is wrong with the root of a plan or, that being in order, with the
/// first of its first `upto` inputs with which something is wrong.
pub open spec fn problem_upto(plan: DslPlan, allow_local_scans: bool, upto: nat) -> Option<
    Ineligible,
>
    decreases plan, upto,
{
    if upto == 0 {
        node_problem(plan, allow_local_scans)
    } else {
        match problem_upto(plan, allow_local_scans, (upto - 1) as nat) {
            Some(p) => Some(p),
            None => match plan {
                DslPlan::Filter { input, predicate } => if upto == 1 {
                    problem_upto(*input, allow_local_scans, input_count(*input))
                } else {
                    None
                },
                DslPlan::Select { input, exprs } => if upto == 1 {
                    problem_upto(*input, allow_local_scans, input_count(*input))
                } else {
                    None
                },
                DslPlan::Sink { input, payload } => if upto == 1 {
                    problem_upto(*input, allow_local_scans, input_count(*input))
                } else {
                    None
                },
                DslPlan::Union { inputs } => if upto <= inputs@.len() {
                    problem_upto(
                        inputs@[upto - 1],
                        allow_local_scans,
                        input_count(inputs@[upto - 1]),
                    )
                } else {
                    None
                },
                DslPlan::SinkMultiple { inputs } => if upto <= inputs@.len() {
                    problem_upto(
                        inputs@[upto - 1],
                        allow_local_scans,
                        input_count(inputs@[upto - 1]),
                    )
                } else {
                    None
                },
                _ => None,
            },
        }
    }
}

/// What is wrong with a plan: what is wrong with its root, else with the
/// first of its inputs with which something is wrong, from left to right.
pub open spec fn first_problem(plan: DslPlan, allow_local_scans: bool) -> Option<Ineligible> {
    problem_upto(plan, allow_local_scans, input_count(plan))
}

/// Why the plan cannot be executed by the cloud service, if it cannot.
pub open spec fn spec_cloud_eligible(plan: DslPlan, allow_local_scans: bool) -> Option<Ineligible> {
    if !(plan is Sink || plan is SinkMultiple) {
        Some(Ineligible::NoSink)
    } else {
        first_problem(plan, allow_local_scans)
    }
}

fn reason_text(why: Ineligible) -> (s: &'static str)
    ensures
        s@ == ineligible_reason(why),
{
    match why {
        Ineligible::NoSink => "does not contain a sink",
        Ineligible::LocalScan => "contains scan of local file system",
        Ineligible::OpenedFiles => "contains scan of opened files",
        Ineligible::MemoryBuffer => "contains scan of in-memory buffer",
        Ineligible::AnonymousScan => "contains anonymous scan",
        Ineligible::MemorySink => "contains memory sink",
        Ineligible::CallbackSink => "contains callback sink",
    }
}

/// The error for a plan that is not eligible, with the reason given.
pub fn ineligible_error(message: &str) -> (r: ApolloResult<()>)
    ensures
        r matches Err(e) && e@ == ErrorView::Simple(
            ErrorKind::InvalidOperation,
            ineligible_message(message@),
        ),
{
    Err(
        ApolloError::InvalidOperation(
            concat2("logical plan ineligible for execution on Apollo Cloud: ", message),
        ),
    )
}

fn has_local_path(paths: &Vec<PlRefPath>) -> (r: bool)
    ensures
        r == exists|i: int| 0 <= i < paths@.len() && is_local_path(#[trigger] paths@[i]),
{
    let mut i: usize = 0;
    while i < paths.len()
        invariant
            i <= paths.len(),
            forall|k: int| 0 <= k < i ==> !is_local_path(#[trigger] paths@[k]),
        decreases paths.len() - i,
    {
        if !paths[i].has_scheme() && !paths[i].is("_APOLLO_<>") {
            return true;
        }
        i += 1;
    }
    false
}

fn check_node(plan: &DslPlan, allow_local_scans: bool) -> (r: Option<Ineligible>)
    ensures
        r == node_problem(*plan, allow_local_scans),
{
    match plan {
        DslPlan::Scan { sources, scan_type, unified_scan_args } => {
            match sources {
                ScanSources::Paths(paths) => {
                    if !allow_local_scans && has_local_path(paths) {
                        return Some(Ineligible::LocalScan);
                    }
                },
                ScanSources::Files(_) => {
                    return Some(Ineligible::OpenedFiles);
                },
                ScanSources::Buffers(_) => {
                    return Some(Ineligible::MemoryBuffer);
                },
            }
            if let FileScanDsl::Anonymous = &**scan_type {
                return Some(Ineligible::AnonymousScan);
            }
            None
        },
        DslPlan::Sink { input, payload } => match payload {
            SinkType::Memory => Some(Ineligible::MemorySink),
            SinkType::Callback(_) => Some(Ineligible::CallbackSink),
            _ => None,
        },
        _ => None,
    }
}

proof fn lemma_problem_stable(plan: DslPlan, allow_local_scans: bool, a: nat, b: nat)
    requires
        a <= b,
        problem_upto(plan, allow_local_scans, a) is Some,
    ensures
        problem_upto(plan, allow_local_scans, b) == problem_upto(plan, allow_local_scans, a),
    decreases b - a,
{
    if a < b {
        lemma_problem_stable(plan, allow_local_scans, a, (b - 1) as nat);
    }
}

fn check_all(plan: &DslPlan, inputs: &Vec<DslPlan>, allow_local_scans: bool) -> (r: Option<
    Ineligible,
>)
    requires
        (*plan matches DslPlan::Union { inputs: x } && x == *inputs) || (
        *plan matches DslPlan::SinkMultiple { inputs: x } && x == *inputs),
        node_problem(*plan, allow_local_scans) is None,
    ensures
        r == first_problem(*plan, allow_local_scans),
    decreases plan, 0nat,
{
    let mut i: usize = 0;
    while i < inputs.len()
        invariant
            i <= inputs.len(),
            (*plan matches DslPlan::Union { inputs: x } && x == *inputs) || (
            *plan matches DslPlan::SinkMultiple { inputs: x } && x == *inputs),
            problem_upto(*plan, allow_local_scans, i as nat) is None,
        decreases inputs.len() - i,
    {
        proof {
            if *plan is Union {
                assert(plan->Union_inputs == *inputs);
            } else {
                assert(plan->SinkMultiple_inputs == *inputs);
            }
        }
        match check_plan(&inputs[i], allow_local_scans) {
            Some(p) => {
                proof {
                    assert(problem_upto(*plan, allow_local_scans, (i + 1) as nat) == Some(p));
                    lemma_problem_stable(
                        *plan,
                        allow_local_scans,
                        (i + 1) as nat,
                        inputs@.len(),
                    );
                }
                return Some(p);
            },
            None => {},
        }
        i += 1;
    }
    None
}

fn check_plan(plan: &DslPlan, allow_local_scans: bool) -> (r: Option<Ineligible>)
    ensures
        r == first_problem(*plan, allow_local_scans),
    decreases plan, 1nat,
{
    proof {
        reveal_with_fuel(problem_upto, 3);
    }
    match check_node(plan, allow_local_scans) {
        Some(p) => {
            proof {
                lemma_problem_stable(*plan, allow_local_scans, 0, input_count(*plan));
            }
            return Some(p);
        },
        None => {},
    }
    match plan {
        DslPlan::Filter { input, predicate } => check_plan(&**input, allow_local_scans),
        DslPlan::Select { input, exprs } => check_plan(&**input, allow_local_scans),
        DslPlan::Sink { input, payload } => check_plan(&**input, allow_local_scans),
        DslPlan::Union { inputs } => check_all(plan, inputs, allow_local_scans),
        DslPlan::SinkMultiple { inputs } => check_all(plan, inputs, allow_local_scans),
        _ => None,
    }
}

/// Checks that the plan can be executed by the cloud service.
///
/// It must end in a sink, and no node may scan a file of this machine
/// (unless local scans are allowed), an opened file, a buffer in memory or
/// an anonymous source, nor write to memory or to a callback. The first
/// node at fault, root first and inputs from left to right, gives the
/// reason. With `skip_client_check` every plan passes.
pub fn assert_cloud_eligible(dsl: &DslPlan, allow_local_scans: bool, skip_client_check: bool) -> (r:
    ApolloResult<()>)
    ensures
        match r {
            Ok(_) => skip_client_check || spec_cloud_eligible(*dsl, allow_local_scans) is None,
            Err(e) => !skip_client_check && (spec_cloud_eligible(
                *dsl,
                allow_local_scans,
            ) matches Some(why) && e@ == ErrorView::Simple(
                ErrorKind::InvalidOperation,
                ineligible_message(ineligible_reason(why)),
            )),
        },
{
    if skip_client_check {
        return Ok(());
    }
    if !matches!(dsl, DslPlan::Sink { .. } | DslPlan::SinkMultiple { .. }) {
        return ineligible_error("does not contain a sink");
    }
    match check_plan(dsl, allow_local_scans) {
        Some(why) => ineligible_error(reason_text(why)),
        None => Ok(()),
    }
}

/// Prepares a plan for execution by the cloud service: the plan is
/// checked, and where it passes, its serialized form is what is sent.
///
/// `serialized` is what serializing the plan gave. The result is the
/// error of the check where the plan does not pass, whatever serializing
/// gave; else it is `serialized`, bytes or error.
pub fn prepare_cloud_plan(
    dsl: &DslPlan,
    allow_local_scans: bool,
    skip_client_check: bool,
    serialized: ApolloResult<Vec<u8>>,
) -> (r: ApolloResult<Vec<u8>>)
    ensures
        if !skip_client_check && spec_cloud_eligible(*dsl, allow_local_scans) is Some {
            r matches Err(e) && e@ == ErrorView::Simple(
                ErrorKind::InvalidOperation,
                ineligible_message(
                    ineligible_reason(spec_cloud_eligible(*dsl, allow_local_scans).unwrap()),
                ),
            )
        } else {
            r == serialized
        },
{
    match assert_cloud_eligible(dsl, allow_local_scans, skip_client_check) {
        Ok(_) => serialized,
        Err(e) => Err(e),
    }
}

} // verus!
