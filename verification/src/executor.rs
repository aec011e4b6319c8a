//! The in-memory executor: a physical plan is evaluated node by node, each
//! node first evaluating its inputs and then applying its own transform.

use vstd::prelude::*;
use vstd::string::*;
use crate::error::ApolloError;
use crate::error::ApolloResult;
use crate::error::ErrorKind;
use crate::error::ErrorView;
use crate::frame::columns_view;
use crate::frame::names_view;
use crate::frame::spec_filter_by;
use crate::frame::spec_select_by;
use crate::frame::DataFrame;
use crate::frame::DataFrameView;
use crate::text::decimal;
use crate::text::push_decimal;

verus! {

/// What every node of one query execution shares.
#[derive(Debug)]
pub struct ExecutionState {
    verbose: bool,
    cancelled: bool,
    ext_contexts: Vec<DataFrame>,
}

/// The mathematical value of an execution state.
pub struct StateView {
    pub verbose: bool,
    pub cancelled: bool,
    pub ext_contexts: Seq<DataFrameView>,
}

impl View for ExecutionState {
    type V = StateView;

    closed spec fn view(&self) -> StateView {
        StateView {
            verbose: self.verbose,
            cancelled: self.cancelled,
            ext_contexts: columns_of_frames(self.ext_contexts@),
        }
    }
}

/// The views of a list of frames.
pub open spec fn columns_of_frames(frames: Seq<DataFrame>) -> Seq<DataFrameView> {
    Seq::new(frames.len(), |i: int| frames[i]@)
}

impl ExecutionState {
    /// The state of a fresh execution: quiet, not cancelled, without
    /// external contexts.
    pub fn new() -> (s: ExecutionState)
        ensures
            s@ == (StateView { verbose: false, cancelled: false, ext_contexts: Seq::empty() }),
    {
        let s = ExecutionState { verbose: false, cancelled: false, ext_contexts: Vec::new() };
        assert(s@.ext_contexts =~= Seq::empty());
        s
    }

    /// Whether the nodes trace what they do.
    pub fn verbose(&self) -> (b: bool)
        ensures
            b == self@.verbose,
    {
        self.verbose
    }

    /// Sets whether the nodes trace what they do.
    pub fn set_verbose(&mut self, verbose: bool)
        ensures
            final(self)@ == (StateView { verbose, ..old(self)@ }),
    {
        self.verbose = verbose;
    }

    /// Asks every node to stop at its next step.
    pub fn cancel(&mut self)
        ensures
            final(self)@ == (StateView { cancelled: true, ..old(self)@ }),
    {
        self.cancelled = true;
    }

    /// Whether the execution was cancelled.
    pub fn is_cancelled(&self) -> (b: bool)
        ensures
            b == self@.cancelled,
    {
        self.cancelled
    }

    /// The number of external contexts that are registered.
    pub fn ext_context_count(&self) -> (n: usize)
        ensures
            n == self@.ext_contexts.len(),
    {
        self.ext_contexts.len()
    }

    /// The external context at position `i`.
    pub fn ext_context(&self, i: usize) -> (r: Option<&DataFrame>)
        ensures
            match r {
                Some(f) => i < self@.ext_contexts.len() && f@ == self@.ext_contexts[i as int],
                None => i >= self@.ext_contexts.len(),
            },
    {
        if i < self.ext_contexts.len() {
            Some(&self.ext_contexts[i])
        } else {
            None
        }
    }
}

/// A node of a physical plan, with its inputs.
#[allow(inconsistent_fields)]
#[derive(Debug, PartialEq, Eq)]
pub enum PhysicalPlan {
    /// A frame that is in memory already.
    Scan { df: DataFrame },
    /// The rows of the input at which the column called `predicate` holds `true`.
    Filter { input: Box<PhysicalPlan>, predicate: String },
    /// The columns of the input called `columns`, in that order.
    Select { input: Box<PhysicalPlan>, columns: Vec<String> },
    /// The external context at position `index`.
    ContextScan { index: usize },
    /// A node that registers external contexts for what lies beneath it.
    ExternalContext(ExternalContext),
}

/// Evaluates its contexts, registers their results as the external
/// contexts of the execution, and then evaluates its input.
#[derive(Debug, PartialEq, Eq)]
pub struct ExternalContext {
    pub input: Box<PhysicalPlan>,
    pub contexts: Vec<PhysicalPlan>,
}

/// How the evaluation of a node ends: with a frame or an error, and with
/// the external contexts that are registered afterwards.
pub struct Outcome {
    pub result: Result<DataFrameView, ErrorView>,
    pub ext_contexts: Seq<DataFrameView>,
}

/// How the evaluation of a list of contexts ends.
pub struct ContextsOutcome {
    pub results: Result<Seq<DataFrameView>, ErrorView>,
    pub ext_contexts: Seq<DataFrameView>,
}

/// The error of a node that finds the execution cancelled.
pub open spec fn cancelled_error() -> ErrorView {
    ErrorView::Simple(ErrorKind::ComputeError, "query was cancelled"@)
}

/// The error of a node that reads an external context that is not registered.
pub open spec fn no_context_error(index: nat) -> ErrorView {
    ErrorView::Simple(
        ErrorKind::ComputeError,
        "external context "@ + decimal(index) + " is not registered"@,
    )
}

/// How the evaluation of a plan ends, given the external contexts that
/// are registered when it begins.
///
/// A node that finds the execution cancelled fails at once. A node whose
/// input fails, fails with the error of the input.
pub open spec fn spec_execute(plan: PhysicalPlan, cancelled: bool, ext: Seq<DataFrameView>) -> Outcome
    decreases plan, 0nat,
{
    if cancelled {
        Outcome { result: Err(cancelled_error()), ext_contexts: ext }
    } else {
        match plan {
            PhysicalPlan::Scan { df } => Outcome { result: Ok(df@), ext_contexts: ext },
            PhysicalPlan::Filter { input, predicate } => {
                let o = spec_execute(*input, cancelled, ext);
                match o.result {
                    Err(e) => o,
                    Ok(f) => Outcome {
                        result: spec_filter_by(f, predicate@),
                        ext_contexts: o.ext_contexts,
                    },
                }
            },
            PhysicalPlan::Select { input, columns } => {
                let o = spec_execute(*input, cancelled, ext);
                match o.result {
                    Err(e) => o,
                    Ok(f) => Outcome {
                        result: spec_select_by(f, names_view(columns@)),
                        ext_contexts: o.ext_contexts,
                    },
                }
            },
            PhysicalPlan::ContextScan { index } => Outcome {
                result: if index < ext.len() {
                    Ok(ext[index as int])
                } else {
                    Err(no_context_error(index as nat))
                },
                ext_contexts: ext,
            },
            PhysicalPlan::ExternalContext(ec) => spec_external(ec, cancelled, ext),
        }
    }
}

/// How the evaluation of an external-context node ends: its contexts are
/// evaluated from left to right, the first failure being the node's; their
/// results are then the external contexts under which the input is
/// evaluated.
pub open spec fn spec_external(ec: ExternalContext, cancelled: bool, ext: Seq<DataFrameView>) -> Outcome
    decreases ec, ec.contexts@.len() + 1,
{
    if cancelled {
        Outcome { result: Err(cancelled_error()), ext_contexts: ext }
    } else {
        let c = eval_contexts(ec, cancelled, ext, ec.contexts@.len());
        match c.results {
            Err(e) => Outcome { result: Err(e), ext_contexts: c.ext_contexts },
            Ok(frames) => spec_execute(*ec.input, cancelled, frames),
        }
    }
}

/// How the evaluation of the first `upto` contexts of a node ends.
pub open spec fn eval_contexts(
    ec: ExternalContext,
    cancelled: bool,
    ext: Seq<DataFrameView>,
    upto: nat,
) -> ContextsOutcome
    decreases ec, upto,
{
    if upto == 0 || upto > ec.contexts@.len() {
        ContextsOutcome { results: Ok(Seq::empty()), ext_contexts: ext }
    } else {
        let prev = eval_contexts(ec, cancelled, ext, (upto - 1) as nat);
        match prev.results {
            Err(e) => prev,
            Ok(frames) => {
                let o = spec_execute(ec.contexts@[upto - 1], cancelled, prev.ext_contexts);
                match o.result {
                    Err(e) => ContextsOutcome { results: Err(e), ext_contexts: o.ext_contexts },
                    Ok(f) => ContextsOutcome {
                        results: Ok(frames.push(f)),
                        ext_contexts: o.ext_contexts,
                    },
                }
            },
        }
    }
}

/// The view of a frame or of the error in its place.
pub open spec fn frame_result_view(r: ApolloResult<DataFrame>) -> Result<DataFrameView, ErrorView> {
    match r {
        Ok(f) => Ok(f@),
        Err(e) => Err(e@),
    }
}

fn cancelled() -> (e: ApolloError)
    ensures
        e@ == cancelled_error(),
{
    ApolloError::ComputeError(String::from_str("query was cancelled"))
}

impl PhysicalPlan {
    /// Evaluates the plan.
    pub fn execute(&self, state: &mut ExecutionState) -> (r: ApolloResult<DataFrame>)
        ensures
            frame_result_view(r) == spec_execute(
                *self,
                old(state)@.cancelled,
                old(state)@.ext_contexts,
            ).result,
            final(state)@ == (StateView {
                ext_contexts: spec_execute(
                    *self,
                    old(state)@.cancelled,
                    old(state)@.ext_contexts,
                ).ext_contexts,
                ..old(state)@
            }),
        decreases self, 0nat,
    {
        if state.cancelled {
            return Err(cancelled());
        }
        match self {
            PhysicalPlan::Scan { df } => Ok(df.clone()),
            PhysicalPlan::Filter { input, predicate } => {
                match (**input).execute(state) {
                    Err(e) => Err(e),
                    Ok(f) => f.filter_by(predicate.as_str()),
                }
            },
            PhysicalPlan::Select { input, columns } => {
                match (**input).execute(state) {
                    Err(e) => Err(e),
                    Ok(f) => f.select(columns),
                }
            },
            PhysicalPlan::ContextScan { index } => {
                match state.ext_context(*index) {
                    Some(f) => Ok(f.clone()),
                    None => {
                        let mut msg = String::from_str("external context ");
                        push_decimal(&mut msg, *index);
                        msg.append(" is not registered");
                        Err(ApolloError::ComputeError(msg))
                    },
                }
            },
            PhysicalPlan::ExternalContext(ec) => ec.execute(state),
        }
    }
}

impl ExternalContext {
    /// Evaluates the contexts, registers their results and evaluates the
    /// input under them.
    ///
    /// The contexts are evaluated one after the other on the one state, so
    /// a context that registers contexts of its own leaves them registered
    /// for the contexts after it. Where a context fails, the node fails
    /// with its error and the state is as that context left it.
    pub fn execute(&self, state: &mut ExecutionState) -> (r: ApolloResult<DataFrame>)
        ensures
            frame_result_view(r) == spec_external(
                *self,
                old(state)@.cancelled,
                old(state)@.ext_contexts,
            ).result,
            final(state)@ == (StateView {
                ext_contexts: spec_external(
                    *self,
                    old(state)@.cancelled,
                    old(state)@.ext_contexts,
                ).ext_contexts,
                ..old(state)@
            }),
        decreases self, self.contexts@.len() + 1,
    {
        if state.cancelled {
            return Err(cancelled());
        }
        let ghost start = state@;
        let mut contexts: Vec<DataFrame> = Vec::new();
        assert(columns_of_frames(contexts@) =~= Seq::<DataFrameView>::empty());
        let mut i: usize = 0;
        while i < self.contexts.len()
            invariant
                i <= self.contexts.len(),
                start == old(state)@,
                !start.cancelled,
                state@ == (StateView {
                    ext_contexts: eval_contexts(
                        *self,
                        start.cancelled,
                        start.ext_contexts,
                        i as nat,
                    ).ext_contexts,
                    ..start
                }),
                eval_contexts(*self, start.cancelled, start.ext_contexts, i as nat).results == Ok::<
                    Seq<DataFrameView>,
                    ErrorView,
                >(columns_of_frames(contexts@)),
            decreases self.contexts.len() - i,
        {
            let ghost before = columns_of_frames(contexts@);
            match self.contexts[i].execute(state) {
                Err(e) => {
                    proof {
                        assert(eval_contexts(
                            *self,
                            start.cancelled,
                            start.ext_contexts,
                            (i + 1) as nat,
                        ).results == Err::<Seq<DataFrameView>, ErrorView>(e@));
                        lemma_contexts_error_stays(
                            *self,
                            start.cancelled,
                            start.ext_contexts,
                            (i + 1) as nat,
                            self.contexts@.len(),
                        );
                    }
                    return Err(e);
                },
                Ok(f) => {
                    contexts.push(f);
                    assert(columns_of_frames(contexts@) =~= before.push(f@));
                },
            }
            i += 1;
        }
        state.ext_contexts = contexts;
        (*self.input).execute(state)
    }
}

proof fn lemma_contexts_error_stays(
    ec: ExternalContext,
    cancelled: bool,
    ext: Seq<DataFrameView>,
    a: nat,
    b: nat,
)
    requires
        a <= b <= ec.contexts@.len(),
        eval_contexts(ec, cancelled, ext, a).results is Err,
    ensures
        eval_contexts(ec, cancelled, ext, b) == eval_contexts(ec, cancelled, ext, a),
    decreases b - a,
{
    if a < b {
        lemma_contexts_error_stays(ec, cancelled, ext, a, (b - 1) as nat);
    }
}

/// What a node registers is seen beneath it: a scan of external context
/// `i` that stands right under a node whose contexts all succeed gives the
/// result of context `i` of that node.
pub proof fn lemma_registration_is_visible(
    ec: ExternalContext,
    ext: Seq<DataFrameView>,
    frames: Seq<DataFrameView>,
    i: usize,
)
    requires
        *ec.input == (PhysicalPlan::ContextScan { index: i }),
        eval_contexts(ec, false, ext, ec.contexts@.len()).results == Ok::<
            Seq<DataFrameView>,
            ErrorView,
        >(frames),
        i < frames.len(),
    ensures
        spec_external(ec, false, ext).result == Ok::<DataFrameView, ErrorView>(frames[i as int]),
        spec_external(ec, false, ext).ext_contexts == frames,
{
}

} // verus!
