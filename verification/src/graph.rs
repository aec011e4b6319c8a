//! The life of a node of the execution graph, and the slot that keeps the
//! first failure of a query.

use vstd::prelude::*;
use crate::error::ApolloError;
use crate::error::ErrorView;

verus! {

/// Where a node stands in its life.
#[derive(Clone, Copy, Debug, PartialEq, Eq, Structural)]
pub enum NodeState {
    /// The connectors to the neighbours are allocated.
    Created,
    /// The node receives, transforms and sends.
    Running,
    /// The node waits for room downstream.
    Paused,
    /// The inputs have ended; what is buffered is flushed.
    Draining,
    /// The node has told the end of its stream and is done.
    Closed,
}

/// What happens to a node.
#[derive(Clone, Copy, Debug, PartialEq, Eq, Structural)]
pub enum NodeEvent {
    /// The scheduler starts the node's task.
    Start,
    /// A connector downstream is full.
    Backpressure,
    /// There is room downstream again.
    Resume,
    /// Every input has told the end of its stream.
    InputsEnded,
    /// What was buffered has been sent.
    Flushed,
    /// The node's own work failed.
    Failed,
    /// The query was cancelled.
    Cancelled,
}

/// What the node's task is to do.
#[derive(Clone, Copy, Debug, PartialEq, Eq, Structural)]
pub enum NodeAction {
    /// Go on with the loop of receive, transform and send.
    Process,
    /// Wait until there is room downstream.
    Wait,
    /// Send what is buffered as a last morsel.
    Flush,
    /// Close every outbound connector.
    CloseOutputs,
    /// Nothing: the event does not belong to the state.
    Nothing,
}

/// The state after an event and what the event calls for.
///
/// A node is started, runs, may pause and resume any number of times,
/// drains when its inputs have ended, and closes when it has flushed. A
/// failure and a cancellation are treated alike: the node closes its
/// outbound connectors and is done, from whatever state it was in.
pub open spec fn spec_node_step(state: NodeState, event: NodeEvent) -> (NodeState, NodeAction) {
    if state == NodeState::Closed {
        (NodeState::Closed, NodeAction::Nothing)
    } else if event == NodeEvent::Failed || event == NodeEvent::Cancelled {
        (NodeState::Closed, NodeAction::CloseOutputs)
    } else {
        match (state, event) {
            (NodeState::Created, NodeEvent::Start) => (NodeState::Running, NodeAction::Process),
            (NodeState::Running, NodeEvent::Backpressure) => (NodeState::Paused, NodeAction::Wait),
            (NodeState::Paused, NodeEvent::Resume) => (NodeState::Running, NodeAction::Process),
            (NodeState::Running, NodeEvent::InputsEnded) => (NodeState::Draining, NodeAction::Flush),
            (NodeState::Draining, NodeEvent::Flushed) => (
                NodeState::Closed,
                NodeAction::CloseOutputs,
            ),
            _ => (state, NodeAction::Nothing),
        }
    }
}

/// Takes an event and says what the node's task is to do.
pub fn node_step(state: NodeState, event: NodeEvent) -> (r: (NodeState, NodeAction))
    ensures
        r == spec_node_step(state, event),
{
    if state == NodeState::Closed {
        return (NodeState::Closed, NodeAction::Nothing);
    }
    if event == NodeEvent::Failed || event == NodeEvent::Cancelled {
        return (NodeState::Closed, NodeAction::CloseOutputs);
    }
    match (state, event) {
        (NodeState::Created, NodeEvent::Start) => (NodeState::Running, NodeAction::Process),
        (NodeState::Running, NodeEvent::Backpressure) => (NodeState::Paused, NodeAction::Wait),
        (NodeState::Paused, NodeEvent::Resume) => (NodeState::Running, NodeAction::Process),
        (NodeState::Running, NodeEvent::InputsEnded) => (NodeState::Draining, NodeAction::Flush),
        (NodeState::Draining, NodeEvent::Flushed) => (NodeState::Closed, NodeAction::CloseOutputs),
        _ => (state, NodeAction::Nothing),
    }
}

/// The state of a node after the events `events`, in order.
pub open spec fn run_node(state: NodeState, events: Seq<NodeEvent>) -> NodeState
    decreases events.len(),
{
    if events.len() == 0 {
        state
    } else {
        spec_node_step(run_node(state, events.drop_last()), events.last()).0
    }
}

/// A node that is closed stays closed, whatever happens to it.
pub proof fn lemma_closed_stays_closed(events: Seq<NodeEvent>)
    ensures
        run_node(NodeState::Closed, events) == NodeState::Closed,
    decreases events.len(),
{
    if events.len() > 0 {
        lemma_closed_stays_closed(events.drop_last());
    }
}

/// A node never closes without closing its outbound connectors: the step
/// that takes a node that is not closed to `Closed` asks for exactly that.
pub proof fn lemma_closing_closes_outputs(state: NodeState, event: NodeEvent)
    requires
        state != NodeState::Closed,
        spec_node_step(state, event).0 == NodeState::Closed,
    ensures
        spec_node_step(state, event).1 == NodeAction::CloseOutputs,
{
}

/// A failure or a cancellation closes a node from every state.
pub proof fn lemma_failure_closes(state: NodeState, event: NodeEvent)
    requires
        event == NodeEvent::Failed || event == NodeEvent::Cancelled,
    ensures
        spec_node_step(state, event).0 == NodeState::Closed,
{
}

/// The slot that keeps the failure of a query: the first that is
/// recorded.
#[derive(Debug)]
pub struct FailureSlot {
    slot: Option<ApolloError>,
}

pub open spec fn error_view(o: Option<ApolloError>) -> Option<ErrorView> {
    match o {
        Some(e) => Some(e@),
        None => None,
    }
}

impl View for FailureSlot {
    type V = Option<ErrorView>;

    closed spec fn view(&self) -> Option<ErrorView> {
        error_view(self.slot)
    }
}

/// The slot after `error` was recorded: it keeps what it held, and takes
/// `error` only where it held nothing.
pub open spec fn spec_record(slot: Option<ErrorView>, error: ErrorView) -> Option<ErrorView> {
    match slot {
        Some(first) => Some(first),
        None => Some(error),
    }
}

/// The slot after the errors `errors` were recorded, in order.
pub open spec fn record_all(slot: Option<ErrorView>, errors: Seq<ErrorView>) -> Option<ErrorView>
    decreases errors.len(),
{
    if errors.len() == 0 {
        slot
    } else {
        spec_record(record_all(slot, errors.drop_last()), errors.last())
    }
}

/// Of the failures of a query the first is the one that is kept and
/// surfaced; those that follow are suppressed.
pub proof fn lemma_first_failure_wins(errors: Seq<ErrorView>)
    requires
        errors.len() > 0,
    ensures
        record_all(None, errors) == Some(errors[0]),
    decreases errors.len(),
{
    reveal_with_fuel(record_all, 2);
    if errors.len() > 1 {
        lemma_first_failure_wins(errors.drop_last());
        assert(errors.drop_last()[0] == errors[0]);
    } else {
        assert(errors.drop_last().len() == 0);
        assert(errors.last() == errors[0]);
    }
}

impl FailureSlot {
    /// An empty slot.
    pub fn new() -> (s: FailureSlot)
        ensures
            s@ is None,
    {
        FailureSlot { slot: None }
    }

    /// Records a failure. Returns whether it is the first, and so the one
    /// that is kept.
    pub fn record(&mut self, error: ApolloError) -> (first: bool)
        ensures
            final(self)@ == spec_record(old(self)@, error@),
            first == old(self)@.is_none(),
    {
        if self.slot.is_none() {
            self.slot = Some(error);
            true
        } else {
            false
        }
    }

    /// Whether a failure was recorded. The scheduler issues no new work
    /// once one was.
    pub fn is_set(&self) -> (b: bool)
        ensures
            b == self@.is_some(),
    {
        self.slot.is_some()
    }

    /// Takes the failure out, to return it to the caller of the query.
    pub fn take(self) -> (r: Option<ApolloError>)
        ensures
            error_view(r) == self@,
    {
        self.slot
    }
}

} // verus!
