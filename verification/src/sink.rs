//! The writer task of a file sink, as the decisions it takes: what to do
//! next, given what just happened. The task that runs the writer performs
//! each action and reports how it ended.

use vstd::prelude::*;
use crate::connector::spec_close;
use crate::connector::Connector;
use crate::connector::ConnectorView;
use crate::error::ApolloError;
use crate::error::ApolloResult;
use crate::error::ErrorView;
use crate::frame::DataFrame;
use crate::permits::FileSinkPermit;

verus! {

/// Rows and bytes written so far.
#[derive(Clone, Copy, Debug, PartialEq, Eq, Structural)]
pub struct RowCountAndSize {
    pub num_rows: u64,
    pub num_bytes: u64,
}

/// A morsel on its way into a sink.
#[derive(Debug)]
pub struct SinkMorsel {
    pub df: DataFrame,
    /// The morsel's place in the order of the source.
    pub seq: u64,
}

/// What a file sink holds of its writer task.
pub struct FileSinkTaskData<H> {
    /// The sending end of the connector into the writer.
    pub morsel_tx: Connector<SinkMorsel>,
    /// Where in the output the file begins.
    pub start_position: RowCountAndSize,
    /// The handle on which the writer's result is awaited.
    pub task_handle: H,
}

impl<H> FileSinkTaskData<H> {
    /// Signals to the writer to close, and returns its task handle
    /// together with the connector, which is closed; what was queued
    /// in it is still delivered.
    pub fn close(self) -> (r: (H, Connector<SinkMorsel>))
        ensures
            r.0 == self.task_handle,
            r.1@ == spec_close(self.morsel_tx@),
    {
        let FileSinkTaskData { morsel_tx, start_position, task_handle } = self;
        let mut tx = morsel_tx;
        tx.close();
        (task_handle, tx)
    }
}

/// Where the writer stands.
#[derive(Debug, PartialEq, Eq)]
pub enum WriterState {
    /// Waiting for the file to be opened.
    AwaitingFile,
    /// Waiting for the next encoded row group.
    Receiving { sync_on_close: bool },
    /// A row group is being written.
    Writing { sync_on_close: bool },
    /// The footer is being written.
    Finishing { sync_on_close: bool },
    /// The file is being closed.
    Closing,
    /// The writer has returned.
    Done,
}

/// What the task reports to the writer.
#[derive(Debug, PartialEq, Eq)]
pub enum WriterEvent {
    /// The file is open.
    FileOpened { sync_on_close: bool },
    /// The file could not be opened.
    FileFailed(ApolloError),
    /// A row group arrived, with the number of its rows and columns.
    RowGroup { num_rows: usize, num_columns: usize },
    /// What arrived in the place of a row group is the error of its encoder.
    EncodeFailed(ApolloError),
    /// The connector is closed and drained.
    InputClosed,
    /// The last action succeeded.
    Completed,
    /// The last action failed.
    Failed(ApolloError),
}

/// What the task is to do next.
#[derive(Debug, PartialEq, Eq)]
pub enum WriterAction {
    /// Receive the next row group.
    Receive,
    /// Write the row group that just arrived, then drop it and release
    /// its permit, whether the write succeeded or not.
    WriteRowGroup { num_rows: u64 },
    /// Write the footer.
    FinishFile,
    /// Close the file, flushing it to the disk first where asked for.
    CloseFile { sync_on_close: bool },
    /// Return success.
    ReturnOk,
    /// Return the error.
    ReturnErr(ApolloError),
    /// The event does not belong to the writer's state: nothing changes.
    Ignore,
}

/// The parts of an action that a contract can speak of.
pub enum ActionView {
    Receive,
    WriteRowGroup { num_rows: u64 },
    FinishFile,
    CloseFile { sync_on_close: bool },
    ReturnOk,
    ReturnErr(ErrorView),
    Ignore,
}

impl View for WriterAction {
    type V = ActionView;

    open spec fn view(&self) -> ActionView {
        match self {
            WriterAction::Receive => ActionView::Receive,
            WriterAction::WriteRowGroup { num_rows } => ActionView::WriteRowGroup {
                num_rows: *num_rows,
            },
            WriterAction::FinishFile => ActionView::FinishFile,
            WriterAction::CloseFile { sync_on_close } => ActionView::CloseFile {
                sync_on_close: *sync_on_close,
            },
            WriterAction::ReturnOk => ActionView::ReturnOk,
            WriterAction::ReturnErr(e) => ActionView::ReturnErr(e@),
            WriterAction::Ignore => ActionView::Ignore,
        }
    }
}

/// The error of an event that carries one.
pub open spec fn event_error(event: WriterEvent) -> Option<ErrorView> {
    match event {
        WriterEvent::FileFailed(e) => Some(e@),
        WriterEvent::EncodeFailed(e) => Some(e@),
        WriterEvent::Failed(e) => Some(e@),
        _ => None,
    }
}

/// The state after an event and the action that the event calls for.
///
/// The file is awaited first. Then row groups are received and written
/// one by one until the connector is closed; then the footer is written and
/// the file closed. The first failure, of the file, of an encoder or of an
/// action, is returned as it is, and the writer is done.
pub open spec fn spec_step(state: WriterState, event: WriterEvent) -> (WriterState, ActionView) {
    match (state, event) {
        (WriterState::AwaitingFile, WriterEvent::FileOpened { sync_on_close }) => (
            WriterState::Receiving { sync_on_close },
            ActionView::Receive,
        ),
        (WriterState::AwaitingFile, WriterEvent::FileFailed(e)) => (
            WriterState::Done,
            ActionView::ReturnErr(e@),
        ),
        (WriterState::Receiving { sync_on_close }, WriterEvent::RowGroup { num_rows, num_columns }) => (
            WriterState::Writing { sync_on_close },
            ActionView::WriteRowGroup { num_rows: num_rows as u64 },
        ),
        (WriterState::Receiving { sync_on_close }, WriterEvent::EncodeFailed(e)) => (
            WriterState::Done,
            ActionView::ReturnErr(e@),
        ),
        (WriterState::Receiving { sync_on_close }, WriterEvent::InputClosed) => (
            WriterState::Finishing { sync_on_close },
            ActionView::FinishFile,
        ),
        (WriterState::Writing { sync_on_close }, WriterEvent::Completed) => (
            WriterState::Receiving { sync_on_close },
            ActionView::Receive,
        ),
        (WriterState::Writing { sync_on_close }, WriterEvent::Failed(e)) => (
            WriterState::Done,
            ActionView::ReturnErr(e@),
        ),
        (WriterState::Finishing { sync_on_close }, WriterEvent::Completed) => (
            WriterState::Closing,
            ActionView::CloseFile { sync_on_close },
        ),
        (WriterState::Finishing { sync_on_close }, WriterEvent::Failed(e)) => (
            WriterState::Done,
            ActionView::ReturnErr(e@),
        ),
        (WriterState::Closing, WriterEvent::Completed) => (WriterState::Done, ActionView::ReturnOk),
        (WriterState::Closing, WriterEvent::Failed(e)) => (
            WriterState::Done,
            ActionView::ReturnErr(e@),
        ),
        (s, _) => (s, ActionView::Ignore),
    }
}

/// The writer of one file.
#[derive(Debug)]
pub struct IOWriter {
    state: WriterState,
    num_leaf_columns: usize,
}

impl IOWriter {
    /// The state the writer is in.
    pub closed spec fn state(&self) -> WriterState {
        self.state
    }

    /// The number of columns that every row group must have.
    pub closed spec fn spec_num_leaf_columns(&self) -> usize {
        self.num_leaf_columns
    }

    /// A writer that waits for its file.
    pub fn new(num_leaf_columns: usize) -> (w: IOWriter)
        ensures
            w.state() == WriterState::AwaitingFile,
            w.spec_num_leaf_columns() == num_leaf_columns,
    {
        IOWriter { state: WriterState::AwaitingFile, num_leaf_columns }
    }

    /// Whether the writer has returned.
    pub fn is_done(&self) -> (b: bool)
        ensures
            b == (self.state() is Done),
    {
        matches!(self.state, WriterState::Done)
    }

    /// Takes an event and says what to do next.
    ///
    /// A row group must have as many columns as the writer was made for.
    pub fn step(&mut self, event: WriterEvent) -> (action: WriterAction)
        requires
            event matches WriterEvent::RowGroup { num_rows, num_columns } ==> num_columns == old(
                self,
            ).spec_num_leaf_columns() && num_rows <= u64::MAX,
        ensures
            final(self).state() == spec_step(old(self).state(), event).0,
            action@ == spec_step(old(self).state(), event).1,
            final(self).spec_num_leaf_columns() == old(self).spec_num_leaf_columns(),
    {
        let mut state = WriterState::Done;
        core::mem::swap(&mut state, &mut self.state);
        let (next, action) = match (state, event) {
            (WriterState::AwaitingFile, WriterEvent::FileOpened { sync_on_close }) => (
                WriterState::Receiving { sync_on_close },
                WriterAction::Receive,
            ),
            (WriterState::AwaitingFile, WriterEvent::FileFailed(e)) => (
                WriterState::Done,
                WriterAction::ReturnErr(e),
            ),
            (
                WriterState::Receiving { sync_on_close },
                WriterEvent::RowGroup { num_rows, num_columns },
            ) => (
                WriterState::Writing { sync_on_close },
                WriterAction::WriteRowGroup { num_rows: num_rows as u64 },
            ),
            (WriterState::Receiving { sync_on_close }, WriterEvent::EncodeFailed(e)) => (
                WriterState::Done,
                WriterAction::ReturnErr(e),
            ),
            (WriterState::Receiving { sync_on_close }, WriterEvent::InputClosed) => (
                WriterState::Finishing { sync_on_close },
                WriterAction::FinishFile,
            ),
            (WriterState::Writing { sync_on_close }, WriterEvent::Completed) => (
                WriterState::Receiving { sync_on_close },
                WriterAction::Receive,
            ),
            (WriterState::Writing { sync_on_close }, WriterEvent::Failed(e)) => (
                WriterState::Done,
                WriterAction::ReturnErr(e),
            ),
            (WriterState::Finishing { sync_on_close }, WriterEvent::Completed) => (
                WriterState::Closing,
                WriterAction::CloseFile { sync_on_close },
            ),
            (WriterState::Finishing { sync_on_close }, WriterEvent::Failed(e)) => (
                WriterState::Done,
                WriterAction::ReturnErr(e),
            ),
            (WriterState::Closing, WriterEvent::Completed) => (
                WriterState::Done,
                WriterAction::ReturnOk,
            ),
            (WriterState::Closing, WriterEvent::Failed(e)) => (
                WriterState::Done,
                WriterAction::ReturnErr(e),
            ),
            (s, _) => (s, WriterAction::Ignore),
        };
        self.state = next;
        action
    }
}

/// A writer that is done stays done: whatever it is told, it changes
/// nothing and asks for nothing.
pub proof fn lemma_done_is_final(event: WriterEvent)
    ensures
        spec_step(WriterState::Done, event) == (WriterState::Done, ActionView::Ignore),
{
}

/// The first failure is what the writer returns: in every state that
/// awaits an outcome, an event that carries an error ends the writer with
/// that very error.
pub proof fn lemma_failure_is_returned(state: WriterState, event: WriterEvent)
    requires
        spec_step(state, event).1 is ReturnErr,
    ensures
        event_error(event) == Some(spec_step(state, event).1->ReturnErr_0),
        spec_step(state, event).0 is Done,
{
}

/// A file is closed only after its footer was written, and the writer
/// returns success only after the file was closed.
pub proof fn lemma_success_needs_close(state: WriterState, event: WriterEvent)
    ensures
        spec_step(state, event).1 is ReturnOk ==> state is Closing,
        spec_step(state, event).1 is CloseFile ==> state is Finishing,
        spec_step(state, event).1 is FinishFile ==> state is Receiving,
{
}

/// The state after the events `events`, in order, and the actions that
/// they called for.
pub open spec fn run_writer(state: WriterState, events: Seq<WriterEvent>) -> (
    WriterState,
    Seq<ActionView>,
)
    decreases events.len(),
{
    if events.len() == 0 {
        (state, Seq::empty())
    } else {
        let (s, actions) = run_writer(state, events.drop_last());
        let (next, action) = spec_step(s, events.last());
        (next, actions.push(action))
    }
}

/// What the task reports while row groups of the given numbers of rows
/// arrive and are written without a failure: each arrives and is then
/// reported as written.
pub open spec fn unit_events(rows: Seq<usize>, columns: usize) -> Seq<WriterEvent>
    decreases rows.len(),
{
    if rows.len() == 0 {
        Seq::empty()
    } else {
        unit_events(rows.drop_last(), columns).push(
            WriterEvent::RowGroup { num_rows: rows.last(), num_columns: columns },
        ).push(WriterEvent::Completed)
    }
}

/// What the writer asks for while those row groups arrive: each is
/// written, and then the next is asked for.
pub open spec fn unit_actions(rows: Seq<usize>) -> Seq<ActionView>
    decreases rows.len(),
{
    if rows.len() == 0 {
        Seq::empty()
    } else {
        unit_actions(rows.drop_last()).push(
            ActionView::WriteRowGroup { num_rows: rows.last() as u64 },
        ).push(ActionView::Receive)
    }
}

/// The number of rows of all row groups together.
pub open spec fn total_rows(rows: Seq<usize>) -> nat
    decreases rows.len(),
{
    if rows.len() == 0 {
        0
    } else {
        total_rows(rows.drop_last()) + rows.last() as nat
    }
}

/// The rows that the writes of a run of actions ask for, together.
pub open spec fn rows_written(actions: Seq<ActionView>) -> nat
    decreases actions.len(),
{
    if actions.len() == 0 {
        0
    } else {
        rows_written(actions.drop_last()) + match actions.last() {
            ActionView::WriteRowGroup { num_rows } => num_rows as nat,
            _ => 0nat,
        }
    }
}

proof fn lemma_run_writer_append(state: WriterState, a: Seq<WriterEvent>, e: WriterEvent)
    ensures
        run_writer(state, a.push(e)) == ({
            let (s, actions) = run_writer(state, a);
            (spec_step(s, e).0, actions.push(spec_step(s, e).1))
        }),
{
    assert(a.push(e).drop_last() =~= a);
}

proof fn lemma_units_are_written(sync_on_close: bool, rows: Seq<usize>, columns: usize)
    ensures
        run_writer(WriterState::Receiving { sync_on_close }, unit_events(rows, columns)) == (
            WriterState::Receiving { sync_on_close },
            unit_actions(rows),
        ),
        rows_written(unit_actions(rows)) == total_rows(rows),
    decreases rows.len(),
{
    let start = WriterState::Receiving { sync_on_close };
    if rows.len() > 0 {
        lemma_units_are_written(sync_on_close, rows.drop_last(), columns);
        let before = unit_events(rows.drop_last(), columns);
        let group = WriterEvent::RowGroup { num_rows: rows.last(), num_columns: columns };
        lemma_run_writer_append(start, before, group);
        lemma_run_writer_append(start, before.push(group), WriterEvent::Completed);
        let acts = unit_actions(rows.drop_last());
        let w = ActionView::WriteRowGroup { num_rows: rows.last() as u64 };
        let full = acts.push(w).push(ActionView::Receive);
        assert(full.drop_last() =~= acts.push(w));
        assert(acts.push(w).drop_last() =~= acts);
        assert(full.last() == ActionView::Receive);
        assert(acts.push(w).last() == w);
        reveal_with_fuel(rows_written, 3);
        assert(rows_written(acts.push(w)) == rows_written(acts) + rows.last() as nat);
        assert(rows_written(full) == rows_written(acts.push(w)));
    }
}

proof fn lemma_run_writer_concat(state: WriterState, a: Seq<WriterEvent>, b: Seq<WriterEvent>)
    ensures
        run_writer(state, a + b) == ({
            let (s, first) = run_writer(state, a);
            let (t, second) = run_writer(s, b);
            (t, first + second)
        }),
    decreases b.len(),
{
    let (s, first) = run_writer(state, a);
    if b.len() == 0 {
        assert(a + b =~= a);
        assert(first + Seq::<ActionView>::empty() =~= first);
    } else {
        lemma_run_writer_concat(state, a, b.drop_last());
        assert((a + b).drop_last() =~= a + b.drop_last());
        assert((a + b).last() == b.last());
        let (t, second) = run_writer(s, b.drop_last());
        let step = spec_step(t, b.last());
        assert((first + second).push(step.1) =~= first + second.push(step.1));
    }
}

/// A writer whose file opens and whose every action succeeds writes each
/// row group that it receives exactly once, in the order of arrival and
/// before it asks for the next; after the last it writes the footer, closes
/// the file and returns success. The rows it writes are together the rows
/// it received.
pub proof fn lemma_writer_writes_each_unit_once_in_order(
    sync_on_close: bool,
    rows: Seq<usize>,
    columns: usize,
)
    ensures
        ({
            let events = seq![WriterEvent::FileOpened { sync_on_close }] + unit_events(
                rows,
                columns,
            ) + seq![WriterEvent::InputClosed, WriterEvent::Completed, WriterEvent::Completed];
            let (state, actions) = run_writer(WriterState::AwaitingFile, events);
            &&& state == WriterState::Done
            &&& actions == seq![ActionView::Receive] + unit_actions(rows) + seq![
                ActionView::FinishFile,
                ActionView::CloseFile { sync_on_close },
                ActionView::ReturnOk,
            ]
            &&& rows_written(unit_actions(rows)) == total_rows(rows)
        }),
{
    let open = seq![WriterEvent::FileOpened { sync_on_close }];
    let units = unit_events(rows, columns);
    let tail = seq![WriterEvent::InputClosed, WriterEvent::Completed, WriterEvent::Completed];
    let receiving = WriterState::Receiving { sync_on_close };
    lemma_units_are_written(sync_on_close, rows, columns);
    assert(run_writer(WriterState::AwaitingFile, open) == (receiving, seq![ActionView::Receive])) by {
        assert(open.drop_last() =~= Seq::<WriterEvent>::empty());
        reveal_with_fuel(run_writer, 2);
        assert(Seq::<ActionView>::empty().push(ActionView::Receive) =~= seq![ActionView::Receive]);
    }
    assert(run_writer(receiving, tail) == (
        WriterState::Done,
        seq![
            ActionView::FinishFile,
            ActionView::CloseFile { sync_on_close },
            ActionView::ReturnOk,
        ],
    )) by {
        let t0 = Seq::<WriterEvent>::empty();
        let t1 = t0.push(WriterEvent::InputClosed);
        let t2 = t1.push(WriterEvent::Completed);
        let t3 = t2.push(WriterEvent::Completed);
        assert(t3 =~= tail);
        lemma_run_writer_append(receiving, t0, WriterEvent::InputClosed);
        lemma_run_writer_append(receiving, t1, WriterEvent::Completed);
        lemma_run_writer_append(receiving, t2, WriterEvent::Completed);
        assert(Seq::<ActionView>::empty().push(ActionView::FinishFile).push(
            ActionView::CloseFile { sync_on_close },
        ).push(ActionView::ReturnOk) =~= seq![
            ActionView::FinishFile,
            ActionView::CloseFile { sync_on_close },
            ActionView::ReturnOk,
        ]);
    }
    lemma_run_writer_concat(WriterState::AwaitingFile, open, units);
    lemma_run_writer_concat(WriterState::AwaitingFile, open + units, tail);
}

} // verus!
