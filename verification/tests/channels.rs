use apollo::connector::Connector;
use apollo::connector::RecvOutcome;
use apollo::connector::SendOutcome;
use apollo::error::ApolloError;
use apollo::graph::node_step;
use apollo::graph::FailureSlot;
use apollo::graph::NodeAction;
use apollo::graph::NodeEvent;
use apollo::graph::NodeState;
use apollo::permits::PermitPool;
use apollo::sink::FileSinkTaskData;
use apollo::sink::IOWriter;
use apollo::sink::RowCountAndSize;
use apollo::sink::SinkMorsel;
use apollo::sink::WriterAction;
use apollo::sink::WriterEvent;

#[test]
fn connector_delivers_in_send_order_then_finishes() {
    let mut c: Connector<u32> = Connector::new(4);
    for x in [10, 20, 30] {
        assert_eq!(c.send(x), SendOutcome::Sent);
    }
    assert_eq!(c.len(), 3);
    c.close();
    assert!(c.is_closed());
    assert_eq!(c.recv(), RecvOutcome::Item(10));
    assert_eq!(c.recv(), RecvOutcome::Item(20));
    assert_eq!(c.recv(), RecvOutcome::Item(30));
    assert_eq!(c.recv(), RecvOutcome::Finished);
    assert_eq!(c.recv(), RecvOutcome::Finished);
}

#[test]
fn connector_is_bounded_and_refuses_after_close() {
    let mut c: Connector<u32> = Connector::new(1);
    assert_eq!(c.capacity(), 1);
    assert_eq!(c.recv(), RecvOutcome::Empty);
    assert_eq!(c.send(1), SendOutcome::Sent);
    assert_eq!(c.send(2), SendOutcome::Full(2));
    assert_eq!(c.recv(), RecvOutcome::Item(1));
    assert_eq!(c.send(2), SendOutcome::Sent);
    c.close();
    c.close();
    assert_eq!(c.send(3), SendOutcome::Closed(3));
    assert_eq!(c.len(), 1);
    assert_eq!(c.recv(), RecvOutcome::Item(2));
    assert_eq!(c.recv(), RecvOutcome::Finished);
}

#[test]
fn connector_interleaved_sends_and_receives_keep_order() {
    let mut c: Connector<u32> = Connector::new(2);
    let mut received = Vec::new();
    let mut next = 0u32;
    for round in 0..50u32 {
        if round % 3 != 2 {
            if let SendOutcome::Sent = c.send(next) {
                next += 1;
            }
        } else if let RecvOutcome::Item(x) = c.recv() {
            received.push(x);
        }
        assert!(c.len() <= c.capacity());
    }
    c.close();
    while let RecvOutcome::Item(x) = c.recv() {
        received.push(x);
    }
    let expected: Vec<u32> = (0..next).collect();
    assert_eq!(received, expected);
}

#[test]
fn permits_never_exceed_the_pool() {
    let mut pool = PermitPool::new(3);
    let mut held = Vec::new();
    let mut state = 12345u64;
    for _ in 0..500 {
        state = state.wrapping_mul(6364136223846793005).wrapping_add(1442695040888963407);
        let release = (state >> 33) % 3 == 0;
        if release {
            if let Some(p) = held.pop() {
                assert!(pool.release(p));
            }
        } else if let Some(p) = pool.try_acquire() {
            assert_eq!(p.pool_size(), 3);
            held.push(p);
        } else {
            assert_eq!(pool.outstanding(), 3);
        }
        assert!(pool.outstanding() <= pool.max());
        assert_eq!(pool.outstanding(), held.len());
        assert_eq!(pool.available(), 3 - held.len());
    }
}

#[test]
fn second_sink_waits_for_the_permit_of_the_first() {
    let mut pool = PermitPool::new(1);
    let mut clock = 0u32;
    let mut tick = || {
        clock += 1;
        clock
    };
    let first = pool.try_acquire().expect("the pool has one permit");
    let first_open = tick();
    assert!(pool.try_acquire().is_none());
    let _ = tick();
    assert!(pool.try_acquire().is_none());
    let first_close = tick();
    assert!(pool.release(first));
    let second = pool.try_acquire().expect("the permit came back");
    let second_open = tick();
    let second_close = tick();
    assert!(pool.release(second));
    assert!(first_open < first_close);
    assert!(first_close < second_open);
    assert!(second_open < second_close);
    assert_eq!(pool.outstanding(), 0);
}

#[test]
fn releasing_into_an_idle_pool_changes_nothing() {
    let mut a = PermitPool::new(1);
    let mut b = PermitPool::new(1);
    let p = a.try_acquire().unwrap();
    assert!(!b.release(p));
    assert_eq!(b.outstanding(), 0);
    assert_eq!(a.outstanding(), 1);
}

#[test]
fn writer_writes_row_groups_then_finishes_and_closes() {
    let mut w = IOWriter::new(2);
    assert_eq!(w.step(WriterEvent::FileOpened { sync_on_close: true }), WriterAction::Receive);
    assert_eq!(
        w.step(WriterEvent::RowGroup { num_rows: 100, num_columns: 2 }),
        WriterAction::WriteRowGroup { num_rows: 100 }
    );
    assert_eq!(w.step(WriterEvent::Completed), WriterAction::Receive);
    assert_eq!(
        w.step(WriterEvent::RowGroup { num_rows: 7, num_columns: 2 }),
        WriterAction::WriteRowGroup { num_rows: 7 }
    );
    assert_eq!(w.step(WriterEvent::Completed), WriterAction::Receive);
    assert_eq!(w.step(WriterEvent::InputClosed), WriterAction::FinishFile);
    assert_eq!(w.step(WriterEvent::Completed), WriterAction::CloseFile { sync_on_close: true });
    assert!(!w.is_done());
    assert_eq!(w.step(WriterEvent::Completed), WriterAction::ReturnOk);
    assert!(w.is_done());
    assert_eq!(w.step(WriterEvent::Completed), WriterAction::Ignore);
}

#[test]
fn writer_surfaces_the_error_of_the_encoder() {
    let mut w = IOWriter::new(1);
    assert_eq!(w.step(WriterEvent::FileOpened { sync_on_close: false }), WriterAction::Receive);
    let e = ApolloError::ComputeError("cannot encode column a".to_string());
    assert_eq!(
        w.step(WriterEvent::EncodeFailed(e)),
        WriterAction::ReturnErr(ApolloError::ComputeError("cannot encode column a".to_string()))
    );
    assert!(w.is_done());
}

#[test]
fn writer_fails_when_the_file_or_a_write_fails() {
    let mut w = IOWriter::new(1);
    assert_eq!(w.step(WriterEvent::InputClosed), WriterAction::Ignore);
    let e = ApolloError::ComputeError("no such directory".to_string());
    assert!(matches!(w.step(WriterEvent::FileFailed(e)), WriterAction::ReturnErr(_)));
    assert!(w.is_done());

    let mut w = IOWriter::new(1);
    w.step(WriterEvent::FileOpened { sync_on_close: false });
    w.step(WriterEvent::RowGroup { num_rows: 1, num_columns: 1 });
    let e = ApolloError::ComputeError("disk full".to_string());
    assert_eq!(
        w.step(WriterEvent::Failed(e)),
        WriterAction::ReturnErr(ApolloError::ComputeError("disk full".to_string()))
    );
    assert!(w.is_done());
}

#[test]
fn closing_a_sink_task_closes_its_connector() {
    let mut tx: Connector<SinkMorsel> = Connector::new(2);
    let morsel = SinkMorsel { df: apollo::frame::DataFrame::empty(), seq: 0 };
    assert!(matches!(tx.send(morsel), SendOutcome::Sent));
    let data = FileSinkTaskData {
        morsel_tx: tx,
        start_position: RowCountAndSize { num_rows: 0, num_bytes: 0 },
        task_handle: 42u32,
    };
    let (handle, mut rx) = data.close();
    assert_eq!(handle, 42);
    assert!(rx.is_closed());
    assert!(matches!(rx.recv(), RecvOutcome::Item(_)));
    assert!(matches!(rx.recv(), RecvOutcome::Finished));
}

#[test]
fn node_lifecycle() {
    let (s, a) = node_step(NodeState::Created, NodeEvent::Start);
    assert_eq!((s, a), (NodeState::Running, NodeAction::Process));
    let (s, a) = node_step(s, NodeEvent::Backpressure);
    assert_eq!((s, a), (NodeState::Paused, NodeAction::Wait));
    let (s, a) = node_step(s, NodeEvent::Resume);
    assert_eq!((s, a), (NodeState::Running, NodeAction::Process));
    let (s, a) = node_step(s, NodeEvent::InputsEnded);
    assert_eq!((s, a), (NodeState::Draining, NodeAction::Flush));
    let (s, a) = node_step(s, NodeEvent::Flushed);
    assert_eq!((s, a), (NodeState::Closed, NodeAction::CloseOutputs));
    assert_eq!(node_step(s, NodeEvent::Start), (NodeState::Closed, NodeAction::Nothing));
    assert_eq!(
        node_step(NodeState::Created, NodeEvent::Flushed),
        (NodeState::Created, NodeAction::Nothing)
    );
}

#[test]
fn failure_and_cancellation_close_the_outputs_from_any_state() {
    for state in [NodeState::Created, NodeState::Running, NodeState::Paused, NodeState::Draining] {
        assert_eq!(
            node_step(state, NodeEvent::Failed),
            (NodeState::Closed, NodeAction::CloseOutputs)
        );
        assert_eq!(
            node_step(state, NodeEvent::Cancelled),
            (NodeState::Closed, NodeAction::CloseOutputs)
        );
    }
}

#[test]
fn the_first_failure_is_kept() {
    let mut slot = FailureSlot::new();
    assert!(!slot.is_set());
    assert!(slot.record(ApolloError::ComputeError("first".to_string())));
    assert!(!slot.record(ApolloError::OutOfBounds("second".to_string())));
    assert!(slot.is_set());
    assert_eq!(slot.take(), Some(ApolloError::ComputeError("first".to_string())));
}
