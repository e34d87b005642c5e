use spiderbutter::tcp_util::{write_async, Pause, WriteAll, WriteEvent, WriteStep};

#[test]
fn a_write_begins_at_the_start() {
    let w = WriteAll::new(10);
    assert_eq!(w, WriteAll { len: 10, cursor: 0, pause: Pause::Running });
    assert_eq!(w.first_step(), WriteStep::Write { from: 0 });
    assert_eq!(write_async(b"0123456789"), w);
    assert_eq!(write_async(b""), WriteAll::new(0));
}

#[test]
fn a_write_that_takes_everything_is_done() {
    let mut w = WriteAll::new(10);
    assert_eq!(w.step(WriteEvent::Wrote { count: 10, pending_writes: true }), WriteStep::Done);
    assert_eq!(w.cursor, 10);
    assert_eq!(w.pause, Pause::Finished);
    assert_eq!(w.step(WriteEvent::Resumed { pending_writes: false }), WriteStep::Done);
}

#[test]
fn an_empty_buffer_is_done_after_one_write() {
    let mut w = WriteAll::new(0);
    assert_eq!(w.first_step(), WriteStep::Write { from: 0 });
    assert_eq!(w.step(WriteEvent::Wrote { count: 0, pending_writes: false }), WriteStep::Done);
}

#[test]
fn a_short_write_goes_on_where_it_stopped() {
    let mut w = WriteAll::new(10);
    assert_eq!(
        w.step(WriteEvent::Wrote { count: 4, pending_writes: false }),
        WriteStep::Write { from: 4 }
    );
    assert_eq!(
        w.step(WriteEvent::Wrote { count: 0, pending_writes: false }),
        WriteStep::Write { from: 4 }
    );
    assert_eq!(w.step(WriteEvent::Wrote { count: 6, pending_writes: false }), WriteStep::Done);
}

#[test]
fn a_short_write_yields_while_the_send_buffer_drains() {
    let mut w = WriteAll::new(10);
    assert_eq!(w.step(WriteEvent::Wrote { count: 4, pending_writes: true }), WriteStep::Yield);
    assert_eq!(w.pause, Pause::Draining);
    assert_eq!(w.step(WriteEvent::Resumed { pending_writes: true }), WriteStep::Yield);
    assert_eq!(w.step(WriteEvent::Resumed { pending_writes: true }), WriteStep::Yield);
    assert_eq!(
        w.step(WriteEvent::Resumed { pending_writes: false }),
        WriteStep::Write { from: 4 }
    );
    assert_eq!(w.pause, Pause::Running);
}

#[test]
fn a_stream_that_is_not_ready_suspends_the_write() {
    let mut w = WriteAll::new(10);
    assert_eq!(w.step(WriteEvent::WouldBlock), WriteStep::Yield);
    assert_eq!(w.pause, Pause::Blocked);
    assert_eq!(w.step(WriteEvent::Resumed { pending_writes: true }), WriteStep::Write { from: 0 });
    assert_eq!(w.step(WriteEvent::Interrupted), WriteStep::Yield);
    assert_eq!(w.step(WriteEvent::Resumed { pending_writes: false }), WriteStep::Write { from: 0 });
    assert_eq!(w.cursor, 0);
}

#[test]
fn a_failure_ends_the_write() {
    let mut w = WriteAll::new(10);
    w.step(WriteEvent::Wrote { count: 3, pending_writes: false });
    assert_eq!(w.step(WriteEvent::Failed), WriteStep::Failed);
    assert_eq!(w.pause, Pause::Broken);
    assert_eq!(w.cursor, 3);
    assert_eq!(w.step(WriteEvent::Wrote { count: 7, pending_writes: false }), WriteStep::Failed);
    assert_eq!(w.cursor, 3);
}

#[test]
fn a_count_beyond_the_buffer_stops_at_its_end() {
    let mut w = WriteAll::new(10);
    assert_eq!(w.step(WriteEvent::Wrote { count: usize::MAX, pending_writes: false }), WriteStep::Done);
    assert_eq!(w.cursor, 10);
}
