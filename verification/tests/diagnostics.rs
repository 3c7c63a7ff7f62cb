use shrimply_model::diagnostics::{
    classify, count, flush_timings, record_timing, resilient_flush_result,
    resilient_write_result, write_decision, DiagnosticsState, ResilientWriter, StreamOutcome,
    WriteDecision,
};
use std::io::{self, Error, ErrorKind, Write};
use std::sync::atomic::{AtomicUsize, Ordering};

struct MockWriter {
    error_to_return: Option<ErrorKind>,
    write_count: AtomicUsize,
    bytes_written: std::sync::Mutex<Vec<u8>>,
}

impl MockWriter {
    fn with_error(kind: ErrorKind) -> Self {
        Self {
            error_to_return: Some(kind),
            write_count: AtomicUsize::new(0),
            bytes_written: std::sync::Mutex::new(Vec::new()),
        }
    }

    fn healthy() -> Self {
        Self {
            error_to_return: None,
            write_count: AtomicUsize::new(0),
            bytes_written: std::sync::Mutex::new(Vec::new()),
        }
    }
}

impl Write for MockWriter {
    fn write(&mut self, buf: &[u8]) -> io::Result<usize> {
        self.write_count.fetch_add(1, Ordering::SeqCst);
        if let Some(kind) = self.error_to_return {
            return Err(Error::new(kind, "mock error"));
        }
        self.bytes_written.lock().unwrap().extend_from_slice(buf);
        Ok(buf.len())
    }

    fn flush(&mut self) -> io::Result<()> {
        if let Some(kind) = self.error_to_return {
            return Err(Error::new(kind, "mock error"));
        }
        Ok(())
    }
}

/// A writer that reports what the library decides for each call of the
/// stream it wraps.
struct Resilient<W>(ResilientWriter<W>);

impl<W> Resilient<W> {
    fn new(inner: W) -> Self {
        Resilient(ResilientWriter::new(inner))
    }
}

impl<W: Write> Write for Resilient<W> {
    fn write(&mut self, buf: &[u8]) -> io::Result<usize> {
        resilient_write_result(self.0.inner.write(buf), buf.len())
    }

    fn flush(&mut self) -> io::Result<()> {
        resilient_flush_result(self.0.inner.flush())
    }
}

#[test]
fn absorbs_would_block_without_error_or_infinite_loop() {
    let mock = MockWriter::with_error(ErrorKind::WouldBlock);
    let mut resilient = Resilient::new(mock);
    let result = resilient.write_all(b"test log event");
    assert!(
        result.is_ok(),
        "write_all must succeed when stream would block"
    );
    assert_eq!(resilient.0.inner.write_count.load(Ordering::SeqCst), 1);
}

#[test]
fn absorbs_broken_pipe_without_error() {
    let mock = MockWriter::with_error(ErrorKind::BrokenPipe);
    let mut resilient = Resilient::new(mock);
    let result = resilient.write_all(b"test log event");
    assert!(
        result.is_ok(),
        "write_all must succeed when stream has broken pipe"
    );
}

#[test]
fn writes_normally_when_stream_is_healthy() {
    let mock = MockWriter::healthy();
    let mut resilient = Resilient::new(mock);
    let result = resilient.write_all(b"test log event");
    assert!(result.is_ok());
    assert_eq!(
        resilient.0.inner.bytes_written.lock().unwrap().as_slice(),
        b"test log event"
    );
}

#[test]
fn flush_absorbs_would_block_and_broken_pipe() {
    let mut resilient_wb = Resilient::new(MockWriter::with_error(ErrorKind::WouldBlock));
    assert!(resilient_wb.flush().is_ok());

    let mut resilient_bp = Resilient::new(MockWriter::with_error(ErrorKind::BrokenPipe));
    assert!(resilient_bp.flush().is_ok());
}

#[test]
fn propagates_unrelated_serious_io_errors() {
    let mock = MockWriter::with_error(ErrorKind::PermissionDenied);
    let mut resilient = Resilient::new(mock);
    let result = resilient.write_all(b"test log event");
    assert!(result.is_err());
    assert_eq!(result.unwrap_err().kind(), ErrorKind::PermissionDenied);
}

#[test]
fn write_decision_per_outcome() {
    assert_eq!(write_decision(StreamOutcome::Done(3), 10), WriteDecision::Accepted(3));
    assert_eq!(write_decision(StreamOutcome::WouldBlock, 10), WriteDecision::Accepted(10));
    assert_eq!(write_decision(StreamOutcome::BrokenPipe, 7), WriteDecision::Accepted(7));
    assert_eq!(write_decision(StreamOutcome::Failed, 7), WriteDecision::PassOnError);
}

#[test]
fn timings_accumulate_and_flush_once_per_second() {
    let mut state = DiagnosticsState::new();
    record_timing(&mut state, "draw", 3_000);
    record_timing(&mut state, "layout", 1_000);
    record_timing(&mut state, "draw", 5_000);
    count(&mut state, "resize");
    count(&mut state, "playhead");
    count(&mut state, "resize");

    assert!(flush_timings(&mut state, 999_999_999).is_none());

    let report = flush_timings(&mut state, 1_500_000_000).expect("a second has passed");
    assert_eq!(report.window_micros, 1_500_000);
    assert_eq!(report.stages.len(), 2);
    assert_eq!(report.stages[0].0, "draw");
    assert_eq!(report.stages[0].1.calls, 2);
    assert_eq!(report.stages[0].1.total_micros, 8);
    assert_eq!(report.stages[0].1.average_micros, 4);
    assert_eq!(report.stages[0].1.maximum_micros, 5);
    assert_eq!(report.stages[1].0, "layout");
    assert_eq!(report.stages[1].1.calls, 1);
    // Counts come out in name order.
    assert_eq!(report.counts, vec![("playhead".to_string(), 1), ("resize".to_string(), 2)]);

    // The next window reports every stage and event again, cleared.
    let next = flush_timings(&mut state, 1_000_000_000).expect("a second has passed");
    assert_eq!(next.stages.len(), 2);
    assert_eq!(next.stages[0].1.calls, 0);
    assert_eq!(next.stages[0].1.average_micros, 0);
    assert_eq!(next.counts, vec![("playhead".to_string(), 0), ("resize".to_string(), 0)]);
}

#[test]
fn error_kinds_classify() {
    assert_eq!(classify(true, false), StreamOutcome::WouldBlock);
    assert_eq!(classify(false, true), StreamOutcome::BrokenPipe);
    assert_eq!(classify(false, false), StreamOutcome::Failed);
    assert_eq!(resilient_write_result(Ok(3), 10).unwrap(), 3);
    assert_eq!(resilient_write_result(Err(Error::new(ErrorKind::WouldBlock, "x")), 10).unwrap(), 10);
    assert_eq!(
        resilient_write_result(Err(Error::new(ErrorKind::Other, "x")), 10).unwrap_err().kind(),
        ErrorKind::Other
    );
    assert!(resilient_flush_result(Err(Error::new(ErrorKind::BrokenPipe, "x"))).is_ok());
    assert!(resilient_flush_result(Err(Error::new(ErrorKind::Interrupted, "x"))).is_err());
}
