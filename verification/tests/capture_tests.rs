use nethex::capture::{
    limit_from_sentinel, run_with_events, CountLimit, PollEvent, RecvOutcome, RunConfig, RunEnd,
};

fn config(deadline_ms: Option<u64>, limit: CountLimit) -> RunConfig {
    RunConfig { payload: None, deadline_ms, limit }
}

fn delivered(bytes: Vec<u8>, at_ms: u64) -> PollEvent {
    PollEvent { outcome: RecvOutcome::Delivered(bytes), elapsed_ms: at_ms }
}

fn timed_out(at_ms: u64) -> PollEvent {
    PollEvent { outcome: RecvOutcome::TimedOut, elapsed_ms: at_ms }
}

fn fatal(at_ms: u64) -> PollEvent {
    PollEvent { outcome: RecvOutcome::Fatal, elapsed_ms: at_ms }
}

#[test]
fn count_zero_stops_immediately() {
    let cfg = config(None, CountLimit::Bounded(0));
    let events = vec![delivered(vec![1, 2, 3], 1), delivered(vec![4], 2)];
    let report = run_with_events(&cfg, &events);
    assert_eq!(report.end, RunEnd::Completed);
    assert_eq!(report.rendered.len(), 0);
    assert_eq!(report.state.remaining, CountLimit::Bounded(0));
    assert_eq!(report.state.elapsed_ms, 0);
}

#[test]
fn count_limit_caps_deliveries() {
    let cfg = config(Some(1000), CountLimit::Bounded(2));
    let events = vec![
        delivered(vec![1], 1),
        delivered(vec![2], 2),
        delivered(vec![3], 3),
    ];
    let report = run_with_events(&cfg, &events);
    assert_eq!(report.end, RunEnd::Completed);
    assert_eq!(report.rendered.len(), 2);
    assert_eq!(report.state.remaining, CountLimit::Bounded(0));
    assert_eq!(report.state.elapsed_ms, 2);
}

#[test]
fn deadline_fires_before_count() {
    let cfg = config(Some(50), CountLimit::Bounded(100));
    let events = vec![timed_out(10), timed_out(60), delivered(vec![9], 70)];
    let report = run_with_events(&cfg, &events);
    assert_eq!(report.end, RunEnd::Completed);
    assert_eq!(report.rendered.len(), 0);
    assert_eq!(report.state.remaining, CountLimit::Bounded(100));
    assert_eq!(report.state.elapsed_ms, 60);
}

#[test]
fn count_fires_before_deadline() {
    let cfg = config(Some(1_000_000), CountLimit::Bounded(1));
    let events = vec![delivered(vec![7], 5), delivered(vec![8], 6)];
    let report = run_with_events(&cfg, &events);
    assert_eq!(report.end, RunEnd::Completed);
    assert_eq!(report.rendered.len(), 1);
    assert_eq!(report.state.remaining, CountLimit::Bounded(0));
    assert_eq!(report.state.elapsed_ms, 5);
}

#[test]
fn timeout_never_decrements_count() {
    let cfg = config(None, CountLimit::Bounded(3));
    let events = vec![timed_out(1), timed_out(2), timed_out(3), timed_out(4)];
    let report = run_with_events(&cfg, &events);
    assert_eq!(report.end, RunEnd::Pending);
    assert_eq!(report.rendered.len(), 0);
    assert_eq!(report.state.remaining, CountLimit::Bounded(3));
    assert_eq!(report.state.elapsed_ms, 4);
}

#[test]
fn fatal_error_aborts_at_once() {
    let cfg = config(Some(10_000), CountLimit::Unbounded);
    let events = vec![delivered(vec![1], 1), fatal(2), delivered(vec![2], 3)];
    let report = run_with_events(&cfg, &events);
    assert_eq!(report.end, RunEnd::Aborted);
    assert_eq!(report.rendered.len(), 1);
    assert_eq!(report.state.remaining, CountLimit::Unbounded);
    assert_eq!(report.state.elapsed_ms, 1);
}

#[test]
fn unbounded_run_waits_for_more() {
    let cfg = config(None, CountLimit::Unbounded);
    let events = vec![delivered(vec![1], 1), timed_out(2)];
    let report = run_with_events(&cfg, &events);
    assert_eq!(report.end, RunEnd::Pending);
    assert_eq!(report.rendered.len(), 1);
    assert_eq!(report.state.remaining, CountLimit::Unbounded);
}

#[test]
fn render_known_bytes_is_exact_and_deterministic() {
    let cfg = config(None, CountLimit::Bounded(1));
    let events = vec![delivered(vec![0x11, 0xEE, 0x22, 0xFF], 0)];
    let report = run_with_events(&cfg, &events);
    assert_eq!(report.rendered.len(), 1);
    let expected = format!(
        "00000000  11 EE 22 FF{}  | \u{25c4}\u{03b5}\".{} |",
        " ".repeat(36),
        " ".repeat(12)
    );
    assert_eq!(report.rendered[0], expected);
    let again = run_with_events(&cfg, &events);
    assert_eq!(again.rendered[0], report.rendered[0]);
}

#[test]
fn sentinel_count_maps_to_limit() {
    assert_eq!(limit_from_sentinel(-1), CountLimit::Unbounded);
    assert_eq!(limit_from_sentinel(0), CountLimit::Bounded(0));
    assert_eq!(limit_from_sentinel(5), CountLimit::Bounded(5));
}
