//! The capture control loop: an optional one-shot transmit is followed by a
//! receive/render loop that runs under a count limit and/or a wall-clock
//! deadline, absorbs poll timeouts, and aborts on any other receive failure.
//!
//! The loop's decisions are pure functions of an immutable [`RunConfig`] and a
//! small mutable [`RunState`]; the caller performs the actual channel I/O and
//! hands each poll's outcome back as a [`RecvOutcome`].
use crate::render::{hex_view_of, render_hex_view};
use vstd::prelude::*;

verus! {

/// How many frames the run may still receive: either unbounded, or a
/// concrete number of frames that counts down to zero.
#[derive(Clone, Copy, Debug, PartialEq, Eq, Structural)]
pub enum CountLimit {
    Unbounded,
    Bounded(u64),
}

/// Everything a run is configured with before the loop starts: an optional
/// payload to transmit once, an optional overall deadline counted from loop
/// start, and the receive count limit.
pub struct RunConfig {
    pub payload: Option<Vec<u8>>,
    pub deadline_ms: Option<u64>,
    pub limit: CountLimit,
}

/// The loop's mutable state: the remaining receive budget and the elapsed
/// time since loop start, as most recently measured.
#[derive(Clone, Copy, Debug, PartialEq, Eq, Structural)]
pub struct RunState {
    pub remaining: CountLimit,
    pub elapsed_ms: u64,
}

/// The outcome of one receive poll, as a closed set: a frame arrived, the
/// poll timed out benignly, or the channel failed fatally.
pub enum RecvOutcome {
    Delivered(Vec<u8>),
    TimedOut,
    Fatal,
}

/// What the loop does in response to one poll outcome: display a rendered
/// frame and go on, go on silently, or abort the run.
pub enum StepAction {
    Render(String),
    Continue,
    Abort,
}

/// Why a run ended: a termination condition fired (clean exit), a fatal
/// receive error aborted it, or the supplied outcomes ran out while the loop
/// still wanted to poll.
#[derive(Clone, Copy, Debug, PartialEq, Eq, Structural)]
pub enum RunEnd {
    Completed,
    Aborted,
    Pending,
}

/// One scripted poll: what the channel returned and the time on the clock
/// when the poll came back.
pub struct PollEvent {
    pub outcome: RecvOutcome,
    pub elapsed_ms: u64,
}

/// What a whole run produced: the rendered text of every delivered frame, in
/// order, how the run ended, and the state it ended in.
pub struct RunReport {
    pub rendered: Vec<String>,
    pub end: RunEnd,
    pub state: RunState,
}

/// The mathematical account of a run: the bytes of every frame delivered, in
/// order, how the run ended, and the final state.
pub ghost struct ModelRun {
    pub delivered: Seq<Seq<u8>>,
    pub end: RunEnd,
    pub state: RunState,
}

/// The count limit forbids any further receive.
pub open spec fn count_exhausted(c: CountLimit) -> bool {
    match c {
        CountLimit::Unbounded => false,
        CountLimit::Bounded(k) => k == 0,
    }
}

/// The configured deadline, if there is one, has strictly elapsed.
pub open spec fn deadline_passed(deadline_ms: Option<u64>, elapsed_ms: u64) -> bool {
    match deadline_ms {
        Option::None => false,
        Option::Some(d) => elapsed_ms > d,
    }
}

/// The check made before every poll: the loop terminates exactly when the
/// remaining count has reached zero (if bounded) or the elapsed time exceeds
/// the deadline (if one is set); either condition may fire first.
pub open spec fn stop_now(cfg: RunConfig, st: RunState) -> bool {
    count_exhausted(st.remaining) || deadline_passed(cfg.deadline_ms, st.elapsed_ms)
}

/// One receive spends one unit of a bounded budget; an unbounded budget is
/// untouched.
pub open spec fn spend_one(c: CountLimit) -> CountLimit
    recommends
        !count_exhausted(c),
{
    match c {
        CountLimit::Unbounded => CountLimit::Unbounded,
        CountLimit::Bounded(k) => CountLimit::Bounded((k - 1) as u64),
    }
}

/// The state after a delivered frame: the budget is spent, the clock reading
/// is untouched.
pub open spec fn after_delivery(st: RunState) -> RunState {
    RunState { remaining: spend_one(st.remaining), elapsed_ms: st.elapsed_ms }
}

/// The state after a fresh clock reading: elapsed time only ever advances.
pub open spec fn advance(st: RunState, now_ms: u64) -> RunState {
    RunState {
        remaining: st.remaining,
        elapsed_ms: if now_ms > st.elapsed_ms {
            now_ms
        } else {
            st.elapsed_ms
        },
    }
}

/// The state a run starts in: the full configured budget and no time elapsed.
pub open spec fn initial_state(cfg: RunConfig) -> RunState {
    RunState { remaining: cfg.limit, elapsed_ms: 0 }
}

/// The run, unrolled over a given script of poll outcomes starting at
/// position `i`: before each poll the termination condition is checked; a
/// delivered frame spends budget and is recorded; a timeout only lets the
/// clock advance; a fatal error ends the run at once.
pub open spec fn model_run_from(
    cfg: RunConfig,
    st: RunState,
    events: Seq<PollEvent>,
    i: int,
) -> ModelRun
    decreases events.len() - i,
{
    if stop_now(cfg, st) {
        ModelRun { delivered: Seq::empty(), end: RunEnd::Completed, state: st }
    } else if i < 0 || i >= events.len() {
        ModelRun { delivered: Seq::empty(), end: RunEnd::Pending, state: st }
    } else {
        match events[i].outcome {
            RecvOutcome::Fatal => ModelRun {
                delivered: Seq::empty(),
                end: RunEnd::Aborted,
                state: st,
            },
            RecvOutcome::TimedOut => model_run_from(
                cfg,
                advance(st, events[i].elapsed_ms),
                events,
                i + 1,
            ),
            RecvOutcome::Delivered(b) => {
                let rest = model_run_from(
                    cfg,
                    advance(after_delivery(st), events[i].elapsed_ms),
                    events,
                    i + 1,
                );
                ModelRun {
                    delivered: seq![b@] + rest.delivered,
                    end: rest.end,
                    state: rest.state,
                }
            },
        }
    }
}

/// A whole run from the initial state over a script of poll outcomes.
pub open spec fn model_run(cfg: RunConfig, events: Seq<PollEvent>) -> ModelRun {
    model_run_from(cfg, initial_state(cfg), events, 0)
}

/// The count limit that a signed command-line count stands for: any negative
/// value is the documented sentinel for an unbounded run.
pub fn limit_from_sentinel(n: i64) -> (r: CountLimit)
    ensures
        n < 0 ==> r == CountLimit::Unbounded,
        n >= 0 ==> r == CountLimit::Bounded(n as u64),
{
    if n < 0 {
        CountLimit::Unbounded
    } else {
        CountLimit::Bounded(n as u64)
    }
}

/// The state a run starts in.
pub fn initial_run_state(cfg: &RunConfig) -> (r: RunState)
    ensures
        r == initial_state(*cfg),
{
    RunState { remaining: cfg.limit, elapsed_ms: 0 }
}

/// The termination condition, checked before every poll.
pub fn should_stop(cfg: &RunConfig, st: &RunState) -> (r: bool)
    ensures
        r == stop_now(*cfg, *st),
{
    let count_done = match st.remaining {
        CountLimit::Unbounded => false,
        CountLimit::Bounded(k) => k == 0,
    };
    let deadline_done = match cfg.deadline_ms {
        Option::None => false,
        Option::Some(d) => st.elapsed_ms > d,
    };
    count_done || deadline_done
}

/// Records a fresh clock reading; the elapsed measurement only ever advances.
pub fn note_elapsed(st: &mut RunState, now_ms: u64)
    ensures
        *final(st) == advance(*old(st), now_ms),
{
    if now_ms > st.elapsed_ms {
        st.elapsed_ms = now_ms;
    }
}

/// Classifies one poll outcome and updates the state accordingly: a
/// delivered frame is rendered for display and spends one unit of a bounded
/// budget; a timeout changes nothing and the loop goes on; a fatal error
/// changes nothing and the run must abort.
pub fn process_outcome(st: &mut RunState, outcome: &RecvOutcome) -> (r: StepAction)
    requires
        !count_exhausted(old(st).remaining),
    ensures
        (*outcome matches RecvOutcome::Delivered(b) ==> (r matches StepAction::Render(s)
            && s@ == hex_view_of(b@)) && *final(st) == after_delivery(*old(st))),
        *outcome is TimedOut ==> r is Continue && *final(st) == *old(st),
        *outcome is Fatal ==> r is Abort && *final(st) == *old(st),
{
    match outcome {
        RecvOutcome::Delivered(bytes) => {
            let text = render_hex_view(bytes);
            st.remaining = match st.remaining {
                CountLimit::Unbounded => CountLimit::Unbounded,
                CountLimit::Bounded(k) => CountLimit::Bounded(k - 1),
            };
            StepAction::Render(text)
        },
        RecvOutcome::TimedOut => StepAction::Continue,
        RecvOutcome::Fatal => StepAction::Abort,
    }
}

/// Drives a whole run over a script of poll outcomes, exactly as the model
/// describes it: the report carries the rendered text of every frame the
/// model delivers, in order, and ends the way the model ends.
pub fn run_with_events(cfg: &RunConfig, events: &Vec<PollEvent>) -> (r: RunReport)
    ensures
        ({
            let m = model_run(*cfg, events@);
            &&& r.end == m.end
            &&& r.state == m.state
            &&& r.rendered@.len() == m.delivered.len()
            &&& forall|j: int|
                0 <= j < m.delivered.len() ==> #[trigger] r.rendered@[j]@ == hex_view_of(
                    m.delivered[j],
                )
        }),
{
    let mut st = initial_run_state(cfg);
    let mut rendered: Vec<String> = Vec::new();
    let ghost mut delivered: Seq<Seq<u8>> = Seq::empty();
    let mut i: usize = 0;
    let mut end: RunEnd = RunEnd::Pending;
    loop
        invariant
            i <= events@.len(),
            rendered@.len() == delivered.len(),
            forall|j: int|
                0 <= j < delivered.len() ==> #[trigger] rendered@[j]@ == hex_view_of(delivered[j]),
            ({
                let m = model_run(*cfg, events@);
                let rest = model_run_from(*cfg, st, events@, i as int);
                &&& m.end == rest.end
                &&& m.state == rest.state
                &&& m.delivered == delivered + rest.delivered
            }),
        ensures
            rendered@.len() == delivered.len(),
            forall|j: int|
                0 <= j < delivered.len() ==> #[trigger] rendered@[j]@ == hex_view_of(delivered[j]),
            ({
                let m = model_run(*cfg, events@);
                &&& m.end == end
                &&& m.state == st
                &&& m.delivered.len() == delivered.len()
                &&& forall|j: int|
                    0 <= j < delivered.len() ==> #[trigger] m.delivered[j] == delivered[j]
            }),
        decreases events@.len() - i,
    {
        if should_stop(cfg, &st) {
            end = RunEnd::Completed;
            break ;
        }
        if i >= events.len() {
            end = RunEnd::Pending;
            break ;
        }
        let ev = &events[i];
        let action = process_outcome(&mut st, &ev.outcome);
        match action {
            StepAction::Abort => {
                end = RunEnd::Aborted;
                break ;
            },
            StepAction::Continue => {
                note_elapsed(&mut st, ev.elapsed_ms);
            },
            StepAction::Render(text) => {
                rendered.push(text);
                proof {
                    delivered = delivered.push(ev.outcome->Delivered_0@);
                    assert(model_run(*cfg, events@).delivered =~= delivered + model_run_from(
                        *cfg,
                        advance(st, ev.elapsed_ms),
                        events@,
                        i + 1,
                    ).delivered);
                }
                note_elapsed(&mut st, ev.elapsed_ms);
            },
        }
        i = i + 1;
    }
    RunReport { rendered, end, state: st }
}

/// Law: under a bounded count limit, a run delivers at most the remaining
/// count of frames, and the final budget accounts exactly for every frame
/// delivered.
pub proof fn lemma_count_limit(cfg: RunConfig, st: RunState, events: Seq<PollEvent>, i: int, k: u64)
    requires
        st.remaining == CountLimit::Bounded(k),
    ensures
        ({
            let m = model_run_from(cfg, st, events, i);
            &&& m.delivered.len() <= k
            &&& m.state.remaining == CountLimit::Bounded((k - m.delivered.len()) as u64)
        }),
    decreases events.len() - i,
{
    if stop_now(cfg, st) {
    } else if i < 0 || i >= events.len() {
    } else {
        match events[i].outcome {
            RecvOutcome::Fatal => {},
            RecvOutcome::TimedOut => {
                lemma_count_limit(cfg, advance(st, events[i].elapsed_ms), events, i + 1, k);
            },
            RecvOutcome::Delivered(_) => {
                lemma_count_limit(
                    cfg,
                    advance(after_delivery(st), events[i].elapsed_ms),
                    events,
                    i + 1,
                    (k - 1) as u64,
                );
            },
        }
    }
}

/// Law: a run whose count limit is zero stops at once: nothing is delivered,
/// no poll outcome is consumed, and the end is a clean completion.
pub proof fn lemma_zero_count_stops_immediately(cfg: RunConfig, events: Seq<PollEvent>)
    requires
        cfg.limit == CountLimit::Bounded(0),
    ensures
        model_run(cfg, events) == (ModelRun {
            delivered: Seq::<Seq<u8>>::empty(),
            end: RunEnd::Completed,
            state: initial_state(cfg),
        }),
{
}

/// Law: an unbounded count budget stays unbounded for the whole run.
pub proof fn lemma_unbounded_stays(cfg: RunConfig, st: RunState, events: Seq<PollEvent>, i: int)
    requires
        st.remaining == CountLimit::Unbounded,
    ensures
        model_run_from(cfg, st, events, i).state.remaining == CountLimit::Unbounded,
    decreases events.len() - i,
{
    if stop_now(cfg, st) {
    } else if i < 0 || i >= events.len() {
    } else {
        match events[i].outcome {
            RecvOutcome::Fatal => {},
            RecvOutcome::TimedOut => {
                lemma_unbounded_stays(cfg, advance(st, events[i].elapsed_ms), events, i + 1);
            },
            RecvOutcome::Delivered(_) => {
                lemma_unbounded_stays(
                    cfg,
                    advance(after_delivery(st), events[i].elapsed_ms),
                    events,
                    i + 1,
                );
            },
        }
    }
}

/// Law: the loop completes cleanly only because a termination condition
/// holds of its final state: the count is exhausted or the deadline has
/// passed, whichever condition was met first.
pub proof fn lemma_completion_reason(cfg: RunConfig, st: RunState, events: Seq<PollEvent>, i: int)
    ensures
        model_run_from(cfg, st, events, i).end == RunEnd::Completed ==> stop_now(
            cfg,
            model_run_from(cfg, st, events, i).state,
        ),
    decreases events.len() - i,
{
    if stop_now(cfg, st) {
    } else if i < 0 || i >= events.len() {
    } else {
        match events[i].outcome {
            RecvOutcome::Fatal => {},
            RecvOutcome::TimedOut => {
                lemma_completion_reason(cfg, advance(st, events[i].elapsed_ms), events, i + 1);
            },
            RecvOutcome::Delivered(_) => {
                lemma_completion_reason(
                    cfg,
                    advance(after_delivery(st), events[i].elapsed_ms),
                    events,
                    i + 1,
                );
            },
        }
    }
}

/// Law: with a deadline configured and an unbounded count, a clean completion
/// happens only at or after the deadline: the final elapsed measurement
/// strictly exceeds it.
pub proof fn lemma_deadline_run(cfg: RunConfig, events: Seq<PollEvent>, d: u64)
    requires
        cfg.deadline_ms == Some(d),
        cfg.limit == CountLimit::Unbounded,
    ensures
        model_run(cfg, events).end == RunEnd::Completed ==> model_run(
            cfg,
            events,
        ).state.elapsed_ms > d,
{
    lemma_completion_reason(cfg, initial_state(cfg), events, 0);
    lemma_unbounded_stays(cfg, initial_state(cfg), events, 0);
}

/// Law: once the deadline has passed, the loop stops at the very next
/// termination check: nothing more is delivered, no further poll outcome is consumed, and
/// the run completes cleanly with its state untouched.
pub proof fn lemma_deadline_halts_promptly(
    cfg: RunConfig,
    st: RunState,
    events: Seq<PollEvent>,
    i: int,
    d: u64,
)
    requires
        cfg.deadline_ms == Some(d),
        st.elapsed_ms > d,
    ensures
        model_run_from(cfg, st, events, i) == (ModelRun {
            delivered: Seq::<Seq<u8>>::empty(),
            end: RunEnd::Completed,
            state: st,
        }),
{
}

/// Law: a poll timeout never decrements the remaining count and never
/// terminates the loop by itself: over a script of timeouts alone, nothing is
/// delivered, the budget is untouched, and with no deadline set the loop is
/// still waiting to poll when the script runs out.
pub proof fn lemma_timeouts_are_benign(cfg: RunConfig, st: RunState, events: Seq<PollEvent>, i: int)
    requires
        forall|j: int| i <= j < events.len() ==> #[trigger] events[j].outcome is TimedOut,
    ensures
        ({
            let m = model_run_from(cfg, st, events, i);
            &&& m.delivered.len() == 0
            &&& m.state.remaining == st.remaining
            &&& m.end != RunEnd::Aborted
            &&& (cfg.deadline_ms is None && !count_exhausted(st.remaining)) ==> m.end
                == RunEnd::Pending
        }),
    decreases events.len() - i,
{
    if stop_now(cfg, st) {
    } else if i < 0 || i >= events.len() {
    } else {
        lemma_timeouts_are_benign(cfg, advance(st, events[i].elapsed_ms), events, i + 1);
    }
}

/// Law: a fatal receive error halts the loop at once, whatever the remaining
/// count or the deadline: the run aborts at the poll that failed, delivering
/// nothing further and leaving the state as it was.
pub proof fn lemma_fatal_aborts(cfg: RunConfig, st: RunState, events: Seq<PollEvent>, i: int)
    requires
        0 <= i < events.len(),
        events[i].outcome is Fatal,
        !stop_now(cfg, st),
    ensures
        model_run_from(cfg, st, events, i) == (ModelRun {
            delivered: Seq::<Seq<u8>>::empty(),
            end: RunEnd::Aborted,
            state: st,
        }),
{
}

} // verus!
