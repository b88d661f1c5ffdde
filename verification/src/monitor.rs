//! The monitor loop, as a machine that the caller drives.
//!
//! The monitor starts by asking for a first rate and then asks again at each
//! tick. It does no fetching, waiting or sounding itself: the caller fetches,
//! hands the outcome to [`Monitor::advance`], and does what the step says.
//! The first failed fetch ends the run, whichever failure it is; there is no
//! retry.

use vstd::prelude::*;
use crate::rate::Rate;
use crate::source::FetchError;
use crate::tracker::{
    alert_for, alerts_for_all, state_after, state_after_all, AlertKind, TrackerState,
};

verus! {

/// Seconds from one tick to the next.
pub const TICK_SECONDS: u64 = 10;

/// The monitor between two fetches.
#[derive(Clone, Copy, Debug, PartialEq, Eq, Structural)]
pub enum Monitor {
    /// No rate has been fetched yet.
    Starting { threshold: Rate },
    /// A first rate has been fetched, and the tracker is at work.
    Running { threshold: Rate, state: TrackerState },
}

/// What the caller is to do after a fetch.
#[derive(Clone, Copy, Debug, PartialEq, Eq, Structural)]
pub enum Step {
    /// Sound the alert, if there is one, then wait for the next tick and
    /// fetch again, with the monitor given.
    Continue { monitor: Monitor, alert: Option<AlertKind> },
    /// Report the error and end the process with a failure status. No
    /// monitor is left to go on with.
    Fatal { error: FetchError },
}

/// The step that follows the outcome of a fetch.
pub open spec fn step_of(monitor: Monitor, outcome: Result<Rate, FetchError>) -> Step {
    match outcome {
        Err(error) => Step::Fatal { error },
        Ok(sample) => match monitor {
            Monitor::Starting { threshold } => Step::Continue {
                monitor: Monitor::Running {
                    threshold,
                    state: TrackerState { reference_rate: sample, lower_low: sample },
                },
                alert: None,
            },
            Monitor::Running { threshold, state } => Step::Continue {
                monitor: Monitor::Running {
                    threshold,
                    state: state_after(state, threshold, sample),
                },
                alert: alert_for(state, threshold, sample),
            },
        },
    }
}

/// How a run over fetch outcomes ends: with the error of the first failed
/// fetch, or with the monitor that is left when the outcomes are used up.
pub open spec fn run_end(monitor: Monitor, outcomes: Seq<Result<Rate, FetchError>>) -> Result<
    Monitor,
    FetchError,
>
    decreases outcomes.len(),
{
    if outcomes.len() == 0 {
        Ok(monitor)
    } else {
        match step_of(monitor, outcomes[0]) {
            Step::Fatal { error } => Err(error),
            Step::Continue { monitor: next, .. } => run_end(next, outcomes.drop_first()),
        }
    }
}

/// The alerts that a run over fetch outcomes sounds, in their order.
pub open spec fn run_alerts(monitor: Monitor, outcomes: Seq<Result<Rate, FetchError>>) -> Seq<
    AlertKind,
>
    decreases outcomes.len(),
{
    if outcomes.len() == 0 {
        Seq::empty()
    } else {
        match step_of(monitor, outcomes[0]) {
            Step::Fatal { .. } => Seq::empty(),
            Step::Continue { monitor: next, alert } => {
                let rest = run_alerts(next, outcomes.drop_first());
                match alert {
                    Some(kind) => seq![kind] + rest,
                    None => rest,
                }
            },
        }
    }
}

/// The number of fetches that a run over fetch outcomes makes: all of them,
/// or those up to the first failed one.
pub open spec fn run_fetches(monitor: Monitor, outcomes: Seq<Result<Rate, FetchError>>) -> nat
    decreases outcomes.len(),
{
    if outcomes.len() == 0 {
        0
    } else {
        match step_of(monitor, outcomes[0]) {
            Step::Fatal { .. } => 1,
            Step::Continue { monitor: next, .. } => 1 + run_fetches(next, outcomes.drop_first()),
        }
    }
}

/// What a run over given fetch outcomes came to.
#[derive(Debug)]
pub struct Replay {
    /// The number of fetches made.
    pub fetches: usize,
    /// The alerts sounded, in their order.
    pub alerts: Vec<AlertKind>,
    /// The error that ended the run, or the monitor that is left.
    pub end: Result<Monitor, FetchError>,
}

impl Monitor {
    /// A monitor that has not fetched yet.
    pub fn new(threshold: Rate) -> (m: Monitor)
        ensures
            m == (Monitor::Starting { threshold }),
    {
        Monitor::Starting { threshold }
    }

    /// The threshold that breaks are measured by.
    pub open spec fn spec_threshold(self) -> Rate {
        match self {
            Monitor::Starting { threshold } => threshold,
            Monitor::Running { threshold, .. } => threshold,
        }
    }

    /// The threshold that breaks are measured by.
    #[verifier::when_used_as_spec(spec_threshold)]
    pub fn threshold(self) -> (t: Rate)
        ensures
            t == self.spec_threshold(),
    {
        match self {
            Monitor::Starting { threshold } => threshold,
            Monitor::Running { threshold, .. } => threshold,
        }
    }

    /// Takes in the outcome of a fetch. A failed fetch is fatal, in either
    /// state. A first rate starts the tracker and raises no alert. Each
    /// later rate goes to the tracker, and its alert is handed on.
    pub fn advance(self, outcome: Result<Rate, FetchError>) -> (step: Step)
        ensures
            step == step_of(self, outcome),
            outcome matches Err(error) ==> step == (Step::Fatal { error }),
            outcome is Ok ==> step is Continue,
            step matches Step::Continue { monitor, .. } ==> monitor is Running
                && monitor.threshold() == self.threshold(),
    {
        match outcome {
            Err(error) => Step::Fatal { error },
            Ok(sample) => match self {
                Monitor::Starting { threshold } => Step::Continue {
                    monitor: Monitor::Running { threshold, state: TrackerState::new(sample) },
                    alert: None,
                },
                Monitor::Running { threshold, state } => {
                    let mut state = state;
                    let alert = state.observe(threshold, sample);
                    Step::Continue { monitor: Monitor::Running { threshold, state }, alert }
                },
            },
        }
    }

    /// Runs the monitor over given fetch outcomes, one for each fetch in
    /// turn, and stops at the first failed one. Nothing is fetched, waited
    /// for or sounded.
    pub fn replay(self, outcomes: &Vec<Result<Rate, FetchError>>) -> (r: Replay)
        ensures
            r.end == run_end(self, outcomes@),
            r.alerts@ == run_alerts(self, outcomes@),
            r.fetches == run_fetches(self, outcomes@),
    {
        let mut monitor = self;
        let mut alerts: Vec<AlertKind> = Vec::new();
        let mut i: usize = 0;
        proof {
            assert(outcomes@.skip(0) =~= outcomes@);
        }
        while i < outcomes.len()
            invariant
                i <= outcomes.len(),
                run_end(self, outcomes@) == run_end(monitor, outcomes@.skip(i as int)),
                run_alerts(self, outcomes@) == alerts@ + run_alerts(
                    monitor,
                    outcomes@.skip(i as int),
                ),
                run_fetches(self, outcomes@) == i + run_fetches(monitor, outcomes@.skip(i as int)),
            decreases outcomes.len() - i,
        {
            proof {
                assert(outcomes@.skip(i as int).drop_first() =~= outcomes@.skip(i + 1));
            }
            match monitor.advance(outcomes[i]) {
                Step::Fatal { error } => {
                    return Replay { fetches: i + 1, alerts, end: Err(error) };
                },
                Step::Continue { monitor: next, alert } => {
                    if let Some(kind) = alert {
                        alerts.push(kind);
                    }
                    monitor = next;
                },
            }
            i = i + 1;
        }
        Replay { fetches: i, alerts, end: Ok(monitor) }
    }
}

/// The outcomes of fetches that all gave a rate.
pub open spec fn fetched(samples: Seq<Rate>) -> Seq<Result<Rate, FetchError>> {
    Seq::new(samples.len(), |i: int| Ok::<Rate, FetchError>(samples[i]))
}

/// The alerts among the tracker's reports, in their order.
pub open spec fn sounded(reports: Seq<Option<AlertKind>>) -> Seq<AlertKind>
    decreases reports.len(),
{
    if reports.len() == 0 {
        Seq::empty()
    } else {
        match reports[0] {
            Some(kind) => seq![kind] + sounded(reports.drop_first()),
            None => sounded(reports.drop_first()),
        }
    }
}

/// A run of the tracker over samples is the rule on the first sample, then
/// the run over the others.
proof fn lemma_tracker_run_from_the_front(
    state: TrackerState,
    threshold: Rate,
    samples: Seq<Rate>,
)
    requires
        samples.len() > 0,
    ensures
        state_after_all(state, threshold, samples) == state_after_all(
            state_after(state, threshold, samples[0]),
            threshold,
            samples.drop_first(),
        ),
        alerts_for_all(state, threshold, samples) == seq![alert_for(state, threshold, samples[0])]
            + alerts_for_all(
            state_after(state, threshold, samples[0]),
            threshold,
            samples.drop_first(),
        ),
    decreases samples.len(),
{
    let next = state_after(state, threshold, samples[0]);
    if samples.len() == 1 {
        assert(alerts_for_all(state, threshold, samples.drop_last()) =~= Seq::empty());
        assert(alerts_for_all(state, threshold, samples) =~= seq![
            alert_for(state, threshold, samples[0]),
        ] + alerts_for_all(next, threshold, samples.drop_first()));
    } else {
        let shorter = samples.drop_last();
        let rest = samples.drop_first();
        lemma_tracker_run_from_the_front(state, threshold, shorter);
        assert(rest.drop_last() =~= shorter.drop_first());
    }
}

/// A running monitor that is given rates only does what the tracker does.
proof fn lemma_running_follows_the_tracker(
    threshold: Rate,
    state: TrackerState,
    samples: Seq<Rate>,
)
    ensures
        run_end(Monitor::Running { threshold, state }, fetched(samples)) == Ok::<
            Monitor,
            FetchError,
        >(Monitor::Running { threshold, state: state_after_all(state, threshold, samples) }),
        run_alerts(Monitor::Running { threshold, state }, fetched(samples)) == sounded(
            alerts_for_all(state, threshold, samples),
        ),
        run_fetches(Monitor::Running { threshold, state }, fetched(samples)) == samples.len(),
    decreases samples.len(),
{
    if samples.len() > 0 {
        let next = state_after(state, threshold, samples[0]);
        let reports = alerts_for_all(state, threshold, samples);
        lemma_tracker_run_from_the_front(state, threshold, samples);
        lemma_running_follows_the_tracker(threshold, next, samples.drop_first());
        assert(fetched(samples).drop_first() =~= fetched(samples.drop_first()));
        assert(reports.drop_first() =~= alerts_for_all(next, threshold, samples.drop_first()));
    }
}

/// With no failed fetch the monitor does what the tracker does: a run from
/// the start over fetches that all gave a rate ends in the running state,
/// with the state that the tracker reaches from the first rate over the
/// others; it sounds the alerts that the tracker reports for the others, in
/// their order, and none for the first; and it makes every fetch.
pub proof fn law_run_follows_the_tracker(threshold: Rate, first: Rate, samples: Seq<Rate>)
    ensures
        run_end(Monitor::Starting { threshold }, fetched(seq![first] + samples)) == Ok::<
            Monitor,
            FetchError,
        >(
            Monitor::Running {
                threshold,
                state: state_after_all(
                    TrackerState { reference_rate: first, lower_low: first },
                    threshold,
                    samples,
                ),
            },
        ),
        run_alerts(Monitor::Starting { threshold }, fetched(seq![first] + samples)) == sounded(
            alerts_for_all(
                TrackerState { reference_rate: first, lower_low: first },
                threshold,
                samples,
            ),
        ),
        run_fetches(Monitor::Starting { threshold }, fetched(seq![first] + samples))
            == samples.len() + 1,
{
    let state = TrackerState { reference_rate: first, lower_low: first };
    let outcomes = fetched(seq![first] + samples);
    lemma_running_follows_the_tracker(threshold, state, samples);
    assert(outcomes.drop_first() =~= fetched(samples));
}

/// A failed fetch ends the run, whenever it comes and whatever the failure:
/// in either state every error gives the fatal step that carries it, and a
/// run over outcomes of which one is the first failure ends with that error,
/// has made no fetch after it, and has sounded what the fetches before it
/// gave rise to, whatever outcomes were still to come.
pub proof fn law_failed_fetch_ends_the_run(
    monitor: Monitor,
    outcomes: Seq<Result<Rate, FetchError>>,
    at: int,
)
    requires
        0 <= at < outcomes.len(),
        outcomes[at] is Err,
        forall|k: int| 0 <= k < at ==> (#[trigger] outcomes[k]) is Ok,
    ensures
        step_of(monitor, outcomes[at]) == (Step::Fatal { error: outcomes[at]->Err_0 }),
        run_end(monitor, outcomes) == Err::<Monitor, FetchError>(outcomes[at]->Err_0),
        run_fetches(monitor, outcomes) == at + 1,
        run_alerts(monitor, outcomes) == run_alerts(monitor, outcomes.take(at)),
    decreases at,
{
    if at > 0 {
        let next = step_of(monitor, outcomes[0])->monitor;
        let rest = outcomes.drop_first();
        law_failed_fetch_ends_the_run(next, rest, at - 1);
        assert(outcomes.take(at).drop_first() =~= rest.take(at - 1));
    }
}

/// All failures are handled alike: whatever the error and whatever the
/// state, the step is the fatal one, and it differs between two errors in
/// nothing but the error that it carries.
pub proof fn law_failures_are_handled_alike(
    monitor: Monitor,
    other: Monitor,
    error: FetchError,
)
    ensures
        step_of(monitor, Err(error)) == (Step::Fatal { error }),
        step_of(monitor, Err(error)) == step_of(other, Err(error)),
        step_of(monitor, Err(FetchError::MissingCurrency)) is Fatal,
        step_of(monitor, Err(FetchError::Transport)) is Fatal,
{
}

} // verus!
