//! The price tracker: two remembered rates and the rule that moves them.
//!
//! The tracker remembers a reference rate, from which a rise is measured, and
//! a lower low, from which a fall is measured. A sample that lies above the
//! reference by more than the threshold is an upward break and becomes both;
//! otherwise a sample that lies below the lower low by more than the
//! threshold is a downward break and becomes the lower low. Both comparisons
//! are strict, and the upward one is made first.

use vstd::prelude::*;
use crate::rate::Rate;

verus! {

/// The two events that the tracker reports.
#[derive(Clone, Copy, Debug, PartialEq, Eq, Structural)]
pub enum AlertKind {
    /// The sample rose above the reference rate by more than the threshold.
    UpwardBreak,
    /// The sample fell below the lower low by more than the threshold.
    DownwardBreak,
}

/// What the tracker remembers between samples. Nothing ties the two rates
/// together: the lower low may lie above the reference rate.
#[derive(Clone, Copy, Debug, PartialEq, Eq, Structural)]
pub struct TrackerState {
    /// The first sample, or the sample of the last upward break.
    pub reference_rate: Rate,
    /// The first sample, or the sample of the last break in either direction.
    pub lower_low: Rate,
}

/// Whether `sample` lies above the reference rate by more than `threshold`.
pub open spec fn breaks_upward(state: TrackerState, threshold: Rate, sample: Rate) -> bool {
    sample@ - state.reference_rate@ > threshold@
}

/// Whether `sample` lies below the lower low by more than `threshold`.
pub open spec fn breaks_downward(state: TrackerState, threshold: Rate, sample: Rate) -> bool {
    state.lower_low@ - sample@ > threshold@
}

/// The alert that `sample` raises in `state`.
pub open spec fn alert_for(state: TrackerState, threshold: Rate, sample: Rate) -> Option<
    AlertKind,
> {
    if breaks_upward(state, threshold, sample) {
        Some(AlertKind::UpwardBreak)
    } else if breaks_downward(state, threshold, sample) {
        Some(AlertKind::DownwardBreak)
    } else {
        None
    }
}

/// The state that follows `state` once `sample` has been seen.
pub open spec fn state_after(state: TrackerState, threshold: Rate, sample: Rate) -> TrackerState {
    if breaks_upward(state, threshold, sample) {
        TrackerState { reference_rate: sample, lower_low: sample }
    } else if breaks_downward(state, threshold, sample) {
        TrackerState { reference_rate: state.reference_rate, lower_low: sample }
    } else {
        state
    }
}

/// The state that follows `state` once all of `samples` have been seen, in
/// their order.
pub open spec fn state_after_all(
    state: TrackerState,
    threshold: Rate,
    samples: Seq<Rate>,
) -> TrackerState
    decreases samples.len(),
{
    if samples.len() == 0 {
        state
    } else {
        state_after(state_after_all(state, threshold, samples.drop_last()), threshold, samples.last())
    }
}

/// The alerts that `samples` raise one after the other, starting in `state`:
/// one entry for each sample.
pub open spec fn alerts_for_all(state: TrackerState, threshold: Rate, samples: Seq<Rate>) -> Seq<
    Option<AlertKind>,
>
    decreases samples.len(),
{
    if samples.len() == 0 {
        Seq::empty()
    } else {
        alerts_for_all(state, threshold, samples.drop_last()).push(
            alert_for(
                state_after_all(state, threshold, samples.drop_last()),
                threshold,
                samples.last(),
            ),
        )
    }
}

impl TrackerState {
    /// The state after a first sample: both rates are that sample.
    pub fn new(initial_sample: Rate) -> (s: TrackerState)
        ensures
            s.reference_rate == initial_sample,
            s.lower_low == initial_sample,
    {
        TrackerState { reference_rate: initial_sample, lower_low: initial_sample }
    }

    /// Takes in one sample: moves the state as the rule says and reports the
    /// break, if the sample is one.
    pub fn observe(&mut self, threshold: Rate, sample: Rate) -> (alert: Option<AlertKind>)
        ensures
            alert == alert_for(*old(self), threshold, sample),
            *final(self) == state_after(*old(self), threshold, sample),
            breaks_upward(*old(self), threshold, sample) ==> alert == Some(AlertKind::UpwardBreak)
                && final(self).reference_rate == sample && final(self).lower_low == sample,
            !breaks_upward(*old(self), threshold, sample) && breaks_downward(
                *old(self),
                threshold,
                sample,
            ) ==> alert == Some(AlertKind::DownwardBreak) && final(self).reference_rate == old(
                self,
            ).reference_rate && final(self).lower_low == sample,
            !breaks_upward(*old(self), threshold, sample) && !breaks_downward(
                *old(self),
                threshold,
                sample,
            ) ==> alert.is_none() && *final(self) == *old(self),
    {
        if sample.exceeds_by(self.reference_rate, threshold) {
            self.reference_rate = sample;
            self.lower_low = sample;
            Some(AlertKind::UpwardBreak)
        } else if self.lower_low.exceeds_by(sample, threshold) {
            self.lower_low = sample;
            Some(AlertKind::DownwardBreak)
        } else {
            None
        }
    }
}

/// The rule is applied in its order, to one sample after the other: a run
/// over samples followed by one more is the run over the samples, then the
/// rule on the last; and the rule on one sample is an upward break where the
/// sample breaks upward, else a downward break where it breaks downward,
/// else nothing.
pub proof fn law_rule_order(
    state: TrackerState,
    threshold: Rate,
    samples: Seq<Rate>,
    sample: Rate,
)
    ensures
        state_after_all(state, threshold, samples.push(sample)) == state_after(
            state_after_all(state, threshold, samples),
            threshold,
            sample,
        ),
        alerts_for_all(state, threshold, samples.push(sample)) == alerts_for_all(
            state,
            threshold,
            samples,
        ).push(alert_for(state_after_all(state, threshold, samples), threshold, sample)),
        alerts_for_all(state, threshold, samples).len() == samples.len(),
        sample@ - state.reference_rate@ > threshold@ ==> alert_for(state, threshold, sample)
            == Some(AlertKind::UpwardBreak) && state_after(state, threshold, sample)
            == (TrackerState { reference_rate: sample, lower_low: sample }),
        sample@ - state.reference_rate@ <= threshold@ && state.lower_low@ - sample@ > threshold@
            ==> alert_for(state, threshold, sample) == Some(AlertKind::DownwardBreak)
            && state_after(state, threshold, sample) == (TrackerState {
            reference_rate: state.reference_rate,
            lower_low: sample,
        }),
        sample@ - state.reference_rate@ <= threshold@ && state.lower_low@ - sample@ <= threshold@
            ==> alert_for(state, threshold, sample).is_none() && state_after(
            state,
            threshold,
            sample,
        ) == state,
{
    assert(samples.push(sample).drop_last() =~= samples);
    lemma_one_alert_per_sample(state, threshold, samples);
}

/// A run reports once for each sample.
proof fn lemma_one_alert_per_sample(state: TrackerState, threshold: Rate, samples: Seq<Rate>)
    ensures
        alerts_for_all(state, threshold, samples).len() == samples.len(),
    decreases samples.len(),
{
    if samples.len() > 0 {
        lemma_one_alert_per_sample(state, threshold, samples.drop_last());
    }
}

/// A move of exactly the threshold is no break: a sample that lies exactly
/// the threshold above the reference rate is no upward break, one that lies
/// exactly the threshold below the lower low is no downward break, and where
/// the sample is no further than the threshold from either, nothing is
/// reported and the state stays.
pub proof fn law_threshold_itself_is_no_break(state: TrackerState, threshold: Rate, sample: Rate)
    ensures
        sample@ - state.reference_rate@ == threshold@ ==> alert_for(state, threshold, sample)
            != Some(AlertKind::UpwardBreak),
        state.lower_low@ - sample@ == threshold@ ==> alert_for(state, threshold, sample) != Some(
            AlertKind::DownwardBreak,
        ),
        sample@ - state.reference_rate@ <= threshold@ && state.lower_low@ - sample@ <= threshold@
            ==> alert_for(state, threshold, sample).is_none() && state_after(
            state,
            threshold,
            sample,
        ) == state,
{
}

/// Seeing the reference rate again changes nothing: where a sample equal to
/// the reference rate is no break, any number of such samples in a row leave
/// the state as it was and report nothing.
pub proof fn law_reference_sample_is_idle(state: TrackerState, threshold: Rate, times: nat)
    requires
        !breaks_upward(state, threshold, state.reference_rate),
        !breaks_downward(state, threshold, state.reference_rate),
    ensures
        state_after_all(state, threshold, Seq::new(times, |i: int| state.reference_rate)) == state,
        alerts_for_all(state, threshold, Seq::new(times, |i: int| state.reference_rate))
            == Seq::new(times, |i: int| None::<AlertKind>),
    decreases times,
{
    let samples = Seq::new(times, |i: int| state.reference_rate);
    if times > 0 {
        let shorter = Seq::new((times - 1) as nat, |i: int| state.reference_rate);
        assert(samples.drop_last() =~= shorter);
        law_reference_sample_is_idle(state, threshold, (times - 1) as nat);
    }
}

/// The upward rule goes first: a sample that breaks both upward and
/// downward is reported as an upward break, and becomes both rates.
pub proof fn law_upward_break_goes_first(state: TrackerState, threshold: Rate, sample: Rate)
    requires
        breaks_upward(state, threshold, sample),
        breaks_downward(state, threshold, sample),
    ensures
        alert_for(state, threshold, sample) == Some(AlertKind::UpwardBreak),
        state_after(state, threshold, sample) == (TrackerState {
            reference_rate: sample,
            lower_low: sample,
        }),
{
}

} // verus!
