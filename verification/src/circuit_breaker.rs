//! Counting the calls to an upstream that fail, so that a caller can leave one
//! that is down alone.

use vstd::prelude::*;

use crate::error::Error;
use crate::transport::Step;

verus! {

/// How many failures in a row open a breaker that nothing else is said of.
pub const DEFAULT_THRESHOLD: u32 = 5;

/// What a breaker is told of a call.
#[derive(Debug, PartialEq, Eq)]
pub enum Report<'a> {
    /// The call succeeded.
    Success,
    /// The call failed for good.
    Failure(&'a Error),
}

/// What a breaker is told once `step` is known: the final result of a call.
/// Nothing of an attempt that is followed by another one, and nothing of a
/// probe.
pub open spec fn reported<'a>(step: Step, probe: bool) -> Option<Report<'a>> {
    match step {
        Step::Retry => None,
        Step::Done(Ok(_)) => if probe {
            None
        } else {
            Some(Report::Success)
        },
        Step::Done(Err(e)) => if probe {
            None
        } else {
            Some(Report::Failure(&e))
        },
    }
}

/// What a breaker is told once `step` is known.
pub fn breaker_report<'a>(step: &'a Step, probe: bool) -> (r: Option<Report<'a>>)
    ensures
        r == reported(*step, probe),
{
    match step {
        Step::Retry => None,
        Step::Done(Ok(_)) => if probe {
            None
        } else {
            Some(Report::Success)
        },
        Step::Done(Err(e)) => if probe {
            None
        } else {
            Some(Report::Failure(e))
        },
    }
}

/// The error says that the upstream, or the way to it, is down. A refused key
/// or a request to slow down does not.
pub open spec fn opens_circuit(e: Error) -> bool {
    e is Provider || e is Timeout
}

/// Whether the error says that the upstream, or the way to it, is down.
pub fn is_circuit_opening(e: &Error) -> (r: bool)
    ensures
        r == opens_circuit(*e),
{
    match e {
        Error::Provider { .. } => true,
        Error::Timeout { .. } => true,
        _ => false,
    }
}

/// A count of the failures in a row.
#[derive(Debug, Clone, Copy, PartialEq, Eq, Structural)]
pub struct CircuitBreaker {
    /// How many failures in a row open the breaker.
    pub threshold: u32,
    /// The failures since the last success.
    pub failures: u32,
}

/// One failure more, as far as the counter goes.
pub open spec fn one_more(failures: u32) -> u32 {
    if failures < u32::MAX {
        (failures + 1) as u32
    } else {
        failures
    }
}

impl CircuitBreaker {
    /// The breaker is open: it has counted enough failures in a row.
    pub open spec fn open_now(&self) -> bool {
        self.failures >= self.threshold
    }

    /// The breaker once it was told this of a call.
    pub open spec fn after(self, report: Option<Report>) -> CircuitBreaker {
        match report {
            None => self,
            Some(Report::Success) => CircuitBreaker { failures: 0, ..self },
            Some(Report::Failure(e)) => if opens_circuit(*e) {
                CircuitBreaker { failures: one_more(self.failures), ..self }
            } else {
                self
            },
        }
    }

    /// A breaker that has counted nothing yet.
    pub fn new(threshold: u32) -> (r: Self)
        ensures
            r == (CircuitBreaker { threshold, failures: 0 }),
    {
        CircuitBreaker { threshold, failures: 0 }
    }

    /// The failures in a row.
    pub fn failure_count(&self) -> (r: u32)
        ensures
            r == self.failures,
    {
        self.failures
    }

    /// Whether enough calls in a row have failed.
    pub fn is_open(&self) -> (r: bool)
        ensures
            r == self.open_now(),
    {
        self.failures >= self.threshold
    }

    /// Tells the breaker of a call.
    pub fn record(&mut self, report: Option<Report<'_>>)
        ensures
            *final(self) == old(self).after(report),
    {
        match report {
            None => {},
            Some(Report::Success) => {
                self.failures = 0;
            },
            Some(Report::Failure(e)) => {
                if is_circuit_opening(e) && self.failures < u32::MAX {
                    self.failures = self.failures + 1;
                }
            },
        }
    }
}

impl Default for CircuitBreaker {
    fn default() -> (r: Self)
        ensures
            r == (CircuitBreaker { threshold: DEFAULT_THRESHOLD, failures: 0 }),
    {
        CircuitBreaker::new(DEFAULT_THRESHOLD)
    }
}

/// The breaker once it was told of each of `steps`.
pub open spec fn after_steps(
    breaker: CircuitBreaker,
    steps: Seq<Step>,
    probe: bool,
) -> CircuitBreaker
    decreases steps.len(),
{
    if steps.len() == 0 {
        breaker
    } else {
        after_steps(breaker, steps.drop_last(), probe).after(reported(steps.last(), probe))
    }
}

proof fn lemma_retries_count_for_nothing(breaker: CircuitBreaker, steps: Seq<Step>, probe: bool)
    requires
        forall|i: int| 0 <= i < steps.len() ==> (#[trigger] steps[i]) is Retry,
    ensures
        after_steps(breaker, steps, probe) == breaker,
    decreases steps.len(),
{
    if steps.len() > 0 {
        assert forall|i: int| 0 <= i < steps.drop_last().len() implies (
        #[trigger] steps.drop_last()[i]) is Retry by {
            assert(steps[i] is Retry);
        }
        lemma_retries_count_for_nothing(breaker, steps.drop_last(), probe);
    }
}

/// A breaker hears of the final result of a call only, however many attempts
/// went before it.
pub proof fn law_only_final_results_count(
    breaker: CircuitBreaker,
    steps: Seq<Step>,
    probe: bool,
)
    requires
        steps.len() > 0,
        forall|i: int| 0 <= i < steps.len() - 1 ==> (#[trigger] steps[i]) is Retry,
    ensures
        after_steps(breaker, steps, probe) == breaker.after(reported(steps.last(), probe)),
{
    let before = steps.drop_last();
    assert forall|i: int| 0 <= i < before.len() implies (#[trigger] before[i]) is Retry by {
        assert(steps[i] is Retry);
    }
    lemma_retries_count_for_nothing(breaker, before, probe);
}

/// Probes never reach the breaker, whatever comes of them.
pub proof fn law_probes_never_reach_the_breaker(breaker: CircuitBreaker, steps: Seq<Step>)
    ensures
        after_steps(breaker, steps, true) == breaker,
    decreases steps.len(),
{
    if steps.len() > 0 {
        law_probes_never_reach_the_breaker(breaker, steps.drop_last());
    }
}

/// Calls that fail in a row because the upstream is down open a fresh breaker
/// just where there are as many of them as its threshold, and one success
/// closes any breaker that a failure is needed to open.
pub proof fn law_failures_in_a_row_open(threshold: u32, steps: Seq<Step>, breaker: CircuitBreaker)
    requires
        steps.len() <= u32::MAX,
        forall|i: int|
            0 <= i < steps.len() ==> ((#[trigger] steps[i]) matches Step::Done(Err(e))
                && opens_circuit(e)),
    ensures
        ({
            let b = after_steps(CircuitBreaker { threshold, failures: 0 }, steps, false);
            &&& b.threshold == threshold
            &&& b.failures == steps.len()
            &&& b.open_now() <==> steps.len() >= threshold
        }),
        breaker.threshold > 0 ==> !breaker.after(Some(Report::Success)).open_now(),
    decreases steps.len(),
{
    if steps.len() > 0 {
        let before = steps.drop_last();
        assert forall|i: int| 0 <= i < before.len() implies ((#[trigger] before[i]) matches Step::Done(
            Err(e),
        ) && opens_circuit(e)) by {
            assert(steps[i] == before[i]);
        }
        law_failures_in_a_row_open(threshold, before, breaker);
        assert(steps[steps.len() - 1] == steps.last());
    }
}

/// A failure counts just where the upstream, or the way to it, is down; a
/// refused key, a plan that is used up, a request to slow down and an argument
/// that makes no sense leave the count as it is. A success sets it back.
pub proof fn law_what_counts(breaker: CircuitBreaker, step: Step)
    requires
        breaker.failures < u32::MAX,
    ensures
        ({
            let b = breaker.after(reported(step, false));
            &&& b.threshold == breaker.threshold
            &&& match step {
                Step::Done(Ok(_)) => b.failures == 0,
                Step::Done(Err(e)) => match e {
                    Error::Provider { .. } | Error::Timeout { .. } => b.failures == breaker.failures
                        + 1,
                    _ => b.failures == breaker.failures,
                },
                Step::Retry => b.failures == breaker.failures,
            }
        }),
{
}

/// A count at the largest number stays there.
pub proof fn law_count_does_not_wrap(breaker: CircuitBreaker, e: Error)
    requires
        breaker.failures == u32::MAX,
    ensures
        breaker.after(Some(Report::Failure(&e))) == breaker,
{
}

} // verus!
