//! The kinds of failure of one attempt, and the bounded retry of attempts.

use vstd::prelude::*;

verus! {

/// Why an attempt failed.
#[derive(Clone, Copy, Debug, PartialEq, Eq, Structural)]
pub enum ResponseErr {
    /// The answer is an interactive challenge page.
    Captcha,
    /// The answer demands that scripts be run.
    JsEnforcement,
    /// The results page holds no usable link.
    NoEnoughData,
    /// The request did not get through, or timed out.
    RequestErr,
    /// The page holds no embedded document.
    MalformedResponse,
    /// The address is not that of a lyrics page.
    InvalidUrl,
}

impl ResponseErr {
    /// A failure that another attempt may get past.
    pub open spec fn retryable(self) -> bool {
        self is NoEnoughData || self is RequestErr || self is MalformedResponse
    }

    /// Whether another attempt may get past this failure.
    pub fn is_retryable(&self) -> (yes: bool)
        ensures
            yes == self.retryable(),
    {
        match self {
            ResponseErr::NoEnoughData => true,
            ResponseErr::RequestErr => true,
            ResponseErr::MalformedResponse => true,
            ResponseErr::Captcha => false,
            ResponseErr::JsEnforcement => false,
            ResponseErr::InvalidUrl => false,
        }
    }
}

/// What one attempt came to.
#[derive(Clone, Debug, PartialEq, Eq)]
pub enum RetryOutcome<T> {
    Success(T),
    Failure(ResponseErr),
}

/// Where a run of attempts stands. `Pending` holds the attempts that are left.
#[derive(Clone, Debug, PartialEq, Eq)]
pub enum RetryState<T> {
    Pending(u32),
    Succeeded(T),
    FailedFatal(ResponseErr),
    FailedExhausted,
}

/// The state after one more attempt. An attempt changes a pending state only:
/// success ends the run, so does a failure that is not retryable, and a
/// retryable failure uses up one of the attempts that are left.
pub open spec fn step<T>(state: RetryState<T>, outcome: RetryOutcome<T>) -> RetryState<T> {
    match state {
        RetryState::Pending(left) => match outcome {
            RetryOutcome::Success(payload) => RetryState::Succeeded(payload),
            RetryOutcome::Failure(kind) => if !kind.retryable() {
                RetryState::FailedFatal(kind)
            } else if left > 1 {
                RetryState::Pending((left - 1) as u32)
            } else {
                RetryState::FailedExhausted
            },
        },
        _ => state,
    }
}

/// The state after the attempts `outcomes`, in order.
pub open spec fn run<T>(state: RetryState<T>, outcomes: Seq<RetryOutcome<T>>) -> RetryState<T>
    decreases outcomes.len(),
{
    if outcomes.len() == 0 {
        state
    } else {
        step(run(state, outcomes.drop_last()), outcomes.last())
    }
}

/// How many of `outcomes` were attempted: those that found the run pending.
pub open spec fn attempts<T>(state: RetryState<T>, outcomes: Seq<RetryOutcome<T>>) -> nat
    decreases outcomes.len(),
{
    if outcomes.len() == 0 {
        0
    } else {
        attempts(state, outcomes.drop_last()) + if run(state, outcomes.drop_last()) is Pending {
            1nat
        } else {
            0nat
        }
    }
}

impl<T> RetryOutcome<T> {
    /// A failure that another attempt may get past.
    pub open spec fn retryable(self) -> bool {
        match self {
            RetryOutcome::Success(_) => false,
            RetryOutcome::Failure(kind) => kind.retryable(),
        }
    }
}

/// The first `count` of `outcomes` are failures that may be retried.
pub open spec fn all_retryable<T>(outcomes: Seq<RetryOutcome<T>>, count: int) -> bool {
    forall|i: int| 0 <= i < count ==> (#[trigger] outcomes[i]).retryable()
}

impl<T> RetryState<T> {
    /// A pending state has at least one attempt left, and a run that failed
    /// for good did so on a failure that is not retryable.
    pub open spec fn wf(self) -> bool {
        match self {
            RetryState::Pending(left) => left >= 1,
            RetryState::FailedFatal(kind) => !kind.retryable(),
            _ => true,
        }
    }

    /// The state before the first attempt; `None` for a budget of no attempts.
    pub fn start(budget: u32) -> (state: Option<RetryState<T>>)
        ensures
            budget == 0 ==> state is None,
            budget >= 1 ==> state == Some(RetryState::<T>::Pending(budget)),
    {
        if budget == 0 {
            None
        } else {
            Some(RetryState::Pending(budget))
        }
    }

    /// Whether the run goes on.
    pub fn is_pending(&self) -> (yes: bool)
        ensures
            yes == (*self is Pending),
    {
        match self {
            RetryState::Pending(_) => true,
            _ => false,
        }
    }

    /// Takes in what the next attempt came to.
    pub fn step(self, outcome: RetryOutcome<T>) -> (next: RetryState<T>)
        ensures
            next == step(self, outcome),
            self.wf() ==> next.wf(),
    {
        match self {
            RetryState::Pending(left) => match outcome {
                RetryOutcome::Success(payload) => RetryState::Succeeded(payload),
                RetryOutcome::Failure(kind) => {
                    if !kind.is_retryable() {
                        RetryState::FailedFatal(kind)
                    } else if left > 1 {
                        RetryState::Pending(left - 1)
                    } else {
                        RetryState::FailedExhausted
                    }
                },
            },
            other => other,
        }
    }
}

/// After `tried` retryable failures out of more attempts than that, the run is
/// still pending, with `tried` attempts fewer left.
pub proof fn lemma_run_retrying<T>(budget: u32, outcomes: Seq<RetryOutcome<T>>, tried: int)
    requires
        0 <= tried < budget,
        tried <= outcomes.len(),
        all_retryable(outcomes, tried),
    ensures
        run(RetryState::Pending(budget), outcomes.take(tried)) == RetryState::<T>::Pending(
            (budget - tried) as u32,
        ),
        attempts(RetryState::<T>::Pending(budget), outcomes.take(tried)) == tried,
    decreases tried,
{
    if tried > 0 {
        lemma_run_retrying(budget, outcomes, tried - 1);
        assert(outcomes.take(tried).drop_last() =~= outcomes.take(tried - 1));
        assert(outcomes.take(tried).last() == outcomes[tried - 1]);
    }
}

/// Once a run has ended, further outcomes change nothing and count for nothing.
pub proof fn lemma_run_ended<T>(state: RetryState<T>, outcomes: Seq<RetryOutcome<T>>, cut: int)
    requires
        0 <= cut <= outcomes.len(),
        !(run(state, outcomes.take(cut)) is Pending),
    ensures
        run(state, outcomes) == run(state, outcomes.take(cut)),
        attempts(state, outcomes) == attempts(state, outcomes.take(cut)),
    decreases outcomes.len() - cut,
{
    if cut < outcomes.len() {
        assert(outcomes.take(cut + 1).drop_last() =~= outcomes.take(cut));
        lemma_run_ended(state, outcomes, cut + 1);
    } else {
        assert(outcomes.take(cut) =~= outcomes);
    }
}

/// A success behind fewer retryable failures than the budget ends the run as
/// succeeded, after exactly that many attempts and one.
pub proof fn lemma_run_succeeds<T>(budget: u32, outcomes: Seq<RetryOutcome<T>>, tried: int, payload: T)
    requires
        0 <= tried < budget,
        tried < outcomes.len(),
        all_retryable(outcomes, tried),
        outcomes[tried] == RetryOutcome::Success(payload),
    ensures
        run(RetryState::Pending(budget), outcomes) == RetryState::Succeeded(payload),
        attempts(RetryState::<T>::Pending(budget), outcomes) == tried + 1,
{
    lemma_run_retrying(budget, outcomes, tried);
    assert(outcomes.take(tried + 1).drop_last() =~= outcomes.take(tried));
    assert(outcomes.take(tried + 1).last() == outcomes[tried]);
    lemma_run_ended(RetryState::Pending(budget), outcomes, tried + 1);
}

/// A failure that is not retryable ends the run at once, under its own kind,
/// whatever is left of the budget.
pub proof fn lemma_run_fatal<T>(budget: u32, outcomes: Seq<RetryOutcome<T>>, tried: int, kind: ResponseErr)
    requires
        0 <= tried < budget,
        tried < outcomes.len(),
        all_retryable(outcomes, tried),
        outcomes[tried] == RetryOutcome::<T>::Failure(kind),
        !kind.retryable(),
    ensures
        run(RetryState::Pending(budget), outcomes) == RetryState::<T>::FailedFatal(kind),
        attempts(RetryState::<T>::Pending(budget), outcomes) == tried + 1,
{
    lemma_run_retrying(budget, outcomes, tried);
    assert(outcomes.take(tried + 1).drop_last() =~= outcomes.take(tried));
    assert(outcomes.take(tried + 1).last() == outcomes[tried]);
    lemma_run_ended(RetryState::Pending(budget), outcomes, tried + 1);
}

/// As many retryable failures as the budget allows end the run as exhausted,
/// after exactly that many attempts.
pub proof fn lemma_run_exhausted<T>(budget: u32, outcomes: Seq<RetryOutcome<T>>)
    requires
        1 <= budget <= outcomes.len(),
        all_retryable(outcomes, budget as int),
    ensures
        run(RetryState::Pending(budget), outcomes) == RetryState::<T>::FailedExhausted,
        attempts(RetryState::<T>::Pending(budget), outcomes) == budget,
{
    lemma_run_retrying(budget, outcomes, budget - 1);
    assert(outcomes.take(budget as int).drop_last() =~= outcomes.take(budget - 1));
    assert(outcomes.take(budget as int).last() == outcomes[budget - 1]);
    lemma_run_ended(RetryState::Pending(budget), outcomes, budget as int);
}

/// A run never makes more attempts than its budget, it never fails for good
/// on a retryable failure, and while it is pending the attempts made and the
/// attempts left add up to the budget.
pub proof fn lemma_attempts_bounded<T>(budget: u32, outcomes: Seq<RetryOutcome<T>>)
    requires
        budget >= 1,
    ensures
        attempts(RetryState::<T>::Pending(budget), outcomes) <= budget,
        attempts(RetryState::<T>::Pending(budget), outcomes) <= outcomes.len(),
        run(RetryState::<T>::Pending(budget), outcomes).wf(),
        run(RetryState::<T>::Pending(budget), outcomes) matches RetryState::Pending(left) ==> left
            + attempts(RetryState::<T>::Pending(budget), outcomes) == budget,
    decreases outcomes.len(),
{
    if outcomes.len() > 0 {
        lemma_attempts_bounded(budget, outcomes.drop_last());
    }
}

/// What a run of attempts ended in, and how many attempts it made.
#[derive(Clone, Debug, PartialEq, Eq)]
pub struct RetryReport<T> {
    pub state: RetryState<T>,
    pub attempts: u32,
}

/// `outcomes` is what `attempt` may have returned, called with 1, 2, 3 and so on.
pub open spec fn is_trace<T, F: Fn(u32) -> RetryOutcome<T>>(attempt: F, outcomes: Seq<RetryOutcome<T>>) -> bool {
    forall|i: int|
        0 <= i < outcomes.len() ==> call_ensures(attempt, ((i + 1) as u32,), #[trigger] outcomes[i])
}

/// `report` is where a budget of `budget` attempts stands after `outcomes`,
/// each of which was attempted.
pub open spec fn reports<T>(report: RetryReport<T>, budget: u32, outcomes: Seq<RetryOutcome<T>>) -> bool {
    &&& outcomes.len() == report.attempts
    &&& attempts(RetryState::<T>::Pending(budget), outcomes) == outcomes.len()
    &&& report.state == run(RetryState::Pending(budget), outcomes)
}

/// Calls `attempt` with the attempt's number, from 1 on, until one succeeds,
/// one fails for good, or `budget` attempts have failed. `None` for a budget
/// of no attempts, without any call.
pub fn retry<T, F: Fn(u32) -> RetryOutcome<T>>(budget: u32, attempt: F) -> (report: Option<RetryReport<T>>)
    requires
        forall|n: u32| 1 <= n <= budget ==> call_requires(attempt, (n,)),
    ensures
        budget == 0 <==> report is None,
        report matches Some(r) ==> !(r.state is Pending) && r.state.wf() && 1 <= r.attempts <= budget
            && exists|outcomes: Seq<RetryOutcome<T>>|
            is_trace(attempt, outcomes) && reports(r, budget, outcomes),
{
    if budget == 0 {
        return None;
    }
    let mut state: RetryState<T> = RetryState::Pending(budget);
    let mut made: u32 = 0;
    let ghost mut trace: Seq<RetryOutcome<T>> = Seq::empty();
    while state.is_pending()
        invariant
            budget >= 1,
            made <= budget,
            forall|n: u32| 1 <= n <= budget ==> call_requires(attempt, (n,)),
            is_trace(attempt, trace),
            reports(RetryReport { state, attempts: made }, budget, trace),
            !(state is Pending) ==> made >= 1,
        decreases budget - made,
    {
        proof {
            lemma_attempts_bounded(budget, trace);
        }
        made += 1;
        let outcome = attempt(made);
        proof {
            let before = trace;
            trace = trace.push(outcome);
            assert(trace.drop_last() =~= before);
        }
        state = state.step(outcome);
    }
    let report = RetryReport { state, attempts: made };
    proof {
        lemma_attempts_bounded(budget, trace);
    }
    assert(is_trace(attempt, trace) && reports(report, budget, trace));
    Some(report)
}

} // verus!
