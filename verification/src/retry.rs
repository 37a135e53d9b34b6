//! The retry policy: a small state machine that counts attempts and doubles
//! the delay after every retried attempt. The driver that performs the
//! operation and sleeps lives outside; it reports each outcome here and is
//! told what to do next.

use vstd::prelude::*;
use crate::text::{has_substring, text_contains};

verus! {

/// How one attempt of a retried operation ended.
#[derive(Clone, Copy, Debug, PartialEq, Eq, Structural)]
pub enum Outcome {
    /// The operation produced its value.
    Success,
    /// The remote side does not have the data yet.
    RetryableNotFound,
    /// The remote side throttled the request, or the request timed out.
    RetryableRateLimited,
    /// Any other error.
    Fatal,
}

/// What the driver does after reporting an outcome.
#[derive(Clone, Copy, Debug, PartialEq, Eq, Structural)]
pub enum Action {
    /// The operation succeeded: hand its value on.
    Done,
    /// Sleep for `delay` time units, then attempt again.
    Retry { delay: u64 },
    /// The attempt budget is spent: hand on the last observed outcome.
    GiveUp,
    /// A fatal error: hand it on at once.
    Abort,
}

/// The delay after `n` doublings of `base`.
pub open spec fn doubled(base: nat, n: nat) -> nat
    decreases n,
{
    if n == 0 {
        base
    } else {
        2 * doubled(base, (n - 1) as nat)
    }
}

/// An outcome after which another attempt is worth making.
pub open spec fn is_retryable(outcome: Outcome) -> bool {
    outcome == Outcome::RetryableNotFound || outcome == Outcome::RetryableRateLimited
}

/// The text of an error signals throttling or a timeout.
pub open spec fn signals_throttling(message: Seq<char>) -> bool {
    has_substring(message, "429"@) || has_substring(message, "rate limit"@) || has_substring(
        message,
        "timed out"@,
    )
}

/// The outcome that an error with the given text stands for.
pub open spec fn error_outcome(message: Seq<char>) -> Outcome {
    if signals_throttling(message) {
        Outcome::RetryableRateLimited
    } else {
        Outcome::Fatal
    }
}

/// The outcome of an operation whose value may be absent.
pub open spec fn lookup_outcome<T>(result: Result<Option<T>, String>) -> Outcome {
    match result {
        Ok(Some(_)) => Outcome::Success,
        Ok(None) => Outcome::RetryableNotFound,
        Err(message) => error_outcome(message@),
    }
}

/// The outcome of an operation that either yields its value or fails.
pub open spec fn call_outcome<T>(result: Result<T, String>) -> Outcome {
    match result {
        Ok(_) => Outcome::Success,
        Err(message) => error_outcome(message@),
    }
}

/// The action that answers `outcome` when `attempts` attempts (this one
/// included) have been made out of `max_attempts`, the current delay being
/// `delay`.
pub open spec fn decide(outcome: Outcome, attempts: nat, max_attempts: nat, delay: u64) -> Action {
    match outcome {
        Outcome::Success => Action::Done,
        Outcome::Fatal => Action::Abort,
        _ => if attempts < max_attempts {
            Action::Retry { delay }
        } else {
            Action::GiveUp
        },
    }
}

/// Classifies an error by its text: retryable exactly when the text signals
/// throttling or a timeout, fatal otherwise.
pub fn classify_error(message: &str) -> (outcome: Outcome)
    ensures
        outcome == error_outcome(message@),
{
    if text_contains(message, "429") || text_contains(message, "rate limit") || text_contains(
        message,
        "timed out",
    ) {
        Outcome::RetryableRateLimited
    } else {
        Outcome::Fatal
    }
}

/// Classifies the result of an operation whose value may be absent: absence
/// is retryable, an error goes by its text.
pub fn classify_lookup<T>(result: &Result<Option<T>, String>) -> (outcome: Outcome)
    ensures
        outcome == lookup_outcome(*result),
{
    match result {
        Ok(Some(_)) => Outcome::Success,
        Ok(None) => Outcome::RetryableNotFound,
        Err(message) => classify_error(message.as_str()),
    }
}

/// Classifies the result of an operation that yields its value or fails.
pub fn classify_call<T>(result: &Result<T, String>) -> (outcome: Outcome)
    ensures
        outcome == call_outcome(*result),
{
    match result {
        Ok(_) => Outcome::Success,
        Err(message) => classify_error(message.as_str()),
    }
}

/// The state of one retried operation.
#[derive(Clone, Copy, Debug)]
pub struct RetryState {
    /// Attempts made so far.
    pub attempts: usize,
    /// The delay that the next retry waits for.
    pub delay: u64,
    /// The delay of the first retry.
    pub base_delay: u64,
    /// The most attempts that may be made.
    pub max_attempts: usize,
    /// No further attempt is to be made.
    pub finished: bool,
}

impl RetryState {
    /// The number of retries that have been asked for so far.
    pub open spec fn retries(&self) -> nat {
        if self.finished && self.attempts > 0 {
            (self.attempts - 1) as nat
        } else {
            self.attempts as nat
        }
    }

    /// The invariant of the state: the budget is respected, the delay is the
    /// base delay doubled once per retry, and no delay within the budget
    /// overflows.
    pub open spec fn wf(&self) -> bool {
        &&& self.attempts <= self.max_attempts
        &&& !self.finished ==> self.attempts < self.max_attempts
        &&& self.delay == doubled(self.base_delay as nat, self.retries())
        &&& self.max_attempts > 0 ==> doubled(
            self.base_delay as nat,
            (self.max_attempts - 1) as nat,
        ) <= u64::MAX
    }

    /// A base delay and a budget whose every delay fits the machine's integers.
    pub open spec fn fits(base_delay: u64, max_attempts: usize) -> bool {
        max_attempts > 0 ==> doubled(base_delay as nat, (max_attempts - 1) as nat) <= u64::MAX
    }

    /// A fresh state, with no attempt made. It is refused exactly when a delay
    /// within the budget would overflow. With a budget of zero the state is
    /// finished from the start.
    pub fn new(base_delay: u64, max_attempts: usize) -> (state: Option<RetryState>)
        ensures
            state is Some <==> Self::fits(base_delay, max_attempts),
            state matches Some(s) ==> {
                &&& s.wf()
                &&& s.attempts == 0
                &&& s.delay == base_delay
                &&& s.base_delay == base_delay
                &&& s.max_attempts == max_attempts
                &&& s.finished == (max_attempts == 0)
            },
    {
        let fresh = RetryState {
            attempts: 0,
            delay: base_delay,
            base_delay,
            max_attempts,
            finished: max_attempts == 0,
        };
        if max_attempts == 0 || base_delay == 0 {
            proof {
                if max_attempts > 0 {
                    lemma_doubled_zero((max_attempts - 1) as nat);
                }
            }
            return Some(fresh);
        }
        let mut current: u64 = base_delay;
        let mut done: usize = 1;
        while done < max_attempts
            invariant
                1 <= done <= max_attempts,
                current == doubled(base_delay as nat, (done - 1) as nat),
            decreases max_attempts - done,
        {
            if current > u64::MAX / 2 {
                proof {
                    lemma_doubled_grows(base_delay as nat, done as nat, (max_attempts - 1) as nat);
                }
                return None;
            }
            current = current * 2;
            done = done + 1;
        }
        Some(fresh)
    }

    /// Whether another attempt may be made.
    pub fn is_finished(&self) -> (finished: bool)
        ensures
            finished == self.finished,
    {
        self.finished
    }

    /// Records the outcome of the attempt just made and says what to do next.
    /// After a retryable outcome within the budget the answer is a retry with
    /// the current delay, and the delay doubles; otherwise the state is
    /// finished and the delay stays.
    pub fn next(&mut self, outcome: Outcome) -> (action: Action)
        requires
            old(self).wf(),
            !old(self).finished,
        ensures
            final(self).wf(),
            final(self).attempts == old(self).attempts + 1,
            final(self).max_attempts == old(self).max_attempts,
            final(self).base_delay == old(self).base_delay,
            action == decide(
                outcome,
                final(self).attempts as nat,
                old(self).max_attempts as nat,
                old(self).delay,
            ),
            action is Retry ==> final(self).delay == 2 * old(self).delay,
            !(action is Retry) ==> final(self).delay == old(self).delay,
            final(self).finished == !(action is Retry),
            action matches Action::Retry { delay } ==> delay == doubled(
                old(self).base_delay as nat,
                old(self).attempts as nat,
            ),
    {
        self.attempts = self.attempts + 1;
        match outcome {
            Outcome::Success => {
                self.finished = true;
                Action::Done
            },
            Outcome::Fatal => {
                self.finished = true;
                Action::Abort
            },
            _ => {
                if self.attempts < self.max_attempts {
                    let delay = self.delay;
                    proof {
                        lemma_doubled_grows(
                            self.base_delay as nat,
                            self.attempts as nat,
                            (self.max_attempts - 1) as nat,
                        );
                    }
                    self.delay = delay * 2;
                    Action::Retry { delay }
                } else {
                    self.finished = true;
                    Action::GiveUp
                }
            },
        }
    }
}

/// Doubling zero gives zero.
pub proof fn lemma_doubled_zero(n: nat)
    ensures
        doubled(0, n) == 0,
    decreases n,
{
    if n > 0 {
        lemma_doubled_zero((n - 1) as nat);
    }
}

/// More doublings never give a shorter delay.
pub proof fn lemma_doubled_grows(base: nat, m: nat, n: nat)
    requires
        m <= n,
    ensures
        doubled(base, m) <= doubled(base, n),
    decreases n,
{
    if m < n {
        lemma_doubled_grows(base, m, (n - 1) as nat);
    }
}

/// Backoff doubling: each retry waits twice as long as the one before it, the
/// first waits the base delay, and a well-formed state never counts more
/// attempts than its budget.
pub proof fn backoff_doubles(state: RetryState, n: nat)
    requires
        state.wf(),
    ensures
        doubled(state.base_delay as nat, 0) == state.base_delay,
        doubled(state.base_delay as nat, n + 1) == 2 * doubled(state.base_delay as nat, n),
        state.attempts <= state.max_attempts,
        state.delay == doubled(state.base_delay as nat, state.retries()),
{
}

/// An error whose text is `429` is retryable, whatever else is known.
pub proof fn throttling_code_is_retryable()
    ensures
        error_outcome("429"@) == Outcome::RetryableRateLimited,
        is_retryable(error_outcome("429"@)),
{
    let code = "429"@;
    assert(code.subrange(0, code.len() as int) == code);
    assert(crate::text::occurs_at(code, code, 0));
}

/// The answer to an outcome is a retry exactly when the outcome is retryable
/// and the budget is not spent; success and fatal errors end the operation at
/// once.
pub proof fn retry_only_within_budget(outcome: Outcome, attempts: nat, max_attempts: nat, delay: u64)
    ensures
        decide(outcome, attempts, max_attempts, delay) is Retry <==> is_retryable(outcome)
            && attempts < max_attempts,
        decide(outcome, attempts, max_attempts, delay) is GiveUp <==> is_retryable(outcome)
            && attempts >= max_attempts,
        decide(outcome, attempts, max_attempts, delay) is Done <==> outcome == Outcome::Success,
        decide(outcome, attempts, max_attempts, delay) is Abort <==> outcome == Outcome::Fatal,
{
}

} // verus!
