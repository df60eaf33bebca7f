//! Retry classification for remote calls.
//!
//! A remote failure is *transient* exactly when its body carries the
//! rate-limit signature of its operation family: the service scheduler
//! reports throttling as one exact machine-readable body, the load-balancer
//! registry embeds a throttling code in an XML-style body. Everything else is
//! *permanent* and surfaces immediately. The application runs the retry loop
//! (it owns the backoff sleeps); [`RetryTracker`] makes its decisions and
//! counts the retries it logs.

use vstd::prelude::*;
use vstd::string::StringExecFns;
use crate::text::has_substring;
use crate::text::contains_substring;

verus! {

/// The operation families, keyed by how their errors report throttling.
#[derive(Clone, Copy, Debug, PartialEq, Eq, Structural)]
pub enum OperationFamily {
    /// Service listing, describing, creation and update, and task-template
    /// describing: throttling is one exact body.
    ServiceScheduler,
    /// Target-group describing: throttling is a code embedded in the body.
    LoadBalancer,
}

/// Whether a failed remote call may be retried.
#[derive(Clone, Copy, Debug, PartialEq, Eq, Structural)]
pub enum ErrorClass {
    Transient,
    Permanent,
}

/// A remote failure as the application hands it over: either a raw body that
/// the remote layer could not interpret, or an error it already structured
/// (always permanent).
#[derive(Debug, Clone)]
pub enum RemoteError {
    Unclassified { body: String },
    Structured { description: String },
}

/// The exact throttling body of the service-scheduler family.
pub open spec fn scheduler_throttle_marker() -> Seq<char> {
    "{\"__type\":\"ThrottlingException\",\"message\":\"Rate exceeded\"}"@
}

/// The throttling fragment of the load-balancer family.
pub open spec fn load_balancer_throttle_marker() -> Seq<char> {
    "<Code>Throttling</Code>"@
}

/// A failure is transient exactly when it is an uninterpreted body carrying
/// its family's rate-limit signature.
pub open spec fn is_transient(family: OperationFamily, err: RemoteError) -> bool {
    match err {
        RemoteError::Unclassified { body } => match family {
            OperationFamily::ServiceScheduler => body@ == scheduler_throttle_marker(),
            OperationFamily::LoadBalancer => has_substring(
                body@,
                load_balancer_throttle_marker(),
            ),
        },
        RemoteError::Structured { .. } => false,
    }
}

/// Classifies a remote failure for its operation family.
pub fn classify(family: &OperationFamily, err: &RemoteError) -> (r: ErrorClass)
    ensures
        r is Transient <==> is_transient(*family, *err),
{
    match err {
        RemoteError::Unclassified { body } => match family {
            OperationFamily::ServiceScheduler => {
                let marker = String::from_str(
                    "{\"__type\":\"ThrottlingException\",\"message\":\"Rate exceeded\"}",
                );
                if body.eq(&marker) {
                    ErrorClass::Transient
                } else {
                    ErrorClass::Permanent
                }
            },
            OperationFamily::LoadBalancer => {
                if contains_substring(body.as_str(), "<Code>Throttling</Code>") {
                    ErrorClass::Transient
                } else {
                    ErrorClass::Permanent
                }
            },
        },
        RemoteError::Structured { .. } => ErrorClass::Permanent,
    }
}

/// What one invocation of the wrapped operation came to.
#[derive(Clone, Copy, Debug, PartialEq, Eq, Structural)]
pub enum AttemptOutcome {
    Succeeded,
    Failed(ErrorClass),
}

/// What the wrapper does after one invocation.
#[derive(Clone, Copy, Debug, PartialEq, Eq, Structural)]
pub enum RetryStep {
    /// Success: return it.
    Finish,
    /// Permanent failure: return it undecorated after this one attempt.
    Abort,
    /// Transient failure: log one retry message and invoke again after a
    /// backoff sleep.
    LogAndRetry,
}

/// An outcome ends the wrapper's loop unless it is a transient failure.
pub open spec fn is_decisive(o: AttemptOutcome) -> bool {
    match o {
        AttemptOutcome::Succeeded => true,
        AttemptOutcome::Failed(c) => c is Permanent,
    }
}

/// The step the wrapper takes on one outcome.
pub open spec fn step_of(o: AttemptOutcome) -> RetryStep {
    match o {
        AttemptOutcome::Succeeded => RetryStep::Finish,
        AttemptOutcome::Failed(ErrorClass::Transient) => RetryStep::LogAndRetry,
        AttemptOutcome::Failed(ErrorClass::Permanent) => RetryStep::Abort,
    }
}

/// What running the wrapper over a sequence of attempt outcomes returns:
/// `Some((n, o))` when the first decisive outcome is `o` after exactly `n`
/// transient failures (so `n` logged retries), `None` when no outcome is
/// decisive.
pub open spec fn wrapper_run(outcomes: Seq<AttemptOutcome>) -> Option<(int, AttemptOutcome)>
    decreases outcomes.len(),
{
    if outcomes.len() == 0 {
        None
    } else if is_decisive(outcomes[0]) {
        Some((0, outcomes[0]))
    } else {
        match wrapper_run(outcomes.drop_first()) {
            Some((n, o)) => Some((n + 1, o)),
            None => None,
        }
    }
}

/// Appending one outcome to a still-undecided run decides it exactly when the
/// outcome is decisive, with every earlier attempt counted as one retry.
pub proof fn lemma_wrapper_run_push(outcomes: Seq<AttemptOutcome>, o: AttemptOutcome)
    requires
        wrapper_run(outcomes) is None,
    ensures
        is_decisive(o) ==> wrapper_run(outcomes.push(o)) == Some((outcomes.len() as int, o)),
        !is_decisive(o) ==> wrapper_run(outcomes.push(o)) is None,
    decreases outcomes.len(),
{
    if outcomes.len() == 0 {
        assert(outcomes.push(o)[0] == o);
        assert(outcomes.push(o).drop_first() =~= Seq::<AttemptOutcome>::empty());
    } else {
        assert(!is_decisive(outcomes[0]));
        assert(outcomes.push(o)[0] == outcomes[0]);
        assert(outcomes.push(o).drop_first() =~= outcomes.drop_first().push(o));
        lemma_wrapper_run_push(outcomes.drop_first(), o);
    }
}

/// The retry wrapper's decision state: how many retries it has logged, and
/// (in ghost state) the outcomes observed so far.
pub struct RetryTracker {
    pub retries: usize,
    pub seen: Ghost<Seq<AttemptOutcome>>,
}

impl RetryTracker {
    /// The tracker is mid-run: every outcome so far was transient, and each
    /// one was logged as a retry.
    pub open spec fn in_progress(self) -> bool {
        self.seen@.len() == self.retries && wrapper_run(self.seen@) is None
    }

    /// A fresh tracker, before the first invocation.
    pub fn new() -> (t: Self)
        ensures
            t.in_progress(),
            t.seen@ == Seq::<AttemptOutcome>::empty(),
            t.retries == 0,
    {
        RetryTracker { retries: 0, seen: Ghost(Seq::empty()) }
    }

    /// Decides the wrapper's step on one more outcome. A transient failure is
    /// counted as one logged retry; a decisive outcome ends the run with the
    /// retry count unchanged.
    pub fn observe(&mut self, outcome: &AttemptOutcome) -> (step: RetryStep)
        requires
            old(self).in_progress(),
            old(self).retries < usize::MAX,
        ensures
            step == step_of(*outcome),
            final(self).seen@ == old(self).seen@.push(*outcome),
            step is LogAndRetry ==> final(self).in_progress() && final(self).retries == old(
                self,
            ).retries + 1,
            step is LogAndRetry ==> !is_decisive(*outcome),
            (step is Finish || step is Abort) ==> final(self).retries == old(self).retries
                && wrapper_run(final(self).seen@) == Some(
                (old(self).retries as int, *outcome),
            ),
    {
        proof {
            lemma_wrapper_run_push(self.seen@, *outcome);
        }
        let ghost new_seen = self.seen@.push(*outcome);
        self.seen = Ghost(new_seen);
        match outcome {
            AttemptOutcome::Succeeded => RetryStep::Finish,
            AttemptOutcome::Failed(ErrorClass::Permanent) => RetryStep::Abort,
            AttemptOutcome::Failed(ErrorClass::Transient) => {
                self.retries = self.retries + 1;
                RetryStep::LogAndRetry
            },
        }
    }
}

/// An operation that fails transiently exactly `n` times and then succeeds
/// comes back as a success with exactly `n` retries logged.
pub proof fn lemma_retry_transient_then_success(outcomes: Seq<AttemptOutcome>, n: int)
    requires
        0 <= n < outcomes.len(),
        forall|i: int| 0 <= i < n ==> outcomes[i] == AttemptOutcome::Failed(ErrorClass::Transient),
        outcomes[n] is Succeeded,
    ensures
        wrapper_run(outcomes) == Some((n, AttemptOutcome::Succeeded)),
    decreases n,
{
    if n == 0 {
        assert(is_decisive(outcomes[0]));
    } else {
        assert(!is_decisive(outcomes[0]));
        lemma_retry_transient_then_success(outcomes.drop_first(), n - 1);
    }
}

/// A permanent failure comes back after exactly one attempt, undecorated,
/// with no retry logged.
pub proof fn lemma_retry_permanent_immediate(outcomes: Seq<AttemptOutcome>)
    requires
        outcomes.len() >= 1,
        outcomes[0] == AttemptOutcome::Failed(ErrorClass::Permanent),
    ensures
        wrapper_run(outcomes) == Some((0int, outcomes[0])),
{
}

/// The diagnostic line emitted at informational severity on every transient
/// retry.
pub fn retry_message(description: &str, error_text: &str) -> (r: String)
    ensures
        r@ == description@ + " failed due to "@ + error_text@ + ". Retrying"@,
{
    let mut m = description.to_owned();
    m.append(" failed due to ");
    m.append(error_text);
    m.append(". Retrying");
    m
}

} // verus!
