//! What to do with a command that failed: send it again at once, send it again later, or give
//! up and hand the failure to the caller.

use crate::error::RedisErrorKind;
use vstd::prelude::*;

verus! {

/// The decision on a failed command.
#[derive(Clone, Copy, Debug, PartialEq, Eq, Structural)]
pub enum RetryDecision {
    /// Send the command again without waiting.
    RetryImmediately,
    /// Send the command again after so many milliseconds. The wait is scheduled; nothing
    /// sleeps in the meantime.
    RetryAfter(u64),
    /// Hand the failure to the caller.
    GiveUp,
}

/// How often and how patiently failed commands are sent again.
#[derive(Clone, Copy, Debug)]
pub struct RetryPolicy {
    /// A command that has been attempted this often is given up.
    pub max_attempts: u32,
    /// The wait before the first retry, in milliseconds. It doubles with every attempt.
    pub base_delay_ms: u64,
    /// The longest wait, before jitter.
    pub max_delay_ms: u64,
    /// The most that jitter adds to a wait.
    pub max_jitter_ms: u64,
}

/// The smaller of two numbers.
pub open spec fn min_nat(a: nat, b: nat) -> nat {
    if a <= b {
        a
    } else {
        b
    }
}

/// The wait before the retry that follows `attempt` attempts, before jitter: `base` doubled
/// `attempt` times, but at most `max`.
pub open spec fn backoff(base: nat, max: nat, attempt: nat) -> nat
    decreases attempt,
{
    if attempt == 0 {
        min_nat(base, max)
    } else {
        min_nat(2 * backoff(base, max, (attempt - 1) as nat), max)
    }
}

/// Whether a failure of this kind may pass: the transport failed or the cluster was not ready.
pub open spec fn is_transient(kind: RedisErrorKind) -> bool {
    kind == RedisErrorKind::Io || kind == RedisErrorKind::ClusterUnavailable
}

impl RetryPolicy {
    /// The wait before the retry that follows `attempt` attempts: the backoff, and on top of
    /// it the jitter, as far as the policy allows jitter. It never exceeds what a `u64` holds.
    pub open spec fn delay(self, attempt: nat, jitter: nat) -> nat {
        min_nat(
            backoff(self.base_delay_ms as nat, self.max_delay_ms as nat, attempt) + min_nat(
                jitter,
                self.max_jitter_ms as nat,
            ),
            u64::MAX as nat,
        )
    }

    /// The decision on a command that failed with `kind` after `attempt` attempts. A command
    /// that has used up its attempts, or that must not be sent twice, is given up. Otherwise
    /// a redirection is followed at once, a transient failure is retried after a wait, and
    /// every other failure is given up.
    pub open spec fn decision(
        self,
        kind: RedisErrorKind,
        attempt: u32,
        retryable: bool,
        jitter: u64,
    ) -> RetryDecision {
        if attempt >= self.max_attempts || !retryable {
            RetryDecision::GiveUp
        } else if kind == RedisErrorKind::Redirect {
            RetryDecision::RetryImmediately
        } else if is_transient(kind) {
            RetryDecision::RetryAfter(self.delay(attempt as nat, jitter as nat) as u64)
        } else {
            RetryDecision::GiveUp
        }
    }

    /// The backoff after `attempt` attempts.
    fn backoff_ms(&self, attempt: u32) -> (d: u64)
        ensures
            d == backoff(self.base_delay_ms as nat, self.max_delay_ms as nat, attempt as nat),
    {
        let base: u64 = self.base_delay_ms;
        let max: u64 = self.max_delay_ms;
        let mut d: u64 = if base <= max {
            base
        } else {
            max
        };
        let mut i: u32 = 0;
        while i < attempt && d != 0 && d != max
            invariant
                i <= attempt,
                d <= max,
                d == backoff(base as nat, max as nat, i as nat),
            decreases attempt - i,
        {
            d = if d > max / 2 {
                max
            } else {
                d * 2
            };
            i = i + 1;
        }
        proof {
            lemma_backoff_settles(base as nat, max as nat, i as nat, attempt as nat);
        }
        d
    }

    /// Decides on a command that failed with `kind` after `attempt` attempts. `retryable`
    /// says whether the command may be sent again at all, and `jitter` is a random number of
    /// milliseconds supplied by the caller.
    pub fn decide(&self, kind: RedisErrorKind, attempt: u32, retryable: bool, jitter: u64) -> (d:
        RetryDecision)
        ensures
            d == self.decision(kind, attempt, retryable, jitter),
    {
        if attempt >= self.max_attempts || !retryable {
            return RetryDecision::GiveUp;
        }
        match kind {
            RedisErrorKind::Redirect => RetryDecision::RetryImmediately,
            RedisErrorKind::Io | RedisErrorKind::ClusterUnavailable => {
                let wait: u64 = self.backoff_ms(attempt);
                let extra: u64 = if jitter <= self.max_jitter_ms {
                    jitter
                } else {
                    self.max_jitter_ms
                };
                let total: u64 = if wait > u64::MAX - extra {
                    u64::MAX
                } else {
                    wait + extra
                };
                RetryDecision::RetryAfter(total)
            },
            _ => RetryDecision::GiveUp,
        }
    }
}

/// Once the backoff is zero or has reached the cap, it stays there.
proof fn lemma_backoff_settles(base: nat, max: nat, i: nat, attempt: nat)
    requires
        i <= attempt,
        i < attempt ==> backoff(base, max, i) == 0 || backoff(base, max, i) == max,
    ensures
        backoff(base, max, attempt) == backoff(base, max, i),
    decreases attempt - i,
{
    if i < attempt {
        lemma_backoff_settles(base, max, i, (attempt - 1) as nat);
    }
}

/// The backoff never exceeds the cap and never shrinks from one attempt to the next.
pub proof fn lemma_backoff_bounded_and_growing(base: nat, max: nat, attempt: nat)
    ensures
        backoff(base, max, attempt) <= max,
        backoff(base, max, attempt) <= backoff(base, max, attempt + 1),
    decreases attempt,
{
    if attempt > 0 {
        lemma_backoff_bounded_and_growing(base, max, (attempt - 1) as nat);
    }
}

/// However a command failed, it is given up once it has used up its attempts, and a
/// redirection is never waited for.
pub proof fn lemma_attempts_are_bounded(
    policy: RetryPolicy,
    kind: RedisErrorKind,
    attempt: u32,
    retryable: bool,
    jitter: u64,
)
    ensures
        attempt >= policy.max_attempts ==> policy.decision(kind, attempt, retryable, jitter)
            == RetryDecision::GiveUp,
        !retryable ==> policy.decision(kind, attempt, retryable, jitter) == RetryDecision::GiveUp,
        kind == RedisErrorKind::Redirect ==> !(policy.decision(kind, attempt, retryable, jitter)
            is RetryAfter),
        policy.decision(kind, attempt, retryable, jitter) matches RetryDecision::RetryAfter(ms)
            ==> ms <= policy.max_delay_ms + policy.max_jitter_ms,
{
    lemma_backoff_bounded_and_growing(
        policy.base_delay_ms as nat,
        policy.max_delay_ms as nat,
        attempt as nat,
    );
}

} // verus!
