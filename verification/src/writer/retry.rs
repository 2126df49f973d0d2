//! The retry policy of NPM calls, as a state machine: the caller makes the
//! call, classifies a failure, and asks what to do next.
use vstd::prelude::*;
use rand::Rng;

verus! {

/// How a failed call is treated.
#[derive(Debug, Clone, Copy, PartialEq, Eq, Structural)]
pub enum FailKind {
    /// Worth retrying after a delay (transport errors, 5xx, 429).
    Transient,
    /// Retrying would not help (other 4xx).
    NonTransient,
    /// The token expired: log in again and retry, without using an attempt.
    Unauthorized,
}

/// How many transient failures a call may have and how long to wait between
/// them.
#[derive(Debug, Clone, Copy)]
pub struct RetryPolicy {
    pub max_attempts: u32,
    /// The first delay, in milliseconds; each further delay is four times the
    /// previous one.
    pub base_millis: u64,
}

impl Default for RetryPolicy {
    fn default() -> (r: Self)
        ensures
            r.max_attempts == 3,
            r.base_millis == 1000,
    {
        RetryPolicy { max_attempts: 3, base_millis: 1000 }
    }
}

/// Why a retried call finally failed, with its last error.
#[derive(Debug, PartialEq, Eq)]
pub enum RetryError<E> {
    Exhausted(E),
    NonTransient(E),
}

/// The kind of final failure.
#[derive(Debug, Clone, Copy, PartialEq, Eq, Structural)]
pub enum GiveUp {
    Exhausted,
    NonTransient,
}

/// What to do after a failed call.
#[derive(Debug, Clone, Copy, PartialEq, Eq, Structural)]
pub enum RetryDecision {
    /// Stop and report the error.
    Fail(GiveUp),
    /// Log in again, then call again.
    RefreshThenRetry,
    /// Wait this many milliseconds, then call again.
    SleepThenRetry { delay_millis: u64 },
}

/// The progress of one retried call: how many transient failures it had.
#[derive(Debug, Clone, Copy, PartialEq, Eq)]
pub struct RetryState {
    pub attempt: u32,
}

/// `4^n`.
pub open spec fn pow4(n: nat) -> nat
    decreases n,
{
    if n == 0 {
        1
    } else {
        4 * pow4((n - 1) as nat)
    }
}

/// The delay before the call that follows transient failure number `attempt`
/// (counted from 1), before jitter: `base * 4^(attempt - 1)`.
pub open spec fn backoff(base: u64, attempt: nat) -> int {
    base * pow4((attempt - 1) as nat)
}

/// `x` capped at `u64::MAX`.
pub open spec fn cap(x: int) -> u64 {
    if x > u64::MAX {
        u64::MAX
    } else {
        x as u64
    }
}

/// The decision after a failure of kind `kind`, with `attempt` transient
/// failures so far and the given jitter, and the count afterwards.
pub open spec fn decide(policy: RetryPolicy, attempt: u32, kind: FailKind, jitter: u64) -> (u32, RetryDecision) {
    match kind {
        FailKind::NonTransient => (attempt, RetryDecision::Fail(GiveUp::NonTransient)),
        FailKind::Unauthorized => (attempt, RetryDecision::RefreshThenRetry),
        FailKind::Transient => {
            let next = (attempt + 1) as u32;
            if next >= policy.max_attempts {
                (next, RetryDecision::Fail(GiveUp::Exhausted))
            } else {
                (next, RetryDecision::SleepThenRetry { delay_millis: cap(backoff(policy.base_millis, next as nat) + jitter) })
            }
        },
    }
}

proof fn lemma_pow4_positive(n: nat)
    ensures
        pow4(n) >= 1,
    decreases n,
{
    if n > 0 {
        lemma_pow4_positive((n - 1) as nat);
    }
}

fn backoff_millis(base: u64, attempt: u32) -> (r: u64)
    requires
        attempt >= 1,
    ensures
        r == cap(backoff(base, attempt as nat)),
{
    let mut b = base;
    let mut k: u32 = 1;
    proof {
        assert(pow4(0) == 1);
        assert(base * pow4(0) == base);
    }
    while k < attempt
        invariant
            1 <= k <= attempt,
            b == cap(base * pow4((k - 1) as nat)),
        decreases attempt - k,
    {
        let ghost x = base * pow4((k - 1) as nat);
        proof {
            lemma_pow4_positive((k - 1) as nat);
            assert(pow4(k as nat) == 4 * pow4((k - 1) as nat));
            assert(base * pow4(k as nat) == 4 * x) by (nonlinear_arith)
                requires
                    pow4(k as nat) == 4 * pow4((k - 1) as nat),
                    x == base * pow4((k - 1) as nat),
            ;
        }
        b = if b > u64::MAX / 4 { u64::MAX } else { b * 4 };
        k = k + 1;
    }
    b
}

/// A random number in `0..bound`, from `rand::rng()` and
/// `Rng::random_range` over the half-open range. Its value depends on the
/// generator, so only its range is stated.
#[verifier::external_body]
fn random_below(bound: u64) -> (r: u64)
    requires
        bound > 0,
    ensures
        r < bound,
{
    rand::rng().random_range(0..bound)
}

/// The jitter added to a backoff is below this many milliseconds.
pub const JITTER_BOUND_MILLIS: u64 = 300;

impl RetryState {
    /// The state before the first call.
    pub fn new() -> (r: Self)
        ensures
            r.attempt == 0,
    {
        RetryState { attempt: 0 }
    }

    /// What to do after a failure of kind `kind`, with the given jitter.
    pub fn decide_with_jitter(&mut self, policy: &RetryPolicy, kind: FailKind, jitter: u64) -> (d: RetryDecision)
        requires
            old(self).attempt < u32::MAX || kind != FailKind::Transient,
        ensures
            (final(self).attempt, d) == decide(*policy, old(self).attempt, kind, jitter),
    {
        match kind {
            FailKind::NonTransient => RetryDecision::Fail(GiveUp::NonTransient),
            FailKind::Unauthorized => RetryDecision::RefreshThenRetry,
            FailKind::Transient => {
                self.attempt = self.attempt + 1;
                if self.attempt >= policy.max_attempts {
                    RetryDecision::Fail(GiveUp::Exhausted)
                } else {
                    let b = backoff_millis(policy.base_millis, self.attempt);
                    proof {
                        let x = backoff(policy.base_millis, self.attempt as nat);
                        assert(b == cap(x));
                        assert(cap(x + jitter) == if b as nat + jitter > u64::MAX { u64::MAX } else { (b + jitter) as u64 });
                    }
                    RetryDecision::SleepThenRetry { delay_millis: b.saturating_add(jitter) }
                }
            },
        }
    }

    /// What to do after a failure of kind `kind`; a transient failure waits
    /// the backoff plus a random jitter below 300 ms.
    pub fn on_failure(&mut self, policy: &RetryPolicy, kind: FailKind) -> (d: RetryDecision)
        requires
            old(self).attempt < u32::MAX || kind != FailKind::Transient,
        ensures
            exists|j: u64| j < JITTER_BOUND_MILLIS && (final(self).attempt, d) == decide(*policy, old(self).attempt, kind, j),
    {
        let j = random_below(JITTER_BOUND_MILLIS);
        self.decide_with_jitter(policy, kind, j)
    }
}

/// An unauthorized failure uses no attempt and leads to a new login.
pub proof fn lemma_unauthorized_keeps_budget(policy: RetryPolicy, attempt: u32, jitter: u64)
    ensures
        decide(policy, attempt, FailKind::Unauthorized, jitter) == (attempt, RetryDecision::RefreshThenRetry),
{
}

/// A non-transient failure ends the call at once.
pub proof fn lemma_non_transient_stops(policy: RetryPolicy, attempt: u32, jitter: u64)
    ensures
        decide(policy, attempt, FailKind::NonTransient, jitter).1 == RetryDecision::Fail(GiveUp::NonTransient),
{
}

/// When every call fails transiently, failures `1 .. max_attempts - 1` each
/// wait and retry, waiting `base * 4^(k-1)` plus jitter, and failure number
/// `max_attempts` gives up: the call is made exactly `max_attempts` times.
pub proof fn lemma_transient_failures_exhaust_budget(policy: RetryPolicy, k: nat, jitter: u64)
    requires
        policy.max_attempts >= 1,
        1 <= k <= policy.max_attempts,
    ensures
        k < policy.max_attempts ==> decide(policy, (k - 1) as u32, FailKind::Transient, jitter) == (
            k as u32,
            RetryDecision::SleepThenRetry { delay_millis: cap(backoff(policy.base_millis, k) + jitter) },
        ),
        k == policy.max_attempts ==> decide(policy, (k - 1) as u32, FailKind::Transient, jitter) == (
            k as u32,
            RetryDecision::Fail(GiveUp::Exhausted),
        ),
{
}

/// The number of transient failures in `kinds`.
pub open spec fn transients(kinds: Seq<FailKind>) -> nat
    decreases kinds.len(),
{
    if kinds.len() == 0 {
        0
    } else {
        transients(kinds.drop_last()) + if kinds.last() == FailKind::Transient {
            1nat
        } else {
            0nat
        }
    }
}

/// The decisions taken, from a fresh state, on the failures `kinds` with the
/// jitters `jitters`, and the transient-failure count afterwards.
pub open spec fn replay(policy: RetryPolicy, kinds: Seq<FailKind>, jitters: Seq<u64>) -> (u32, Seq<RetryDecision>)
    decreases kinds.len(),
{
    if kinds.len() == 0 {
        (0, Seq::empty())
    } else {
        let (a, ds) = replay(policy, kinds.drop_last(), jitters);
        let (a2, d) = decide(policy, a, kinds.last(), jitters[kinds.len() - 1]);
        (a2, ds.push(d))
    }
}

/// Every failure but the last was followed by another call.
pub open spec fn kept_retrying(policy: RetryPolicy, kinds: Seq<FailKind>) -> bool {
    forall|i: int|
        0 <= i < kinds.len() - 1 ==> #[trigger] kinds[i] != FailKind::NonTransient && transients(kinds.take(i + 1))
            < policy.max_attempts
}

/// The decision on failure `i` of a call that has failed as `kinds`: a
/// non-transient failure stops; a 401 logs in again and uses no attempt;
/// transient failure number `n` waits `base * 4^(n-1)` plus its jitter, and
/// number `max_attempts` gives up.
pub open spec fn expected_decision(policy: RetryPolicy, kinds: Seq<FailKind>, jitters: Seq<u64>, i: int) -> RetryDecision {
    match kinds[i] {
        FailKind::NonTransient => RetryDecision::Fail(GiveUp::NonTransient),
        FailKind::Unauthorized => RetryDecision::RefreshThenRetry,
        FailKind::Transient => {
            let n = transients(kinds.take(i + 1));
            if n >= policy.max_attempts {
                RetryDecision::Fail(GiveUp::Exhausted)
            } else {
                RetryDecision::SleepThenRetry { delay_millis: cap(backoff(policy.base_millis, n) + jitters[i]) }
            }
        },
    }
}

/// Over a whole retried call: the attempt count is the number of transient
/// failures so far, and each decision is the one `expected_decision` names.
/// With every failure transient, the call is made exactly `max_attempts`
/// times, waiting 1 s, 4 s, ... (times the base) plus jitter in between.
pub proof fn lemma_retry_sequence(policy: RetryPolicy, kinds: Seq<FailKind>, jitters: Seq<u64>)
    requires
        jitters.len() >= kinds.len(),
        kept_retrying(policy, kinds),
    ensures
        replay(policy, kinds, jitters).0 == transients(kinds),
        replay(policy, kinds, jitters).1.len() == kinds.len(),
        forall|i: int| 0 <= i < kinds.len() ==> #[trigger] replay(policy, kinds, jitters).1[i] == expected_decision(
            policy,
            kinds,
            jitters,
            i,
        ),
    decreases kinds.len(),
{
    if kinds.len() > 0 {
        let d = kinds.drop_last();
        let l = kinds.len() - 1;
        assert forall|i: int| 0 <= i < d.len() implies #[trigger] d.take(i + 1) == kinds.take(i + 1) && d[i] == kinds[i] by {
            assert(d.take(i + 1) =~= kinds.take(i + 1));
        }
        assert(kept_retrying(policy, d)) by {
            assert forall|i: int| 0 <= i < d.len() - 1 implies #[trigger] d[i] != FailKind::NonTransient && transients(
                d.take(i + 1),
            ) < policy.max_attempts by {
                assert(d.take(i + 1) == kinds.take(i + 1));
                assert(kinds[i] != FailKind::NonTransient);
            }
        }
        lemma_retry_sequence(policy, d, jitters);
        assert(kinds.take(l + 1) =~= kinds);
        if l > 0 {
            assert(d.take(l) =~= d);
            assert(kinds.take(l) =~= d);
            assert(kinds[l - 1] != FailKind::NonTransient && transients(kinds.take(l)) < policy.max_attempts);
        }
        assert(transients(d) < policy.max_attempts || l == 0);
        let (a, ds) = replay(policy, d, jitters);
        assert(kinds.last() == kinds[l]);
        assert forall|i: int| 0 <= i < kinds.len() implies #[trigger] replay(policy, kinds, jitters).1[i]
            == expected_decision(policy, kinds, jitters, i) by {
            if i < l {
                assert(replay(policy, kinds, jitters).1[i] == ds[i]);
                assert(ds[i] == expected_decision(policy, d, jitters, i));
                assert(d.take(i + 1) == kinds.take(i + 1));
            }
        }
    }
}

} // verus!
