//! The bounded-retry plan for configuring a freshly exported control
//! line.  Exporting a line does not guarantee it is immediately
//! configurable, so its direction is set repeatedly, with a fixed wait
//! before every attempt but the first, up to a given number of attempts.
//! The unverified shell performs the export, the waits and the direction
//! calls; the decision of when to retry and which outcome to report is
//! fixed here over the sequence of attempt outcomes.

use vstd::prelude::*;

verus! {

/// Outcome of the bounded retry.  Attempts are numbered from 1.
#[derive(Clone, Copy, Debug, PartialEq, Eq, Structural)]
pub enum AcquireResult {
    /// Setting the direction succeeded on this attempt.  Attempt 0 means
    /// no attempt was requested: the line is handed back unconfigured.
    Configured { attempt: usize },
    /// Every attempt failed; the error reported to the caller is the one
    /// from this (the last) attempt, earlier errors are discarded.
    Failed { last_attempt: usize },
}

/// The retry outcome, scanning attempts `k, k + 1, ...` (0-based) of
/// `outcomes`, where `outcomes[j]` says whether attempt `j + 1` succeeds.
pub open spec fn spec_acquire_from(outcomes: Seq<bool>, max_attempts: int, k: int) -> AcquireResult
    decreases max_attempts - k,
{
    if k < 0 || k >= max_attempts {
        if max_attempts <= 0 {
            AcquireResult::Configured { attempt: 0 }
        } else {
            AcquireResult::Failed { last_attempt: max_attempts as usize }
        }
    } else if outcomes[k] {
        AcquireResult::Configured { attempt: (k + 1) as usize }
    } else {
        spec_acquire_from(outcomes, max_attempts, k + 1)
    }
}

/// Plan of the whole acquisition over the attempt outcomes: the retry
/// succeeds exactly when some attempt within the budget would succeed
/// (or when no attempt was requested at all).
pub fn plan_acquire(outcomes: &Vec<bool>, max_attempts: usize) -> (r: AcquireResult)
    requires
        max_attempts <= outcomes@.len(),
    ensures
        r == spec_acquire_from(outcomes@, max_attempts as int, 0),
        r is Configured <==> (max_attempts == 0 || exists|j: int|
            0 <= j < max_attempts && outcomes@[j]),
{
    let mut k: usize = 0;
    while k < max_attempts
        invariant
            k <= max_attempts,
            max_attempts <= outcomes@.len(),
            spec_acquire_from(outcomes@, max_attempts as int, 0) == spec_acquire_from(
                outcomes@,
                max_attempts as int,
                k as int,
            ),
            forall|j: int| 0 <= j < k ==> !outcomes@[j],
        decreases max_attempts - k,
    {
        if outcomes[k] {
            return AcquireResult::Configured { attempt: k + 1 };
        }
        k += 1;
    }
    if max_attempts == 0 {
        AcquireResult::Configured { attempt: 0 }
    } else {
        AcquireResult::Failed { last_attempt: max_attempts }
    }
}

/// The first successful attempt wins: with no success before attempt
/// `k + 1` and success on it, the line is configured on attempt `k + 1`.
pub proof fn lemma_acquire_first_success(outcomes: Seq<bool>, max_attempts: int, k: int)
    requires
        0 <= k < max_attempts <= outcomes.len(),
        outcomes[k],
        forall|j: int| 0 <= j < k ==> !outcomes[j],
    ensures
        spec_acquire_from(outcomes, max_attempts, 0) == (AcquireResult::Configured {
            attempt: (k + 1) as usize,
        }),
{
    lemma_acquire_skips_failures(outcomes, max_attempts, 0, k);
}

/// When every attempt in the budget fails, the reported error is the one
/// from the last attempt.
pub proof fn lemma_acquire_all_fail(outcomes: Seq<bool>, max_attempts: int)
    requires
        0 < max_attempts <= outcomes.len(),
        forall|j: int| 0 <= j < max_attempts ==> !outcomes[j],
    ensures
        spec_acquire_from(outcomes, max_attempts, 0) == (AcquireResult::Failed {
            last_attempt: max_attempts as usize,
        }),
{
    lemma_acquire_skips_failures(outcomes, max_attempts, 0, max_attempts);
}

proof fn lemma_acquire_skips_failures(outcomes: Seq<bool>, max_attempts: int, k: int, upto: int)
    requires
        0 <= k <= upto <= max_attempts <= outcomes.len(),
        forall|j: int| k <= j < upto ==> !outcomes[j],
    ensures
        spec_acquire_from(outcomes, max_attempts, k) == spec_acquire_from(
            outcomes,
            max_attempts,
            upto,
        ),
    decreases upto - k,
{
    if k < upto {
        lemma_acquire_skips_failures(outcomes, max_attempts, k + 1, upto);
    }
}

} // verus!
