//! Hot-swap controller: the policy by which a control context replaces the
//! currently installed unit while the scheduler may be mid-tick on it.
//!
//! Replacement first tries to take the unit's lock a bounded number of times,
//! sleeping briefly between attempts.  Only if the lock stays busy for the
//! whole bound does it escalate: it sends the unit a cooperative interrupt and
//! then installs the new unit.  The decisions are made here, one poll at a
//! time; the caller performs the actual lock polls, delays and interrupt.

use vstd::prelude::*;

verus! {

/// How many times the controller polls the unit's lock before escalating.
pub const LOCK_RETRY_ATTEMPTS: u32 = 100;

/// Delay between two lock polls, in nanoseconds (1 ms).
pub const LOCK_RETRY_DELAY_NANOS: u64 = 1000000;

/// Result of one attempt to take the unit's lock without blocking.
#[derive(Clone, Copy, Debug, PartialEq, Eq, Structural)]
pub enum LockPoll {
    Acquired,
    Busy,
}

/// What the controller does after seeing one lock poll.
#[derive(Clone, Copy, Debug, PartialEq, Eq, Structural)]
pub enum ReplaceAction {
    /// The lock was taken: install the new unit now, without interrupting.
    Install,
    /// The lock was busy and the bound is not yet reached: wait
    /// `LOCK_RETRY_DELAY_NANOS` and poll again.
    RetryAfterDelay,
    /// The bound is exhausted: interrupt the unit's in-flight tick, then
    /// install the new unit.
    InterruptThenInstall,
}

/// The controller's decision after `attempts_made` busy polls, on seeing one
/// more poll result.
pub open spec fn replace_decision(attempts_made: int, poll: LockPoll) -> ReplaceAction {
    if poll is Acquired {
        ReplaceAction::Install
    } else if attempts_made + 1 < LOCK_RETRY_ATTEMPTS {
        ReplaceAction::RetryAfterDelay
    } else {
        ReplaceAction::InterruptThenInstall
    }
}

/// One step of the replacement policy.
///
/// `attempts_made` is the number of busy polls seen so far since this
/// replacement began; `poll` is the outcome of the poll just made.
pub fn replace_step(attempts_made: u32, poll: LockPoll) -> (a: ReplaceAction)
    requires
        attempts_made < LOCK_RETRY_ATTEMPTS,
    ensures
        a == replace_decision(attempts_made as int, poll),
{
    match poll {
        LockPoll::Acquired => ReplaceAction::Install,
        LockPoll::Busy => {
            if attempts_made + 1 < LOCK_RETRY_ATTEMPTS {
                ReplaceAction::RetryAfterDelay
            } else {
                ReplaceAction::InterruptThenInstall
            }
        },
    }
}

/// Replacement completes within a deterministic bound, whatever the unit
/// does.  Driving `replace_step` from zero attempts against any sequence of
/// poll outcomes, some step before `LOCK_RETRY_ATTEMPTS` is terminal (it is
/// not a retry), and every step before it is a retry.  At most
/// `LOCK_RETRY_ATTEMPTS - 1` delays of `LOCK_RETRY_DELAY_NANOS` are ever
/// slept, so even a unit whose tick never returns cannot hold the control
/// context past roughly `LOCK_RETRY_ATTEMPTS` milliseconds.
pub proof fn lemma_replace_bounded(polls: Seq<LockPoll>)
    requires
        polls.len() >= LOCK_RETRY_ATTEMPTS,
    ensures
        exists|i: int|
            0 <= i < LOCK_RETRY_ATTEMPTS && !(replace_decision(i, polls[i]) is RetryAfterDelay)
                && forall|j: int|
                0 <= j < i ==> replace_decision(j, polls[j]) is RetryAfterDelay,
{
    if exists|i: int| 0 <= i < LOCK_RETRY_ATTEMPTS && polls[i] is Acquired {
        let i = lemma_least_acquired(polls, LOCK_RETRY_ATTEMPTS as int);
        assert(!(replace_decision(i, polls[i]) is RetryAfterDelay));
        assert(forall|j: int| 0 <= j < i ==> replace_decision(j, polls[j]) is RetryAfterDelay);
    } else {
        let i = LOCK_RETRY_ATTEMPTS - 1;
        assert(polls[i as int] is Busy);
        assert(!(replace_decision(i as int, polls[i as int]) is RetryAfterDelay));
        assert(forall|j: int|
            0 <= j < i ==> replace_decision(j, polls[j]) is RetryAfterDelay);
    }
}

/// A unit that hands over its lock promptly is never interrupted.  If the
/// first acquired poll comes at step `i`, within the bound, then that step
/// installs the new unit and no step up to and including it ever chooses the
/// interrupt escalation.
pub proof fn lemma_prompt_unit_never_interrupted(polls: Seq<LockPoll>, i: int)
    requires
        0 <= i < LOCK_RETRY_ATTEMPTS,
        i < polls.len(),
        polls[i] is Acquired,
        forall|j: int| 0 <= j < i ==> polls[j] is Busy,
    ensures
        replace_decision(i, polls[i]) is Install,
        forall|j: int|
            0 <= j <= i ==> !(replace_decision(j, polls[j]) is InterruptThenInstall),
{
}

/// Least index below `n` whose poll is `Acquired`, when one exists.
proof fn lemma_least_acquired(polls: Seq<LockPoll>, n: int) -> (i: int)
    requires
        0 < n <= polls.len(),
        exists|i: int| 0 <= i < n && polls[i] is Acquired,
    ensures
        0 <= i < n,
        polls[i] is Acquired,
        forall|j: int| 0 <= j < i ==> polls[j] is Busy,
    decreases n,
{
    if polls[0] is Acquired {
        0
    } else {
        let k = choose|k: int| 0 <= k < n && polls[k] is Acquired;
        assert(1 <= k);
        let sub = polls.skip(1);
        assert(sub[k - 1] is Acquired);
        let i0 = lemma_least_acquired(sub, n - 1);
        assert forall|j: int| 1 <= j < i0 + 1 implies polls[j] is Busy by {
            assert(sub[j - 1] is Busy);
        }
        i0 + 1
    }
}

} // verus!
