//! Scheduler loop decisions: what one iteration of the background loop does
//! with the outcome of a tick, and when the next tick is due.
//!
//! The loop itself — loading the slot, locking the unit, measuring wall-clock
//! time, sleeping — runs outside this crate.  Each iteration hands its
//! outcome to [`scheduler_step`], which feeds the recorder, appends at most
//! one log line, publishes the unit's reported figures, and computes the next
//! scheduled wake-up.  The wake-up advances from the previous scheduled
//! wake-up, not from "now", so long-run cadence survives jitter; only when
//! the computed wake-up already lies in the past (a suspended machine, an
//! overrunning tick) is the anchor reset to "now" instead of emitting a burst
//! of catch-up ticks.

use vstd::prelude::*;
use crate::recorder::MAX_RECORDABLE_NANOS;
use crate::recorder::TickStats;
use crate::recorder::ewma_step;
use crate::recorder::ratchet_max;

verus! {

/// Spacing between scheduler iterations while no unit is installed (100 ms,
/// i.e. 10 Hz), purely to stay responsive to a newly loaded unit.
pub const IDLE_TICK_NANOS: u64 = 100000000;

/// Relies on `String::clear`: it removes all contents, leaving the empty
/// string (capacity is unspecified and not stated here).
pub assume_specification[ String::clear ](s: &mut String)
    ensures
        final(s)@ == Seq::<char>::empty(),
;

/// One process the unit is attached to, as shown to the control context.
#[derive(Debug, Default)]
pub struct ProcessInfo {
    pub path: String,
    pub pid: String,
}

impl ProcessInfo {
    /// Empty both fields so the entry can be refilled without reallocating.
    pub fn clear(&mut self)
        ensures
            final(self).path@.len() == 0,
            final(self).pid@.len() == 0,
    {
        self.path.clear();
        self.pid.clear();
    }
}

/// What one scheduler iteration observed.
pub enum TickOutcome {
    /// The slot was empty: no unit work was performed.
    NoUnit,
    /// The installed unit was ticked once.
    Ticked {
        /// Wall-clock duration of the tick, in nanoseconds.
        elapsed_ns: u64,
        /// The spacing the unit requests before its next tick, in
        /// nanoseconds; zero means "tick again immediately".
        rate_ns: u64,
        /// The log line to append if the tick failed; `None` on success.
        error: Option<String>,
        /// Bytes of memory the unit currently uses.
        memory_usage: usize,
        /// Handles (processes, settings maps, setting values) the unit holds.
        handles: u64,
        /// The processes the unit is attached to.
        processes: Vec<ProcessInfo>,
    },
}

/// Scheduler-owned state published to the control context.
pub struct SchedulerState {
    /// When the next tick is scheduled, in nanoseconds of monotonic time.
    pub next_tick_ns: u64,
    /// The tick rate the unit reported most recently, in nanoseconds.
    pub last_tick_rate_ns: u64,
    /// Memory usage reported by the most recent tick, in bytes.
    pub memory_usage: usize,
    /// Handle count reported by the most recent tick.
    pub handles: u64,
    /// Attached processes reported by the most recent tick.
    pub processes: Vec<ProcessInfo>,
}

impl SchedulerState {
    /// Fresh state anchored at `now_ns`: the first tick is due immediately.
    pub fn new(now_ns: u64) -> (s: Self)
        ensures
            s.next_tick_ns == now_ns,
            s.last_tick_rate_ns == 0,
            s.memory_usage == 0,
            s.handles == 0,
            s.processes@.len() == 0,
    {
        SchedulerState {
            next_tick_ns: now_ns,
            last_tick_rate_ns: 0,
            memory_usage: 0,
            handles: 0,
            processes: Vec::new(),
        }
    }
}

/// `a + b`, stopping at the top of `u64`.
pub open spec fn saturated_add(a: u64, b: u64) -> u64 {
    if a + b > u64::MAX {
        u64::MAX
    } else {
        (a + b) as u64
    }
}

/// The next scheduled wake-up: the previous one advanced by the tick rate,
/// unless that already lies in the past, in which case the anchor resets to
/// `now_ns`.
pub open spec fn paced_wake(next_tick_ns: u64, rate_ns: u64, now_ns: u64) -> u64 {
    if saturated_add(next_tick_ns, rate_ns) < now_ns {
        now_ns
    } else {
        saturated_add(next_tick_ns, rate_ns)
    }
}

/// Advance the schedule by one tick interval.  Returns the new scheduled
/// wake-up and how long to sleep until it.
pub fn advance_next_tick(next_tick_ns: u64, rate_ns: u64, now_ns: u64) -> (r: (u64, u64))
    ensures
        r.0 == paced_wake(next_tick_ns, rate_ns, now_ns),
        r.1 == r.0 - now_ns,
        r.0 >= now_ns,
{
    let cand: u64 = if rate_ns <= u64::MAX - next_tick_ns {
        next_tick_ns + rate_ns
    } else {
        u64::MAX
    };
    if cand < now_ns {
        (now_ns, 0)
    } else {
        (cand, cand - now_ns)
    }
}

/// A wake-up that would land in the past anchors the schedule at "now": the
/// scheduler does not emit a burst of catch-up ticks after a suspend, it
/// sleeps zero time and continues from "now".
pub proof fn lemma_suspend_anchors_at_now(next_tick_ns: u64, rate_ns: u64, now_ns: u64)
    requires
        next_tick_ns + rate_ns < now_ns,
    ensures
        paced_wake(next_tick_ns, rate_ns, now_ns) == now_ns,
        paced_wake(next_tick_ns, rate_ns, now_ns) - now_ns == 0,
{
}

/// Apply the outcome of one scheduler iteration.
///
/// On `NoUnit` nothing is recorded and nothing logged: the processes table
/// is emptied and the schedule advances at the idle cadence.  On `Ticked`
/// the measured duration goes into the recorder, the unit's reported figures
/// are published, exactly one log line is appended when and only when the
/// tick failed, and the schedule advances by the unit's reported rate —
/// a failing tick paces and continues exactly like a successful one.
/// Returns how long to sleep before the next iteration.
pub fn scheduler_step(
    st: &mut SchedulerState,
    stats: &mut TickStats,
    log: &mut Vec<String>,
    outcome: TickOutcome,
    now_ns: u64,
) -> (sleep_ns: u64)
    requires
        outcome matches TickOutcome::Ticked { elapsed_ns, .. } ==> elapsed_ns
            <= MAX_RECORDABLE_NANOS,
    ensures
        final(st).next_tick_ns == paced_wake(
            old(st).next_tick_ns,
            match outcome {
                TickOutcome::NoUnit => IDLE_TICK_NANOS,
                TickOutcome::Ticked { rate_ns, .. } => rate_ns,
            },
            now_ns,
        ),
        sleep_ns == final(st).next_tick_ns - now_ns,
        outcome is NoUnit ==> {
            &&& *final(stats) == *old(stats)
            &&& final(log)@ == old(log)@
            &&& final(st).processes@.len() == 0
            &&& final(st).last_tick_rate_ns == old(st).last_tick_rate_ns
            &&& final(st).memory_usage == old(st).memory_usage
            &&& final(st).handles == old(st).handles
        },
        outcome matches TickOutcome::Ticked {
            elapsed_ns,
            rate_ns,
            error,
            memory_usage,
            handles,
            processes,
        } ==> {
            &&& final(stats).samples() == old(stats).samples().insert(elapsed_ns)
            &&& final(stats).max_spec() == ratchet_max(old(stats).max_spec(), elapsed_ns)
            &&& final(stats).mean_spec() == ewma_step(old(stats).mean_spec(), elapsed_ns)
            &&& final(st).last_tick_rate_ns == rate_ns
            &&& final(st).memory_usage == memory_usage
            &&& final(st).handles == handles
            &&& final(st).processes == processes
            &&& (error matches Some(msg) ==> final(log)@ == old(log)@.push(msg))
            &&& (error is None ==> final(log)@ == old(log)@)
        },
{
    match outcome {
        TickOutcome::NoUnit => {
            st.processes.clear();
            let r = advance_next_tick(st.next_tick_ns, IDLE_TICK_NANOS, now_ns);
            st.next_tick_ns = r.0;
            r.1
        },
        TickOutcome::Ticked { elapsed_ns, rate_ns, error, memory_usage, handles, processes } => {
            stats.record(elapsed_ns);
            st.last_tick_rate_ns = rate_ns;
            st.memory_usage = memory_usage;
            st.handles = handles;
            st.processes = processes;
            if let Some(msg) = error {
                log.push(msg);
            }
            let r = advance_next_tick(st.next_tick_ns, rate_ns, now_ns);
            st.next_tick_ns = r.0;
            r.1
        },
    }
}

} // verus!
