//! The debugger's timer: the state the unit drives through its timer
//! commands, plus the log of everything that happened.
//!
//! The unit issues commands — start, split, reset, game-time changes,
//! variable updates, log lines — and each command's effect on this state is
//! decided here.  The lock that lets the scheduler and the control context
//! share one timer lives outside this crate; it hands an exclusive borrow to
//! these methods.

use vstd::prelude::*;
use vstd::string::StringExecFns;
use std::collections::hash_map::RandomState;
use indexmap::IndexMap;
use crate::assoc::assoc_set;
use crate::duration::SignedDuration;

verus! {

/// The run timer's phase.
#[derive(Clone, Copy, Debug, PartialEq, Eq, Structural)]
pub enum TimerState {
    NotRunning,
    Running,
    Paused,
    Ended,
}

/// Human-readable name of a timer phase.
pub fn timer_state_to_str(state: TimerState) -> (r: &'static str)
    ensures
        state is NotRunning ==> r@ == "Not running"@,
        state is Running ==> r@ == "Running"@,
        state is Paused ==> r@ == "Paused"@,
        state is Ended ==> r@ == "Ended"@,
{
    match state {
        TimerState::NotRunning => "Not running",
        TimerState::Running => "Running",
        TimerState::Paused => "Paused",
        TimerState::Ended => "Ended",
    }
}

/// Whether the game timer has been initialized, and whether it is paused.
#[derive(Clone, Copy, Debug, PartialEq, Eq, Structural)]
pub enum GameTimeState {
    NotInitialized,
    Paused,
    Running,
}

impl GameTimeState {
    /// Human-readable name of this state.
    pub fn to_str(self) -> (r: &'static str)
        ensures
            self is NotInitialized ==> r@ == "Not initialized"@,
            self is Paused ==> r@ == "Paused"@,
            self is Running ==> r@ == "Running"@,
    {
        match self {
            GameTimeState::NotInitialized => "Not initialized",
            GameTimeState::Paused => "Paused",
            GameTimeState::Running => "Running",
        }
    }
}

/// Insertion-ordered table of the variables the unit has set.
#[verifier::external_type_specification]
#[verifier::external_body]
#[verifier::reject_recursive_types(K)]
#[verifier::reject_recursive_types(V)]
#[verifier::reject_recursive_types(S)]
pub struct ExIndexMap<K, V, S>(IndexMap<K, V, S>);

/// The key/value pairs the table holds, in its insertion order.
pub uninterp spec fn var_entries(m: IndexMap<String, String, RandomState>) -> Seq<
    (Seq<char>, Seq<char>),
>;

/// Relies on `indexmap::IndexMap::new`: an empty map.
#[verifier::external_body]
pub fn var_map_new() -> (m: IndexMap<String, String, RandomState>)
    ensures
        var_entries(m) == Seq::<(Seq<char>, Seq<char>)>::empty(),
{
    IndexMap::new()
}

/// Relies on `indexmap::IndexMap::insert`: if an equivalent key exists its
/// entry keeps its place and takes the new value; otherwise the pair is
/// appended, last in order.  Keys can never repeat, so this is exactly a
/// first-match replace-or-append.
#[verifier::external_body]
pub fn var_map_set(m: &mut IndexMap<String, String, RandomState>, key: String, value: String)
    ensures
        var_entries(*final(m)) == assoc_set(var_entries(*old(m)), key@, value@),
{
    m.insert(key, value);
}

/// Relies on `indexmap::IndexMap::clear`: all entries are removed.
#[verifier::external_body]
pub fn var_map_clear(m: &mut IndexMap<String, String, RandomState>)
    ensures
        var_entries(*final(m)) == Seq::<(Seq<char>, Seq<char>)>::empty(),
{
    m.clear();
}

/// Relies on `indexmap::IndexMap::len`: the number of entries.
#[verifier::external_body]
pub fn var_map_len(m: &IndexMap<String, String, RandomState>) -> (n: usize)
    ensures
        n == var_entries(*m).len(),
{
    m.len()
}

/// Relies on `indexmap::IndexMap::get_index`: the entry at a position of the
/// insertion order, if the position is in range.
#[verifier::external_body]
pub fn var_map_get_index(m: &IndexMap<String, String, RandomState>, i: usize) -> (r: Option<(String, String)>)
    ensures
        r is Some <==> i < var_entries(*m).len(),
        r matches Some(e) ==> e.0@ == var_entries(*m)[i as int].0 && e.1@ == var_entries(
            *m,
        )[i as int].1,
{
    m.get_index(i).map(|(k, v)| (k.clone(), v.clone()))
}

/// One log line was appended and nothing else about the log changed.
pub open spec fn log_appended(pre: Seq<String>, post: Seq<String>, line: Seq<char>) -> bool {
    &&& post.len() == pre.len() + 1
    &&& post.drop_last() == pre
    &&& post.last()@ == line
}

/// Everything the debugger tracks about the timer.
pub struct DebuggerTimerState {
    /// The run timer's phase.
    pub timer_state: TimerState,
    /// The game time the unit reported most recently.
    pub game_time: SignedDuration,
    /// Whether the game timer is initialized or paused.
    pub game_time_state: GameTimeState,
    /// The index of the current split.
    pub split_index: usize,
    /// The variables the unit has set, in insertion order.
    pub variables: IndexMap<String, String, RandomState>,
    /// Everything logged so far: unit log lines, tick failures, load events.
    pub logs: Vec<String>,
    /// How many log lines the presentation has already seen.
    pub last_logs_len: usize,
}

impl DebuggerTimerState {
    /// A timer that has never run: not running, zero game time, no
    /// variables, no logs.
    pub fn new() -> (t: Self)
        ensures
            t.timer_state is NotRunning,
            t.game_time.seconds == 0 && t.game_time.nanos == 0,
            t.game_time_state is NotInitialized,
            t.split_index == 0,
            var_entries(t.variables).len() == 0,
            t.logs@.len() == 0,
            t.last_logs_len == 0,
    {
        DebuggerTimerState {
            timer_state: TimerState::NotRunning,
            game_time: SignedDuration::zero(),
            game_time_state: GameTimeState::NotInitialized,
            split_index: 0,
            variables: var_map_new(),
            logs: Vec::new(),
            last_logs_len: 0,
        }
    }

    /// Begin running if the timer has not started yet; in any other phase
    /// nothing changes.
    pub fn start(&mut self)
        ensures
            old(self).timer_state is NotRunning ==> *final(self) == (DebuggerTimerState {
                timer_state: TimerState::Running,
                ..*old(self)
            }),
            !(old(self).timer_state is NotRunning) ==> *final(self) == *old(self),
    {
        if self.timer_state == TimerState::NotRunning {
            self.timer_state = TimerState::Running;
        }
    }

    /// Return the run to its initial state: not running, first split, zero
    /// game time, no variables.  The log is kept.
    pub fn reset(&mut self)
        ensures
            final(self).timer_state is NotRunning,
            final(self).split_index == 0,
            final(self).game_time.seconds == 0 && final(self).game_time.nanos == 0,
            final(self).game_time_state is NotInitialized,
            var_entries(final(self).variables).len() == 0,
            final(self).logs == old(self).logs,
            final(self).last_logs_len == old(self).last_logs_len,
    {
        self.timer_state = TimerState::NotRunning;
        self.split_index = 0;
        self.game_time = SignedDuration::zero();
        self.game_time_state = GameTimeState::NotInitialized;
        var_map_clear(&mut self.variables);
    }

    /// Same as [`Self::reset`]; used when a fresh unit file is loaded.
    pub fn clear(&mut self)
        ensures
            final(self).timer_state is NotRunning,
            final(self).split_index == 0,
            final(self).game_time.seconds == 0 && final(self).game_time.nanos == 0,
            final(self).game_time_state is NotInitialized,
            var_entries(final(self).variables).len() == 0,
            final(self).logs == old(self).logs,
            final(self).last_logs_len == old(self).last_logs_len,
    {
        self.reset();
    }

    /// The unit asks the timer to start.  Only a timer that has not run yet
    /// starts, and that transition is logged.
    pub fn start_run(&mut self)
        ensures
            old(self).timer_state is NotRunning ==> {
                &&& final(self).timer_state is Running
                &&& log_appended(old(self).logs@, final(self).logs@, "Timer started."@)
                &&& final(self).game_time == old(self).game_time
                &&& final(self).game_time_state == old(self).game_time_state
                &&& final(self).split_index == old(self).split_index
                &&& final(self).variables == old(self).variables
                &&& final(self).last_logs_len == old(self).last_logs_len
            },
            !(old(self).timer_state is NotRunning) ==> *final(self) == *old(self),
    {
        if self.timer_state == TimerState::NotRunning {
            self.start();
            self.logs.push(String::from_str("Timer started."));
            proof {
                assert(self.logs@.drop_last() =~= old(self).logs@);
            }
        }
    }

    /// The unit splits.  Only a running timer splits, and the split is
    /// logged.
    pub fn split(&mut self)
        requires
            old(self).split_index < usize::MAX,
        ensures
            old(self).timer_state is Running ==> {
                &&& final(self).split_index == old(self).split_index + 1
                &&& log_appended(old(self).logs@, final(self).logs@, "Splitted."@)
                &&& final(self).timer_state == old(self).timer_state
                &&& final(self).game_time == old(self).game_time
                &&& final(self).game_time_state == old(self).game_time_state
                &&& final(self).variables == old(self).variables
                &&& final(self).last_logs_len == old(self).last_logs_len
            },
            !(old(self).timer_state is Running) ==> *final(self) == *old(self),
    {
        if self.timer_state == TimerState::Running {
            self.split_index = self.split_index + 1;
            self.logs.push(String::from_str("Splitted."));
            proof {
                assert(self.logs@.drop_last() =~= old(self).logs@);
            }
        }
    }

    /// The unit skips a split: the split index advances without a split
    /// counting, and the skip is logged.
    pub fn skip_split(&mut self)
        requires
            old(self).split_index < usize::MAX,
        ensures
            old(self).timer_state is Running ==> {
                &&& final(self).split_index == old(self).split_index + 1
                &&& log_appended(old(self).logs@, final(self).logs@, "Split skipped."@)
                &&& final(self).timer_state == old(self).timer_state
                &&& final(self).game_time == old(self).game_time
                &&& final(self).game_time_state == old(self).game_time_state
                &&& final(self).variables == old(self).variables
                &&& final(self).last_logs_len == old(self).last_logs_len
            },
            !(old(self).timer_state is Running) ==> *final(self) == *old(self),
    {
        if self.timer_state == TimerState::Running {
            self.split_index = self.split_index + 1;
            self.logs.push(String::from_str("Split skipped."));
            proof {
                assert(self.logs@.drop_last() =~= old(self).logs@);
            }
        }
    }

    /// The unit undoes a split.  An ended run returns to running; a running
    /// timer steps its split index back (not below zero) and logs the undo.
    pub fn undo_split(&mut self)
        ensures
            old(self).timer_state is Ended || old(self).timer_state is Running ==> {
                &&& final(self).timer_state is Running
                &&& final(self).split_index == (if old(self).split_index > 0 {
                    old(self).split_index - 1
                } else {
                    0
                })
                &&& log_appended(old(self).logs@, final(self).logs@, "Split undone."@)
                &&& final(self).game_time == old(self).game_time
                &&& final(self).game_time_state == old(self).game_time_state
                &&& final(self).variables == old(self).variables
                &&& final(self).last_logs_len == old(self).last_logs_len
            },
            !(old(self).timer_state is Ended || old(self).timer_state is Running)
                ==> *final(self) == *old(self),
    {
        if self.timer_state == TimerState::Ended {
            self.timer_state = TimerState::Running;
        }
        if self.timer_state == TimerState::Running {
            self.split_index = if self.split_index > 0 {
                self.split_index - 1
            } else {
                0
            };
            self.logs.push(String::from_str("Split undone."));
            proof {
                assert(self.logs@.drop_last() =~= old(self).logs@);
            }
        }
    }

    /// The unit resets the run, which is logged.
    pub fn reset_run(&mut self)
        ensures
            final(self).timer_state is NotRunning,
            final(self).split_index == 0,
            final(self).game_time.seconds == 0 && final(self).game_time.nanos == 0,
            final(self).game_time_state is NotInitialized,
            var_entries(final(self).variables).len() == 0,
            log_appended(old(self).logs@, final(self).logs@, "Run reset."@),
            final(self).last_logs_len == old(self).last_logs_len,
    {
        self.reset();
        self.logs.push(String::from_str("Run reset."));
        proof {
            assert(self.logs@.drop_last() =~= old(self).logs@);
        }
    }

    /// The unit reports the game time.  The first report also starts the
    /// game timer.
    pub fn set_game_time(&mut self, time: SignedDuration)
        ensures
            final(self).game_time == time,
            final(self).game_time_state == (if old(self).game_time_state is NotInitialized {
                GameTimeState::Running
            } else {
                old(self).game_time_state
            }),
            final(self).timer_state == old(self).timer_state,
            final(self).split_index == old(self).split_index,
            final(self).variables == old(self).variables,
            final(self).logs == old(self).logs,
            final(self).last_logs_len == old(self).last_logs_len,
    {
        self.game_time = time;
        if self.game_time_state == GameTimeState::NotInitialized {
            self.game_time_state = GameTimeState::Running;
        }
    }

    /// The unit pauses the game timer.
    pub fn pause_game_time(&mut self)
        ensures
            *final(self) == (DebuggerTimerState {
                game_time_state: GameTimeState::Paused,
                ..*old(self)
            }),
    {
        self.game_time_state = GameTimeState::Paused;
    }

    /// The unit resumes the game timer.
    pub fn resume_game_time(&mut self)
        ensures
            *final(self) == (DebuggerTimerState {
                game_time_state: GameTimeState::Running,
                ..*old(self)
            }),
    {
        self.game_time_state = GameTimeState::Running;
    }

    /// The unit sets a variable: its entry keeps its place in the table, or
    /// is appended if the variable is new.
    pub fn set_variable(&mut self, key: &str, value: &str)
        ensures
            var_entries(final(self).variables) == assoc_set(
                var_entries(old(self).variables),
                key@,
                value@,
            ),
            final(self).timer_state == old(self).timer_state,
            final(self).game_time == old(self).game_time,
            final(self).game_time_state == old(self).game_time_state,
            final(self).split_index == old(self).split_index,
            final(self).logs == old(self).logs,
            final(self).last_logs_len == old(self).last_logs_len,
    {
        var_map_set(&mut self.variables, key.to_owned(), value.to_owned());
    }

    /// The unit logs a message.
    pub fn push_log(&mut self, message: String)
        ensures
            log_appended(old(self).logs@, final(self).logs@, message@),
            final(self).timer_state == old(self).timer_state,
            final(self).game_time == old(self).game_time,
            final(self).game_time_state == old(self).game_time_state,
            final(self).split_index == old(self).split_index,
            final(self).variables == old(self).variables,
            final(self).last_logs_len == old(self).last_logs_len,
    {
        self.logs.push(message);
        proof {
            assert(self.logs@.drop_last() =~= old(self).logs@);
        }
    }
}

} // verus!
