//! Control-context decisions around loading, reloading and restarting the
//! unit.
//!
//! Reading the unit's file, compiling it and instantiating it belong to the
//! execution engine outside this crate.  What is decided here: which loads
//! carry the previous settings over, what happens to the timer, the
//! variables and the statistics once the new unit is installed, and which
//! line the log gets.

use vstd::prelude::*;
use vstd::string::StringExecFns;
use crate::recorder::TickStats;
use crate::timer::DebuggerTimerState;
use crate::timer::var_entries;
use crate::timer::var_map_clear;
use crate::timer::log_appended;

verus! {

/// The three ways a unit comes to be (re)installed.
#[derive(Clone, Copy, Debug, PartialEq, Eq, Structural)]
pub enum LoadKind {
    /// A unit file picked fresh.
    File,
    /// The same file compiled again (it changed on disk, or on request).
    Reload,
    /// The compiled unit instantiated again.
    Restart,
}

/// The log line announcing a successful load.
pub fn load_log_message(kind: LoadKind) -> (r: &'static str)
    ensures
        kind is File ==> r@ == "Auto splitter loaded."@,
        kind is Reload ==> r@ == "Auto splitter reloaded."@,
        kind is Restart ==> r@ == "Auto splitter restarted."@,
{
    match kind {
        LoadKind::File => "Auto splitter loaded.",
        LoadKind::Reload => "Auto splitter reloaded.",
        LoadKind::Restart => "Auto splitter restarted.",
    }
}

/// Whether this kind of load carries the settings of the unit it replaces
/// over to the new unit.  A fresh file starts from the unit's defaults;
/// reloads and restarts keep what the user configured.
pub fn load_keeps_settings(kind: LoadKind) -> (r: bool)
    ensures
        r == !(kind is File),
{
    match kind {
        LoadKind::File => false,
        LoadKind::Reload => true,
        LoadKind::Restart => true,
    }
}

/// Bring the shared state in line with a finished load attempt: the
/// statistics start over, a fresh file also resets the timer, the variable
/// table is emptied in every case, and a successful load is logged — one
/// line, chosen by [`load_log_message`].  A failed load changes no timer
/// state beyond that and leaves the log as it was.
pub fn finish_load(
    timer: &mut DebuggerTimerState,
    stats: &mut TickStats,
    kind: LoadKind,
    succeeded: bool,
)
    ensures
        final(stats).samples().len() == 0,
        final(stats).max_spec() == 0,
        final(stats).mean_spec() == 0,
        var_entries(final(timer).variables).len() == 0,
        kind is File ==> {
            &&& final(timer).timer_state is NotRunning
            &&& final(timer).split_index == 0
            &&& final(timer).game_time.seconds == 0 && final(timer).game_time.nanos == 0
            &&& final(timer).game_time_state is NotInitialized
        },
        !(kind is File) ==> {
            &&& final(timer).timer_state == old(timer).timer_state
            &&& final(timer).split_index == old(timer).split_index
            &&& final(timer).game_time == old(timer).game_time
            &&& final(timer).game_time_state == old(timer).game_time_state
        },
        succeeded ==> log_appended(
            old(timer).logs@,
            final(timer).logs@,
            match kind {
                LoadKind::File => "Auto splitter loaded."@,
                LoadKind::Reload => "Auto splitter reloaded."@,
                LoadKind::Restart => "Auto splitter restarted."@,
            },
        ),
        !succeeded ==> final(timer).logs == old(timer).logs,
        final(timer).last_logs_len == old(timer).last_logs_len,
{
    stats.reset();
    if let LoadKind::File = kind {
        timer.clear();
    }
    var_map_clear(&mut timer.variables);
    if succeeded {
        let message = load_log_message(kind);
        timer.push_log(String::from_str(message));
    }
}

/// The log line announcing a script path change: the same path again is a
/// reload, a different one a load.
pub fn script_log_message(is_reload: bool) -> (r: &'static str)
    ensures
        is_reload ==> r@ == "Script reloaded."@,
        !is_reload ==> r@ == "Script loaded."@,
{
    if is_reload {
        "Script reloaded."
    } else {
        "Script loaded."
    }
}

} // verus!
