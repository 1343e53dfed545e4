use asr_debugger::control::finish_load;
use asr_debugger::control::load_keeps_settings;
use asr_debugger::control::load_log_message;
use asr_debugger::control::script_log_message;
use asr_debugger::control::LoadKind;
use asr_debugger::duration::SignedDuration;
use asr_debugger::recorder::TickStats;
use asr_debugger::recorder::MAX_RECORDABLE_NANOS;
use asr_debugger::scheduler::advance_next_tick;
use asr_debugger::scheduler::scheduler_step;
use asr_debugger::scheduler::ProcessInfo;
use asr_debugger::scheduler::SchedulerState;
use asr_debugger::scheduler::TickOutcome;
use asr_debugger::scheduler::IDLE_TICK_NANOS;
use asr_debugger::settings::update_retry_decision;
use asr_debugger::settings::update_setting;
use asr_debugger::settings::CasAttempt;
use asr_debugger::settings::SettingsCell;
use asr_debugger::settings::SettingsMap;
use asr_debugger::settings::SettingsValue;
use asr_debugger::settings::UpdateDecision;
use asr_debugger::swap::replace_step;
use asr_debugger::swap::LockPoll;
use asr_debugger::swap::ReplaceAction;
use asr_debugger::swap::LOCK_RETRY_ATTEMPTS;
use asr_debugger::timefmt::fmt_duration;
use asr_debugger::timer::timer_state_to_str;
use asr_debugger::timer::var_map_get_index;
use asr_debugger::timer::var_map_len;
use asr_debugger::timer::DebuggerTimerState;
use asr_debugger::timer::GameTimeState;
use asr_debugger::timer::TimerState;

#[test]
fn max_tracks_the_true_maximum() {
    let mut stats = TickStats::new();
    for d in [5u64, 900, 17, 899, 900, 3] {
        stats.record(d);
    }
    assert_eq!(stats.max(), 900);
    assert_eq!(stats.sample_count(), 6);
}

#[test]
fn reset_zeroes_mean_and_empties_histogram() {
    let mut stats = TickStats::new();
    stats.record(1_000_000);
    stats.record(2_000_000);
    assert!(stats.mean() > 0);
    assert!(stats.sample_count() > 0);
    stats.reset();
    assert_eq!(stats.mean(), 0);
    assert_eq!(stats.sample_count(), 0);
    assert_eq!(stats.max(), 0);
}

#[test]
fn moving_average_follows_fixed_decay() {
    let mut stats = TickStats::new();
    stats.record(1_000_000);
    // (999 * 0 + 1_000_000) / 1000
    assert_eq!(stats.mean(), 1000);
    stats.record(1_000_000);
    // (999 * 1000 + 1_000_000) / 1000
    assert_eq!(stats.mean(), 1999);
}

#[test]
fn largest_recordable_sample_is_accepted() {
    let mut stats = TickStats::new();
    stats.record(MAX_RECORDABLE_NANOS);
    assert_eq!(stats.max(), MAX_RECORDABLE_NANOS);
    assert_eq!(stats.sample_count(), 1);
}

#[test]
fn pacing_saturates_at_the_top_of_the_clock() {
    let (wake, sleep) = advance_next_tick(u64::MAX - 5, 100, 50);
    assert_eq!(wake, u64::MAX);
    assert_eq!(sleep, u64::MAX - 50);
}

#[test]
fn prompt_lock_installs_without_interrupt() {
    assert_eq!(replace_step(0, LockPoll::Acquired), ReplaceAction::Install);
    assert_eq!(replace_step(57, LockPoll::Acquired), ReplaceAction::Install);
}

#[test]
fn busy_lock_retries_then_escalates() {
    assert_eq!(
        replace_step(0, LockPoll::Busy),
        ReplaceAction::RetryAfterDelay
    );
    assert_eq!(
        replace_step(LOCK_RETRY_ATTEMPTS - 2, LockPoll::Busy),
        ReplaceAction::RetryAfterDelay
    );
    assert_eq!(
        replace_step(LOCK_RETRY_ATTEMPTS - 1, LockPoll::Busy),
        ReplaceAction::InterruptThenInstall
    );
}

#[test]
fn stuck_unit_is_escalated_within_the_bound() {
    // Drive the policy against a unit that never yields its lock: after
    // exactly LOCK_RETRY_ATTEMPTS busy polls the controller interrupts.
    let mut attempts = 0u32;
    let mut delays = 0u32;
    loop {
        match replace_step(attempts, LockPoll::Busy) {
            ReplaceAction::RetryAfterDelay => {
                delays += 1;
                attempts += 1;
            }
            ReplaceAction::InterruptThenInstall => break,
            ReplaceAction::Install => unreachable!(),
        }
    }
    assert_eq!(delays, LOCK_RETRY_ATTEMPTS - 1);
}

#[test]
fn idle_scheduler_ticks_at_idle_cadence() {
    let mut st = SchedulerState::new(1_000);
    let mut stats = TickStats::new();
    let mut log: Vec<String> = Vec::new();
    let sleep = scheduler_step(&mut st, &mut stats, &mut log, TickOutcome::NoUnit, 1_000);
    assert_eq!(st.next_tick_ns, 1_000 + IDLE_TICK_NANOS);
    assert_eq!(sleep, IDLE_TICK_NANOS);
    assert_eq!(stats.sample_count(), 0);
    assert!(log.is_empty());
    assert!(st.processes.is_empty());
}

#[test]
fn cadence_is_anchored_to_previous_wake_not_now() {
    // The tick finished 3 ms after its scheduled start; the next wake is
    // rate past the schedule, not past "now".
    let (wake, sleep) = advance_next_tick(10_000_000, 16_000_000, 13_000_000);
    assert_eq!(wake, 26_000_000);
    assert_eq!(sleep, 13_000_000);
}

#[test]
fn suspend_anchors_next_tick_at_now() {
    // The scheduled wake lies far in the past (the machine was suspended):
    // no burst of catch-up ticks, the schedule restarts at "now".
    let mut st = SchedulerState::new(5_000);
    let mut stats = TickStats::new();
    let mut log: Vec<String> = Vec::new();
    let now = 60_000_000_000;
    let sleep = scheduler_step(
        &mut st,
        &mut stats,
        &mut log,
        TickOutcome::Ticked {
            elapsed_ns: 2_000,
            rate_ns: 16_000_000,
            error: None,
            memory_usage: 0,
            handles: 0,
            processes: Vec::new(),
        },
        now,
    );
    assert_eq!(st.next_tick_ns, now);
    assert_eq!(sleep, 0);
}

#[test]
fn failing_tick_logs_once_and_ticking_continues() {
    let mut st = SchedulerState::new(0);
    let mut stats = TickStats::new();
    let mut log: Vec<String> = Vec::new();
    let outcome = TickOutcome::Ticked {
        elapsed_ns: 1_500,
        rate_ns: 1_000_000,
        error: Some("Failed executing the auto splitter.".to_string()),
        memory_usage: 64,
        handles: 2,
        processes: Vec::new(),
    };
    let sleep = scheduler_step(&mut st, &mut stats, &mut log, outcome, 0);
    assert_eq!(log.len(), 1);
    assert_eq!(log[0], "Failed executing the auto splitter.");
    assert_eq!(stats.sample_count(), 1);
    assert_eq!(st.last_tick_rate_ns, 1_000_000);
    assert_eq!(st.memory_usage, 64);
    assert_eq!(st.handles, 2);
    assert_eq!(st.next_tick_ns, 1_000_000);
    assert_eq!(sleep, 1_000_000);

    // The loop keeps going: the very next successful tick is recorded too.
    scheduler_step(
        &mut st,
        &mut stats,
        &mut log,
        TickOutcome::Ticked {
            elapsed_ns: 500,
            rate_ns: 1_000_000,
            error: None,
            memory_usage: 64,
            handles: 2,
            processes: Vec::new(),
        },
        1_000_000,
    );
    assert_eq!(log.len(), 1);
    assert_eq!(stats.sample_count(), 2);
}

#[test]
fn process_info_clears_both_fields() {
    let mut info = ProcessInfo {
        path: "/usr/bin/game".to_string(),
        pid: "4711".to_string(),
    };
    info.clear();
    assert!(info.path.is_empty());
    assert!(info.pid.is_empty());
}

#[test]
fn update_setting_applies_the_edit() {
    let mut cell = SettingsCell::new(SettingsMap::new());
    update_setting(&mut cell, "speedrun", SettingsValue::Bool(true));
    let (snap, _) = cell.snapshot();
    match snap.get("speedrun") {
        Some(SettingsValue::Bool(v)) => assert!(*v),
        _ => panic!("setting missing"),
    }
}

#[test]
fn racing_updates_leave_exactly_one_value() {
    // Both writers snapshot the same version; the loser's commit is
    // refused and its retry wins, leaving the later value, never a merge.
    let mut cell = SettingsCell::new(SettingsMap::new());
    let (snap_a, ver) = cell.snapshot();
    let (snap_b, _) = cell.snapshot();

    let mut edit_a = snap_a;
    edit_a.insert("key".to_string(), SettingsValue::I64(1));
    assert!(cell.compare_and_swap(ver, edit_a));

    let mut edit_b = snap_b;
    edit_b.insert("key".to_string(), SettingsValue::I64(2));
    assert!(!cell.compare_and_swap(ver, edit_b));

    let (fresh, ver2) = cell.snapshot();
    let mut retry_b = fresh;
    retry_b.insert("key".to_string(), SettingsValue::I64(2));
    assert!(cell.compare_and_swap(ver2, retry_b));

    let (end, _) = cell.snapshot();
    match end.get("key") {
        Some(SettingsValue::I64(v)) => assert_eq!(*v, 2),
        _ => panic!("setting missing"),
    }
    assert_eq!(end.len(), 1);
}

#[test]
fn update_decisions_cover_commit_conflict_and_replacement() {
    assert_eq!(
        update_retry_decision(CasAttempt::Committed, 7, 7),
        UpdateDecision::Done
    );
    assert_eq!(
        update_retry_decision(CasAttempt::Conflicted, 7, 7),
        UpdateDecision::RetryFresh
    );
    assert_eq!(
        update_retry_decision(CasAttempt::Conflicted, 7, 8),
        UpdateDecision::Abort
    );
}

#[test]
fn timer_commands_drive_the_run() {
    let mut t = DebuggerTimerState::new();
    assert_eq!(t.timer_state, TimerState::NotRunning);

    t.split();
    assert_eq!(t.split_index, 0);
    assert!(t.logs.is_empty());

    t.start_run();
    assert_eq!(t.timer_state, TimerState::Running);
    assert_eq!(t.logs.last().map(String::as_str), Some("Timer started."));

    t.split();
    t.skip_split();
    assert_eq!(t.split_index, 2);
    assert_eq!(t.logs.last().map(String::as_str), Some("Split skipped."));

    t.undo_split();
    assert_eq!(t.split_index, 1);
    assert_eq!(t.logs.last().map(String::as_str), Some("Split undone."));

    t.reset_run();
    assert_eq!(t.timer_state, TimerState::NotRunning);
    assert_eq!(t.split_index, 0);
    assert_eq!(t.logs.last().map(String::as_str), Some("Run reset."));
}

#[test]
fn game_time_starts_on_first_report() {
    let mut t = DebuggerTimerState::new();
    assert_eq!(t.game_time_state, GameTimeState::NotInitialized);
    t.set_game_time(SignedDuration::new(12, 500));
    assert_eq!(t.game_time_state, GameTimeState::Running);
    assert_eq!(t.game_time.seconds, 12);
    assert_eq!(t.game_time.nanos, 500);
    t.pause_game_time();
    assert_eq!(t.game_time_state, GameTimeState::Paused);
    t.resume_game_time();
    assert_eq!(t.game_time_state, GameTimeState::Running);
}

#[test]
fn variables_keep_insertion_order_and_update_in_place() {
    let mut t = DebuggerTimerState::new();
    t.set_variable("chapter", "1");
    t.set_variable("boss", "hydra");
    t.set_variable("chapter", "2");
    assert_eq!(var_map_len(&t.variables), 2);
    assert_eq!(
        var_map_get_index(&t.variables, 0),
        Some(("chapter".to_string(), "2".to_string()))
    );
    assert_eq!(
        var_map_get_index(&t.variables, 1),
        Some(("boss".to_string(), "hydra".to_string()))
    );
    assert_eq!(var_map_get_index(&t.variables, 2), None);
}

#[test]
fn state_names_match_the_display() {
    assert_eq!(timer_state_to_str(TimerState::NotRunning), "Not running");
    assert_eq!(timer_state_to_str(TimerState::Running), "Running");
    assert_eq!(timer_state_to_str(TimerState::Paused), "Paused");
    assert_eq!(timer_state_to_str(TimerState::Ended), "Ended");
    assert_eq!(GameTimeState::NotInitialized.to_str(), "Not initialized");
    assert_eq!(GameTimeState::Paused.to_str(), "Paused");
    assert_eq!(GameTimeState::Running.to_str(), "Running");
}

#[test]
fn fresh_file_load_resets_timer_and_statistics() {
    let mut t = DebuggerTimerState::new();
    let mut stats = TickStats::new();
    t.start_run();
    t.split();
    t.set_variable("chapter", "3");
    stats.record(1_000_000);

    finish_load(&mut t, &mut stats, LoadKind::File, true);
    assert_eq!(t.timer_state, TimerState::NotRunning);
    assert_eq!(t.split_index, 0);
    assert_eq!(var_map_len(&t.variables), 0);
    assert_eq!(stats.sample_count(), 0);
    assert_eq!(stats.mean(), 0);
    assert_eq!(t.logs.last().map(String::as_str), Some("Auto splitter loaded."));
}

#[test]
fn reload_keeps_the_run_but_clears_variables() {
    let mut t = DebuggerTimerState::new();
    let mut stats = TickStats::new();
    t.start_run();
    t.split();
    t.set_variable("chapter", "3");

    finish_load(&mut t, &mut stats, LoadKind::Reload, true);
    assert_eq!(t.timer_state, TimerState::Running);
    assert_eq!(t.split_index, 1);
    assert_eq!(var_map_len(&t.variables), 0);
    assert_eq!(
        t.logs.last().map(String::as_str),
        Some("Auto splitter reloaded.")
    );

    let before = t.logs.len();
    finish_load(&mut t, &mut stats, LoadKind::Restart, false);
    assert_eq!(t.logs.len(), before);
}

#[test]
fn load_messages_and_settings_carry_over() {
    assert_eq!(load_log_message(LoadKind::File), "Auto splitter loaded.");
    assert_eq!(load_log_message(LoadKind::Reload), "Auto splitter reloaded.");
    assert_eq!(
        load_log_message(LoadKind::Restart),
        "Auto splitter restarted."
    );
    assert!(!load_keeps_settings(LoadKind::File));
    assert!(load_keeps_settings(LoadKind::Reload));
    assert!(load_keeps_settings(LoadKind::Restart));
    assert_eq!(script_log_message(true), "Script reloaded.");
    assert_eq!(script_log_message(false), "Script loaded.");
}

#[test]
fn durations_render_with_padding() {
    assert_eq!(fmt_duration(SignedDuration::new(0, 0)), "0:00.000000000");
    assert_eq!(
        fmt_duration(SignedDuration::new(65, 123)),
        "1:05.000000123"
    );
    assert_eq!(
        fmt_duration(SignedDuration::new(3665, 7)),
        "1:01:05.000000007"
    );
    assert_eq!(
        fmt_duration(SignedDuration::new(-5, -500_000_000)),
        "-0:05.500000000"
    );
    assert_eq!(
        fmt_duration(SignedDuration::new(7325, 950_000_000)),
        "2:02:05.950000000"
    );
}
