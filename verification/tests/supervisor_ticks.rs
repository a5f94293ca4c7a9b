use server_keeper::supervisor::{
    startup_kill_needed, tick, SupervisorState, TickInput, TickPlan, Timing,
};

fn timing() -> Timing {
    Timing { backup_interval_ms: 300_000, restart_interval_ms: 3_600_000 }
}

#[test]
fn initial_state_defers_both_timers() {
    let s = SupervisorState::new(5_000);
    assert_eq!(s.last_backup_at, 5_000);
    assert_eq!(s.last_restart_at, 5_000);
}

#[test]
fn not_running_only_launches() {
    let s = SupervisorState::new(1_000);
    let i = TickInput { now: 10_000_000, running: false, force_restart: false };
    let (s2, plan) = tick(&s, &i, &timing());
    assert_eq!(plan, TickPlan::LaunchAndWait);
    assert_eq!(s2, s);
}

#[test]
fn quiet_tick_does_nothing() {
    let s = SupervisorState::new(1_000);
    let i = TickInput { now: 2_000, running: true, force_restart: false };
    let (s2, plan) = tick(&s, &i, &timing());
    assert_eq!(plan, TickPlan::Steady { backup: false });
    assert_eq!(s2, s);
}

#[test]
fn backup_fires_only_past_interval() {
    // backupInterval = 300 s; ticking every second from t0, no backup may
    // fire until the timer has aged past t0 + 300 s, then exactly one fires.
    let t0: u64 = 1_000_000;
    let t = timing();
    let mut s = SupervisorState::new(t0);
    let mut fired: Vec<u64> = Vec::new();
    let mut now = t0;
    while now <= t0 + 302_000 {
        let i = TickInput { now, running: true, force_restart: false };
        let (s2, plan) = tick(&s, &i, &t);
        if let TickPlan::Steady { backup: true } = plan {
            fired.push(now);
        }
        s = s2;
        now += 1_000;
    }
    assert_eq!(fired, vec![t0 + 301_000]);
    assert_eq!(s.last_backup_at, t0 + 301_000);
}

#[test]
fn periodic_restart_fires_past_interval() {
    let t0: u64 = 50_000;
    let t = timing();
    let s = SupervisorState::new(t0);
    let i = TickInput { now: t0 + 3_600_001, running: true, force_restart: false };
    let (s2, plan) = tick(&s, &i, &t);
    assert_eq!(plan, TickPlan::Restart { backup: true, forced: false });
    assert_eq!(s2.last_restart_at, t0 + 3_600_001);
}

#[test]
fn forced_restart_overrides_timer() {
    // A remote trigger arrives while the periodic timer is not due: the next
    // tick still performs the restart, as a forced one.
    let t0: u64 = 50_000;
    let t = timing();
    let s = SupervisorState::new(t0);
    let i = TickInput { now: t0 + 10_000, running: true, force_restart: true };
    let (s2, plan) = tick(&s, &i, &t);
    assert_eq!(plan, TickPlan::Restart { backup: false, forced: true });
    assert_eq!(s2.last_restart_at, t0 + 10_000);

    // the request was consumed: the following tick is quiet again
    let j = TickInput { now: t0 + 11_000, running: true, force_restart: false };
    let (_, plan2) = tick(&s2, &j, &t);
    assert_eq!(plan2, TickPlan::Steady { backup: false });
}

#[test]
fn forced_restart_when_not_running_is_not_possible() {
    // the flag is only captured after the liveness check found the process
    // running; a dead process always yields a bare launch
    let s = SupervisorState::new(0);
    let i = TickInput { now: 10, running: false, force_restart: false };
    let (_, plan) = tick(&s, &i, &timing());
    assert_eq!(plan, TickPlan::LaunchAndWait);
}

#[test]
fn both_timers_due_in_one_tick() {
    let t0: u64 = 0;
    let t = timing();
    let s = SupervisorState::new(t0);
    let i = TickInput { now: 4_000_000, running: true, force_restart: false };
    let (s2, plan) = tick(&s, &i, &t);
    assert_eq!(plan, TickPlan::Restart { backup: true, forced: false });
    assert_eq!(s2.last_backup_at, 4_000_000);
    assert_eq!(s2.last_restart_at, 4_000_000);
}

#[test]
fn backup_timestamp_is_monotone_over_a_run() {
    let t = timing();
    let mut s = SupervisorState::new(0);
    let mut prev_backup = s.last_backup_at;
    let mut prev_restart = s.last_restart_at;
    let mut now: u64 = 0;
    for step in 0..2_000u64 {
        now += 700 * (step % 3 + 1);
        let i = TickInput {
            now,
            running: step % 7 != 0,
            force_restart: step % 7 != 0 && step % 501 == 0,
        };
        let (s2, _) = tick(&s, &i, &t);
        assert!(s2.last_backup_at >= prev_backup);
        assert!(s2.last_restart_at >= prev_restart);
        prev_backup = s2.last_backup_at;
        prev_restart = s2.last_restart_at;
        s = s2;
    }
}

#[test]
fn startup_kills_leftover_process() {
    assert!(startup_kill_needed(true));
    assert!(!startup_kill_needed(false));
}
