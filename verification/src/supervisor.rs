use vstd::prelude::*;

verus! {

/// Interval after which the supervisor re-evaluates its decisions when the
/// watched process is running quietly.
pub const TICK_MS: u64 = 1000;

/// Grace period after launching the watched process, giving it time to
/// initialize before any further checks run against it.
pub const STARTUP_GRACE_MS: u64 = 30000;

/// Cooldown after killing the watched process during a restart, before the
/// next liveness check re-launches it.
pub const RESTART_COOLDOWN_MS: u64 = 10000;

/// Wait after terminating a process that was already running when the
/// supervisor itself started.
pub const STARTUP_KILL_WAIT_MS: u64 = 5000;

/// All timing thresholds the supervisor consults, in milliseconds.
#[derive(Clone, Copy, PartialEq, Eq, Structural, Debug)]
pub struct Timing {
    /// A backup is due once more than this has passed since the last one.
    pub backup_interval_ms: u64,
    /// A periodic restart is due once more than this has passed since the
    /// last restart.
    pub restart_interval_ms: u64,
}

/// Mutable state owned exclusively by the supervisor loop.
#[derive(Clone, Copy, PartialEq, Eq, Structural, Debug)]
pub struct SupervisorState {
    /// When the last periodic backup was attempted.
    pub last_backup_at: u64,
    /// When the last forced or periodic restart was performed.
    pub last_restart_at: u64,
}

impl SupervisorState {
    /// Both timestamps lie in the past relative to `now`.
    pub open spec fn wf(self, now: u64) -> bool {
        self.last_backup_at <= now && self.last_restart_at <= now
    }

    /// Both timers start at loop-entry time, so the first periodic backup and
    /// the first periodic restart are each deferred by one full interval
    /// rather than firing immediately.
    pub fn new(now: u64) -> (s: Self)
        ensures
            s.last_backup_at == now,
            s.last_restart_at == now,
            s.wf(now),
    {
        SupervisorState { last_backup_at: now, last_restart_at: now }
    }
}

/// What the supervisor observes at the start of one tick.
#[derive(Clone, Copy, PartialEq, Eq, Structural, Debug)]
pub struct TickInput {
    /// The current time in milliseconds.
    pub now: u64,
    /// Whether the watched process was found running by the liveness check.
    pub running: bool,
    /// Whether a force-restart request was captured from the shared flag.
    /// The caller captures with an atomic compare-and-clear, and only after
    /// the process was observed running, so a request is consumed exactly
    /// when this tick will act on it.
    pub force_restart: bool,
}

/// The decision one tick makes; the caller carries it out in order.
#[derive(Clone, Copy, PartialEq, Eq, Structural, Debug)]
pub enum TickPlan {
    /// The process is not running: launch it, then wait the startup grace
    /// period. Nothing else happens this tick.
    LaunchAndWait,
    /// The process is running and no restart is due: take the periodic
    /// backup if one is due, then sleep one tick.
    Steady { backup: bool },
    /// The process is running and a restart is due. `backup` records
    /// whether the periodic backup was also due this tick; `forced` whether
    /// the restart was requested remotely rather than by the timer. The
    /// restart sequence itself always takes a last-chance backup before the
    /// kill.
    Restart { backup: bool, forced: bool },
}

/// Whether a plan includes the periodic backup attempt.
pub open spec fn plan_takes_periodic_backup(p: TickPlan) -> bool {
    match p {
        TickPlan::LaunchAndWait => false,
        TickPlan::Steady { backup } => backup,
        TickPlan::Restart { backup, forced: _ } => backup,
    }
}

/// The periodic backup is due: strictly more than the backup interval has
/// passed since the last one.
pub open spec fn backup_due(s: SupervisorState, i: TickInput, t: Timing) -> bool {
    i.now - s.last_backup_at > t.backup_interval_ms
}

/// A restart is due: the periodic timer has run out, or a remote force
/// request was captured.
pub open spec fn restart_due(s: SupervisorState, i: TickInput, t: Timing) -> bool {
    i.now - s.last_restart_at > t.restart_interval_ms || i.force_restart
}

/// The full decision of one tick: the liveness check gates everything, then
/// the backup timer and the restart timer are evaluated in that order.
pub open spec fn tick_spec(s: SupervisorState, i: TickInput, t: Timing) -> (SupervisorState, TickPlan) {
    if !i.running {
        (s, TickPlan::LaunchAndWait)
    } else {
        let b = backup_due(s, i, t);
        let backed = if b {
            SupervisorState { last_backup_at: i.now, last_restart_at: s.last_restart_at }
        } else {
            s
        };
        if restart_due(s, i, t) {
            (
                SupervisorState { last_backup_at: backed.last_backup_at, last_restart_at: i.now },
                TickPlan::Restart { backup: b, forced: i.force_restart },
            )
        } else {
            (backed, TickPlan::Steady { backup: b })
        }
    }
}

/// One tick of the supervisor: decide what to do from the observed input,
/// and advance whichever timers fired.
pub fn tick(s: &SupervisorState, i: &TickInput, t: &Timing) -> (r: (SupervisorState, TickPlan))
    requires
        s.wf(i.now),
    ensures
        r == tick_spec(*s, *i, *t),
        r.0.wf(i.now),
        // the liveness check strictly gates every downstream action
        !i.running ==> r.1 == TickPlan::LaunchAndWait && r.0 == *s,
        // the periodic backup fires exactly when it is due, and then resets its timer
        plan_takes_periodic_backup(r.1) <==> i.running && backup_due(*s, *i, *t),
        i.running && backup_due(*s, *i, *t) ==> r.0.last_backup_at == i.now,
        !(i.running && backup_due(*s, *i, *t)) ==> r.0.last_backup_at == s.last_backup_at,
        // a restart happens exactly when due, and then resets its timer
        i.running && restart_due(*s, *i, *t) <==> (r.1 matches TickPlan::Restart { .. }),
        (r.1 matches TickPlan::Restart { .. }) ==> r.0.last_restart_at == i.now,
        !(r.1 matches TickPlan::Restart { .. }) ==> r.0.last_restart_at == s.last_restart_at,
        // a captured force request is always acted on this very tick
        i.running && i.force_restart ==> r.1 == (TickPlan::Restart {
            backup: backup_due(*s, *i, *t),
            forced: true,
        }),
        // timers never move backwards
        r.0.last_backup_at >= s.last_backup_at,
        r.0.last_restart_at >= s.last_restart_at,
{
    if !i.running {
        (*s, TickPlan::LaunchAndWait)
    } else {
        let b = i.now - s.last_backup_at > t.backup_interval_ms;
        let last_backup = if b { i.now } else { s.last_backup_at };
        if i.now - s.last_restart_at > t.restart_interval_ms || i.force_restart {
            (
                SupervisorState { last_backup_at: last_backup, last_restart_at: i.now },
                TickPlan::Restart { backup: b, forced: i.force_restart },
            )
        } else {
            (
                SupervisorState { last_backup_at: last_backup, last_restart_at: s.last_restart_at },
                TickPlan::Steady { backup: b },
            )
        }
    }
}

/// One externally visible step a tick asks its caller to perform.
#[derive(Clone, Copy, PartialEq, Eq, Structural, Debug)]
pub enum Action {
    /// Launch the watched process.
    Launch,
    /// Attempt a backup: snapshot the save file and hand the artifact on.
    BackupAttempt,
    /// Announce that a remotely requested restart was triggered.
    NotifyForcedRestart,
    /// Terminate the watched process.
    Kill,
    /// Announce that the process was killed and will be relaunched.
    NotifyRestarting,
    /// Wait the startup grace period.
    SleepGrace,
    /// Wait the restart cooldown.
    SleepCooldown,
    /// Wait one tick interval.
    SleepTick,
}

/// The steps a plan asks for, in the order they are carried out.
/// `still_running` is the result of the second liveness check that the
/// restart sequence makes right before the kill: a process that died on its
/// own between the backup and the kill is not killed again.
pub open spec fn plan_actions(p: TickPlan, still_running: bool) -> Seq<Action> {
    match p {
        TickPlan::LaunchAndWait => seq![Action::Launch, Action::SleepGrace],
        TickPlan::Steady { backup } => {
            if backup {
                seq![Action::BackupAttempt, Action::SleepTick]
            } else {
                seq![Action::SleepTick]
            }
        },
        TickPlan::Restart { backup, forced } => {
            let periodic: Seq<Action> = if backup {
                seq![Action::BackupAttempt]
            } else {
                Seq::empty()
            };
            let announce: Seq<Action> = if forced {
                seq![Action::NotifyForcedRestart]
            } else {
                Seq::empty()
            };
            let termination: Seq<Action> = if still_running {
                seq![Action::Kill, Action::NotifyRestarting, Action::SleepCooldown]
            } else {
                Seq::empty()
            };
            periodic + announce + seq![Action::BackupAttempt] + termination
                + seq![Action::SleepTick]
        },
    }
}

/// When the watched process is not running, the tick neither attempts a
/// backup nor kills anything: the liveness check strictly gates every
/// downstream action.
pub proof fn lemma_liveness_gates_actions(
    s: SupervisorState,
    i: TickInput,
    t: Timing,
    still_running: bool,
)
    requires
        !i.running,
    ensures
        tick_spec(s, i, t).0 == s,
        forall|k: int|
            0 <= k < plan_actions(tick_spec(s, i, t).1, still_running).len()
                ==> plan_actions(tick_spec(s, i, t).1, still_running)[k] != Action::BackupAttempt
                && plan_actions(tick_spec(s, i, t).1, still_running)[k] != Action::Kill,
{
    assert(tick_spec(s, i, t).1 == TickPlan::LaunchAndWait);
    let acts = plan_actions(TickPlan::LaunchAndWait, still_running);
    assert(acts.len() == 2);
    assert(acts[0] == Action::Launch);
    assert(acts[1] == Action::SleepGrace);
}

/// Every kill a tick asks for comes after a backup attempt in the same
/// tick: a restart never discards state saved since the last periodic
/// backup, whether the restart was periodic or forced.
pub proof fn lemma_backup_precedes_kill(
    s: SupervisorState,
    i: TickInput,
    t: Timing,
    still_running: bool,
)
    ensures
        forall|k: int|
            0 <= k < plan_actions(tick_spec(s, i, t).1, still_running).len()
                && plan_actions(tick_spec(s, i, t).1, still_running)[k] == Action::Kill
                ==> exists|j: int|
                    0 <= j < k && plan_actions(tick_spec(s, i, t).1, still_running)[j]
                        == Action::BackupAttempt,
{
    let p = tick_spec(s, i, t).1;
    let acts = plan_actions(p, still_running);
    match p {
        TickPlan::LaunchAndWait => {
            assert(forall|k: int| 0 <= k < acts.len() ==> acts[k] != Action::Kill);
        },
        TickPlan::Steady { backup } => {
            assert(forall|k: int| 0 <= k < acts.len() ==> acts[k] != Action::Kill);
        },
        TickPlan::Restart { backup, forced } => {
            let pl: int = if backup { 1 } else { 0 };
            let al: int = if forced { 1 } else { 0 };
            assert(acts[pl + al] == Action::BackupAttempt);
            assert forall|k: int|
                0 <= k < acts.len() && acts[k] == Action::Kill implies exists|j: int|
                0 <= j < k && acts[j] == Action::BackupAttempt by {
                assert(k == pl + al + 1 && still_running);
                assert(0 <= pl + al < k && acts[pl + al] == Action::BackupAttempt);
            }
        },
    }
}

/// A run of consecutive ticks, threading the state through.
pub open spec fn run_ticks(s: SupervisorState, inputs: Seq<TickInput>, t: Timing) -> SupervisorState
    decreases inputs.len(),
{
    if inputs.len() == 0 {
        s
    } else {
        run_ticks(tick_spec(s, inputs[0], t).0, inputs.drop_first(), t)
    }
}

/// The clocks a tick sequence observes never move backwards, and the first
/// observation is no earlier than the timestamps already in the state.
pub open spec fn inputs_wf(s: SupervisorState, inputs: Seq<TickInput>) -> bool {
    (inputs.len() > 0 ==> s.wf(inputs[0].now)) && (forall|k: int|
        0 <= k < inputs.len() - 1 ==> inputs[k].now <= #[trigger] inputs[k + 1].now)
}

/// A well-formed chain stays well formed after its first tick is consumed.
proof fn lemma_inputs_wf_step(s: SupervisorState, inputs: Seq<TickInput>, t: Timing)
    requires
        inputs_wf(s, inputs),
        inputs.len() > 0,
    ensures
        inputs_wf(tick_spec(s, inputs[0], t).0, inputs.drop_first()),
{
    let s1 = tick_spec(s, inputs[0], t).0;
    let rest = inputs.drop_first();
    assert(s1.wf(inputs[0].now));
    if rest.len() > 0 {
        let k0: int = 0;
        assert(inputs[k0].now <= inputs[k0 + 1].now);
        assert(rest[0] == inputs[1]);
        assert(s1.wf(rest[0].now));
        assert forall|k: int|
            0 <= k < rest.len() - 1 implies rest[k].now <= #[trigger] rest[k + 1].now by {
            assert(rest[k] == inputs[k + 1]);
            assert(rest[k + 1] == inputs[k + 2]);
            assert(inputs[k + 1].now <= inputs[k + 2].now);
        }
    }
}

/// Over any run of ticks under a well-behaved clock, `last_backup_at` and
/// `last_restart_at` are monotonically non-decreasing.
pub proof fn lemma_timers_monotone(s: SupervisorState, inputs: Seq<TickInput>, t: Timing)
    requires
        inputs_wf(s, inputs),
    ensures
        run_ticks(s, inputs, t).last_backup_at >= s.last_backup_at,
        run_ticks(s, inputs, t).last_restart_at >= s.last_restart_at,
    decreases inputs.len(),
{
    if inputs.len() > 0 {
        lemma_inputs_wf_step(s, inputs, t);
        lemma_timers_monotone(tick_spec(s, inputs[0], t).0, inputs.drop_first(), t);
    }
}

/// The whole trace of states a run of ticks passes through, starting state
/// included.
pub open spec fn states_of(s: SupervisorState, inputs: Seq<TickInput>, t: Timing) -> Seq<
    SupervisorState,
>
    decreases inputs.len(),
{
    if inputs.len() == 0 {
        seq![s]
    } else {
        seq![s] + states_of(tick_spec(s, inputs[0], t).0, inputs.drop_first(), t)
    }
}

/// Along the whole trace of any run of ticks, `last_backup_at` and
/// `last_restart_at` never decrease from one tick to the next.
pub proof fn lemma_timers_monotone_pointwise(s: SupervisorState, inputs: Seq<TickInput>, t: Timing)
    requires
        inputs_wf(s, inputs),
    ensures
        states_of(s, inputs, t).len() == inputs.len() + 1,
        forall|k: int|
            0 <= k < inputs.len() ==> states_of(s, inputs, t)[k + 1].last_backup_at >= (
            #[trigger] states_of(s, inputs, t)[k]).last_backup_at && states_of(
                s,
                inputs,
                t,
            )[k + 1].last_restart_at >= states_of(s, inputs, t)[k].last_restart_at,
    decreases inputs.len(),
{
    if inputs.len() > 0 {
        let s1 = tick_spec(s, inputs[0], t).0;
        let rest = inputs.drop_first();
        lemma_inputs_wf_step(s, inputs, t);
        lemma_timers_monotone_pointwise(s1, rest, t);
        let trace = states_of(s, inputs, t);
        let sub = states_of(s1, rest, t);
        assert(trace =~= seq![s] + sub);
        assert forall|k: int|
            0 <= k < inputs.len() implies trace[k + 1].last_backup_at >= (
        #[trigger] trace[k]).last_backup_at && trace[k + 1].last_restart_at
            >= trace[k].last_restart_at by {
            if k == 0 {
                assert(trace[0] == s);
                assert(trace[1] == sub[0]);
                assert(sub[0] == s1);
                assert(s.wf(inputs[0].now));
            } else {
                assert(trace[k] == sub[k - 1]);
                assert(trace[k + 1] == sub[k]);
                assert(sub[k - 1 + 1].last_backup_at >= sub[k - 1].last_backup_at
                    && sub[k - 1 + 1].last_restart_at >= sub[k - 1].last_restart_at);
            }
        }
    }
}

/// A captured force-restart request triggers exactly one restart: the tick
/// that captures it restarts even if the periodic timer is not due, and
/// once acted on — the flag being clear — no further restart happens until
/// the periodic timer runs out again.
pub proof fn lemma_one_restart_per_request(
    s: SupervisorState,
    i: TickInput,
    t: Timing,
    j: TickInput,
)
    requires
        s.wf(i.now),
        i.running,
        i.force_restart,
        !j.force_restart,
        i.now <= j.now,
        j.now - i.now <= t.restart_interval_ms,
    ensures
        tick_spec(s, i, t).1 == (TickPlan::Restart { backup: backup_due(s, i, t), forced: true }),
        tick_spec(s, i, t).0.last_restart_at == i.now,
        !(tick_spec(tick_spec(s, i, t).0, j, t).1 matches TickPlan::Restart { .. }),
{
}

/// At most one periodic backup fires per interval: the tick that first
/// observes the backup timer overdue takes the backup and resets the timer,
/// and no later tick takes another until the interval has fully passed
/// again.
pub proof fn lemma_one_backup_per_interval(
    s: SupervisorState,
    i: TickInput,
    t: Timing,
    j: TickInput,
)
    requires
        s.wf(i.now),
        i.running,
        backup_due(s, i, t),
        i.now <= j.now,
        j.now - i.now <= t.backup_interval_ms,
    ensures
        plan_takes_periodic_backup(tick_spec(s, i, t).1),
        tick_spec(s, i, t).0.last_backup_at == i.now,
        !plan_takes_periodic_backup(tick_spec(tick_spec(s, i, t).0, j, t).1),
{
}

/// Whether the supervisor, on entry and before its first tick, must
/// terminate a watched process left over from an earlier run, so the loop
/// starts from a known-clean state.
pub fn startup_kill_needed(already_running: bool) -> (r: bool)
    ensures
        r == already_running,
{
    already_running
}

} // verus!
