//! The launcher supervisor: a two-level state machine.
//!
//! The event loop owns a single [`Supervisor`]. While [`Phase::Idle`] it
//! feeds each decoded device event into [`Supervisor::observe_event`]; a
//! matching arrival invokes the supervisor, and the embedding process then
//! performs the outside work of the cycle — the single-instance query, the
//! spawn, the blocking wait, the disconnect command — reporting each
//! outcome back through the corresponding step. Because the control thread
//! is strictly sequential, no further event is read while a cycle is in
//! progress; the kernel queues such events and the loop drains them, in
//! order, once the cycle completes.
//!
//! Every step appends what it did to the ghost observation trace, and every
//! step preserves [`Supervisor::wf`], so the ordering laws proved over
//! traces in [`crate::laws`] hold of every reachable state.

use vstd::prelude::*;
use crate::config::Config;
use crate::event::{DeviceEvent, is_matching_added};
use crate::trace::{
    Obs,
    CycleEnv,
    cycle_obs,
    cycle_fatal,
    event_obs,
    event_fatal,
    drain_obs,
    processed,
    trace_ok,
    lemma_trace_ok_push,
    lemma_drain_obs_snoc,
    lemma_drain_obs_stop,
    lemma_processed_all,
};

verus! {

/// Where the supervisor stands inside a launch cycle. `Idle` and the rest
/// refine the design's two logical states: every phase other than `Idle`
/// and `Failed` is a point inside one in-progress cycle, during which the
/// control thread reads no further event.
#[derive(Clone, Copy, Debug, PartialEq, Eq, Structural)]
pub enum Phase {
    /// No cycle in progress; the event loop is reading events.
    Idle,
    /// A matching arrival was observed; the single-instance check is owed.
    Checking,
    /// The launcher was not running; a spawn is owed.
    Spawning,
    /// A launcher process is alive; the blocking wait is in progress.
    Waiting,
    /// The process has exited; the disconnect invocation is owed.
    Disconnecting,
    /// A fatal error ended the cycle; the process must terminate.
    Failed(FatalError),
}

/// The two fatal runtime conditions a cycle can end in. Both terminate the
/// whole process with a non-zero status: a launcher that cannot start, or a
/// peripheral left connected, are operator-visible failures by design.
#[derive(Clone, Copy, Debug, PartialEq, Eq, Structural)]
pub enum FatalError {
    /// The launcher process failed to start.
    Spawn,
    /// The disconnect command failed or could not be invoked.
    Disconnect,
}

/// The error returned when the disconnect command reports failure,
/// carrying the peripheral address it was invoked for.
#[derive(Debug, PartialEq, Eq)]
pub struct DisconnectError {
    /// The address of the peripheral that is still connected.
    pub mac: String,
}

/// The supervisor's state: the current phase, counters of the spawns and
/// disconnect invocations made so far, and the ghost trace of everything
/// observed since construction.
pub struct Supervisor {
    /// The current phase of the state machine.
    pub phase: Phase,
    /// How many launcher processes have been spawned.
    pub spawns: u64,
    /// How many disconnect invocations have been made.
    pub disconnects: u64,
    /// The watched device node path, fixed at construction.
    pub dev: Ghost<Seq<char>>,
    /// The observation trace.
    pub history: Ghost<Seq<Obs>>,
}

impl Supervisor {
    /// The machine's invariant: the trace is well-formed, and in each
    /// mid-cycle phase the trace ends with the observation that entered it.
    pub open spec fn wf(self) -> bool {
        &&& trace_ok(self.history@, self.dev@)
        &&& (self.phase == Phase::Checking ==> self.history@.len() > 0
            && self.history@.last() is SupervisorInvoked)
        &&& (self.phase == Phase::Spawning ==> self.history@.len() > 0
            && self.history@.last() is SupervisorInvoked)
        &&& (self.phase == Phase::Waiting ==> self.history@.len() > 0
            && self.history@.last() is Spawned)
        &&& (self.phase == Phase::Disconnecting ==> self.history@.len() > 0
            && self.history@.last() is ChildExited)
    }

    /// A fresh, idle supervisor for the device path of `cfg`, with an
    /// empty trace.
    pub fn new(cfg: &Config) -> (s: Supervisor)
        ensures
            s.wf(),
            s.phase == Phase::Idle,
            s.spawns == 0,
            s.disconnects == 0,
            s.dev@ == cfg.dev_block@,
            s.history@ == Seq::<Obs>::empty(),
    {
        Supervisor {
            phase: Phase::Idle,
            spawns: 0,
            disconnects: 0,
            dev: Ghost(cfg.dev_block@),
            history: Ghost(Seq::empty()),
        }
    }

    /// Observes one decoded device event while idle. Returns whether the
    /// event is the arrival of the watched device, in which case the
    /// supervisor is invoked and the cycle's single-instance check becomes
    /// owed; every other event — a departure of the watched device
    /// included — is observed without any action, by design.
    pub fn observe_event(&mut self, cfg: &Config, ev: &DeviceEvent) -> (start: bool)
        requires
            old(self).wf(),
            old(self).phase == Phase::Idle,
            cfg.dev_block@ == old(self).dev@,
        ensures
            final(self).wf(),
            final(self).dev == old(self).dev,
            final(self).spawns == old(self).spawns,
            final(self).disconnects == old(self).disconnects,
            start == is_matching_added(*ev, old(self).dev@),
            start ==> final(self).phase == Phase::Checking && final(self).history@ == old(self).history@ + seq![Obs::Observed(*ev), Obs::SupervisorInvoked],
            !start ==> final(self).phase == Phase::Idle && final(self).history@ == old(self).history@ + seq![Obs::Observed(*ev)],
    {
        let start = match ev {
            DeviceEvent::Added(p) => *p == cfg.dev_block,
            _ => false,
        };
        proof {
            lemma_trace_ok_push(self.history@, self.dev@, Obs::Observed(*ev));
        }
        self.history = Ghost(self.history@.push(Obs::Observed(*ev)));
        if start {
            proof {
                lemma_trace_ok_push(self.history@, self.dev@, Obs::SupervisorInvoked);
            }
            self.history = Ghost(self.history@.push(Obs::SupervisorInvoked));
            self.phase = Phase::Checking;
            proof {
                assert(self.history@ =~= old(self).history@ + seq![
                    Obs::Observed(*ev),
                    Obs::SupervisorInvoked,
                ]);
            }
            true
        } else {
            proof {
                assert(self.history@ =~= old(self).history@ + seq![Obs::Observed(*ev)]);
            }
            false
        }
    }

    /// Records the outcome of the advisory single-instance check. When the
    /// launcher is already running the cycle is a no-op and the machine
    /// returns to idle at once — the idempotence branch; otherwise a spawn
    /// becomes owed. Returns whether a spawn must be attempted.
    pub fn single_instance_check(&mut self, running: bool) -> (must_spawn: bool)
        requires
            old(self).wf(),
            old(self).phase == Phase::Checking,
        ensures
            final(self).wf(),
            final(self).dev == old(self).dev,
            final(self).spawns == old(self).spawns,
            final(self).disconnects == old(self).disconnects,
            final(self).history@ == old(self).history@,
            must_spawn == !running,
            running ==> final(self).phase == Phase::Idle,
            !running ==> final(self).phase == Phase::Spawning,
    {
        if running {
            self.phase = Phase::Idle;
            false
        } else {
            self.phase = Phase::Spawning;
            true
        }
    }

    /// Records the outcome of the spawn attempt. A successful spawn starts
    /// the blocking wait; a failed spawn is fatal, and no disconnect is
    /// ever invoked for the failed cycle.
    pub fn record_spawn(&mut self, ok: bool) -> (r: Result<(), FatalError>)
        requires
            old(self).wf(),
            old(self).phase == Phase::Spawning,
            old(self).spawns < u64::MAX,
        ensures
            final(self).wf(),
            final(self).dev == old(self).dev,
            final(self).disconnects == old(self).disconnects,
            ok ==> r is Ok && final(self).phase == Phase::Waiting && final(self).history@ == old(self).history@.push(Obs::Spawned) && final(self).spawns == old(self).spawns + 1,
            !ok ==> r == Err::<(), FatalError>(FatalError::Spawn) && final(self).phase
                == Phase::Failed(FatalError::Spawn) && final(self).history@ == old(self).history@
                && final(self).spawns == old(self).spawns,
    {
        if ok {
            proof {
                lemma_trace_ok_push(self.history@, self.dev@, Obs::Spawned);
            }
            self.history = Ghost(self.history@.push(Obs::Spawned));
            self.phase = Phase::Waiting;
            self.spawns = self.spawns + 1;
            Ok(())
        } else {
            self.phase = Phase::Failed(FatalError::Spawn);
            Err(FatalError::Spawn)
        }
    }

    /// Records that the blocking wait returned: the spawned process has
    /// exited. The exit code is deliberately not inspected — any
    /// termination completes the wait — and the disconnect invocation
    /// becomes owed, strictly after this point.
    pub fn record_child_exit(&mut self)
        requires
            old(self).wf(),
            old(self).phase == Phase::Waiting,
        ensures
            final(self).wf(),
            final(self).dev == old(self).dev,
            final(self).spawns == old(self).spawns,
            final(self).disconnects == old(self).disconnects,
            final(self).phase == Phase::Disconnecting,
            final(self).history@ == old(self).history@.push(Obs::ChildExited),
    {
        proof {
            lemma_trace_ok_push(self.history@, self.dev@, Obs::ChildExited);
        }
        self.history = Ghost(self.history@.push(Obs::ChildExited));
        self.phase = Phase::Disconnecting;
    }

    /// Records the reported outcome of the disconnect command. Success
    /// completes the cycle and returns the machine to idle; failure is
    /// fatal and carries the peripheral address back to the caller. A
    /// single attempt is made per cycle — no retries.
    pub fn record_disconnect(&mut self, cfg: &Config, ok: bool) -> (r: Result<(), DisconnectError>)
        requires
            old(self).wf(),
            old(self).phase == Phase::Disconnecting,
            old(self).disconnects < u64::MAX,
        ensures
            final(self).wf(),
            final(self).dev == old(self).dev,
            final(self).spawns == old(self).spawns,
            final(self).disconnects == old(self).disconnects + 1,
            final(self).history@ == old(self).history@.push(Obs::DisconnectInvoked),
            ok ==> r is Ok && final(self).phase == Phase::Idle,
            !ok ==> (r matches Err(e) && e.mac == cfg.mac) && final(self).phase == Phase::Failed(
                FatalError::Disconnect,
            ),
    {
        proof {
            lemma_trace_ok_push(self.history@, self.dev@, Obs::DisconnectInvoked);
        }
        self.history = Ghost(self.history@.push(Obs::DisconnectInvoked));
        self.disconnects = self.disconnects + 1;
        if ok {
            self.phase = Phase::Idle;
            Ok(())
        } else {
            self.phase = Phase::Failed(FatalError::Disconnect);
            Err(DisconnectError { mac: cfg.mac.clone() })
        }
    }

    /// One whole supervisor invocation, driven by the outside answers in
    /// `env`: the single-instance check, then — only when the launcher was
    /// not already running — the spawn, the wait for the process to exit,
    /// and the disconnect invocation, in that order. An already-running
    /// launcher makes the invocation a no-op; a spawn or disconnect
    /// failure is returned as the fatal error the process must die with.
    pub fn ensure_running(&mut self, cfg: &Config, env: CycleEnv) -> (r: Result<(), FatalError>)
        requires
            old(self).wf(),
            old(self).phase == Phase::Checking,
            old(self).spawns < u64::MAX,
            old(self).disconnects < u64::MAX,
        ensures
            final(self).wf(),
            final(self).dev == old(self).dev,
            final(self).history@ == old(self).history@ + cycle_obs(env),
            r is Err <==> cycle_fatal(env),
            !cycle_fatal(env) ==> r is Ok && final(self).phase == Phase::Idle,
            env.running ==> final(self).spawns == old(self).spawns && final(self).disconnects
                == old(self).disconnects,
            !env.running && !env.spawn_ok ==> r == Err::<(), FatalError>(FatalError::Spawn)
                && final(self).phase == Phase::Failed(FatalError::Spawn) && final(self).spawns
                == old(self).spawns && final(self).disconnects == old(self).disconnects,
            !env.running && env.spawn_ok ==> final(self).spawns == old(self).spawns + 1 && final(self).disconnects == old(self).disconnects + 1,
            !env.running && env.spawn_ok && !env.disconnect_ok ==> r == Err::<(), FatalError>(
                FatalError::Disconnect,
            ) && final(self).phase == Phase::Failed(FatalError::Disconnect),
    {
        let must_spawn = self.single_instance_check(env.running);
        if !must_spawn {
            proof {
                assert(self.history@ =~= old(self).history@ + cycle_obs(env));
            }
            return Ok(());
        }
        match self.record_spawn(env.spawn_ok) {
            Ok(u) => u,
            Err(e) => {
                proof {
                    assert(self.history@ =~= old(self).history@ + cycle_obs(env));
                }
                return Err(e);
            },
        }
        self.record_child_exit();
        match self.record_disconnect(cfg, env.disconnect_ok) {
            Ok(u) => {
                proof {
                    assert(self.history@ =~= old(self).history@ + cycle_obs(env));
                }
                Ok(u)
            },
            Err(_addr) => {
                proof {
                    assert(self.history@ =~= old(self).history@ + cycle_obs(env));
                }
                Err(FatalError::Disconnect)
            },
        }
    }

    /// The event loop's body for one event read while idle: observe it,
    /// and run one whole supervisor invocation exactly when it is the
    /// arrival of the watched device. Every other event leaves the
    /// machine idle with nothing spawned and nothing disconnected.
    pub fn handle_event(&mut self, cfg: &Config, ev: &DeviceEvent, env: CycleEnv) -> (r: Result<
        (),
        FatalError,
    >)
        requires
            old(self).wf(),
            old(self).phase == Phase::Idle,
            cfg.dev_block@ == old(self).dev@,
            old(self).spawns < u64::MAX,
            old(self).disconnects < u64::MAX,
        ensures
            final(self).wf(),
            final(self).dev == old(self).dev,
            final(self).history@ == old(self).history@ + event_obs(*ev, old(self).dev@, env),
            r is Err <==> event_fatal(*ev, old(self).dev@, env),
            !event_fatal(*ev, old(self).dev@, env) ==> r is Ok && final(self).phase == Phase::Idle,
            is_matching_added(*ev, old(self).dev@) && !env.running && env.spawn_ok ==> final(self).spawns == old(self).spawns + 1 && final(self).disconnects == old(self).disconnects
                + 1,
            !(is_matching_added(*ev, old(self).dev@) && !env.running && env.spawn_ok) ==> final(self).spawns == old(self).spawns && final(self).disconnects == old(self).disconnects,
            is_matching_added(*ev, old(self).dev@) && !env.running && !env.spawn_ok ==> r
                == Err::<(), FatalError>(FatalError::Spawn) && final(self).phase == Phase::Failed(
                FatalError::Spawn,
            ),
            is_matching_added(*ev, old(self).dev@) && !env.running && env.spawn_ok
                && !env.disconnect_ok ==> r == Err::<(), FatalError>(FatalError::Disconnect)
                && final(self).phase == Phase::Failed(FatalError::Disconnect),
    {
        let start = self.observe_event(cfg, ev);
        if start {
            let r = self.ensure_running(cfg, env);
            proof {
                assert(self.history@ =~= old(self).history@ + event_obs(
                    *ev,
                    old(self).dev@,
                    env,
                ));
            }
            r
        } else {
            proof {
                assert(self.history@ =~= old(self).history@ + event_obs(
                    *ev,
                    old(self).dev@,
                    env,
                ));
            }
            Ok(())
        }
    }

    /// Drains a queue of pending events in arrival order, handling each
    /// one completely before reading the next — exactly what the blocking
    /// event loop does with the events the kernel queued while a cycle was
    /// in progress. Stops after the first fatal outcome, since the real
    /// process terminates there. Returns how many events were handled:
    /// all of them unless one was fatal, so no queued event is ever
    /// dropped or reordered.
    #[verifier::rlimit(50)]
    pub fn drain_events(&mut self, cfg: &Config, events: &Vec<DeviceEvent>, envs: &Vec<
        CycleEnv,
    >) -> (n: usize)
        requires
            old(self).wf(),
            old(self).phase == Phase::Idle,
            cfg.dev_block@ == old(self).dev@,
            envs@.len() == events@.len(),
            old(self).spawns + events@.len() <= u64::MAX,
            old(self).disconnects + events@.len() <= u64::MAX,
        ensures
            final(self).wf(),
            final(self).dev == old(self).dev,
            final(self).history@ == old(self).history@ + drain_obs(
                events@,
                old(self).dev@,
                envs@,
            ),
            n == processed(events@, old(self).dev@, envs@),
            (forall|j: int|
                0 <= j < events@.len() ==> !event_fatal(
                    events@[j],
                    old(self).dev@,
                    #[trigger] envs@[j],
                )) ==> n == events@.len() && final(self).phase == Phase::Idle,
    {
        let ghost dev = old(self).dev@;
        let ghost h0 = old(self).history@;
        let mut i: usize = 0;
        while i < events.len()
            invariant
                self.wf(),
                self.phase == Phase::Idle,
                self.dev == old(self).dev,
                cfg.dev_block@ == dev,
                dev == old(self).dev@,
                h0 == old(self).history@,
                0 <= i <= events@.len(),
                envs@.len() == events@.len(),
                self.spawns <= old(self).spawns + i,
                self.disconnects <= old(self).disconnects + i,
                old(self).spawns + events@.len() <= u64::MAX,
                old(self).disconnects + events@.len() <= u64::MAX,
                forall|j: int| 0 <= j < i ==> !event_fatal(events@[j], dev, #[trigger] envs@[j]),
                self.history@ == h0 + drain_obs(
                    events@.take(i as int),
                    dev,
                    envs@.take(i as int),
                ),
            decreases events@.len() - i,
        {
            let ev = &events[i];
            let env = envs[i];
            let r = self.handle_event(cfg, ev, env);
            proof {
                lemma_drain_obs_snoc(events@, dev, envs@, i as int);
                assert(self.history@ =~= h0 + drain_obs(
                    events@.take(i as int + 1),
                    dev,
                    envs@.take(i as int + 1),
                ));
            }
            if r.is_err() {
                proof {
                    lemma_drain_obs_stop(events@, dev, envs@, i as int);
                    assert(self.history@ =~= h0 + drain_obs(events@, dev, envs@));
                }
                return i + 1;
            }
            i = i + 1;
        }
        proof {
            assert(events@.take(events@.len() as int) =~= events@);
            assert(envs@.take(envs@.len() as int) =~= envs@);
            lemma_processed_all(events@, dev, envs@);
        }
        i
    }
}

} // verus!
