//! The guarantees the design protects, stated and proved once and for all.
//!
//! Each law is a public proof function over the observation traces of
//! [`crate::trace`] and the supervisor states of [`crate::supervisor`];
//! since every supervisor step preserves [`crate::supervisor::Supervisor::wf`]
//! and appends exactly its trace, the laws hold of every reachable state
//! of the machine.

use vstd::prelude::*;
use crate::event::{DeviceEvent, is_matching_added, is_matching_removed};
use crate::supervisor::Supervisor;
use crate::trace::{
    Obs,
    CycleEnv,
    cycle_obs,
    event_obs,
    event_fatal,
    drain_obs,
    observed_of,
    spawn_count,
    is_matching_observation,
    lemma_spawn_count_concat,
    lemma_observed_of_concat,
    lemma_event_obs_observes_event,
};

verus! {

/// Unmatched events never invoke the supervisor: draining any queue of
/// events none of which is the arrival of the watched device — departures
/// and arrivals of other devices alike — produces a trace without a single
/// supervisor invocation, hence without spawns or disconnects either.
pub proof fn lemma_unmatched_queue_never_invokes(
    q: Seq<DeviceEvent>,
    dev: Seq<char>,
    envs: Seq<CycleEnv>,
)
    requires
        envs.len() == q.len(),
        forall|i: int| 0 <= i < q.len() ==> !is_matching_added(#[trigger] q[i], dev),
    ensures
        forall|i: int|
            0 <= i < drain_obs(q, dev, envs).len() ==> (#[trigger] drain_obs(
                q,
                dev,
                envs,
            )[i]) is Observed,
    decreases q.len(),
{
    reveal_with_fuel(drain_obs, 2);
    if q.len() > 0 {
        lemma_unmatched_queue_never_invokes(q.skip(1), dev, envs.skip(1));
        let h = drain_obs(q, dev, envs);
        let rest = drain_obs(q.skip(1), dev, envs.skip(1));
        assert(!is_matching_added(q[0], dev));
        assert(h =~= seq![Obs::Observed(q[0])] + rest);
        assert forall|i: int| 0 <= i < h.len() implies (#[trigger] h[i]) is Observed by {
            if i > 0 {
                assert(h[i] == rest[i - 1]);
            }
        }
    }
}

/// Idempotence of `ensure_running`: a supervisor invocation that spawned a
/// process, followed directly by a second invocation made while that
/// process is still alive — so that the second single-instance check
/// reports the launcher running — spawns exactly one process in total.
pub proof fn lemma_ensure_running_idempotent(env1: CycleEnv, env2: CycleEnv)
    requires
        !env1.running,
        env1.spawn_ok,
        env2.running,
    ensures
        spawn_count(cycle_obs(env1) + cycle_obs(env2)) == 1,
{
    reveal_with_fuel(spawn_count, 5);
    lemma_spawn_count_concat(cycle_obs(env1), cycle_obs(env2));
    let c = cycle_obs(env1);
    assert(c.skip(1) =~= seq![Obs::ChildExited, Obs::DisconnectInvoked]);
    assert(c.skip(1).skip(1) =~= seq![Obs::DisconnectInvoked]);
    assert(c.skip(1).skip(1).skip(1) =~= Seq::<Obs>::empty());
    assert(spawn_count(c) == 1);
    assert(spawn_count(cycle_obs(env2)) == 0);
}

/// Cleanup ordering: in the trace of every reachable supervisor state,
/// each disconnect invocation comes strictly after an exit of the
/// supervised process — never before it, and never concurrently, since one
/// control thread makes all observations in sequence.
pub proof fn lemma_disconnect_strictly_after_exit(s: Supervisor)
    requires
        s.wf(),
    ensures
        forall|i: int|
            0 <= i < s.history@.len() && (#[trigger] s.history@[i]) is DisconnectInvoked ==> exists|
                j: int,
            | 0 <= j < i && (#[trigger] s.history@[j]) is ChildExited,
{
    let h = s.history@;
    assert forall|i: int| 0 <= i < h.len() && (#[trigger] h[i]) is DisconnectInvoked implies exists|
        j: int,
    | 0 <= j < i && (#[trigger] h[j]) is ChildExited by {
        assert(0 < i && h[i - 1] is ChildExited);
    }
}

/// Invocations come only from matching arrivals: in the trace of every
/// reachable supervisor state, each supervisor invocation is directly
/// preceded by the observation of an arrival of the watched device. In
/// particular, a state whose trace observed no such arrival never invoked
/// the supervisor.
pub proof fn lemma_invoked_only_on_matching_arrival(s: Supervisor)
    requires
        s.wf(),
        forall|i: int|
            0 <= i < s.history@.len() ==> !is_matching_observation(
                #[trigger] s.history@[i],
                s.dev@,
            ),
    ensures
        forall|i: int|
            0 <= i < s.history@.len() ==> !((#[trigger] s.history@[i]) is SupervisorInvoked),
{
    let h = s.history@;
    assert forall|i: int| 0 <= i < h.len() implies !((
    #[trigger] h[i]) is SupervisorInvoked) by {
        if h[i] is SupervisorInvoked {
            assert(is_matching_observation(h[i - 1], s.dev@));
        }
    }
}

/// No starvation into loss: draining a queue whose events all complete
/// without a fatal outcome observes every queued event, in arrival order —
/// an event queued while a cycle was in progress is handled after that
/// cycle completes, never dropped.
pub proof fn lemma_no_queued_event_dropped(
    q: Seq<DeviceEvent>,
    dev: Seq<char>,
    envs: Seq<CycleEnv>,
)
    requires
        envs.len() == q.len(),
        forall|i: int| 0 <= i < q.len() ==> !event_fatal(q[i], dev, #[trigger] envs[i]),
    ensures
        observed_of(drain_obs(q, dev, envs)) == q,
    decreases q.len(),
{
    reveal_with_fuel(drain_obs, 2);
    reveal_with_fuel(observed_of, 2);
    if q.len() == 0 {
        assert(observed_of(drain_obs(q, dev, envs)) =~= q);
    } else {
        lemma_no_queued_event_dropped(q.skip(1), dev, envs.skip(1));
        let rest = drain_obs(q.skip(1), dev, envs.skip(1));
        lemma_observed_of_concat(event_obs(q[0], dev, envs[0]), rest);
        lemma_event_obs_observes_event(q[0], dev, envs[0]);
        assert(observed_of(drain_obs(q, dev, envs)) =~= q);
    }
}

/// The starvation trade-off, made exact on the canonical queue: an arrival
/// of the watched device followed by its departure, queued while the cycle
/// ran. The whole launch cycle — invocation, spawn, exit, disconnect —
/// stands in the trace strictly before the departure is observed; the
/// departure is observed nonetheless, exactly once.
pub proof fn lemma_queued_removed_waits_for_cycle(
    added: DeviceEvent,
    removed: DeviceEvent,
    dev: Seq<char>,
    env1: CycleEnv,
    env2: CycleEnv,
)
    requires
        is_matching_added(added, dev),
        is_matching_removed(removed, dev),
        !env1.running,
        env1.spawn_ok,
        env1.disconnect_ok,
    ensures
        drain_obs(seq![added, removed], dev, seq![env1, env2]) == seq![
            Obs::Observed(added),
            Obs::SupervisorInvoked,
            Obs::Spawned,
            Obs::ChildExited,
            Obs::DisconnectInvoked,
            Obs::Observed(removed),
        ],
{
    reveal_with_fuel(drain_obs, 4);
    let q = seq![added, removed];
    let envs = seq![env1, env2];
    assert(q.skip(1) =~= seq![removed]);
    assert(envs.skip(1) =~= seq![env2]);
    assert(q.skip(1).skip(1) =~= Seq::<DeviceEvent>::empty());
    assert(envs.skip(1).skip(1) =~= Seq::<CycleEnv>::empty());
    assert(drain_obs(q, dev, envs) =~= seq![
        Obs::Observed(added),
        Obs::SupervisorInvoked,
        Obs::Spawned,
        Obs::ChildExited,
        Obs::DisconnectInvoked,
        Obs::Observed(removed),
    ]);
}

} // verus!
