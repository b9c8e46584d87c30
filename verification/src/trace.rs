//! The observable behaviour of the event loop, as a mathematical trace.
//!
//! Every step of the supervisor appends what it did to a ghost sequence of
//! [`Obs`] entries: which event was read, whether the supervisor was
//! invoked, whether a process was spawned, when it exited, and when the
//! disconnect command was invoked. The ordering guarantees of the design —
//! no invocation without a matching arrival, no disconnect before the
//! process has exited, no queued event dropped or reordered — are stated
//! and proved over these traces.

use vstd::prelude::*;
use crate::event::{DeviceEvent, is_matching_added};

verus! {

/// One observable step of the event loop.
pub enum Obs {
    /// An event was read from the device monitor.
    Observed(DeviceEvent),
    /// The launcher supervisor was invoked (a matching arrival while idle).
    SupervisorInvoked,
    /// A launcher process was spawned.
    Spawned,
    /// The spawned launcher process exited.
    ChildExited,
    /// The disconnect command was invoked for the peripheral.
    DisconnectInvoked,
}

/// The answers the outside world gives during one supervisor invocation:
/// what the single-instance check reported, whether the spawn succeeded,
/// and whether the disconnect command reported success. Tests substitute
/// fixed answers here; the embedding process feeds in the real ones.
#[derive(Clone, Copy, Debug, PartialEq, Eq, Structural)]
pub struct CycleEnv {
    /// The advisory single-instance check found the launcher already running.
    pub running: bool,
    /// Spawning the launcher process succeeded.
    pub spawn_ok: bool,
    /// The disconnect command reported success.
    pub disconnect_ok: bool,
}

/// Whether `o` observes an arrival of the device at path `dev`.
pub open spec fn is_matching_observation(o: Obs, dev: Seq<char>) -> bool {
    match o {
        Obs::Observed(e) => is_matching_added(e, dev),
        _ => false,
    }
}

/// The trace of one supervisor invocation, given the outside answers:
/// nothing when the launcher already runs or the spawn fails, otherwise a
/// spawn, the process exit, and the disconnect invocation, in that order.
pub open spec fn cycle_obs(env: CycleEnv) -> Seq<Obs> {
    if env.running {
        seq![]
    } else if !env.spawn_ok {
        seq![]
    } else {
        seq![Obs::Spawned, Obs::ChildExited, Obs::DisconnectInvoked]
    }
}

/// Whether one supervisor invocation ends fatally: a spawn failure, or a
/// disconnect failure after a successful cycle.
pub open spec fn cycle_fatal(env: CycleEnv) -> bool {
    !env.running && (!env.spawn_ok || !env.disconnect_ok)
}

/// The trace of handling one event while idle: the event is observed, and a
/// matching arrival additionally invokes the supervisor and runs one cycle.
pub open spec fn event_obs(ev: DeviceEvent, dev: Seq<char>, env: CycleEnv) -> Seq<Obs> {
    if is_matching_added(ev, dev) {
        seq![Obs::Observed(ev), Obs::SupervisorInvoked] + cycle_obs(env)
    } else {
        seq![Obs::Observed(ev)]
    }
}

/// Whether handling `ev` ends fatally.
pub open spec fn event_fatal(ev: DeviceEvent, dev: Seq<char>, env: CycleEnv) -> bool {
    is_matching_added(ev, dev) && cycle_fatal(env)
}

/// The trace of draining a queue of events in order, stopping after the
/// first fatal outcome (the process terminates there).
pub open spec fn drain_obs(q: Seq<DeviceEvent>, dev: Seq<char>, envs: Seq<CycleEnv>) -> Seq<Obs>
    decreases q.len(),
{
    if q.len() == 0 {
        seq![]
    } else {
        event_obs(q[0], dev, envs[0]) + (if event_fatal(q[0], dev, envs[0]) {
            seq![]
        } else {
            drain_obs(q.skip(1), dev, envs.skip(1))
        })
    }
}

/// How many queued events draining handles before it stops: all of them,
/// or every event up to and including the first fatal one.
pub open spec fn processed(q: Seq<DeviceEvent>, dev: Seq<char>, envs: Seq<CycleEnv>) -> nat
    decreases q.len(),
{
    if q.len() == 0 {
        0
    } else if event_fatal(q[0], dev, envs[0]) {
        1
    } else {
        1 + processed(q.skip(1), dev, envs.skip(1))
    }
}

/// The events a trace observed, in order.
pub open spec fn observed_of(h: Seq<Obs>) -> Seq<DeviceEvent>
    decreases h.len(),
{
    if h.len() == 0 {
        seq![]
    } else {
        (match h[0] {
            Obs::Observed(e) => seq![e],
            _ => seq![],
        }) + observed_of(h.skip(1))
    }
}

/// How many processes a trace spawned.
pub open spec fn spawn_count(h: Seq<Obs>) -> nat
    decreases h.len(),
{
    if h.len() == 0 {
        0
    } else {
        (if h[0] is Spawned {
            1nat
        } else {
            0nat
        }) + spawn_count(h.skip(1))
    }
}

/// Spawns are counted piecewise: the count of a concatenation is the sum
/// of the counts.
pub proof fn lemma_spawn_count_concat(a: Seq<Obs>, b: Seq<Obs>)
    ensures
        spawn_count(a + b) == spawn_count(a) + spawn_count(b),
    decreases a.len(),
{
    if a.len() == 0 {
        assert(a + b =~= b);
    } else {
        assert((a + b).skip(1) =~= a.skip(1) + b);
        lemma_spawn_count_concat(a.skip(1), b);
        assert((a + b)[0] == a[0]);
    }
}

/// Observations are collected piecewise: the events observed by a
/// concatenation are those of the parts, in order.
pub proof fn lemma_observed_of_concat(a: Seq<Obs>, b: Seq<Obs>)
    ensures
        observed_of(a + b) == observed_of(a) + observed_of(b),
    decreases a.len(),
{
    if a.len() == 0 {
        assert(a + b =~= b);
        assert(observed_of(a) + observed_of(b) =~= observed_of(b));
    } else {
        assert((a + b).skip(1) =~= a.skip(1) + b);
        lemma_observed_of_concat(a.skip(1), b);
        assert((a + b)[0] == a[0]);
        assert((match a[0] {
            Obs::Observed(e) => seq![e],
            _ => seq![],
        }) + (observed_of(a.skip(1)) + observed_of(b)) =~= ((match a[0] {
            Obs::Observed(e) => seq![e],
            _ => seq![],
        }) + observed_of(a.skip(1))) + observed_of(b));
    }
}

/// Handling one event observes exactly that event, whatever the cycle did.
pub proof fn lemma_event_obs_observes_event(ev: DeviceEvent, dev: Seq<char>, env: CycleEnv)
    ensures
        observed_of(event_obs(ev, dev, env)) == seq![ev],
{
    reveal_with_fuel(observed_of, 5);
    let e = event_obs(ev, dev, env);
    if is_matching_added(ev, dev) {
        let pre = seq![Obs::Observed(ev), Obs::SupervisorInvoked];
        lemma_observed_of_concat(pre, cycle_obs(env));
        assert(pre.skip(1) =~= seq![Obs::SupervisorInvoked]);
        assert(pre.skip(1).skip(1) =~= Seq::<Obs>::empty());
        assert(observed_of(pre) =~= seq![ev]);
        let c = cycle_obs(env);
        if !env.running && env.spawn_ok {
            assert(c.skip(1) =~= seq![Obs::ChildExited, Obs::DisconnectInvoked]);
            assert(c.skip(1).skip(1) =~= seq![Obs::DisconnectInvoked]);
            assert(c.skip(1).skip(1).skip(1) =~= Seq::<Obs>::empty());
        }
        assert(observed_of(c) =~= Seq::<DeviceEvent>::empty());
        assert(observed_of(e) =~= seq![ev]);
    } else {
        assert(e.skip(1) =~= Seq::<Obs>::empty());
        assert(observed_of(e) =~= seq![ev]);
    }
}

/// Extending the drained prefix by one more handled event extends its
/// trace by that event's trace, as long as no earlier event was fatal.
pub proof fn lemma_drain_obs_snoc(q: Seq<DeviceEvent>, dev: Seq<char>, envs: Seq<CycleEnv>, i: int)
    requires
        envs.len() == q.len(),
        0 <= i < q.len(),
        forall|j: int| 0 <= j < i ==> !event_fatal(q[j], dev, #[trigger] envs[j]),
    ensures
        drain_obs(q.take(i + 1), dev, envs.take(i + 1)) == drain_obs(q.take(i), dev, envs.take(i))
            + event_obs(q[i], dev, envs[i]),
    decreases i,
{
    reveal_with_fuel(drain_obs, 3);
    let q1 = q.take(i + 1);
    let e1 = envs.take(i + 1);
    if i == 0 {
        assert(q.take(0) =~= Seq::<DeviceEvent>::empty());
        assert(q1[0] == q[0]);
        assert(e1[0] == envs[0]);
        assert(q1.skip(1) =~= Seq::<DeviceEvent>::empty());
        assert(e1.skip(1) =~= Seq::<CycleEnv>::empty());
        assert(drain_obs(q1, dev, e1) =~= drain_obs(q.take(0), dev, envs.take(0)) + event_obs(
            q[0],
            dev,
            envs[0],
        ));
    } else {
        lemma_drain_obs_snoc(q.skip(1), dev, envs.skip(1), i - 1);
        assert(q1[0] == q[0]);
        assert(e1[0] == envs[0]);
        assert(!event_fatal(q[0], dev, envs[0]));
        assert(q1.skip(1) =~= q.skip(1).take(i));
        assert(e1.skip(1) =~= envs.skip(1).take(i));
        assert(q.take(i).skip(1) =~= q.skip(1).take(i - 1));
        assert(envs.take(i).skip(1) =~= envs.skip(1).take(i - 1));
        assert(q.take(i)[0] == q[0]);
        assert(envs.take(i)[0] == envs[0]);
        assert(q.skip(1)[i - 1] == q[i]);
        assert(envs.skip(1)[i - 1] == envs[i]);
        assert(drain_obs(q1, dev, e1) == event_obs(q[0], dev, envs[0]) + drain_obs(
            q.skip(1).take(i),
            dev,
            envs.skip(1).take(i),
        ));
        assert(drain_obs(q.take(i), dev, envs.take(i)) == event_obs(q[0], dev, envs[0])
            + drain_obs(q.skip(1).take(i - 1), dev, envs.skip(1).take(i - 1)));
        assert(event_obs(q[0], dev, envs[0]) + (drain_obs(
            q.skip(1).take(i - 1),
            dev,
            envs.skip(1).take(i - 1),
        ) + event_obs(q[i], dev, envs[i])) =~= (event_obs(q[0], dev, envs[0]) + drain_obs(
            q.skip(1).take(i - 1),
            dev,
            envs.skip(1).take(i - 1),
        )) + event_obs(q[i], dev, envs[i]));
    }
}

/// Draining stops exactly at the first fatal event: the whole trace is the
/// trace of the prefix before it plus the trace of the fatal event itself,
/// and exactly the events up to and including it were processed.
pub proof fn lemma_drain_obs_stop(q: Seq<DeviceEvent>, dev: Seq<char>, envs: Seq<CycleEnv>, i: int)
    requires
        envs.len() == q.len(),
        0 <= i < q.len(),
        forall|j: int| 0 <= j < i ==> !event_fatal(q[j], dev, #[trigger] envs[j]),
        event_fatal(q[i], dev, envs[i]),
    ensures
        drain_obs(q, dev, envs) == drain_obs(q.take(i), dev, envs.take(i)) + event_obs(
            q[i],
            dev,
            envs[i],
        ),
        processed(q, dev, envs) == i + 1,
    decreases i,
{
    reveal_with_fuel(drain_obs, 3);
    reveal_with_fuel(processed, 3);
    if i == 0 {
        assert(q.take(0) =~= Seq::<DeviceEvent>::empty());
        assert(drain_obs(q, dev, envs) =~= drain_obs(q.take(0), dev, envs.take(0)) + event_obs(
            q[0],
            dev,
            envs[0],
        ));
    } else {
        lemma_drain_obs_stop(q.skip(1), dev, envs.skip(1), i - 1);
        assert(q.skip(1)[i - 1] == q[i]);
        assert(envs.skip(1)[i - 1] == envs[i]);
        assert(!event_fatal(q[0], dev, envs[0]));
        assert(q.take(i).skip(1) =~= q.skip(1).take(i - 1));
        assert(envs.take(i).skip(1) =~= envs.skip(1).take(i - 1));
        assert(q.take(i)[0] == q[0]);
        assert(envs.take(i)[0] == envs[0]);
        assert(event_obs(q[0], dev, envs[0]) + (drain_obs(
            q.skip(1).take(i - 1),
            dev,
            envs.skip(1).take(i - 1),
        ) + event_obs(q[i], dev, envs[i])) =~= (event_obs(q[0], dev, envs[0]) + drain_obs(
            q.skip(1).take(i - 1),
            dev,
            envs.skip(1).take(i - 1),
        )) + event_obs(q[i], dev, envs[i]));
    }
}

/// When no event is fatal, draining processes the whole queue.
pub proof fn lemma_processed_all(q: Seq<DeviceEvent>, dev: Seq<char>, envs: Seq<CycleEnv>)
    requires
        envs.len() == q.len(),
        forall|j: int| 0 <= j < q.len() ==> !event_fatal(q[j], dev, #[trigger] envs[j]),
    ensures
        processed(q, dev, envs) == q.len(),
    decreases q.len(),
{
    if q.len() > 0 {
        lemma_processed_all(q.skip(1), dev, envs.skip(1));
    }
}

/// A well-formed trace: the supervisor is invoked only directly after a
/// matching arrival was observed, a spawn only directly after an
/// invocation, an exit only directly after a spawn, and a disconnect
/// invocation only directly after an exit.
pub open spec fn trace_ok(h: Seq<Obs>, dev: Seq<char>) -> bool {
    &&& forall|i: int|
        0 <= i < h.len() && (#[trigger] h[i]) is SupervisorInvoked ==> 0 < i
            && is_matching_observation(h[i - 1], dev)
    &&& forall|i: int|
        0 <= i < h.len() && (#[trigger] h[i]) is Spawned ==> 0 < i && h[i
            - 1] is SupervisorInvoked
    &&& forall|i: int| 0 <= i < h.len() && (#[trigger] h[i]) is ChildExited ==> 0 < i && h[i - 1] is Spawned
    &&& forall|i: int|
        0 <= i < h.len() && (#[trigger] h[i]) is DisconnectInvoked ==> 0 < i && h[i
            - 1] is ChildExited
}

/// Pushing one observation keeps a trace well-formed, provided the new
/// entry's immediate predecessor (the current last entry) licenses it.
pub proof fn lemma_trace_ok_push(h: Seq<Obs>, dev: Seq<char>, o: Obs)
    requires
        trace_ok(h, dev),
        match o {
            Obs::Observed(_) => true,
            Obs::SupervisorInvoked => h.len() > 0 && is_matching_observation(h.last(), dev),
            Obs::Spawned => h.len() > 0 && h.last() is SupervisorInvoked,
            Obs::ChildExited => h.len() > 0 && h.last() is Spawned,
            Obs::DisconnectInvoked => h.len() > 0 && h.last() is ChildExited,
        },
    ensures
        trace_ok(h.push(o), dev),
{
    let g = h.push(o);
    assert forall|i: int| 0 <= i < g.len() && (#[trigger] g[i]) is SupervisorInvoked implies 0 < i
        && is_matching_observation(g[i - 1], dev) by {
        if i < h.len() {
            assert(g[i] == h[i]);
            assert(g[i - 1] == h[i - 1]);
        } else {
            assert(g[i] == o);
        }
    }
    assert forall|i: int| 0 <= i < g.len() && (#[trigger] g[i]) is Spawned implies 0 < i && g[i
        - 1] is SupervisorInvoked by {
        if i < h.len() {
            assert(g[i] == h[i]);
            assert(g[i - 1] == h[i - 1]);
        } else {
            assert(g[i] == o);
        }
    }
    assert forall|i: int| 0 <= i < g.len() && (#[trigger] g[i]) is ChildExited implies 0 < i && g[i
        - 1] is Spawned by {
        if i < h.len() {
            assert(g[i] == h[i]);
            assert(g[i - 1] == h[i - 1]);
        } else {
            assert(g[i] == o);
        }
    }
    assert forall|i: int| 0 <= i < g.len() && (#[trigger] g[i]) is DisconnectInvoked implies 0 < i
        && g[i - 1] is ChildExited by {
        if i < h.len() {
            assert(g[i] == h[i]);
            assert(g[i - 1] == h[i - 1]);
        } else {
            assert(g[i] == o);
        }
    }
}

} // verus!
