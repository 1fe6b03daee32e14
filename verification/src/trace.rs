//! What holds of every run, whatever the backend and the child do.
//!
//! A run is followed through a sequence of events. Each event that answers
//! the pending action makes one [`Exchange`]; the exchanges of a run, in
//! order, are what was done in it. The theorems of this module speak of
//! the exchanges and of the state after them, for every request that can be
//! run and every sequence of events.

use crate::lifecycle::{hook_verdict, Action, Event, Phase, Run, RunState};
use crate::limits::memory_plan;
use crate::outcome::{status_of, ExitOutcome, Resource, RunError, FATAL_EXIT_CODE};
use crate::restrict::RestrictView;
use vstd::prelude::*;

verus! {

/// An action that was carried out, and how it went.
#[derive(Clone, Copy, Debug, PartialEq, Eq)]
pub struct Exchange {
    pub action: Action,
    pub event: Event,
}

impl Exchange {
    /// `action`, carried out.
    pub open spec fn done(action: Action) -> Exchange {
        Exchange { action, event: Event::Succeeded }
    }

    /// `action`, tried in vain.
    pub open spec fn failed(action: Action) -> Exchange {
        Exchange { action, event: Event::Failed }
    }

    /// The result that this exchange settles, if it settles one: a failure
    /// of anything but the removal of the group, a backend that will not
    /// do, or the end of the child.
    pub open spec fn verdict(self) -> Option<Result<ExitOutcome, RunError>> {
        match (self.action, self.event) {
            (Action::ProbeBackend, Event::BackendProbed(false)) => Some(
                Err(RunError::BackendUnavailable),
            ),
            (Action::CreateScope, Event::Failed) => Some(Err(RunError::CreateFailed)),
            (Action::ApplyMemoryLimit(_), Event::Failed) => Some(
                Err(RunError::LimitRejected(Resource::Memory)),
            ),
            (Action::ApplyCpuWeight(_), Event::Failed) => Some(
                Err(RunError::LimitRejected(Resource::Cpu)),
            ),
            (Action::Spawn, Event::Failed) => Some(Err(RunError::SpawnFailed)),
            (Action::Wait, Event::Failed) => Some(Err(RunError::WaitFailed)),
            (Action::Wait, Event::ChildEnded(outcome)) => Some(Ok(outcome)),
            _ => None,
        }
    }
}

/// How often `action` was carried out in `exchanges`.
pub open spec fn times(exchanges: Seq<Exchange>, action: Action) -> nat
    decreases exchanges.len(),
{
    if exchanges.len() == 0 {
        0
    } else {
        times(exchanges.drop_last(), action) + if exchanges.last().action == action {
            1nat
        } else {
            0nat
        }
    }
}

impl RunState {
    /// The state after `events`, taken in order.
    pub open spec fn after(self, events: Seq<Event>) -> RunState
        decreases events.len(),
    {
        if events.len() == 0 {
            self
        } else {
            self.after(events.drop_last()).next(events.last())
        }
    }

    /// The exchanges that `events` make from this state on: each event that
    /// answers the action pending when it comes, with that action.
    pub open spec fn exchanges(self, events: Seq<Event>) -> Seq<Exchange>
        decreases events.len(),
    {
        if events.len() == 0 {
            Seq::empty()
        } else {
            let before = self.after(events.drop_last());
            let earlier = self.exchanges(events.drop_last());
            if before.accepts(events.last()) {
                earlier.push(Exchange { action: before.pending(), event: events.last() })
            } else {
                earlier
            }
        }
    }
}

/// An action that does not occur has count zero, and one that occurs at
/// one place only has count one.
proof fn lemma_times_by_place(exchanges: Seq<Exchange>, action: Action)
    ensures
        (forall|i: int| 0 <= i < exchanges.len() ==> (#[trigger] exchanges[i]).action != action)
            ==> times(exchanges, action) == 0,
        (exists|i: int|
            0 <= i < exchanges.len() && (#[trigger] exchanges[i]).action == action && forall|
                j: int,
            |
                0 <= j < exchanges.len() && j != i ==> (#[trigger] exchanges[j]).action != action)
            ==> times(exchanges, action) == 1,
    decreases exchanges.len(),
{
    if exchanges.len() > 0 {
        let shorter = exchanges.drop_last();
        lemma_times_by_place(shorter, action);
        assert(forall|i: int| 0 <= i < shorter.len() ==> shorter[i] == exchanges[i]);
        if exists|i: int|
            0 <= i < exchanges.len() && (#[trigger] exchanges[i]).action == action && forall|
                j: int,
            |
                0 <= j < exchanges.len() && j != i ==> (#[trigger] exchanges[j]).action != action {
            let i = choose|i: int|
                0 <= i < exchanges.len() && (#[trigger] exchanges[i]).action == action && forall|
                    j: int,
                |
                    0 <= j < exchanges.len() && j != i ==> (#[trigger] exchanges[j]).action
                        != action;
            if i == exchanges.len() - 1 {
                assert(forall|j: int|
                    0 <= j < shorter.len() ==> (#[trigger] shorter[j]).action != action);
            } else {
                assert(shorter[i].action == action);
                assert(forall|j: int|
                    0 <= j < shorter.len() && j != i ==> (#[trigger] shorter[j]).action
                        != action);
            }
        }
    }
}

/// The exchange that `event` makes in the state `before`.
spec fn answer(before: RunState, event: Event) -> Exchange {
    Exchange { action: before.pending(), event }
}

/// The exchanges stand in the order of the phases, and all of them belong
/// to phases that are over.
spec fn ordered(t: Seq<Exchange>, f: RunState) -> bool {
    &&& f.wf()
    &&& forall|i: int, j: int|
        0 <= i < j < t.len() ==> (#[trigger] t[i]).action.rank() < (#[trigger] t[j]).action.rank()
    &&& forall|i: int| 0 <= i < t.len() ==> (#[trigger] t[i]).action.rank() < f.phase.rank()
}

/// The limits that were set are those of the request.
spec fn limits_genuine(t: Seq<Exchange>, f: RunState) -> bool {
    &&& forall|i: int|
        0 <= i < t.len() ==> ((#[trigger] t[i]).action matches Action::ApplyMemoryLimit(m)
            ==> f.request.memory_limit matches Some(c) && m == memory_plan(c))
    &&& forall|i: int|
        0 <= i < t.len() ==> ((#[trigger] t[i]).action matches Action::ApplyCpuWeight(w)
            ==> f.request.cpu_shares == Some(w))
}

/// The result is the verdict of the one exchange that has one, and after
/// that exchange nothing is done but removing the group.
spec fn settled(t: Seq<Exchange>, f: RunState) -> bool {
    &&& forall|i: int|
        0 <= i < t.len() && (#[trigger] t[i]).verdict() is Some ==> f.result == t[i].verdict()
    &&& f.result is Some ==> exists|i: int|
        0 <= i < t.len() && (#[trigger] t[i]).verdict() == f.result
    &&& forall|i: int, j: int|
        0 <= i < j < t.len() && (#[trigger] t[i]).verdict() is Some ==> (#[trigger] t[j]).action
            == Action::DestroyScope
}

/// The probe that found the unified interface.
spec fn probe_passed() -> Exchange {
    Exchange { action: Action::ProbeBackend, event: Event::BackendProbed(true) }
}

/// A run begins with the probe and the creation of the group; whatever
/// follows them follows their success, and a run that has created its
/// group ends by removing it.
spec fn headed(t: Seq<Exchange>, f: RunState) -> bool {
    &&& f.phase.rank() >= 1 ==> t.len() >= 1 && t[0].action == Action::ProbeBackend
    &&& f.phase == Phase::Creating ==> t[0] == probe_passed()
    &&& forall|i: int|
        0 <= i < t.len() && (#[trigger] t[i]).action.rank() >= 2 ==> i >= 2 && t[1]
            == Exchange::done(Action::CreateScope) && t[0] == probe_passed()
    &&& 2 <= f.phase.rank() <= 6 ==> t.len() >= 2 && t[1] == Exchange::done(Action::CreateScope)
        && t[0] == probe_passed()
    &&& f.phase == Phase::Finished && t.len() >= 2 && t[1] == Exchange::done(Action::CreateScope)
        ==> t.last().action == Action::DestroyScope
    &&& f.cleanup_failed ==> t.len() >= 1 && t.last() == Exchange::failed(Action::DestroyScope)
    &&& forall|i: int|
        0 <= i < t.len() && (#[trigger] t[i]) == Exchange::failed(Action::DestroyScope)
            ==> f.cleanup_failed
}

/// The child is started once the limits that the request asks for are
/// set.
spec fn configured(t: Seq<Exchange>, f: RunState) -> bool {
    let r = f.request;
    &&& (f.phase == Phase::LimitingCpu || f.phase == Phase::Spawning) ==> (r.memory_limit matches Some(
        c,
    ) ==> t.contains(Exchange::done(Action::ApplyMemoryLimit(memory_plan(c)))))
    &&& f.phase == Phase::Spawning ==> (r.cpu_shares matches Some(w) ==> t.contains(
        Exchange::done(Action::ApplyCpuWeight(w)),
    ))
    &&& forall|i: int|
        0 <= i < t.len() && (#[trigger] t[i]).action == Action::Spawn ==> {
            &&& r.memory_limit matches Some(c) ==> t.contains(
                Exchange::done(Action::ApplyMemoryLimit(memory_plan(c))),
            )
            &&& r.cpu_shares matches Some(w) ==> t.contains(
                Exchange::done(Action::ApplyCpuWeight(w)),
            )
        }
}

/// Whether `action` was carried out in `exchanges`.
pub open spec fn performed(exchanges: Seq<Exchange>, action: Action) -> bool {
    exists|i: int| 0 <= i < exchanges.len() && (#[trigger] exchanges[i]).action == action
}

/// A child that was started has been waited for when the run is settled.
spec fn attended(t: Seq<Exchange>, f: RunState) -> bool {
    f.phase.rank() >= 6 && t.contains(Exchange::done(Action::Spawn)) ==> performed(t, Action::Wait)
}

/// What ties the exchanges of a run to the state they lead to. It holds at
/// the start and after every event.
spec fn coherent(t: Seq<Exchange>, f: RunState) -> bool {
    &&& ordered(t, f)
    &&& limits_genuine(t, f)
    &&& settled(t, f)
    &&& headed(t, f)
    &&& configured(t, f)
    &&& attended(t, f)
}

proof fn lemma_ordered_step(t: Seq<Exchange>, before: RunState, event: Event)
    requires
        ordered(t, before),
        before.accepts(event),
    ensures
        ordered(t.push(answer(before, event)), before.next(event)),
{
    before.lemma_next(event);
    let u = t.push(answer(before, event));
    assert(forall|i: int| 0 <= i < t.len() ==> u[i] == t[i]);
}

proof fn lemma_limits_step(t: Seq<Exchange>, before: RunState, event: Event)
    requires
        before.wf(),
        limits_genuine(t, before),
        before.accepts(event),
    ensures
        limits_genuine(t.push(answer(before, event)), before.next(event)),
{
    before.lemma_next(event);
    let u = t.push(answer(before, event));
    assert(forall|i: int| 0 <= i < t.len() ==> u[i] == t[i]);
}

proof fn lemma_settled_step(t: Seq<Exchange>, before: RunState, event: Event)
    requires
        ordered(t, before),
        settled(t, before),
        before.accepts(event),
    ensures
        settled(t.push(answer(before, event)), before.next(event)),
{
    before.lemma_next(event);
    let x = answer(before, event);
    let u = t.push(x);
    let f = before.next(event);
    assert(forall|i: int| 0 <= i < t.len() ==> u[i] == t[i]);
    assert(u[t.len() as int] == x);
    if before.result is Some {
        let i = choose|i: int| 0 <= i < t.len() && (#[trigger] t[i]).verdict() == before.result;
        assert(u[i].verdict() == f.result);
        assert(x.verdict() is None);
        assert(t[i].action.rank() <= 5);
    } else {
        assert(forall|i: int| 0 <= i < t.len() ==> (#[trigger] t[i]).verdict() is None);
        if f.result is Some {
            assert(u[t.len() as int].verdict() == f.result);
        }
    }
}

proof fn lemma_headed_step(t: Seq<Exchange>, before: RunState, event: Event)
    requires
        ordered(t, before),
        headed(t, before),
        before.accepts(event),
    ensures
        headed(t.push(answer(before, event)), before.next(event)),
{
    before.lemma_next(event);
    let x = answer(before, event);
    let u = t.push(x);
    assert(forall|i: int| 0 <= i < t.len() ==> u[i] == t[i]);
    assert(u[t.len() as int] == x);
    assert(u.last() == x);
    if before.phase == Phase::Probing {
        assert(t.len() == 0) by {
            if t.len() > 0 {
                assert(t[0].action.rank() < 0);
            }
        }
    }
    if before.phase == Phase::Creating {
        assert(t.len() == 1) by {
            if t.len() > 1 {
                assert(t[0].action.rank() < t[1].action.rank());
                assert(t[1].action.rank() < 1);
            }
        }
    }
}

proof fn lemma_contains_push(t: Seq<Exchange>, x: Exchange)
    ensures
        t.push(x).contains(x),
        forall|y: Exchange| t.contains(y) ==> #[trigger] t.push(x).contains(y),
{
    let u = t.push(x);
    assert(u[t.len() as int] == x);
    assert forall|y: Exchange| t.contains(y) implies #[trigger] u.contains(y) by {
        let i = choose|i: int| 0 <= i < t.len() && t[i] == y;
        assert(u[i] == y);
    }
}

proof fn lemma_configured_step(t: Seq<Exchange>, before: RunState, event: Event)
    requires
        ordered(t, before),
        configured(t, before),
        before.accepts(event),
    ensures
        configured(t.push(answer(before, event)), before.next(event)),
{
    before.lemma_next(event);
    let x = answer(before, event);
    let u = t.push(x);
    lemma_contains_push(t, x);
    assert(forall|i: int| 0 <= i < t.len() ==> u[i] == t[i]);
    assert(u[t.len() as int] == x);
}

proof fn lemma_attended_step(t: Seq<Exchange>, before: RunState, event: Event)
    requires
        ordered(t, before),
        attended(t, before),
        before.accepts(event),
    ensures
        attended(t.push(answer(before, event)), before.next(event)),
{
    before.lemma_next(event);
    let x = answer(before, event);
    let u = t.push(x);
    let f = before.next(event);
    assert(forall|i: int| 0 <= i < t.len() ==> u[i] == t[i]);
    assert(u[t.len() as int] == x);
    if f.phase.rank() >= 6 && u.contains(Exchange::done(Action::Spawn)) {
        let i = choose|i: int| 0 <= i < u.len() && u[i] == Exchange::done(Action::Spawn);
        if before.phase == Phase::Waiting {
            assert(u[t.len() as int].action == Action::Wait);
        } else {
            assert(i < t.len());
            assert(t[i].action.rank() < before.phase.rank());
            assert(before.phase == Phase::Destroying);
            assert(t.contains(Exchange::done(Action::Spawn)));
            let k = choose|k: int| 0 <= k < t.len() && (#[trigger] t[k]).action == Action::Wait;
            assert(u[k].action == Action::Wait);
        }
    }
}

/// The exchanges of a run and the state after them are coherent.
proof fn lemma_coherent(request: RestrictView, events: Seq<Event>)
    requires
        request.valid(),
    ensures
        coherent(
            RunState::initial(request).exchanges(events),
            RunState::initial(request).after(events),
        ),
        RunState::initial(request).after(events).request == request,
    decreases events.len(),
{
    let start = RunState::initial(request);
    if events.len() == 0 {
        assert(start.exchanges(events) =~= Seq::<Exchange>::empty());
        assert(start.after(events) == start);
    } else {
        let event = events.last();
        let before = start.after(events.drop_last());
        let t = start.exchanges(events.drop_last());
        lemma_coherent(request, events.drop_last());
        before.lemma_next(event);
        if before.accepts(event) {
            lemma_ordered_step(t, before, event);
            lemma_limits_step(t, before, event);
            lemma_settled_step(t, before, event);
            lemma_headed_step(t, before, event);
            lemma_configured_step(t, before, event);
            lemma_attended_step(t, before, event);
        }
    }
}

/// Whether `exchange` stands in `exchanges` before the place `place`.
pub open spec fn earlier(exchanges: Seq<Exchange>, exchange: Exchange, place: int) -> bool {
    exists|i: int| 0 <= i < place && i < exchanges.len() && #[trigger] exchanges[i] == exchange
}

/// The group exists, and has the limits that the request asks for, before
/// the child is started: wherever the child is started, the group was
/// created before, and each limit of the request was set before.
pub proof fn theorem_scope_precedes_child(request: RestrictView, events: Seq<Event>)
    requires
        request.valid(),
    ensures
        ({
            let t = RunState::initial(request).exchanges(events);
            forall|j: int|
                0 <= j < t.len() && (#[trigger] t[j]).action == Action::Spawn ==> {
                    &&& earlier(t, Exchange::done(Action::CreateScope), j)
                    &&& request.memory_limit matches Some(c) ==> earlier(
                        t,
                        Exchange::done(Action::ApplyMemoryLimit(memory_plan(c))),
                        j,
                    )
                    &&& request.cpu_shares matches Some(w) ==> earlier(
                        t,
                        Exchange::done(Action::ApplyCpuWeight(w)),
                        j,
                    )
                }
        }),
{
    lemma_coherent(request, events);
    let t = RunState::initial(request).exchanges(events);
    assert forall|j: int| 0 <= j < t.len() && (#[trigger] t[j]).action == Action::Spawn implies {
        &&& earlier(t, Exchange::done(Action::CreateScope), j)
        &&& request.memory_limit matches Some(c) ==> earlier(
            t,
            Exchange::done(Action::ApplyMemoryLimit(memory_plan(c))),
            j,
        )
        &&& request.cpu_shares matches Some(w) ==> earlier(
            t,
            Exchange::done(Action::ApplyCpuWeight(w)),
            j,
        )
    } by {
        assert(t[1] == Exchange::done(Action::CreateScope));
        if request.memory_limit is Some {
            let c = request.memory_limit.unwrap();
            let x = Exchange::done(Action::ApplyMemoryLimit(memory_plan(c)));
            let i = choose|i: int| 0 <= i < t.len() && t[i] == x;
            assert(t[i].action.rank() == 2);
            if i > j {
                assert(t[j].action.rank() < t[i].action.rank());
            }
            assert(t[i] == x);
        }
        if request.cpu_shares is Some {
            let w = request.cpu_shares.unwrap();
            let x = Exchange::done(Action::ApplyCpuWeight(w));
            let i = choose|i: int| 0 <= i < t.len() && t[i] == x;
            assert(t[i].action.rank() == 3);
            if i > j {
                assert(t[j].action.rank() < t[i].action.rank());
            }
            assert(t[i] == x);
        }
    }
}

/// The group is not removed while the child may run: removing it is the
/// last thing done in a run, and where a child was started, the wait for it
/// stands between its start and the removal.
pub proof fn theorem_scope_outlives_child(request: RestrictView, events: Seq<Event>)
    requires
        request.valid(),
    ensures
        ({
            let t = RunState::initial(request).exchanges(events);
            &&& forall|j: int|
                0 <= j < t.len() && (#[trigger] t[j]).action == Action::DestroyScope ==> j + 1
                    == t.len()
            &&& forall|i: int, j: int|
                0 <= i < t.len() && 0 <= j < t.len() && (#[trigger] t[i]) == Exchange::done(
                    Action::Spawn,
                ) && (#[trigger] t[j]).action == Action::DestroyScope ==> exists|k: int|
                    i < k < j && (#[trigger] t[k]).action == Action::Wait
        }),
{
    lemma_coherent(request, events);
    let t = RunState::initial(request).exchanges(events);
    let f = RunState::initial(request).after(events);
    assert forall|j: int|
        0 <= j < t.len() && (#[trigger] t[j]).action == Action::DestroyScope implies j + 1
        == t.len() by {
        if j + 1 < t.len() {
            assert(t[j].action.rank() < t[j + 1].action.rank());
            assert(t[j + 1].action.rank() < f.phase.rank());
        }
    }
    assert forall|i: int, j: int|
        0 <= i < t.len() && 0 <= j < t.len() && (#[trigger] t[i]) == Exchange::done(
            Action::Spawn,
        ) && (#[trigger] t[j]).action == Action::DestroyScope implies exists|k: int|
        i < k < j && (#[trigger] t[k]).action == Action::Wait by {
        assert(t[j].action.rank() < f.phase.rank());
        assert(t.contains(Exchange::done(Action::Spawn)));
        let k = choose|k: int| 0 <= k < t.len() && (#[trigger] t[k]).action == Action::Wait;
        if k <= i {
            if k < i {
                assert(t[k].action.rank() < t[i].action.rank());
            }
        }
        if j <= k {
            if j < k {
                assert(t[j].action.rank() < t[k].action.rank());
            }
        }
        assert(i < k < j && t[k].action == Action::Wait);
    }
}

/// The group is removed once, and only if it was created: at no time has
/// it been removed twice, or removed without having been created, and when
/// the run is over it has been removed exactly once if it was created,
/// whichever step failed. The run notes a removal that failed, and nothing
/// else as one.
pub proof fn theorem_scope_is_removed_once(request: RestrictView, events: Seq<Event>)
    requires
        request.valid(),
    ensures
        ({
            let t = RunState::initial(request).exchanges(events);
            let f = RunState::initial(request).after(events);
            let created = t.contains(Exchange::done(Action::CreateScope));
            &&& times(t, Action::DestroyScope) <= 1
            &&& !created ==> times(t, Action::DestroyScope) == 0
            &&& f.phase == Phase::Finished && created ==> times(t, Action::DestroyScope) == 1
            &&& f.cleanup_failed <==> t.contains(Exchange::failed(Action::DestroyScope))
            &&& times(t, Action::CreateScope) <= 1
            &&& times(t, Action::Spawn) <= 1
            &&& times(t, Action::Wait) <= 1
        }),
{
    lemma_coherent(request, events);
    let t = RunState::initial(request).exchanges(events);
    let f = RunState::initial(request).after(events);
    lemma_times_at_most_once(t, f, Action::DestroyScope);
    lemma_times_at_most_once(t, f, Action::CreateScope);
    lemma_times_at_most_once(t, f, Action::Spawn);
    lemma_times_at_most_once(t, f, Action::Wait);
    lemma_times_by_place(t, Action::DestroyScope);
    if t.contains(Exchange::done(Action::CreateScope)) {
        let i = choose|i: int| 0 <= i < t.len() && t[i] == Exchange::done(Action::CreateScope);
        if i != 1 {
            assert(t[0].action == Action::ProbeBackend);
            if i > 1 {
                assert(t[0].action.rank() < t[1].action.rank());
                assert(t[1].action.rank() < t[i].action.rank());
            }
        }
        if f.phase == Phase::Finished {
            let last = t.len() - 1;
            assert(t[last].action == Action::DestroyScope);
            assert forall|j: int| 0 <= j < t.len() && j != last implies (#[trigger] t[j]).action
                != Action::DestroyScope by {
                assert(t[j].action.rank() < t[last].action.rank());
            }
        }
    } else {
        assert forall|j: int| 0 <= j < t.len() implies (#[trigger] t[j]).action
            != Action::DestroyScope by {
            if t[j].action == Action::DestroyScope {
                assert(t[j].action.rank() >= 2);
                assert(t[1] == Exchange::done(Action::CreateScope));
            }
        }
    }
}

/// In exchanges that stand in the order of the phases no action occurs
/// twice.
proof fn lemma_times_at_most_once(t: Seq<Exchange>, f: RunState, action: Action)
    requires
        ordered(t, f),
    ensures
        times(t, action) <= 1,
{
    lemma_times_by_place(t, action);
    if exists|i: int| 0 <= i < t.len() && (#[trigger] t[i]).action == action {
        let i = choose|i: int| 0 <= i < t.len() && (#[trigger] t[i]).action == action;
        assert forall|j: int| 0 <= j < t.len() && j != i implies (#[trigger] t[j]).action
            != action by {
            if j < i {
                assert(t[j].action.rank() < t[i].action.rank());
            } else {
                assert(t[i].action.rank() < t[j].action.rank());
            }
        }
    }
}

/// On a host without the unified interface nothing is done but the probe:
/// no group is created and no child is started, and the run is over as
/// failed.
pub proof fn theorem_unsupported_backend_stops_run(request: RestrictView, events: Seq<Event>)
    requires
        request.valid(),
        RunState::initial(request).exchanges(events).contains(
            Exchange { action: Action::ProbeBackend, event: Event::BackendProbed(false) },
        ),
    ensures
        ({
            let t = RunState::initial(request).exchanges(events);
            let f = RunState::initial(request).after(events);
            &&& t.len() == 1
            &&& !performed(t, Action::CreateScope)
            &&& !performed(t, Action::Spawn)
            &&& times(t, Action::Spawn) == 0
            &&& f.phase == Phase::Finished
            &&& f.result == Some(Err::<ExitOutcome, RunError>(RunError::BackendUnavailable))
            &&& f.exit_status() == Some(FATAL_EXIT_CODE)
        }),
{
    lemma_coherent(request, events);
    let t = RunState::initial(request).exchanges(events);
    let f = RunState::initial(request).after(events);
    let x = Exchange { action: Action::ProbeBackend, event: Event::BackendProbed(false) };
    let i = choose|i: int| 0 <= i < t.len() && t[i] == x;
    assert(t[i].verdict() is Some);
    if i > 0 {
        assert(t[0].action.rank() < t[i].action.rank());
    }
    if t.len() > 1 {
        assert(t[1].action == Action::DestroyScope);
        assert(t[1].action.rank() >= 2);
    }
    lemma_times_by_place(t, Action::Spawn);
}

/// How the child ended is the result of the run, and its status code is
/// the exit status: a child that exited with a code hands on that code, one
/// that a signal ended hands on none. Neither a child that could not join
/// the group nor a group that could not be removed changes this.
pub proof fn theorem_child_outcome_is_result(
    request: RestrictView,
    events: Seq<Event>,
    outcome: ExitOutcome,
)
    requires
        request.valid(),
        RunState::initial(request).exchanges(events).contains(
            Exchange { action: Action::Wait, event: Event::ChildEnded(outcome) },
        ),
    ensures
        ({
            let f = RunState::initial(request).after(events);
            &&& f.result == Some(Ok::<ExitOutcome, RunError>(outcome))
            &&& f.exit_status() == status_of(Ok(outcome))
            &&& outcome matches ExitOutcome::Exited(code) ==> f.exit_status() == Some(code)
            &&& outcome == ExitOutcome::Signaled ==> f.exit_status() is None
        }),
{
    lemma_coherent(request, events);
    let t = RunState::initial(request).exchanges(events);
    let x = Exchange { action: Action::Wait, event: Event::ChildEnded(outcome) };
    let i = choose|i: int| 0 <= i < t.len() && t[i] == x;
    assert(t[i].verdict() == Some(Ok::<ExitOutcome, RunError>(outcome)));
}

/// A failure settles the run. Where an exchange has a verdict, that
/// verdict is the result, and nothing is done after it but removing the
/// group; where the verdict is an error, the exit status is
/// [`FATAL_EXIT_CODE`]. A result, in turn, is always the verdict of an
/// exchange.
pub proof fn theorem_verdict_is_result(request: RestrictView, events: Seq<Event>)
    requires
        request.valid(),
    ensures
        ({
            let t = RunState::initial(request).exchanges(events);
            let f = RunState::initial(request).after(events);
            &&& forall|i: int|
                0 <= i < t.len() && (#[trigger] t[i]).verdict() is Some ==> {
                    &&& f.result == t[i].verdict()
                    &&& t[i].verdict() matches Some(Err(_)) ==> f.exit_status() == Some(
                        FATAL_EXIT_CODE,
                    )
                }
            &&& forall|i: int, j: int|
                0 <= i < j < t.len() && (#[trigger] t[i]).verdict() is Some ==> (#[trigger] t[j])
                    == Exchange::done(Action::DestroyScope) || t[j] == Exchange::failed(
                    Action::DestroyScope,
                )
            &&& f.result is Some ==> exists|i: int|
                0 <= i < t.len() && (#[trigger] t[i]).verdict() == f.result
            &&& f.result is Some <==> f.phase == Phase::Destroying || f.phase == Phase::Finished
        }),
{
    lemma_coherent(request, events);
    lemma_answers(request, events);
}

/// Each exchange of a run holds an event that answers its action.
proof fn lemma_answers(request: RestrictView, events: Seq<Event>)
    requires
        request.valid(),
    ensures
        ({
            let t = RunState::initial(request).exchanges(events);
            forall|i: int|
                0 <= i < t.len() ==> match (#[trigger] t[i]).action {
                    Action::ProbeBackend => t[i].event is BackendProbed,
                    Action::Wait => t[i].event is ChildEnded || t[i].event is Failed,
                    Action::Finish => false,
                    _ => t[i].event is Succeeded || t[i].event is Failed,
                }
        }),
    decreases events.len(),
{
    let start = RunState::initial(request);
    if events.len() == 0 {
    } else {
        let event = events.last();
        let before = start.after(events.drop_last());
        let t = start.exchanges(events.drop_last());
        lemma_answers(request, events.drop_last());
        if before.accepts(event) {
            let u = t.push(answer(before, event));
            assert(forall|i: int| 0 <= i < t.len() ==> u[i] == t[i]);
        }
    }
}

/// A limit that the backend refuses ends the run before the child is
/// started: the result names the resource, the exit status is
/// [`FATAL_EXIT_CODE`], and the group is removed all the same.
pub proof fn theorem_rejected_limit_is_fatal(
    request: RestrictView,
    events: Seq<Event>,
    place: int,
)
    requires
        request.valid(),
        0 <= place < RunState::initial(request).exchanges(events).len(),
        ({
            let x = RunState::initial(request).exchanges(events)[place];
            x.event == Event::Failed && (x.action is ApplyMemoryLimit || x.action
                is ApplyCpuWeight)
        }),
    ensures
        ({
            let t = RunState::initial(request).exchanges(events);
            let f = RunState::initial(request).after(events);
            let resource = if t[place].action is ApplyMemoryLimit {
                Resource::Memory
            } else {
                Resource::Cpu
            };
            &&& !performed(t, Action::Spawn)
            &&& !performed(t, Action::Wait)
            &&& f.result == Some(Err::<ExitOutcome, RunError>(RunError::LimitRejected(resource)))
            &&& f.exit_status() == Some(FATAL_EXIT_CODE)
            &&& t.contains(Exchange::done(Action::CreateScope))
            &&& f.phase == Phase::Finished ==> times(t, Action::DestroyScope) == 1
        }),
{
    lemma_coherent(request, events);
    theorem_scope_is_removed_once(request, events);
    let t = RunState::initial(request).exchanges(events);
    assert(t[place].verdict() is Some);
    assert(t[place].action.rank() >= 2);
    assert(t[1] == Exchange::done(Action::CreateScope));
    assert forall|j: int| 0 <= j < t.len() implies (#[trigger] t[j]).action != Action::Spawn
        && t[j].action != Action::Wait by {
        if j < place {
            assert(t[j].action.rank() < t[place].action.rank());
        } else if j > place {
            assert(t[j].action == Action::DestroyScope);
        }
    }
}

/// The limits that are set are those that the request asks for: a memory
/// limit is the [`memory_plan`] of the request's ceiling, a CPU weight is
/// the request's weight. A request without limits has none set.
pub proof fn theorem_limits_are_those_requested(request: RestrictView, events: Seq<Event>)
    requires
        request.valid(),
    ensures
        ({
            let t = RunState::initial(request).exchanges(events);
            &&& forall|i: int|
                0 <= i < t.len() ==> ((#[trigger] t[i]).action matches Action::ApplyMemoryLimit(m)
                    ==> request.memory_limit matches Some(c) && m == memory_plan(c))
            &&& forall|i: int|
                0 <= i < t.len() ==> ((#[trigger] t[i]).action matches Action::ApplyCpuWeight(w)
                    ==> request.cpu_shares == Some(w))
            &&& request.memory_limit is None && request.cpu_shares is None ==> forall|i: int|
                0 <= i < t.len() ==> !((#[trigger] t[i]).action is ApplyMemoryLimit) && !(t[i].action
                    is ApplyCpuWeight)
        }),
{
    lemma_coherent(request, events);
}

/// A group that cannot be removed changes neither the result nor the exit
/// status of the run: it is noted, and the run is over.
pub proof fn theorem_cleanup_failure_is_not_escalated(request: RestrictView, events: Seq<Event>)
    requires
        request.valid(),
        RunState::initial(request).after(events).phase == Phase::Destroying,
    ensures
        ({
            let before = RunState::initial(request).after(events);
            let kept = RunState::initial(request).after(events.push(Event::Succeeded));
            let lost = RunState::initial(request).after(events.push(Event::Failed));
            &&& kept.phase == Phase::Finished
            &&& lost.phase == Phase::Finished
            &&& !kept.cleanup_failed
            &&& lost.cleanup_failed
            &&& lost.result == before.result
            &&& kept.result == before.result
            &&& lost.exit_status() == kept.exit_status()
        }),
{
    lemma_coherent(request, events);
    assert(events.push(Event::Succeeded).drop_last() =~= events);
    assert(events.push(Event::Failed).drop_last() =~= events);
}

/// What one more event adds to a run.
pub proof fn lemma_one_more_event(start: RunState, events: Seq<Event>, event: Event)
    ensures
        start.after(events.push(event)) == start.after(events).next(event),
        start.exchanges(events.push(event)) == if start.after(events).accepts(event) {
            start.exchanges(events).push(
                Exchange { action: start.after(events).pending(), event },
            )
        } else {
            start.exchanges(events)
        },
{
    assert(events.push(event).drop_last() =~= events);
}

/// The events of a run in which nothing fails and the child ends as
/// `outcome`.
pub open spec fn smooth_events(request: RestrictView, outcome: ExitOutcome) -> Seq<Event> {
    let created = seq![Event::BackendProbed(true), Event::Succeeded];
    let with_memory = if request.memory_limit is Some {
        created.push(Event::Succeeded)
    } else {
        created
    };
    let with_cpu = if request.cpu_shares is Some {
        with_memory.push(Event::Succeeded)
    } else {
        with_memory
    };
    with_cpu.push(Event::Succeeded).push(Event::ChildEnded(outcome)).push(Event::Succeeded)
}

/// What is done in a run in which nothing fails and the child ends as
/// `outcome`.
pub open spec fn smooth_exchanges(request: RestrictView, outcome: ExitOutcome) -> Seq<Exchange> {
    let created = seq![
        Exchange { action: Action::ProbeBackend, event: Event::BackendProbed(true) },
        Exchange::done(Action::CreateScope),
    ];
    let with_memory = if request.memory_limit is Some {
        created.push(
            Exchange::done(Action::ApplyMemoryLimit(memory_plan(request.memory_limit.unwrap()))),
        )
    } else {
        created
    };
    let with_cpu = if request.cpu_shares is Some {
        with_memory.push(Exchange::done(Action::ApplyCpuWeight(request.cpu_shares.unwrap())))
    } else {
        with_memory
    };
    with_cpu.push(Exchange::done(Action::Spawn)).push(
        Exchange { action: Action::Wait, event: Event::ChildEnded(outcome) },
    ).push(Exchange::done(Action::DestroyScope))
}

/// Where nothing fails, a run probes the backend, creates the group, sets
/// the limits that the request asks for and no others, starts the child,
/// waits for it and removes the group, in this order, and is then over
/// with the child's outcome as its result.
pub proof fn theorem_smooth_run(request: RestrictView, outcome: ExitOutcome)
    requires
        request.valid(),
    ensures
        RunState::initial(request).after(smooth_events(request, outcome)) == (RunState {
            request,
            phase: Phase::Finished,
            result: Some(Ok(outcome)),
            cleanup_failed: false,
        }),
        RunState::initial(request).exchanges(smooth_events(request, outcome)) == smooth_exchanges(
            request,
            outcome,
        ),
        RunState::initial(request).after(smooth_events(request, outcome)).exit_status()
            == status_of(Ok(outcome)),
{
    let start = RunState::initial(request);
    let e0 = Seq::<Event>::empty();
    let e1 = e0.push(Event::BackendProbed(true));
    let e2 = e1.push(Event::Succeeded);
    let e3 = if request.memory_limit is Some {
        e2.push(Event::Succeeded)
    } else {
        e2
    };
    let e4 = if request.cpu_shares is Some {
        e3.push(Event::Succeeded)
    } else {
        e3
    };
    let e5 = e4.push(Event::Succeeded);
    let e6 = e5.push(Event::ChildEnded(outcome));
    let e7 = e6.push(Event::Succeeded);
    assert(start.after(e0) == start);
    assert(start.exchanges(e0) == Seq::<Exchange>::empty());
    lemma_one_more_event(start, e0, Event::BackendProbed(true));
    lemma_one_more_event(start, e1, Event::Succeeded);
    assert(start.after(e2).phase == start.phase_after_create());
    if request.memory_limit is Some {
        lemma_one_more_event(start, e2, Event::Succeeded);
    }
    assert(start.after(e3).phase == start.phase_after_memory());
    if request.cpu_shares is Some {
        lemma_one_more_event(start, e3, Event::Succeeded);
    }
    assert(start.after(e4).phase == Phase::Spawning);
    lemma_one_more_event(start, e4, Event::Succeeded);
    lemma_one_more_event(start, e5, Event::ChildEnded(outcome));
    lemma_one_more_event(start, e6, Event::Succeeded);
    assert(e7 == smooth_events(request, outcome));
}

/// Two runs for one group do not know of each other. Where nothing fails,
/// each of them comes to its end with the outcome of its own child, and the
/// later one sets the limits of its own request, whatever the earlier one
/// had set; it leaves a limit alone only where its request has none.
pub proof fn theorem_group_can_be_used_again(
    first: RestrictView,
    second: RestrictView,
    first_outcome: ExitOutcome,
    second_outcome: ExitOutcome,
)
    requires
        first.valid(),
        second.valid(),
        first.cgroup_path == second.cgroup_path,
    ensures
        RunState::initial(first).after(smooth_events(first, first_outcome)).phase
            == Phase::Finished,
        RunState::initial(first).after(smooth_events(first, first_outcome)).result == Some(
            Ok::<ExitOutcome, RunError>(first_outcome),
        ),
        RunState::initial(second).after(smooth_events(second, second_outcome)).phase
            == Phase::Finished,
        RunState::initial(second).after(smooth_events(second, second_outcome)).result == Some(
            Ok::<ExitOutcome, RunError>(second_outcome),
        ),
        RunState::initial(second).exchanges(smooth_events(second, second_outcome))
            == smooth_exchanges(second, second_outcome),
        second.memory_limit matches Some(c) ==> smooth_exchanges(second, second_outcome).contains(
            Exchange::done(Action::ApplyMemoryLimit(memory_plan(c))),
        ),
        second.cpu_shares matches Some(w) ==> smooth_exchanges(second, second_outcome).contains(
            Exchange::done(Action::ApplyCpuWeight(w)),
        ),
{
    theorem_smooth_run(first, first_outcome);
    theorem_smooth_run(second, second_outcome);
    theorem_scope_precedes_child(second, smooth_events(second, second_outcome));
    let t = smooth_exchanges(second, second_outcome);
    let spawn = t.len() - 3;
    assert(t[spawn].action == Action::Spawn);
}

/// A child that cannot join the group is not held back, and its run is
/// like any other: the hook lets it become the shell and has it say that it
/// runs without limits, and how it ends is the result of the run.
pub proof fn theorem_failed_attach_is_not_fatal(
    request: RestrictView,
    events: Seq<Event>,
    outcome: ExitOutcome,
)
    requires
        request.valid(),
        RunState::initial(request).exchanges(events).contains(
            Exchange { action: Action::Wait, event: Event::ChildEnded(outcome) },
        ),
    ensures
        hook_verdict(false).proceed,
        hook_verdict(false).report,
        RunState::initial(request).after(events).result == Some(
            Ok::<ExitOutcome, RunError>(outcome),
        ),
        RunState::initial(request).after(events).exit_status() == status_of(Ok(outcome)),
{
    theorem_child_outcome_is_result(request, events, outcome);
}

impl Run {
    /// Follows this run through `events`, as if each of them were the
    /// answer of a backend, and tells what was done: the run after the
    /// events and the exchanges on the way.
    pub fn replay(self, events: &Vec<Event>) -> (done: (Run, Vec<Exchange>))
        ensures
            done.0@ == self@.after(events@),
            done.1@ == self@.exchanges(events@),
    {
        let ghost start = self@;
        let mut run = self;
        let mut exchanges: Vec<Exchange> = Vec::new();
        let mut i: usize = 0;
        while i < events.len()
            invariant
                i <= events.len(),
                run@ == start.after(events@.take(i as int)),
                exchanges@ == start.exchanges(events@.take(i as int)),
            decreases events.len() - i,
        {
            let event = events[i];
            proof {
                lemma_one_more_event(start, events@.take(i as int), event);
                assert(events@.take(i + 1) =~= events@.take(i as int).push(event));
            }
            if run.accepts(event) {
                exchanges.push(Exchange { action: run.pending(), event });
            }
            run = run.step(event);
            i = i + 1;
        }
        proof {
            assert(events@.take(events.len() as int) =~= events@);
        }
        (run, exchanges)
    }
}

} // verus!
