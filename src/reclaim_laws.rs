use crate::reclaim::{
    deadline, eligible, enter_map, is_creator, live, schedule_map, schedule_outcome, track_map,
    wake_map, wake_outcome, ReclaimConfig, ResourceEntry, ScheduleOutcome, WakeOutcome,
};
use vstd::prelude::*;

verus! {

/// One event that the reclamation scheduler handles.
#[derive(Clone, Copy, Debug, PartialEq, Eq)]
pub enum ReclaimEvent {
    Enter { resource: u64 },
    Leave { resource: u64, now: u64 },
    Wake { resource: u64, token: u64, occupied: bool, container: Option<u64> },
    Track { resource: u64 },
    Untrack { resource: u64 },
}

pub open spec fn event_resource(e: ReclaimEvent) -> u64 {
    match e {
        ReclaimEvent::Enter { resource } => resource,
        ReclaimEvent::Leave { resource, .. } => resource,
        ReclaimEvent::Wake { resource, .. } => resource,
        ReclaimEvent::Track { resource } => resource,
        ReclaimEvent::Untrack { resource } => resource,
    }
}

/// The scheduler's state after one event, as its methods change it.
pub open spec fn reclaim_step(cfg: ReclaimConfig, m: Map<u64, ResourceEntry>, e: ReclaimEvent) -> Map<u64, ResourceEntry> {
    match e {
        ReclaimEvent::Enter { resource } => enter_map(cfg, m, resource),
        ReclaimEvent::Leave { resource, now } => schedule_map(cfg, m, resource, now),
        ReclaimEvent::Wake { resource, token, occupied, container } => wake_map(
            cfg,
            m,
            resource,
            token,
            occupied,
            container,
        ),
        ReclaimEvent::Track { resource } => track_map(m, resource),
        ReclaimEvent::Untrack { resource } => m.remove(resource),
    }
}

/// The scheduler's state after a sequence of events, in order.
pub open spec fn reclaim_run(cfg: ReclaimConfig, m: Map<u64, ResourceEntry>, es: Seq<ReclaimEvent>) -> Map<u64, ResourceEntry>
    decreases es.len(),
{
    if es.len() == 0 {
        m
    } else {
        reclaim_step(cfg, reclaim_run(cfg, m, es.drop_last()), es.last())
    }
}

proof fn lemma_run_take(cfg: ReclaimConfig, m: Map<u64, ResourceEntry>, es: Seq<ReclaimEvent>, j: int)
    requires
        0 <= j < es.len(),
    ensures
        reclaim_run(cfg, m, es.take(j + 1)) == reclaim_step(cfg, reclaim_run(cfg, m, es.take(j)), es[j]),
{
    assert(es.take(j + 1).drop_last() =~= es.take(j));
}

/// An event on another resource leaves the entry of `r` as it was.
proof fn lemma_step_other(cfg: ReclaimConfig, m: Map<u64, ResourceEntry>, e: ReclaimEvent, r: u64)
    requires
        event_resource(e) != r,
    ensures
        reclaim_step(cfg, m, e).contains_key(r) == m.contains_key(r),
        m.contains_key(r) ==> reclaim_step(cfg, m, e)[r] == m[r],
{
}

/// At most one reclamation timer per resource is live: a live token is
/// unique; while one is live no second deletion can be scheduled and the
/// state is left as it is; and a scheduled deadline becomes the only live
/// token, where none was live before.
pub proof fn lemma_one_live_timer(cfg: ReclaimConfig, m: Map<u64, ResourceEntry>, r: u64, now: u64, t1: u64, t2: u64)
    ensures
        live(m, r, t1) && live(m, r, t2) ==> t1 == t2,
        live(m, r, t1) ==> schedule_outcome(cfg, m, r, now) != ScheduleOutcome::Scheduled(t2)
            && schedule_map(cfg, m, r, now) == m,
        schedule_outcome(cfg, m, r, now) == ScheduleOutcome::Scheduled(t1) ==> {
            &&& !live(m, r, t2)
            &&& live(schedule_map(cfg, m, r, now), r, t2) <==> t2 == t1
        },
        !live(m, r, t1) ==> wake_outcome(cfg, m, r, t1, false, None) == WakeOutcome::Stale,
{
}

/// No premature deletion: once a deletion is scheduled at `t0`, an entry into
/// the resource (event `k`) before its timer wakes means that this timer never
/// deletes it, whatever follows. Later leaves are taken to happen after `t0`:
/// the token is the deadline, so a second attempt in the same millisecond
/// would carry the same token.
pub proof fn lemma_no_premature_deletion(cfg: ReclaimConfig, m: Map<u64, ResourceEntry>, r: u64, t0: u64, es: Seq<ReclaimEvent>, k: int)
    requires
        schedule_outcome(cfg, m, r, t0) is Scheduled,
        0 <= k < es.len(),
        es[k] == (ReclaimEvent::Enter { resource: r }),
        forall|j: int| 0 <= j < es.len() && (#[trigger] es[j]) is Leave && es[j]->Leave_resource == r ==> es[j]->Leave_now > t0,
    ensures
        forall|j: int|
            #![trigger es[j]]
            k < j < es.len() && es[j] is Wake && es[j]->Wake_resource == r && es[j]->Wake_token == deadline(cfg, t0) ==>
            wake_outcome(
                cfg,
                reclaim_run(cfg, schedule_map(cfg, m, r, t0), es.take(j)),
                r,
                deadline(cfg, t0) as u64,
                es[j]->Wake_occupied,
                es[j]->Wake_container,
            ) == WakeOutcome::Stale,
{
    let m1 = schedule_map(cfg, m, r, t0);
    let big_t = deadline(cfg, t0) as u64;
    assert(eligible(cfg, m, r));
    assert(!is_creator(cfg, r));
    assert forall|j: int| k < j <= es.len() implies !live(#[trigger] reclaim_run(cfg, m1, es.take(j)), r, big_t) by {
        lemma_not_live_after(cfg, m, r, t0, es, k, j);
    }
    assert forall|j: int|
        #![trigger es[j]]
        k < j < es.len() && es[j] is Wake && es[j]->Wake_resource == r && es[j]->Wake_token == deadline(cfg, t0) implies
        wake_outcome(cfg, reclaim_run(cfg, m1, es.take(j)), r, big_t, es[j]->Wake_occupied, es[j]->Wake_container)
            == WakeOutcome::Stale by {
        assert(!live(reclaim_run(cfg, m1, es.take(j)), r, big_t));
    }
}

proof fn lemma_not_live_after(cfg: ReclaimConfig, m: Map<u64, ResourceEntry>, r: u64, t0: u64, es: Seq<ReclaimEvent>, k: int, j: int)
    requires
        schedule_outcome(cfg, m, r, t0) is Scheduled,
        0 <= k < es.len(),
        es[k] == (ReclaimEvent::Enter { resource: r }),
        forall|i: int| 0 <= i < es.len() && (#[trigger] es[i]) is Leave && es[i]->Leave_resource == r ==> es[i]->Leave_now > t0,
        k < j <= es.len(),
    ensures
        !live(reclaim_run(cfg, schedule_map(cfg, m, r, t0), es.take(j)), r, deadline(cfg, t0) as u64),
    decreases j,
{
    let m1 = schedule_map(cfg, m, r, t0);
    let big_t = deadline(cfg, t0) as u64;
    assert(!is_creator(cfg, r));
    lemma_run_take(cfg, m1, es, j - 1);
    let prev = reclaim_run(cfg, m1, es.take(j - 1));
    let e = es[j - 1];
    if j - 1 == k {
    } else {
        lemma_not_live_after(cfg, m, r, t0, es, k, j - 1);
        if event_resource(e) != r {
            lemma_step_other(cfg, prev, e, r);
        } else {
            match e {
                ReclaimEvent::Leave { resource, now } => {
                    assert(es[j - 1] is Leave);
                    assert(now > t0);
                },
                _ => {},
            }
        }
    }
}

/// Eventual deletion: a resource whose deletion was scheduled at `t0`, and
/// that nobody enters afterwards, is deleted by the timer that wakes at the
/// deadline while it is empty, exactly once: the same timer firing again
/// finds its token stale. Events on other resources, and further leaves of
/// this one, may come in between.
pub proof fn lemma_eventual_deletion(cfg: ReclaimConfig, m: Map<u64, ResourceEntry>, r: u64, t0: u64, es: Seq<ReclaimEvent>, container: Option<u64>)
    requires
        schedule_outcome(cfg, m, r, t0) is Scheduled,
        forall|j: int| 0 <= j < es.len() && event_resource(#[trigger] es[j]) == r ==> es[j] is Leave,
        (m.contains_key(r) && m[r].created) || (cfg.destination is Some && container == cfg.destination),
    ensures
        ({
            let t = deadline(cfg, t0) as u64;
            let m2 = reclaim_run(cfg, schedule_map(cfg, m, r, t0), es);
            let m3 = wake_map(cfg, m2, r, t, false, container);
            &&& wake_outcome(cfg, m2, r, t, false, container) == WakeOutcome::Delete
            &&& !m3.contains_key(r)
            &&& wake_outcome(cfg, m3, r, t, false, container) == WakeOutcome::Stale
        }),
{
    let m1 = schedule_map(cfg, m, r, t0);
    lemma_entry_kept(cfg, m, r, t0, es, es.len() as int);
    assert(es.take(es.len() as int) =~= es);
}

proof fn lemma_entry_kept(cfg: ReclaimConfig, m: Map<u64, ResourceEntry>, r: u64, t0: u64, es: Seq<ReclaimEvent>, j: int)
    requires
        schedule_outcome(cfg, m, r, t0) is Scheduled,
        forall|i: int| 0 <= i < es.len() && event_resource(#[trigger] es[i]) == r ==> es[i] is Leave,
        0 <= j <= es.len(),
    ensures
        reclaim_run(cfg, schedule_map(cfg, m, r, t0), es.take(j)).contains_key(r),
        reclaim_run(cfg, schedule_map(cfg, m, r, t0), es.take(j))[r] == schedule_map(cfg, m, r, t0)[r],
    decreases j,
{
    let m1 = schedule_map(cfg, m, r, t0);
    if j == 0 {
        assert(es.take(0) =~= Seq::<ReclaimEvent>::empty());
    } else {
        lemma_entry_kept(cfg, m, r, t0, es, j - 1);
        lemma_run_take(cfg, m1, es, j - 1);
        let prev = reclaim_run(cfg, m1, es.take(j - 1));
        let e = es[j - 1];
        if event_resource(e) != r {
            lemma_step_other(cfg, prev, e, r);
        } else {
            assert(e is Leave);
        }
    }
}

} // verus!
