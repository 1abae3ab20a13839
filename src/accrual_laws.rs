use crate::accrual::{
    abs_diff, account_of, affordable, discrete_map, enter_map, flush_map, is_spam, leave_map,
    refresh_map, sat_add, settled, settlement_of, Account, AccrualConfig, Batch,
};
use vstd::prelude::*;

verus! {

/// One event that the accrual engine handles.
#[derive(Clone, Copy, Debug, PartialEq, Eq)]
pub enum AccrualEvent {
    Enter { user: u64, resource: u64, now: u64 },
    Leave { user: u64, now: u64 },
    Discrete { user: u64, resource: u64, points: u64, now: u64 },
    Refresh { now: u64 },
    Flush { now: u64 },
}

/// The accounts after one event, as the engine's methods change them.
pub open spec fn accrual_step(cfg: AccrualConfig, ignored: Seq<u64>, m: Map<u64, Account>, e: AccrualEvent) -> Map<u64, Account> {
    match e {
        AccrualEvent::Enter { user, resource, now } => if ignored.contains(resource) {
            leave_map(m, user, now)
        } else {
            enter_map(m, user, now)
        },
        AccrualEvent::Leave { user, now } => leave_map(m, user, now),
        AccrualEvent::Discrete { user, resource, points, now } => if ignored.contains(resource) {
            m
        } else {
            discrete_map(cfg, m, user, points, now)
        },
        AccrualEvent::Refresh { now } => refresh_map(m, now),
        AccrualEvent::Flush { now } => flush_map(cfg, m, now),
    }
}

/// The accounts after a sequence of events, in order.
pub open spec fn accrual_run(cfg: AccrualConfig, ignored: Seq<u64>, m: Map<u64, Account>, events: Seq<AccrualEvent>) -> Map<u64, Account>
    decreases events.len(),
{
    if events.len() == 0 {
        m
    } else {
        accrual_run(cfg, ignored, accrual_step(cfg, ignored, m, events[0]), events.drop_first())
    }
}

/// Neither credited total of a user ever goes down.
pub open spec fn totals_kept(before: Map<u64, Account>, after: Map<u64, Account>) -> bool {
    forall|u: u64|
        #![trigger account_of(after, u)]
        account_of(before, u).continuous <= account_of(after, u).continuous
        && account_of(before, u).discrete <= account_of(after, u).discrete
}

proof fn lemma_settled_keeps_totals(cfg: AccrualConfig, a: Account, now: u64)
    ensures
        a.continuous == settled(cfg, a, now).continuous,
        a.discrete <= settled(cfg, a, now).discrete,
{
}

proof fn lemma_step_keeps_totals(cfg: AccrualConfig, ignored: Seq<u64>, m: Map<u64, Account>, e: AccrualEvent)
    ensures
        totals_kept(m, accrual_step(cfg, ignored, m, e)),
{
    let m2 = accrual_step(cfg, ignored, m, e);
    assert forall|u: u64| #![trigger account_of(m2, u)]
        account_of(m, u).continuous <= account_of(m2, u).continuous
        && account_of(m, u).discrete <= account_of(m2, u).discrete by {
        match e {
            AccrualEvent::Flush { now } => {
                if m.contains_key(u) {
                    lemma_settled_keeps_totals(cfg, m[u], now);
                }
            },
            AccrualEvent::Discrete { user, resource, points, now } => {
                lemma_settled_keeps_totals(cfg, account_of(m, user), now);
            },
            _ => {},
        }
    }
}

/// Totals are monotonic: for every sequence of presence and discrete events
/// and sweeps, each user's credited presence time and credited discrete
/// points after the sequence are at least what they were before it.
/// Spam handling only ever discards pending points, never credited ones.
pub proof fn lemma_totals_monotonic(cfg: AccrualConfig, ignored: Seq<u64>, m: Map<u64, Account>, events: Seq<AccrualEvent>, user: u64)
    ensures
        account_of(m, user).continuous <= account_of(accrual_run(cfg, ignored, m, events), user).continuous,
        account_of(m, user).discrete <= account_of(accrual_run(cfg, ignored, m, events), user).discrete,
    decreases events.len(),
{
    if events.len() > 0 {
        let m1 = accrual_step(cfg, ignored, m, events[0]);
        lemma_step_keeps_totals(cfg, ignored, m, events[0]);
        assert(account_of(m, user).continuous <= account_of(m1, user).continuous);
        lemma_totals_monotonic(cfg, ignored, m1, events.drop_first(), user);
    }
}

/// Entering while a session is open changes nothing: the recorded start
/// stays that of the first entry, however often and whenever a user enters again.
pub proof fn lemma_enter_idempotent(m: Map<u64, Account>, user: u64, t1: u64, t2: u64)
    ensures
        enter_map(enter_map(m, user, t1), user, t2) == enter_map(m, user, t1),
        account_of(enter_map(m, user, t1), user).session_start == (match account_of(m, user).session_start {
            Some(start) => Some(start),
            None => Some(t1),
        }),
{
}

/// Leaving without an open session changes nothing.
pub proof fn lemma_leave_without_session(m: Map<u64, Account>, user: u64, now: u64)
    requires
        account_of(m, user).session_start is None,
    ensures
        leave_map(m, user, now) == m,
{
}

/// A pending batch that could not have been earned in the time since it was
/// opened, and whose earning time at the configured rate exceeds the punish
/// threshold, is settled by crediting exactly the affordable part: the rest
/// is discarded, not kept pending.
pub proof fn lemma_spam_discarded(cfg: AccrualConfig, a: Account, now: u64)
    requires
        a.pending is Some,
        a.pending->0.amount > affordable(cfg, abs_diff(a.pending->0.since, now)),
        is_spam(cfg, a.pending->0.amount),
    ensures
        settled(cfg, a, now).discrete == sat_add(a.discrete, affordable(cfg, abs_diff(a.pending->0.since, now))),
        settled(cfg, a, now).pending is None,
        settled(cfg, a, now).continuous == a.continuous,
        settlement_of(cfg, a.pending->0, now).discarded
            == a.pending->0.amount - affordable(cfg, abs_diff(a.pending->0.since, now)),
{
}

/// With a positive interval, a batch opened at `since` is credited in full
/// at `now` (not earlier than `since`) exactly when the time between them
/// covers one interval per point.
pub proof fn lemma_full_credit_needs_time(cfg: AccrualConfig, b: Batch, now: u64)
    requires
        cfg.apply_interval_ms > 0,
        now >= b.since,
    ensures
        (settlement_of(cfg, b, now).credited == b.amount)
            <==> (now - b.since >= cfg.apply_interval_ms * b.amount),
{
    let e = (now - b.since) as int;
    let i = cfg.apply_interval_ms as int;
    let a = b.amount as int;
    assert(a <= e / i <==> i * a <= e) by (nonlinear_arith)
        requires
            i > 0,
            e >= 0,
            a >= 0,
    {
        if a <= e / i {
            assert(i * a <= i * (e / i));
        }
        if i * a <= e {
            assert(i * (e / i) + e % i == e);
            assert(e % i < i);
        }
    }
}

} // verus!
