use guild_core::guild::GuildState;
use guild_core::reclaim::{
    next_position, EnterOutcome, ReclaimConfig, ScheduleOutcome, Scheduler, WakeOutcome,
    SAFETY_MARGIN_MS,
};
use guild_core::accrual::AccrualConfig;

const CREATOR: u64 = 1;
const CATEGORY: u64 = 100;

fn config(delay_ms: u64, foreign: bool) -> ReclaimConfig {
    ReclaimConfig {
        creator: Some(CREATOR),
        destination: Some(CATEGORY),
        ignored: vec![5],
        reclaim_foreign: foreign,
        delay_ms,
    }
}

#[test]
fn rejoin_before_deadline_keeps_resource() {
    let mut s = Scheduler::new(config(15_000, false));
    s.track(10);
    let deadline = match s.try_schedule(10, 0) {
        ScheduleOutcome::Scheduled(d) => d,
        other => panic!("not scheduled: {:?}", other),
    };
    assert_eq!(deadline, 15_000 + SAFETY_MARGIN_MS);
    assert_eq!(s.enter(10), EnterOutcome::Cancelled);
    assert_eq!(s.entry(10).unwrap().token, None);
    assert_eq!(s.on_wake(10, deadline, false, Some(CATEGORY)), WakeOutcome::Stale);
    assert!(s.entry(10).is_some());
}

#[test]
fn empty_resource_is_deleted_once() {
    let mut s = Scheduler::new(config(15_000, false));
    s.track(10);
    let d = match s.try_schedule(10, 0) {
        ScheduleOutcome::Scheduled(d) => d,
        other => panic!("not scheduled: {:?}", other),
    };
    assert_eq!(d, 15_050);
    assert_eq!(s.on_wake(10, d, false, Some(CATEGORY)), WakeOutcome::Delete);
    assert!(s.entry(10).is_none());
    assert_eq!(s.on_wake(10, d, false, Some(CATEGORY)), WakeOutcome::Stale);
}

#[test]
fn second_schedule_is_refused() {
    let mut s = Scheduler::new(config(1_000, false));
    s.track(10);
    assert_eq!(s.try_schedule(10, 0), ScheduleOutcome::Scheduled(1_050));
    assert_eq!(s.try_schedule(10, 5), ScheduleOutcome::AlreadyScheduled);
    assert_eq!(s.entry(10).unwrap().token, Some(1_050));
    assert_eq!(s.on_wake(10, 1_055, false, Some(CATEGORY)), WakeOutcome::Stale);
    assert_eq!(s.on_wake(10, 1_050, false, Some(CATEGORY)), WakeOutcome::Delete);
}

#[test]
fn rejoin_and_leave_again_supersedes_token() {
    let mut s = Scheduler::new(config(1_000, false));
    s.track(10);
    assert_eq!(s.try_schedule(10, 0), ScheduleOutcome::Scheduled(1_050));
    s.enter(10);
    assert_eq!(s.try_schedule(10, 400), ScheduleOutcome::Scheduled(1_450));
    assert_eq!(s.on_wake(10, 1_050, false, Some(CATEGORY)), WakeOutcome::Stale);
    assert_eq!(s.on_wake(10, 1_450, false, Some(CATEGORY)), WakeOutcome::Delete);
}

#[test]
fn occupied_at_wake_retires_token() {
    let mut s = Scheduler::new(config(1_000, false));
    s.track(10);
    assert_eq!(s.try_schedule(10, 0), ScheduleOutcome::Scheduled(1_050));
    assert_eq!(s.on_wake(10, 1_050, true, Some(CATEGORY)), WakeOutcome::Retired);
    assert_eq!(s.entry(10).unwrap().token, None);
    assert_eq!(s.try_schedule(10, 2_000), ScheduleOutcome::Scheduled(3_050));
}

#[test]
fn ineligible_resources_are_not_scheduled() {
    let mut s = Scheduler::new(config(1_000, false));
    s.track(5);
    assert_eq!(s.try_schedule(5, 0), ScheduleOutcome::Ineligible);
    assert_eq!(s.try_schedule(CREATOR, 0), ScheduleOutcome::Ineligible);
    assert_eq!(s.try_schedule(77, 0), ScheduleOutcome::Ineligible);
    assert!(s.entry(77).is_none());
}

#[test]
fn deadline_overflow_schedules_nothing() {
    let mut s = Scheduler::new(config(1_000, false));
    s.track(10);
    assert_eq!(s.try_schedule(10, u64::MAX - 10), ScheduleOutcome::DeadlineOverflow);
    assert_eq!(s.entry(10).unwrap().token, None);
}

#[test]
fn foreign_resources_need_destination() {
    let mut s = Scheduler::new(config(1_000, true));
    assert_eq!(s.try_schedule(20, 0), ScheduleOutcome::Scheduled(1_050));
    assert_eq!(s.on_wake(20, 1_050, false, Some(999)), WakeOutcome::Ineligible);
    assert_eq!(s.entry(20).unwrap().token, Some(1_050));
    assert_eq!(s.on_wake(20, 1_050, false, Some(CATEGORY)), WakeOutcome::Delete);
}

#[test]
fn creator_entry_requests_creation() {
    let mut s = Scheduler::new(config(1_000, false));
    assert_eq!(s.enter(CREATOR), EnterOutcome::CreateRequested);
    assert_eq!(s.enter(42), EnterOutcome::Untracked);
    assert!(s.entry(42).is_none());
}

#[test]
fn untrack_makes_timer_stale() {
    let mut s = Scheduler::new(config(1_000, false));
    s.track(10);
    assert_eq!(s.try_schedule(10, 0), ScheduleOutcome::Scheduled(1_050));
    assert!(s.untrack(10));
    assert!(!s.untrack(10));
    assert_eq!(s.on_wake(10, 1_050, false, Some(CATEGORY)), WakeOutcome::Stale);
}

#[test]
fn sweep_schedules_unoccupied() {
    let mut s = Scheduler::new(config(1_000, false));
    s.track(10);
    s.track(11);
    s.track(12);
    assert_eq!(s.try_schedule(12, 0), ScheduleOutcome::Scheduled(1_050));
    let out = s.reconcile(&vec![11], &vec![], 100);
    assert_eq!(out, vec![(10, 1_150)]);
    assert_eq!(s.entry(11).unwrap().token, None);
    assert_eq!(s.entry(12).unwrap().token, Some(1_050));
}

#[test]
fn sweep_in_foreign_mode_covers_container() {
    let mut s = Scheduler::new(config(1_000, true));
    s.track(10);
    let out = s.reconcile(&vec![30], &vec![20, 30, 5, CREATOR], 0);
    assert_eq!(out, vec![(10, 1_050), (20, 1_050)]);
    assert!(s.entry(30).is_none());
}

#[test]
fn next_position_after_last() {
    let siblings = vec![(Some(CATEGORY), 3u16), (None, 9), (Some(CATEGORY), 7), (Some(CATEGORY), 1)];
    assert_eq!(next_position(&siblings, Some(CATEGORY)), Some(8));
    assert_eq!(next_position(&siblings, None), Some(10));
    assert_eq!(next_position(&siblings, Some(5)), None);
    assert_eq!(next_position(&vec![(None, u16::MAX)], None), Some(u16::MAX));
}

#[test]
fn occupancy_change_routes_both_subsystems() {
    let accrual = AccrualConfig { apply_interval_ms: 50, punish_threshold_ms: 120_000 };
    let mut g = GuildState::new(config(1_000, false), accrual, vec![]);
    let a = g.on_occupancy_changed(7, None, Some(CREATOR), 0, 1_000);
    assert!(a.create);
    assert_eq!(a.scheduled, None);
    g.scheduler.track(10);
    let a = g.on_occupancy_changed(7, Some(CREATOR), Some(10), 10, 1_010);
    assert!(!a.create);
    assert_eq!(g.accrual.account(7).session_start, Some(1_000));
    let a = g.on_occupancy_changed(7, Some(10), None, 20, 5_000);
    assert_eq!(a.scheduled, Some((10, 1_070)));
    assert_eq!(g.accrual.account(7).continuous, 4_000);
    assert_eq!(g.accrual.account(7).session_start, None);
}

#[test]
fn guild_sweep_flushes_and_schedules() {
    let accrual = AccrualConfig { apply_interval_ms: 50, punish_threshold_ms: 120_000 };
    let mut g = GuildState::new(config(1_000, false), accrual, vec![]);
    g.scheduler.track(10);
    g.on_occupancy_changed(7, None, Some(10), 0, 0);
    g.accrual.on_discrete_event(8, 3, 4, 0);
    let out = g.sweep(&vec![], &vec![], 500, 60_000);
    assert_eq!(out, vec![(10, 1_550)]);
    assert_eq!(g.accrual.account(7).continuous, 60_000);
    assert_eq!(g.accrual.account(7).session_start, Some(60_000));
    assert_eq!(g.accrual.account(8).discrete, 4);
    assert_eq!(g.accrual.account(8).pending, None);
}
