use guild_core::accrual::{
    message_points, reaction_points, settle_batch, Accrual, AccrualConfig, Batch, MessageInfo,
    Settlement, BASE_TEXT_POINTS,
};

fn cfg() -> AccrualConfig {
    AccrualConfig { apply_interval_ms: 50, punish_threshold_ms: 120_000 }
}

#[test]
fn burst_is_spread_not_discarded() {
    let mut e = Accrual::new(cfg(), vec![]);
    assert_eq!(e.on_discrete_event(7, 1, 10, 0), None);
    assert_eq!(e.account(7).pending, Some(Batch { amount: 10, since: 0 }));
    let s = e.on_discrete_event(7, 1, 10, 100);
    assert_eq!(s, Some(Settlement { credited: 2, discarded: 0, deferred: 8 }));
    assert_eq!(e.account(7).discrete, 2);
    assert_eq!(e.account(7).pending, Some(Batch { amount: 18, since: 100 }));
}

#[test]
fn full_credit_after_enough_time() {
    let b = Batch { amount: 10, since: 0 };
    assert_eq!(settle_batch(&cfg(), b, 499).credited, 9);
    assert_eq!(settle_batch(&cfg(), b, 500), Settlement { credited: 10, discarded: 0, deferred: 0 });
}

#[test]
fn spam_remainder_is_discarded() {
    let mut e = Accrual::new(cfg(), vec![]);
    e.on_discrete_event(7, 1, 10_000, 0);
    e.flush_all(1_000);
    assert_eq!(e.account(7).discrete, 20);
    assert_eq!(e.account(7).pending, None);
    let s = settle_batch(&cfg(), Batch { amount: 10_000, since: 0 }, 1_000);
    assert_eq!(s, Settlement { credited: 20, discarded: 9_980, deferred: 0 });
}

#[test]
fn spam_threshold_boundary() {
    // 2400 points take exactly 120 s to earn: not above the threshold, so deferred.
    let s = settle_batch(&cfg(), Batch { amount: 2_400, since: 0 }, 1_000);
    assert_eq!(s, Settlement { credited: 20, discarded: 0, deferred: 2_380 });
    let s = settle_batch(&cfg(), Batch { amount: 2_401, since: 0 }, 1_000);
    assert_eq!(s, Settlement { credited: 20, discarded: 2_381, deferred: 0 });
}

#[test]
fn clock_skew_uses_absolute_difference() {
    let s = settle_batch(&cfg(), Batch { amount: 4, since: 1_000 }, 800);
    assert_eq!(s, Settlement { credited: 4, discarded: 0, deferred: 0 });
}

#[test]
fn zero_interval_sets_no_limit() {
    let c = AccrualConfig { apply_interval_ms: 0, punish_threshold_ms: 0 };
    let s = settle_batch(&c, Batch { amount: u64::MAX, since: 5 }, 5);
    assert_eq!(s.credited, u64::MAX);
}

#[test]
fn enter_twice_keeps_start() {
    let mut e = Accrual::new(cfg(), vec![]);
    e.enter(7, 1, 100);
    e.enter(7, 2, 200);
    assert_eq!(e.account(7).session_start, Some(100));
    assert_eq!(e.leave(7, 1_100), 1_000);
    assert_eq!(e.account(7).continuous, 1_000);
}

#[test]
fn leave_without_session_changes_nothing() {
    let mut e = Accrual::new(cfg(), vec![]);
    assert_eq!(e.leave(7, 500), 0);
    assert_eq!(e.account(7).continuous, 0);
    assert_eq!(e.account(7).session_start, None);
}

#[test]
fn negative_elapsed_adds_nothing() {
    let mut e = Accrual::new(cfg(), vec![]);
    e.enter(7, 1, 1_000);
    assert_eq!(e.leave(7, 900), 0);
    assert_eq!(e.account(7).continuous, 0);
    assert_eq!(e.account(7).session_start, None);
}

#[test]
fn ignored_resource_closes_session() {
    let mut e = Accrual::new(cfg(), vec![9]);
    e.enter(7, 1, 0);
    e.enter(7, 9, 300);
    assert_eq!(e.account(7).session_start, None);
    assert_eq!(e.account(7).continuous, 300);
    assert_eq!(e.on_discrete_event(7, 9, 5, 400), None);
    assert_eq!(e.account(7).pending, None);
}

#[test]
fn refresh_credits_without_closing() {
    let mut e = Accrual::new(cfg(), vec![]);
    e.enter(7, 1, 0);
    e.enter(8, 1, 50);
    e.refresh_all(1_000);
    assert_eq!(e.account(7).continuous, 1_000);
    assert_eq!(e.account(8).continuous, 950);
    assert_eq!(e.account(7).session_start, Some(1_000));
    e.refresh_all(1_500);
    assert_eq!(e.account(7).continuous, 1_500);
}

#[test]
fn totals_never_decrease() {
    let mut e = Accrual::new(cfg(), vec![]);
    let mut last = (0u64, 0u64);
    let steps: Vec<(u64, u64)> = vec![(10, 0), (10, 100), (5_000, 150), (1, 200), (3, 60_000)];
    for (points, now) in steps {
        e.on_discrete_event(7, 1, points, now);
        e.flush_all(now + 10);
        let a = e.account(7);
        assert!(a.discrete >= last.1);
        assert!(a.continuous >= last.0);
        last = (a.continuous, a.discrete);
    }
}

#[test]
fn message_points_formula() {
    assert_eq!(message_points(BASE_TEXT_POINTS, 0, 0, 0), 10);
    assert_eq!(message_points(10, 500, 2, 1), 21);
    assert_eq!(message_points(10, 99, 0, 0), 10);
    assert_eq!(message_points(u64::MAX, 1_000, 0, 0), u64::MAX);
    assert_eq!(reaction_points(false), 2);
    assert_eq!(reaction_points(true), 4);
}

#[test]
fn bot_messages_earn_nothing() {
    let mut e = Accrual::new(cfg(), vec![]);
    let mut m = MessageInfo {
        author: 7,
        author_is_bot: true,
        author_is_system: false,
        resource: 1,
        content_len: 1_000,
        attachments: 0,
        embeds: 0,
    };
    assert_eq!(e.on_message(&m, 0), None);
    assert_eq!(e.account(7).pending, None);
    m.author_is_bot = false;
    e.on_message(&m, 0);
    assert_eq!(e.account(7).pending, Some(Batch { amount: 20, since: 0 }));
}

#[test]
fn reaction_credits_reactor_and_author() {
    let mut e = Accrual::new(cfg(), vec![]);
    e.on_reaction(Some(7), Some(8), 1, true, 0);
    assert_eq!(e.account(7).pending, Some(Batch { amount: 4, since: 0 }));
    assert_eq!(e.account(8).pending, Some(Batch { amount: 4, since: 0 }));
}
