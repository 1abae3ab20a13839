use crate::table::{list_contains, Table};
use vstd::prelude::*;

verus! {

/// Points for a plain message before its size and attachments are counted.
pub const BASE_TEXT_POINTS: u64 = 10;

/// Points for a reaction; a burst reaction counts twice.
pub const BASE_REACTION_POINTS: u64 = 2;

/// Tuning of the discrete stream: one point may be earned per `apply_interval_ms`,
/// and a pending amount whose legitimate earning time exceeds
/// `punish_threshold_ms` is treated as spam.
#[derive(Clone, Copy, Debug, PartialEq, Eq)]
pub struct AccrualConfig {
    pub apply_interval_ms: u64,
    pub punish_threshold_ms: u64,
}

/// Points of the discrete stream that are not yet credited, counted from `since`.
#[derive(Clone, Copy, Debug, PartialEq, Eq)]
pub struct Batch {
    pub amount: u64,
    pub since: u64,
}

/// Everything the engine keeps for one user.
#[derive(Clone, Copy, Debug, PartialEq, Eq)]
pub struct Account {
    /// Start of the open presence session, if any.
    pub session_start: Option<u64>,
    /// The pending batch of discrete points, if any.
    pub pending: Option<Batch>,
    /// Credited presence time, in milliseconds.
    pub continuous: u64,
    /// Credited discrete points.
    pub discrete: u64,
}

/// How a pending batch was settled: what went to the total, what was thrown
/// away as spam, and what stays pending.
#[derive(Clone, Copy, Debug, PartialEq, Eq)]
pub struct Settlement {
    pub credited: u64,
    pub discarded: u64,
    pub deferred: u64,
}

/// What the engine needs to know of a message.
#[derive(Clone, Copy, Debug, PartialEq, Eq)]
pub struct MessageInfo {
    pub author: u64,
    pub author_is_bot: bool,
    pub author_is_system: bool,
    pub resource: u64,
    pub content_len: usize,
    pub attachments: usize,
    pub embeds: usize,
}

pub open spec fn sat_add(a: u64, b: u64) -> u64 {
    if a + b > u64::MAX {
        u64::MAX
    } else {
        (a + b) as u64
    }
}

pub open spec fn abs_diff(a: u64, b: u64) -> u64 {
    if a >= b {
        (a - b) as u64
    } else {
        (b - a) as u64
    }
}

pub open spec fn empty_account() -> Account {
    Account { session_start: None, pending: None, continuous: 0, discrete: 0 }
}

/// The account of `user` in `accounts`; a user never seen has an empty one.
pub open spec fn account_of(accounts: Map<u64, Account>, user: u64) -> Account {
    if accounts.contains_key(user) {
        accounts[user]
    } else {
        empty_account()
    }
}

/// How many points could legitimately have been earned in `elapsed` milliseconds.
/// An interval of zero sets no limit.
pub open spec fn affordable(cfg: AccrualConfig, elapsed: u64) -> u64 {
    if cfg.apply_interval_ms == 0 {
        u64::MAX
    } else {
        (elapsed / cfg.apply_interval_ms) as u64
    }
}

/// Earning `amount` points at the configured rate would take longer than the
/// punish threshold.
pub open spec fn is_spam(cfg: AccrualConfig, amount: u64) -> bool {
    cfg.apply_interval_ms * amount > cfg.punish_threshold_ms
}

pub open spec fn settlement_of(cfg: AccrualConfig, b: Batch, now: u64) -> Settlement {
    let aff = affordable(cfg, abs_diff(b.since, now));
    if b.amount <= aff {
        Settlement { credited: b.amount, discarded: 0, deferred: 0 }
    } else if is_spam(cfg, b.amount) {
        Settlement { credited: aff, discarded: (b.amount - aff) as u64, deferred: 0 }
    } else {
        Settlement { credited: aff, discarded: 0, deferred: (b.amount - aff) as u64 }
    }
}

/// The account after its pending batch, if any, is settled at `now`.
pub open spec fn settled(cfg: AccrualConfig, a: Account, now: u64) -> Account {
    match a.pending {
        None => a,
        Some(b) => {
            let s = settlement_of(cfg, b, now);
            Account {
                pending: if s.deferred > 0 {
                    Some(Batch { amount: s.deferred, since: now })
                } else {
                    None
                },
                discrete: sat_add(a.discrete, s.credited),
                ..a
            }
        },
    }
}

/// The account with `points` added to its pending batch, opened at `now` if none is.
pub open spec fn with_points(a: Account, points: u64, now: u64) -> Account {
    Account {
        pending: match a.pending {
            None => Some(Batch { amount: points, since: now }),
            Some(b) => Some(Batch { amount: sat_add(b.amount, points), since: b.since }),
        },
        ..a
    }
}

pub open spec fn after_discrete(cfg: AccrualConfig, a: Account, points: u64, now: u64) -> Account {
    with_points(settled(cfg, a, now), points, now)
}

pub open spec fn after_enter(a: Account, now: u64) -> Account {
    match a.session_start {
        None => Account { session_start: Some(now), ..a },
        Some(_) => a,
    }
}

/// Presence time between `start` and `now`; a clock that went backwards gives none.
pub open spec fn session_time(start: u64, now: u64) -> u64 {
    if now >= start {
        (now - start) as u64
    } else {
        0
    }
}

pub open spec fn after_leave(a: Account, now: u64) -> Account {
    match a.session_start {
        None => a,
        Some(start) => Account {
            session_start: None,
            continuous: sat_add(a.continuous, session_time(start, now)),
            ..a
        },
    }
}

pub open spec fn after_refresh(a: Account, now: u64) -> Account {
    match a.session_start {
        None => a,
        Some(start) => Account {
            session_start: Some(now),
            continuous: sat_add(a.continuous, session_time(start, now)),
            ..a
        },
    }
}

/// Points of a message: the base scaled by one plus a thousandth per byte of
/// text, a quarter per attachment and a tenth per embed, rounded down.
pub open spec fn message_points_of(base: u64, content_len: usize, attachments: usize, embeds: usize) -> int {
    base * (1000 + content_len + 250 * attachments + 100 * embeds) / 1000
}

fn sat_add_u64(a: u64, b: u64) -> (r: u64)
    ensures
        r == sat_add(a, b),
{
    a.saturating_add(b)
}

/// Settles a pending batch at `now`: all of it when it could have been earned
/// in the time since it was opened; else what could be earned, with the rest
/// discarded when earning it would exceed the punish threshold, and kept
/// pending otherwise.
pub fn settle_batch(cfg: &AccrualConfig, b: Batch, now: u64) -> (s: Settlement)
    ensures
        s == settlement_of(*cfg, b, now),
        s.credited + s.discarded + s.deferred == b.amount,
{
    let elapsed: u64 = if b.since >= now { b.since - now } else { now - b.since };
    let aff: u64 = if cfg.apply_interval_ms == 0 {
        u64::MAX
    } else {
        elapsed / cfg.apply_interval_ms
    };
    proof {
        assert(cfg.apply_interval_ms * b.amount <= u128::MAX) by (nonlinear_arith)
            requires
                cfg.apply_interval_ms <= 0xffff_ffff_ffff_ffffint,
                b.amount <= 0xffff_ffff_ffff_ffffint,
        {
            assert(cfg.apply_interval_ms * b.amount <= 0xffff_ffff_ffff_ffffint * 0xffff_ffff_ffff_ffffint);
        }
    }
    let cost: u128 = (cfg.apply_interval_ms as u128) * (b.amount as u128);
    if b.amount <= aff {
        Settlement { credited: b.amount, discarded: 0, deferred: 0 }
    } else if cost > cfg.punish_threshold_ms as u128 {
        Settlement { credited: aff, discarded: b.amount - aff, deferred: 0 }
    } else {
        Settlement { credited: aff, discarded: 0, deferred: b.amount - aff }
    }
}

/// `x`, or the largest `u64` where `x` is larger.
pub open spec fn capped(x: int) -> u64 {
    if x > u64::MAX {
        u64::MAX
    } else {
        x as u64
    }
}

/// Points earned by a message of the given shape.
pub fn message_points(base: u64, content_len: usize, attachments: usize, embeds: usize) -> (r: u64)
    ensures
        r == capped(message_points_of(base, content_len, attachments, embeds)),
{
    let factor: u128 = 1000 + content_len as u128 + 250 * (attachments as u128) + 100 * (embeds as u128);
    match (base as u128).checked_mul(factor) {
        Some(p) => {
            let q: u128 = p / 1000;
            if q > u64::MAX as u128 {
                u64::MAX
            } else {
                q as u64
            }
        },
        None => {
            proof {
                assert(base * factor > u128::MAX);
                assert(base * factor / 1000 > u64::MAX) by (nonlinear_arith)
                    requires base * factor > u128::MAX;
            }
            u64::MAX
        },
    }
}

/// Points earned by a reaction.
pub fn reaction_points(burst: bool) -> (r: u64)
    ensures
        r == (if burst { 2 * BASE_REACTION_POINTS } else { BASE_REACTION_POINTS as int }),
{
    if burst {
        2 * BASE_REACTION_POINTS
    } else {
        BASE_REACTION_POINTS
    }
}

pub open spec fn enter_map(m: Map<u64, Account>, user: u64, now: u64) -> Map<u64, Account> {
    if account_of(m, user).session_start is Some {
        m
    } else {
        m.insert(user, after_enter(account_of(m, user), now))
    }
}

pub open spec fn leave_map(m: Map<u64, Account>, user: u64, now: u64) -> Map<u64, Account> {
    if account_of(m, user).session_start is None {
        m
    } else {
        m.insert(user, after_leave(account_of(m, user), now))
    }
}

pub open spec fn discrete_map(cfg: AccrualConfig, m: Map<u64, Account>, user: u64, points: u64, now: u64) -> Map<u64, Account> {
    m.insert(user, after_discrete(cfg, account_of(m, user), points, now))
}

pub open spec fn refresh_map(m: Map<u64, Account>, now: u64) -> Map<u64, Account> {
    Map::new(|u: u64| m.contains_key(u), |u: u64| after_refresh(m[u], now))
}

pub open spec fn flush_map(cfg: AccrualConfig, m: Map<u64, Account>, now: u64) -> Map<u64, Account> {
    Map::new(|u: u64| m.contains_key(u), |u: u64| settled(cfg, m[u], now))
}

fn entered(a: Account, now: u64) -> (r: Account)
    ensures
        r == after_enter(a, now),
{
    match a.session_start {
        None => Account { session_start: Some(now), ..a },
        Some(_) => a,
    }
}

fn session_time_exec(start: u64, now: u64) -> (r: u64)
    ensures
        r == session_time(start, now),
{
    if now >= start {
        now - start
    } else {
        0
    }
}

fn left(a: Account, now: u64) -> (r: Account)
    ensures
        r == after_leave(a, now),
{
    match a.session_start {
        None => a,
        Some(start) => Account {
            session_start: None,
            continuous: sat_add_u64(a.continuous, session_time_exec(start, now)),
            ..a
        },
    }
}

fn refreshed(a: Account, now: u64) -> (r: Account)
    ensures
        r == after_refresh(a, now),
{
    match a.session_start {
        None => a,
        Some(start) => Account {
            session_start: Some(now),
            continuous: sat_add_u64(a.continuous, session_time_exec(start, now)),
            ..a
        },
    }
}

fn settle_account(cfg: &AccrualConfig, a: Account, now: u64) -> (r: (Account, Option<Settlement>))
    ensures
        r.0 == settled(*cfg, a, now),
        r.1 == (match a.pending {
            None => None::<Settlement>,
            Some(b) => Some(settlement_of(*cfg, b, now)),
        }),
{
    match a.pending {
        None => (a, None),
        Some(b) => {
            let s = settle_batch(cfg, b, now);
            let pending = if s.deferred > 0 {
                Some(Batch { amount: s.deferred, since: now })
            } else {
                None
            };
            (Account { pending, discrete: sat_add_u64(a.discrete, s.credited), ..a }, Some(s))
        },
    }
}

fn add_points(a: Account, points: u64, now: u64) -> (r: Account)
    ensures
        r == with_points(a, points, now),
{
    let pending = match a.pending {
        None => Batch { amount: points, since: now },
        Some(b) => Batch { amount: sat_add_u64(b.amount, points), since: b.since },
    };
    Account { pending: Some(pending), ..a }
}

/// The accrual engine of one community: per-user presence sessions, pending
/// discrete points and the two credited totals.
pub struct Accrual {
    config: AccrualConfig,
    /// Resources in which activity earns nothing.
    ignored: Vec<u64>,
    accounts: Table<Account>,
}

impl Accrual {
    pub closed spec fn cfg(&self) -> AccrualConfig {
        self.config
    }

    pub closed spec fn ignored_seq(&self) -> Seq<u64> {
        self.ignored@
    }

    pub fn config(&self) -> (r: AccrualConfig)
        ensures
            r == self.cfg(),
    {
        self.config
    }

    /// Replaces the tuning; what is pending is settled by the new one.
    pub fn set_config(&mut self, config: AccrualConfig)
        ensures
            final(self).cfg() == config,
            final(self).ignored_seq() == old(self).ignored_seq(),
            final(self).accounts() == old(self).accounts(),
            old(self).wf() ==> final(self).wf(),
    {
        self.config = config;
    }

    /// Replaces the set of resources in which activity earns nothing.
    pub fn set_ignored(&mut self, ignored: Vec<u64>)
        ensures
            final(self).cfg() == old(self).cfg(),
            final(self).ignored_seq() == ignored@,
            final(self).accounts() == old(self).accounts(),
            old(self).wf() ==> final(self).wf(),
    {
        self.ignored = ignored;
    }
    pub closed spec fn accounts(&self) -> Map<u64, Account> {
        self.accounts@
    }

    pub closed spec fn wf(&self) -> bool {
        self.accounts.wf()
    }

    pub fn new(config: AccrualConfig, ignored: Vec<u64>) -> (r: Self)
        ensures
            r.wf(),
            r.cfg() == config,
            r.ignored_seq() == ignored@,
            r.accounts() == Map::<u64, Account>::empty(),
    {
        Accrual { config, ignored, accounts: Table::new() }
    }

    /// The account of `user`; an unseen user has an empty one.
    pub fn account(&self, user: u64) -> (r: Account)
        ensures
            r == account_of(self.accounts(), user),
    {
        match self.accounts.get(user) {
            Some(a) => a,
            None => Account { session_start: None, pending: None, continuous: 0, discrete: 0 },
        }
    }

    pub fn is_ignored(&self, resource: u64) -> (r: bool)
        ensures
            r == self.ignored_seq().contains(resource),
    {
        list_contains(&self.ignored, resource)
    }

    /// Closes the presence session of `user`, if one is open, and credits its
    /// time. Returns the time credited before saturation.
    pub fn leave(&mut self, user: u64, now: u64) -> (credited: u64)
        requires
            old(self).wf(),
        ensures
            final(self).wf(),
            final(self).cfg() == old(self).cfg(),
            final(self).ignored_seq() == old(self).ignored_seq(),
            final(self).accounts() == leave_map(old(self).accounts(), user, now),
            credited == (match account_of(old(self).accounts(), user).session_start {
                None => 0,
                Some(start) => session_time(start, now),
            }),
    {
        let a = self.account(user);
        match a.session_start {
            None => 0,
            Some(start) => {
                self.accounts.insert(user, left(a, now));
                session_time_exec(start, now)
            },
        }
    }

    /// `user` is now present in `resource`: opens a session unless one is open.
    /// Presence in an ignored resource closes the session instead.
    pub fn enter(&mut self, user: u64, resource: u64, now: u64)
        requires
            old(self).wf(),
        ensures
            final(self).wf(),
            final(self).cfg() == old(self).cfg(),
            final(self).ignored_seq() == old(self).ignored_seq(),
            final(self).accounts() == (if old(self).ignored_seq().contains(resource) {
                leave_map(old(self).accounts(), user, now)
            } else {
                enter_map(old(self).accounts(), user, now)
            }),
    {
        if self.is_ignored(resource) {
            self.leave(user, now);
            return;
        }
        let a = self.account(user);
        if a.session_start.is_none() {
            self.accounts.insert(user, entered(a, now));
        }
    }

    /// A discrete event worth `points` by `user` in `resource`: settles the
    /// user's pending batch, then adds the points to it. Returns how the
    /// earlier batch was settled, if there was one. Ignored resources earn nothing.
    pub fn on_discrete_event(&mut self, user: u64, resource: u64, points: u64, now: u64) -> (r: Option<Settlement>)
        requires
            old(self).wf(),
        ensures
            final(self).wf(),
            final(self).cfg() == old(self).cfg(),
            final(self).ignored_seq() == old(self).ignored_seq(),
            old(self).ignored_seq().contains(resource) ==> final(self).accounts() == old(self).accounts() && r is None,
            !old(self).ignored_seq().contains(resource) ==> {
                &&& final(self).accounts() == discrete_map(old(self).cfg(), old(self).accounts(), user, points, now)
                &&& r == (match account_of(old(self).accounts(), user).pending {
                    None => None::<Settlement>,
                    Some(b) => Some(settlement_of(old(self).cfg(), b, now)),
                })
            },
    {
        if self.is_ignored(resource) {
            return None;
        }
        let a = self.account(user);
        let (a1, s) = settle_account(&self.config, a, now);
        self.accounts.insert(user, add_points(a1, points, now));
        s
    }

    /// A message: scored by its shape and handled as a discrete event of its
    /// author, unless a bot or the system wrote it.
    pub fn on_message(&mut self, m: &MessageInfo, now: u64) -> (r: Option<Settlement>)
        requires
            old(self).wf(),
        ensures
            final(self).wf(),
            final(self).cfg() == old(self).cfg(),
            final(self).ignored_seq() == old(self).ignored_seq(),
            m.author_is_bot || m.author_is_system || old(self).ignored_seq().contains(m.resource) ==> final(self).accounts() == old(self).accounts() && r is None,
            !(m.author_is_bot || m.author_is_system || old(self).ignored_seq().contains(m.resource)) ==> {
                &&& final(self).accounts() == discrete_map(
                    old(self).cfg(),
                    old(self).accounts(),
                    m.author,
                    capped(message_points_of(BASE_TEXT_POINTS, m.content_len, m.attachments, m.embeds)),
                    now,
                )
                &&& r == (match account_of(old(self).accounts(), m.author).pending {
                    None => None::<Settlement>,
                    Some(b) => Some(settlement_of(old(self).cfg(), b, now)),
                })
            },
    {
        if m.author_is_bot || m.author_is_system {
            return None;
        }
        let points = message_points(BASE_TEXT_POINTS, m.content_len, m.attachments, m.embeds);
        self.on_discrete_event(m.author, m.resource, points, now)
    }

    /// A reaction in `resource`: a discrete event for the member who reacted
    /// and one for the author of the message, each worth the reaction's points.
    pub fn on_reaction(&mut self, reactor: Option<u64>, author: Option<u64>, resource: u64, burst: bool, now: u64)
        requires
            old(self).wf(),
        ensures
            final(self).wf(),
            final(self).cfg() == old(self).cfg(),
            final(self).ignored_seq() == old(self).ignored_seq(),
            ({
                let p = if burst { 2 * BASE_REACTION_POINTS } else { BASE_REACTION_POINTS as int };
                let m0 = old(self).accounts();
                let m1 = match reactor {
                    Some(u) => discrete_map(old(self).cfg(), m0, u, p as u64, now),
                    None => m0,
                };
                let m2 = match author {
                    Some(u) => discrete_map(old(self).cfg(), m1, u, p as u64, now),
                    None => m1,
                };
                final(self).accounts() == if old(self).ignored_seq().contains(resource) { m0 } else { m2 }
            }),
    {
        if self.is_ignored(resource) {
            return;
        }
        let points = reaction_points(burst);
        if let Some(u) = reactor {
            self.on_discrete_event(u, resource, points, now);
        }
        if let Some(u) = author {
            self.on_discrete_event(u, resource, points, now);
        }
    }

    /// Credits the time of every open session up to `now` and restarts it at
    /// `now`, without closing it.
    pub fn refresh_all(&mut self, now: u64)
        requires
            old(self).wf(),
        ensures
            final(self).wf(),
            final(self).cfg() == old(self).cfg(),
            final(self).ignored_seq() == old(self).ignored_seq(),
            final(self).accounts() == refresh_map(old(self).accounts(), now),
    {
        let n = self.accounts.len();
        let ghost keys = self.accounts.key_seq();
        let ghost start = self.accounts@;
        proof { self.accounts.lemma_keys(); }
        for i in 0..n
            invariant
                n == keys.len(),
                self.accounts.wf(),
                self.config == old(self).config,
                self.ignored@ == old(self).ignored@,
                start == old(self).accounts(),
                self.accounts.key_seq() == keys,
                keys.no_duplicates(),
                forall|k: u64| start.contains_key(k) <==> keys.contains(k),
                forall|k: u64| self.accounts@.contains_key(k) <==> keys.contains(k),
                forall|j: int| 0 <= j < i ==> self.accounts@[#[trigger] keys[j]] == after_refresh(start[keys[j]], now),
                forall|j: int| i <= j < n ==> self.accounts@[#[trigger] keys[j]] == start[keys[j]],
        {
            let k = self.accounts.key_at(i);
            let a = self.accounts.get(k).unwrap();
            self.accounts.insert(k, refreshed(a, now));
            proof {
                assert forall|j: int| 0 <= j < n && j != i implies keys[j] != k by {
                    assert(keys[j] != keys[i as int]);
                }
            }
        }
        proof {
            assert forall|u: u64| #[trigger] self.accounts@.contains_key(u) implies self.accounts@[u] == after_refresh(start[u], now) by {
                assert(keys.contains(u));
                let j = choose|j: int| 0 <= j < keys.len() && keys[j] == u;
                assert(self.accounts@[keys[j]] == after_refresh(start[keys[j]], now));
            }
            assert forall|u: u64| self.accounts@.contains_key(u) <==> start.contains_key(u) by {
                assert(self.accounts@.contains_key(u) <==> keys.contains(u));
                assert(start.contains_key(u) <==> keys.contains(u));
            }
            assert(self.accounts@ =~= refresh_map(start, now));
        }
    }

    /// Settles every pending batch at `now`, adding nothing new.
    pub fn flush_all(&mut self, now: u64)
        requires
            old(self).wf(),
        ensures
            final(self).wf(),
            final(self).cfg() == old(self).cfg(),
            final(self).ignored_seq() == old(self).ignored_seq(),
            final(self).accounts() == flush_map(old(self).cfg(), old(self).accounts(), now),
    {
        let n = self.accounts.len();
        let ghost keys = self.accounts.key_seq();
        let ghost start = self.accounts@;
        let ghost cfg = self.config;
        proof { self.accounts.lemma_keys(); }
        for i in 0..n
            invariant
                n == keys.len(),
                self.accounts.wf(),
                self.config == cfg,
                cfg == old(self).cfg(),
                self.ignored@ == old(self).ignored@,
                start == old(self).accounts(),
                self.accounts.key_seq() == keys,
                keys.no_duplicates(),
                forall|k: u64| start.contains_key(k) <==> keys.contains(k),
                forall|k: u64| self.accounts@.contains_key(k) <==> keys.contains(k),
                forall|j: int| 0 <= j < i ==> self.accounts@[#[trigger] keys[j]] == settled(cfg, start[keys[j]], now),
                forall|j: int| i <= j < n ==> self.accounts@[#[trigger] keys[j]] == start[keys[j]],
        {
            let k = self.accounts.key_at(i);
            let a = self.accounts.get(k).unwrap();
            let (a1, _) = settle_account(&self.config, a, now);
            self.accounts.insert(k, a1);
            proof {
                assert forall|j: int| 0 <= j < n && j != i implies keys[j] != k by {
                    assert(keys[j] != keys[i as int]);
                }
            }
        }
        proof {
            assert forall|u: u64| #[trigger] self.accounts@.contains_key(u) implies self.accounts@[u] == settled(cfg, start[u], now) by {
                assert(keys.contains(u));
                let j = choose|j: int| 0 <= j < keys.len() && keys[j] == u;
                assert(self.accounts@[keys[j]] == settled(cfg, start[keys[j]], now));
            }
            assert forall|u: u64| self.accounts@.contains_key(u) <==> start.contains_key(u) by {
                assert(self.accounts@.contains_key(u) <==> keys.contains(u));
                assert(start.contains_key(u) <==> keys.contains(u));
            }
            assert(self.accounts@ =~= flush_map(cfg, start, now));
        }
    }
}

} // verus!
