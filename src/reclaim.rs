use crate::table::{list_contains, Table};
use vstd::prelude::*;

verus! {

/// Added to every reclamation delay: occupancy changes and deadlines are
/// observed through different channels, and a leave that races the timer
/// must still be seen before the final check.
pub const SAFETY_MARGIN_MS: u64 = 50;

/// Settings of the reclamation scheduler of one community.
#[derive(Debug)]
pub struct ReclaimConfig {
    /// Entering this resource asks for a new ephemeral one.
    pub creator: Option<u64>,
    /// Container in which new resources are placed.
    pub destination: Option<u64>,
    /// Resources that are never reclaimed.
    pub ignored: Vec<u64>,
    /// Reclaim any empty resource of the destination container, not only
    /// those this scheduler created.
    pub reclaim_foreign: bool,
    /// How long a resource stays empty before it is reclaimed.
    pub delay_ms: u64,
}

/// What the scheduler keeps of one resource: whether it created it, and the
/// fencing token of the deletion that is scheduled, if any.
#[derive(Clone, Copy, Debug, PartialEq, Eq)]
pub struct ResourceEntry {
    pub created: bool,
    pub token: Option<u64>,
}

/// What entering a resource asks of the caller.
#[derive(Clone, Copy, Debug, PartialEq, Eq)]
pub enum EnterOutcome {
    /// The resource is the creator: a new resource is to be created.
    CreateRequested,
    /// A tracked resource: any scheduled deletion of it is cancelled.
    Cancelled,
    /// A resource the scheduler does not track.
    Untracked,
}

/// The result of an attempt to schedule a deletion.
#[derive(Clone, Copy, Debug, PartialEq, Eq)]
pub enum ScheduleOutcome {
    /// Ignored, the creator, or not ours to reclaim.
    Ineligible,
    /// A deletion is already scheduled; its timer stays the only one.
    AlreadyScheduled,
    /// The deadline does not fit in the clock's range; nothing is scheduled.
    DeadlineOverflow,
    /// Scheduled: the caller sleeps until this deadline, which is also the token.
    Scheduled(u64),
}

/// What a timer that wakes is to do.
#[derive(Clone, Copy, Debug, PartialEq, Eq)]
pub enum WakeOutcome {
    /// The token is no longer the resource's: the decision moved elsewhere.
    Stale,
    /// The resource no longer qualifies; scheduling state is left as it is.
    Ineligible,
    /// The resource is occupied again; the token is retired.
    Retired,
    /// The resource is untracked; the caller deletes it.
    Delete,
}

pub open spec fn is_creator(cfg: ReclaimConfig, r: u64) -> bool {
    cfg.creator == Some(r)
}

/// Not ignored, not the creator, and ours to reclaim.
pub open spec fn eligible(cfg: ReclaimConfig, m: Map<u64, ResourceEntry>, r: u64) -> bool {
    &&& !cfg.ignored@.contains(r)
    &&& !is_creator(cfg, r)
    &&& cfg.reclaim_foreign || (m.contains_key(r) && m[r].created)
}

/// A resource we did not create qualifies only inside the destination container.
pub open spec fn in_scope(cfg: ReclaimConfig, t: ResourceEntry, container: Option<u64>) -> bool {
    t.created || (cfg.destination is Some && container == cfg.destination)
}

/// The token of a scheduling attempt at `now`: its deadline.
pub open spec fn deadline(cfg: ReclaimConfig, now: u64) -> int {
    now + cfg.delay_ms + SAFETY_MARGIN_MS
}

/// A timer holding `t` may still delete `r`.
pub open spec fn live(m: Map<u64, ResourceEntry>, r: u64, t: u64) -> bool {
    m.contains_key(r) && m[r].token == Some(t)
}

pub open spec fn track_map(m: Map<u64, ResourceEntry>, r: u64) -> Map<u64, ResourceEntry> {
    m.insert(r, ResourceEntry { created: true, token: None })
}

pub open spec fn enter_outcome(cfg: ReclaimConfig, m: Map<u64, ResourceEntry>, r: u64) -> EnterOutcome {
    if is_creator(cfg, r) {
        EnterOutcome::CreateRequested
    } else if m.contains_key(r) {
        EnterOutcome::Cancelled
    } else {
        EnterOutcome::Untracked
    }
}

pub open spec fn enter_map(cfg: ReclaimConfig, m: Map<u64, ResourceEntry>, r: u64) -> Map<u64, ResourceEntry> {
    if !is_creator(cfg, r) && m.contains_key(r) {
        m.insert(r, ResourceEntry { token: None, ..m[r] })
    } else {
        m
    }
}

pub open spec fn schedule_outcome(cfg: ReclaimConfig, m: Map<u64, ResourceEntry>, r: u64, now: u64) -> ScheduleOutcome {
    if !eligible(cfg, m, r) {
        ScheduleOutcome::Ineligible
    } else if m.contains_key(r) && m[r].token is Some {
        ScheduleOutcome::AlreadyScheduled
    } else if deadline(cfg, now) > u64::MAX {
        ScheduleOutcome::DeadlineOverflow
    } else {
        ScheduleOutcome::Scheduled(deadline(cfg, now) as u64)
    }
}

pub open spec fn schedule_map(cfg: ReclaimConfig, m: Map<u64, ResourceEntry>, r: u64, now: u64) -> Map<u64, ResourceEntry> {
    match schedule_outcome(cfg, m, r, now) {
        ScheduleOutcome::Scheduled(d) => m.insert(
            r,
            ResourceEntry { created: m.contains_key(r) && m[r].created, token: Some(d) },
        ),
        _ => m,
    }
}

pub open spec fn wake_outcome(cfg: ReclaimConfig, m: Map<u64, ResourceEntry>, r: u64, token: u64, occupied: bool, container: Option<u64>) -> WakeOutcome {
    if !live(m, r, token) {
        WakeOutcome::Stale
    } else if cfg.ignored@.contains(r) || is_creator(cfg, r) || !in_scope(cfg, m[r], container) {
        WakeOutcome::Ineligible
    } else if occupied {
        WakeOutcome::Retired
    } else {
        WakeOutcome::Delete
    }
}

pub open spec fn wake_map(cfg: ReclaimConfig, m: Map<u64, ResourceEntry>, r: u64, token: u64, occupied: bool, container: Option<u64>) -> Map<u64, ResourceEntry> {
    match wake_outcome(cfg, m, r, token, occupied, container) {
        WakeOutcome::Retired => m.insert(r, ResourceEntry { token: None, ..m[r] }),
        WakeOutcome::Delete => m.remove(r),
        _ => m,
    }
}

/// The state and the deadlines handed out after scheduling, in order, each
/// of the first `n` candidates of `cands` that is not occupied.
pub open spec fn sweep_prefix(cfg: ReclaimConfig, m: Map<u64, ResourceEntry>, cands: Seq<u64>, occupied: Seq<u64>, now: u64, n: nat) -> (Map<u64, ResourceEntry>, Seq<(u64, u64)>)
    decreases n,
{
    if n == 0 {
        (m, Seq::empty())
    } else {
        let (m1, out) = sweep_prefix(cfg, m, cands, occupied, now, (n - 1) as nat);
        let r = cands[n - 1];
        if occupied.contains(r) {
            (m1, out)
        } else {
            (
                schedule_map(cfg, m1, r, now),
                match schedule_outcome(cfg, m1, r, now) {
                    ScheduleOutcome::Scheduled(d) => out.push((r, d)),
                    _ => out,
                },
            )
        }
    }
}

/// What a sweep considers: every known resource, then, when foreign resources
/// are reclaimed, every resource of the destination container.
pub open spec fn sweep_candidates(cfg: ReclaimConfig, keys: Seq<u64>, universe: Seq<u64>) -> Seq<u64> {
    if cfg.reclaim_foreign {
        keys + universe
    } else {
        keys
    }
}

/// `p + 1`, or `p` where that is the largest position.
pub open spec fn position_after(p: u16) -> u16 {
    if p == u16::MAX {
        p
    } else {
        (p + 1) as u16
    }
}

/// The position for a new resource in `container`: right after the last of
/// the resources already in it, given as (container, position) pairs; none
/// where the container holds nothing yet.
pub fn next_position(siblings: &Vec<(Option<u64>, u16)>, container: Option<u64>) -> (r: Option<u16>)
    ensures
        r is None <==> forall|i: int| 0 <= i < siblings@.len() ==> (#[trigger] siblings@[i]).0 != container,
        r is Some ==> exists|i: int|
            #![trigger siblings@[i]]
            0 <= i < siblings@.len() && siblings@[i].0 == container && r->0 == position_after(siblings@[i].1)
            && forall|j: int| 0 <= j < siblings@.len() && (#[trigger] siblings@[j]).0 == container ==> siblings@[j].1 <= siblings@[i].1,
{
    let mut best: Option<u16> = None;
    let ghost mut at: int = 0;
    for i in 0..siblings.len()
        invariant
            best is None <==> forall|k: int| 0 <= k < i ==> (#[trigger] siblings@[k]).0 != container,
            best is Some ==> 0 <= at < i && siblings@[at].0 == container && best->0 == siblings@[at].1,
            best is Some ==> forall|j: int| 0 <= j < i && (#[trigger] siblings@[j]).0 == container ==> siblings@[j].1 <= best->0,
    {
        let (c, p) = siblings[i];
        if c == container {
            let better = match best {
                None => true,
                Some(b) => p > b,
            };
            if better {
                best = Some(p);
                proof { at = i as int; }
            }
        }
    }
    match best {
        None => None,
        Some(b) => {
            proof {
                assert(siblings@[at].0 == container);
            }
            Some(b.saturating_add(1))
        },
    }
}

/// The reclamation scheduler of one community: the resources it tracks and
/// the fencing token of each scheduled deletion.
pub struct Scheduler {
    config: ReclaimConfig,
    entries: Table<ResourceEntry>,
}

impl Scheduler {
    pub closed spec fn cfg(&self) -> ReclaimConfig {
        self.config
    }

    pub closed spec fn entries(&self) -> Map<u64, ResourceEntry> {
        self.entries@
    }

    /// The order in which a sweep visits the known resources.
    pub closed spec fn order(&self) -> Seq<u64> {
        self.entries.key_seq()
    }

    pub closed spec fn wf(&self) -> bool {
        self.entries.wf()
    }

    pub fn new(config: ReclaimConfig) -> (s: Self)
        ensures
            s.wf(),
            s.cfg() == config,
            s.entries() == Map::<u64, ResourceEntry>::empty(),
    {
        Scheduler { config, entries: Table::new() }
    }

    pub fn config(&self) -> (r: &ReclaimConfig)
        ensures
            *r == self.cfg(),
    {
        &self.config
    }

    /// Swaps the settings; they are read on the next decision.
    pub fn set_config(&mut self, config: ReclaimConfig)
        ensures
            final(self).cfg() == config,
            final(self).entries() == old(self).entries(),
            old(self).wf() ==> final(self).wf(),
    {
        self.config = config;
    }

    /// What the scheduler keeps of `r`, if it knows it.
    pub fn entry(&self, r: u64) -> (t: Option<ResourceEntry>)
        ensures
            t == (if self.entries().contains_key(r) { Some(self.entries()[r]) } else { None::<ResourceEntry> }),
    {
        self.entries.get(r)
    }

    /// Registers a resource that was just created, with no deletion scheduled.
    pub fn track(&mut self, r: u64)
        requires
            old(self).wf(),
        ensures
            final(self).wf(),
            final(self).cfg() == old(self).cfg(),
            final(self).entries() == track_map(old(self).entries(), r),
    {
        self.entries.insert(r, ResourceEntry { created: true, token: None });
    }

    /// Forgets `r`, as after it was deleted elsewhere or its creation was
    /// rolled back. A timer still holding its token then finds it stale.
    pub fn untrack(&mut self, r: u64) -> (was: bool)
        requires
            old(self).wf(),
        ensures
            final(self).wf(),
            final(self).cfg() == old(self).cfg(),
            final(self).entries() == old(self).entries().remove(r),
            was == old(self).entries().contains_key(r),
    {
        self.entries.remove(r).is_some()
    }

    /// A user entered `r`.
    pub fn enter(&mut self, r: u64) -> (o: EnterOutcome)
        requires
            old(self).wf(),
        ensures
            final(self).wf(),
            final(self).cfg() == old(self).cfg(),
            final(self).entries() == enter_map(old(self).cfg(), old(self).entries(), r),
            o == enter_outcome(old(self).cfg(), old(self).entries(), r),
    {
        if self.config.creator == Some(r) {
            return EnterOutcome::CreateRequested;
        }
        match self.entries.get(r) {
            Some(t) => {
                self.entries.insert(r, ResourceEntry { token: None, ..t });
                EnterOutcome::Cancelled
            },
            None => EnterOutcome::Untracked,
        }
    }

    fn eligible_exec(&self, r: u64) -> (b: bool)
        ensures
            b == eligible(self.cfg(), self.entries(), r),
    {
        if list_contains(&self.config.ignored, r) || self.config.creator == Some(r) {
            return false;
        }
        if self.config.reclaim_foreign {
            return true;
        }
        match self.entries.get(r) {
            Some(t) => t.created,
            None => false,
        }
    }

    /// `r` may have become empty: schedules its deletion unless it is not
    /// eligible or one is already scheduled. At most one deletion of a
    /// resource is ever scheduled at a time.
    pub fn try_schedule(&mut self, r: u64, now: u64) -> (o: ScheduleOutcome)
        requires
            old(self).wf(),
        ensures
            final(self).wf(),
            final(self).cfg() == old(self).cfg(),
            final(self).entries() == schedule_map(old(self).cfg(), old(self).entries(), r, now),
            o == schedule_outcome(old(self).cfg(), old(self).entries(), r, now),
            old(self).entries().contains_key(r) ==> final(self).order() == old(self).order(),
    {
        if !self.eligible_exec(r) {
            return ScheduleOutcome::Ineligible;
        }
        let current = self.entries.get(r);
        let created = match current {
            Some(t) => {
                if t.token.is_some() {
                    return ScheduleOutcome::AlreadyScheduled;
                }
                t.created
            },
            None => false,
        };
        let d = match now.checked_add(self.config.delay_ms) {
            Some(x) => x.checked_add(SAFETY_MARGIN_MS),
            None => None,
        };
        match d {
            Some(d) => {
                self.entries.insert(r, ResourceEntry { created, token: Some(d) });
                ScheduleOutcome::Scheduled(d)
            },
            None => ScheduleOutcome::DeadlineOverflow,
        }
    }

    /// The timer of `r` holding `token` woke. `occupied` and `container` are
    /// what the occupancy source says of `r` now.
    pub fn on_wake(&mut self, r: u64, token: u64, occupied: bool, container: Option<u64>) -> (o: WakeOutcome)
        requires
            old(self).wf(),
        ensures
            final(self).wf(),
            final(self).cfg() == old(self).cfg(),
            final(self).entries() == wake_map(old(self).cfg(), old(self).entries(), r, token, occupied, container),
            o == wake_outcome(old(self).cfg(), old(self).entries(), r, token, occupied, container),
    {
        let t = match self.entries.get(r) {
            Some(t) => t,
            None => return WakeOutcome::Stale,
        };
        if t.token != Some(token) {
            return WakeOutcome::Stale;
        }
        let scoped = t.created || match self.config.destination {
            Some(d) => container == Some(d),
            None => false,
        };
        if list_contains(&self.config.ignored, r) || self.config.creator == Some(r) || !scoped {
            return WakeOutcome::Ineligible;
        }
        if occupied {
            self.entries.insert(r, ResourceEntry { token: None, ..t });
            WakeOutcome::Retired
        } else {
            self.entries.remove(r);
            WakeOutcome::Delete
        }
    }

    /// The sweep: every known resource, and in foreign mode every resource of
    /// the destination container (`universe`), that is not in `occupied` gets
    /// a scheduling attempt. Returns each deletion that was scheduled, with its
    /// deadline, in order, for the caller to wait on.
    pub fn reconcile(&mut self, occupied: &Vec<u64>, universe: &Vec<u64>, now: u64) -> (out: Vec<(u64, u64)>)
        requires
            old(self).wf(),
        ensures
            final(self).wf(),
            final(self).cfg() == old(self).cfg(),
            ({
                let cands = sweep_candidates(old(self).cfg(), old(self).order(), universe@);
                let (m, o) = sweep_prefix(old(self).cfg(), old(self).entries(), cands, occupied@, now, cands.len());
                final(self).entries() == m && out@ == o
            }),
    {
        let mut cands = self.entries.keys();
        if self.config.reclaim_foreign {
            let ghost keys = cands@;
            for j in 0..universe.len()
                invariant
                    cands@ == keys + universe@.subrange(0, j as int),
            {
                cands.push(universe[j]);
                assert(cands@ =~= keys + universe@.subrange(0, j + 1));
            }
            assert(universe@.subrange(0, universe@.len() as int) =~= universe@);
        }
        let ghost c = cands@;
        let ghost m0 = self.entries@;
        let ghost cfg = self.config;
        assert(c == sweep_candidates(cfg, old(self).order(), universe@));
        let mut out: Vec<(u64, u64)> = Vec::new();
        for i in 0..cands.len()
            invariant
                cands@ == c,
                self.wf(),
                self.config == cfg,
                (self.entries@, out@) == sweep_prefix(cfg, m0, c, occupied@, now, i as nat),
        {
            let r = cands[i];
            if !list_contains(occupied, r) {
                match self.try_schedule(r, now) {
                    ScheduleOutcome::Scheduled(d) => {
                        out.push((r, d));
                    },
                    _ => {},
                }
            }
        }
        out
    }
}

} // verus!
