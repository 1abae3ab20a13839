use crate::accrual::{leave_map, Accrual, AccrualConfig};
use crate::reclaim::{
    enter_map, enter_outcome, schedule_map, schedule_outcome, EnterOutcome, ReclaimConfig,
    ScheduleOutcome, Scheduler,
};
use vstd::prelude::*;

verus! {

/// Everything kept for one community: its reclamation scheduler and its
/// accrual engine.
pub struct GuildState {
    pub scheduler: Scheduler,
    pub accrual: Accrual,
}

/// What an occupancy change asks of the caller.
#[derive(Clone, Copy, Debug, PartialEq, Eq)]
pub struct OccupancyActions {
    /// Create a new ephemeral resource for the user.
    pub create: bool,
    /// A deletion was scheduled: sleep until the deadline, then wake the scheduler.
    pub scheduled: Option<(u64, u64)>,
}

impl GuildState {
    pub open spec fn wf(&self) -> bool {
        self.scheduler.wf() && self.accrual.wf()
    }

    pub fn new(reclaim: ReclaimConfig, accrual: AccrualConfig, accrual_ignored: Vec<u64>) -> (g: Self)
        ensures
            g.wf(),
            g.scheduler.cfg() == reclaim,
            g.scheduler.entries().is_empty(),
            g.accrual.cfg() == accrual,
            g.accrual.ignored_seq() == accrual_ignored@,
            g.accrual.accounts().is_empty(),
    {
        GuildState { scheduler: Scheduler::new(reclaim), accrual: Accrual::new(accrual, accrual_ignored) }
    }

    /// `user` moved from `from` to `to` (either may be none). Entering a
    /// resource opens a presence session and cancels its scheduled deletion,
    /// or asks for creation when it is the creator; being nowhere closes the
    /// session; the resource left, if it is not the one entered, gets a
    /// scheduling attempt. `mono_now` is the scheduling clock, `wall_now`
    /// the accrual clock.
    pub fn on_occupancy_changed(&mut self, user: u64, from: Option<u64>, to: Option<u64>, mono_now: u64, wall_now: u64) -> (a: OccupancyActions)
        requires
            old(self).wf(),
        ensures
            final(self).wf(),
            final(self).scheduler.cfg() == old(self).scheduler.cfg(),
            final(self).accrual.cfg() == old(self).accrual.cfg(),
            final(self).accrual.ignored_seq() == old(self).accrual.ignored_seq(),
            final(self).accrual.accounts() == (match to {
                Some(r) => if old(self).accrual.ignored_seq().contains(r) {
                    leave_map(old(self).accrual.accounts(), user, wall_now)
                } else {
                    crate::accrual::enter_map(old(self).accrual.accounts(), user, wall_now)
                },
                None => leave_map(old(self).accrual.accounts(), user, wall_now),
            }),
            ({
                let cfg = old(self).scheduler.cfg();
                let m0 = old(self).scheduler.entries();
                let m1 = match to {
                    Some(r) => enter_map(cfg, m0, r),
                    None => m0,
                };
                let leaving = from is Some && from != to;
                &&& a.create == (to is Some && enter_outcome(cfg, m0, to->0) == EnterOutcome::CreateRequested)
                &&& final(self).scheduler.entries() == if leaving {
                    schedule_map(cfg, m1, from->0, mono_now)
                } else {
                    m1
                }
                &&& a.scheduled == if leaving {
                    match schedule_outcome(cfg, m1, from->0, mono_now) {
                        ScheduleOutcome::Scheduled(d) => Some((from->0, d)),
                        _ => None,
                    }
                } else {
                    None
                }
            }),
    {
        let mut create = false;
        match to {
            Some(r) => {
                self.accrual.enter(user, r, wall_now);
                create = matches!(self.scheduler.enter(r), EnterOutcome::CreateRequested);
            },
            None => {
                self.accrual.leave(user, wall_now);
            },
        }
        let mut scheduled: Option<(u64, u64)> = None;
        if let Some(o) = from {
            if from != to {
                if let ScheduleOutcome::Scheduled(d) = self.scheduler.try_schedule(o, mono_now) {
                    scheduled = Some((o, d));
                }
            }
        }
        OccupancyActions { create, scheduled }
    }

    /// The periodic sweep: schedules the deletion of every eligible resource
    /// that is not occupied, credits the time of open presence sessions, and
    /// settles every pending batch. Returns the deletions scheduled, with
    /// their deadlines.
    pub fn sweep(&mut self, occupied: &Vec<u64>, universe: &Vec<u64>, mono_now: u64, wall_now: u64) -> (out: Vec<(u64, u64)>)
        requires
            old(self).wf(),
        ensures
            final(self).wf(),
            final(self).scheduler.cfg() == old(self).scheduler.cfg(),
            ({
                let cfg = old(self).scheduler.cfg();
                let cands = crate::reclaim::sweep_candidates(cfg, old(self).scheduler.order(), universe@);
                let (m, o) = crate::reclaim::sweep_prefix(cfg, old(self).scheduler.entries(), cands, occupied@, mono_now, cands.len());
                final(self).scheduler.entries() == m && out@ == o
            }),
            final(self).accrual.cfg() == old(self).accrual.cfg(),
            final(self).accrual.ignored_seq() == old(self).accrual.ignored_seq(),
            final(self).accrual.accounts() == crate::accrual::flush_map(
                old(self).accrual.cfg(),
                crate::accrual::refresh_map(old(self).accrual.accounts(), wall_now),
                wall_now,
            ),
    {
        let out = self.scheduler.reconcile(occupied, universe, mono_now);
        self.accrual.refresh_all(wall_now);
        self.accrual.flush_all(wall_now);
        out
    }
}

} // verus!
