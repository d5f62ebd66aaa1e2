use vstd::prelude::*;

use crate::clock::now_unix;
use crate::cron::cron_expression_ok;
use crate::cron::cron_shape_ok;
use crate::errors::SchedulerError;
use crate::payload::clone_opt_string;
use crate::payload::NotifyRequest;

verus! {

/// A request to run a job on a recurring cron schedule, at most
/// `max_count` times when that bound is set.
pub struct ScheduleRequest {
    pub notify: NotifyRequest,
    pub cron: String,
    pub max_count: Option<u32>,
}

/// A request to run a job once, at an absolute instant in Unix seconds.
pub struct OneTimeRequest {
    pub notify: NotifyRequest,
    pub at: i64,
}

/// One entry of the job registry.  Exactly one of `cron` and `at` is set.
/// `count` is the number of firings that were not skipped by cancellation;
/// `cancelled` is the one-way flag a removal raises before the entry goes.
pub struct ScheduledJob {
    pub id: u64,
    pub cron: Option<String>,
    pub at: Option<i64>,
    pub notify: NotifyRequest,
    pub created_at: i64,
    pub max_count: Option<u32>,
    pub count: u32,
    pub cancelled: bool,
}

impl ScheduledJob {
    /// A one-time job runs at an absolute instant; a cron job recurs.
    pub open spec fn is_one_time(&self) -> bool {
        self.at is Some
    }
}

impl Clone for ScheduledJob {
    fn clone(&self) -> (r: Self)
        ensures
            r == *self,
    {
        ScheduledJob {
            id: self.id,
            cron: clone_opt_string(&self.cron),
            at: self.at,
            notify: self.notify.clone(),
            created_at: self.created_at,
            max_count: self.max_count,
            count: self.count,
            cancelled: self.cancelled,
        }
    }
}

/// What one firing of the trigger engine came to.
#[derive(Clone, Copy, Debug, PartialEq, Eq, Structural)]
pub enum FiringOutcome {
    /// Cancellation was observed: no delivery, no counting.  `removed` says
    /// whether a lingering one-time entry was dropped from the registry.
    Skipped { removed: bool },
    /// The job fired: the caller delivers the payload once.  `occurrence` is
    /// the post-increment occurrence number; `retired` says the job has left
    /// the registry and the caller must raise its shared cancellation flag.
    Delivered { occurrence: u32, retired: bool },
    /// The flag read said live but the entry was already gone (a firing that
    /// raced a removal): the caller still delivers once, as armed; the
    /// registry is untouched.
    DeliveredDetached,
}

/// There is an entry with identifier `id`.
pub open spec fn has_id(s: Seq<ScheduledJob>, id: u64) -> bool {
    exists|i: int| 0 <= i < s.len() && s[i].id == id
}

/// The index of the entry with identifier `id`, when there is one.
pub open spec fn idx_of(s: Seq<ScheduledJob>, id: u64) -> int {
    choose|i: int| 0 <= i < s.len() && s[i].id == id
}

/// The entry with identifier `id`, when there is one.
pub open spec fn job_of(s: Seq<ScheduledJob>, id: u64) -> ScheduledJob {
    s[idx_of(s, id)]
}

/// No two entries share an identifier.
pub open spec fn unique_ids(s: Seq<ScheduledJob>) -> bool {
    forall|i: int, j: int| 0 <= i < j < s.len() ==> s[i].id != s[j].id
}

/// The occurrence number at which a bound of `k` retires a job: a bound of
/// zero behaves as a bound of one, since the first firing already reaches it.
pub open spec fn retire_bound(k: u32) -> int {
    if k == 0 {
        1int
    } else {
        k as int
    }
}

/// Whether a firing whose post-increment occurrence number is `n` retires a
/// job bounded by `max_count`.
pub open spec fn retires(max_count: Option<u32>, n: u32) -> bool {
    match max_count {
        Option::Some(k) => n >= k,
        Option::None => false,
    }
}

/// A registry entry that is well formed on its own: exactly one schedule
/// variant, a one-time job bounded to a single occurrence, a cron expression
/// of the accepted shape, a count still below its retirement point, and the
/// cancellation flag not yet raised (a raised flag and removal come together).
pub open spec fn job_wf(j: ScheduledJob) -> bool {
    &&& (j.cron is Some) <==> !(j.at is Some)
    &&& j.at is Some ==> j.max_count == Option::Some(1u32)
    &&& match j.max_count {
        Option::Some(k) => (j.count as int) < retire_bound(k),
        Option::None => true,
    }
    &&& match j.cron {
        Option::Some(c) => cron_shape_ok(vstd::utf8::encode_utf8(c@)),
        Option::None => true,
    }
    &&& !j.cancelled
}

/// `post` is `pre` with the entry `id` gone and every other entry kept.
pub open spec fn removed_from(pre: Seq<ScheduledJob>, post: Seq<ScheduledJob>, id: u64) -> bool {
    &&& !has_id(post, id)
    &&& post.len() == pre.len() - 1
    &&& forall|j: u64| j != id ==> (has_id(post, j) <==> has_id(pre, j))
    &&& forall|j: u64| j != id && has_id(pre, j) ==> job_of(post, j) == job_of(pre, j)
}

/// The scheduling core: the job registry, the identifier well, and the ghost
/// record of every identifier ever handed out.
pub struct NotificationScheduler {
    pub jobs: Vec<ScheduledJob>,
    pub next_id: u64,
    pub allocated: Ghost<Set<u64>>,
}

impl View for NotificationScheduler {
    type V = Seq<ScheduledJob>;

    open spec fn view(&self) -> Seq<ScheduledJob> {
        self.jobs@
    }
}

impl NotificationScheduler {
    /// Identifiers are unique, every entry is well formed, every present
    /// identifier was allocated, and every allocated identifier is below the
    /// well's next value — so a present identifier is never handed out again.
    pub open spec fn wf(&self) -> bool {
        &&& unique_ids(self.jobs@)
        &&& forall|i: int|
            0 <= i < self.jobs@.len() ==> job_wf(#[trigger] self.jobs@[i])
        &&& forall|i: int|
            0 <= i < self.jobs@.len() ==> self.allocated@.contains(
                (#[trigger] self.jobs@[i]).id,
            )
        &&& forall|id: u64| self.allocated@.contains(id) ==> id < self.next_id
    }

    /// An empty scheduler: no jobs, no identifier handed out yet.
    pub fn new() -> (s: Self)
        ensures
            s.wf(),
            s@ == Seq::<ScheduledJob>::empty(),
            s.next_id == 0,
            s.allocated@ == Set::<u64>::empty(),
    {
        NotificationScheduler {
            jobs: Vec::new(),
            next_id: 0,
            allocated: Ghost(Set::empty()),
        }
    }

    /// The index of the entry with identifier `job_id`, by linear search.
    fn find_index(&self, job_id: u64) -> (r: Option<usize>)
        ensures
            match r {
                Option::Some(i) => 0 <= i < self@.len() && self@[i as int].id == job_id,
                Option::None => !has_id(self@, job_id),
            },
    {
        let mut i: usize = 0;
        while i < self.jobs.len()
            invariant
                0 <= i <= self.jobs@.len(),
                forall|k: int| 0 <= k < i ==> self.jobs@[k].id != job_id,
            decreases self.jobs@.len() - i,
        {
            if self.jobs[i].id == job_id {
                return Some(i);
            }
            i = i + 1;
        }
        None
    }
}

/// The registry entry a cron scheduling request creates at time `now` under
/// identifier `id`.
pub open spec fn cron_job_spec(id: u64, req: ScheduleRequest, now: i64) -> ScheduledJob {
    ScheduledJob {
        id,
        cron: Option::Some(req.cron),
        at: Option::None,
        notify: req.notify,
        created_at: now,
        max_count: req.max_count,
        count: 0,
        cancelled: false,
    }
}

/// The registry entry a one-time scheduling request creates at time `now`
/// under identifier `id`: implicitly bounded to a single occurrence.
pub open spec fn one_time_job_spec(id: u64, req: OneTimeRequest, now: i64) -> ScheduledJob {
    ScheduledJob {
        id,
        cron: Option::None,
        at: Option::Some(req.at),
        notify: req.notify,
        created_at: now,
        max_count: Option::Some(1u32),
        count: 0,
        cancelled: false,
    }
}

/// The same entry with its occurrence count replaced.
pub open spec fn with_count(j: ScheduledJob, n: u32) -> ScheduledJob {
    ScheduledJob {
        id: j.id,
        cron: j.cron,
        at: j.at,
        notify: j.notify,
        created_at: j.created_at,
        max_count: j.max_count,
        count: n,
        cancelled: j.cancelled,
    }
}

impl NotificationScheduler {
    /// Registers a recurring job at time `now`.  Exactly the requests whose
    /// cron expression has the accepted shape succeed; a rejected request
    /// leaves no trace.  A granted identifier was never handed out before.
    pub fn add_cron_job_at(&mut self, req: ScheduleRequest, now: i64) -> (r: Result<
        u64,
        SchedulerError,
    >)
        requires
            old(self).wf(),
            old(self).next_id < u64::MAX,
        ensures
            final(self).wf(),
            match r {
                Result::Ok(id) => {
                    &&& cron_shape_ok(vstd::utf8::encode_utf8(req.cron@))
                    &&& id == old(self).next_id
                    &&& !old(self).allocated@.contains(id)
                    &&& !has_id(old(self)@, id)
                    &&& final(self).allocated@ == old(self).allocated@.insert(id)
                    &&& final(self).next_id == old(self).next_id + 1
                    &&& final(self)@ == old(self)@.push(cron_job_spec(id, req, now))
                },
                Result::Err(e) => {
                    &&& e == SchedulerError::InvalidCron
                    &&& !cron_shape_ok(vstd::utf8::encode_utf8(req.cron@))
                    &&& *final(self) == *old(self)
                },
            },
    {
        if !cron_expression_ok(req.cron.as_str()) {
            return Err(SchedulerError::InvalidCron);
        }
        let id = self.next_id;
        let ghost old_alloc = self.allocated@;
        self.next_id = self.next_id + 1;
        self.allocated = Ghost(self.allocated@.insert(id));
        let job = ScheduledJob {
            id,
            cron: Some(req.cron),
            at: None,
            notify: req.notify,
            created_at: now,
            max_count: req.max_count,
            count: 0,
            cancelled: false,
        };
        proof {
            assert(!has_id(self.jobs@, id)) by {
                if has_id(self.jobs@, id) {
                    let k = choose|k: int|
                        0 <= k < self.jobs@.len() && self.jobs@[k].id == id;
                    assert(old_alloc.contains(self.jobs@[k].id));
                }
            }
            lemma_push_effect(self.jobs@, job);
        }
        self.jobs.push(job);
        Ok(id)
    }

    /// Registers a recurring job, reading the wall clock for its creation
    /// time.  All else is as in `add_cron_job_at`, whatever the clock read.
    pub fn add_cron_job(&mut self, req: ScheduleRequest) -> (r: Result<u64, SchedulerError>)
        requires
            old(self).wf(),
            old(self).next_id < u64::MAX,
        ensures
            final(self).wf(),
            match r {
                Result::Ok(id) => {
                    &&& cron_shape_ok(vstd::utf8::encode_utf8(req.cron@))
                    &&& id == old(self).next_id
                    &&& !old(self).allocated@.contains(id)
                    &&& final(self).allocated@ == old(self).allocated@.insert(id)
                    &&& final(self).next_id == old(self).next_id + 1
                    &&& exists|now: i64|
                        final(self)@ == old(self)@.push(#[trigger] cron_job_spec(id, req, now))
                },
                Result::Err(e) => {
                    &&& e == SchedulerError::InvalidCron
                    &&& !cron_shape_ok(vstd::utf8::encode_utf8(req.cron@))
                    &&& *final(self) == *old(self)
                },
            },
    {
        let now = now_unix();
        let r = self.add_cron_job_at(req, now);
        proof {
            match r {
                Result::Ok(id) => {
                    assert(self@ == old(self)@.push(cron_job_spec(id, req, now)));
                },
                Result::Err(_) => {},
            }
        }
        r
    }

    /// Registers a one-time job at time `now`.  Exactly the requests whose
    /// target instant lies strictly in the future succeed; a rejected request
    /// leaves no trace.  A granted identifier was never handed out before.
    pub fn add_one_time_job_at(&mut self, req: OneTimeRequest, now: i64) -> (r: Result<
        u64,
        SchedulerError,
    >)
        requires
            old(self).wf(),
            old(self).next_id < u64::MAX,
        ensures
            final(self).wf(),
            r is Ok <==> req.at > now,
            match r {
                Result::Ok(id) => {
                    &&& id == old(self).next_id
                    &&& !old(self).allocated@.contains(id)
                    &&& !has_id(old(self)@, id)
                    &&& final(self).allocated@ == old(self).allocated@.insert(id)
                    &&& final(self).next_id == old(self).next_id + 1
                    &&& final(self)@ == old(self)@.push(one_time_job_spec(id, req, now))
                },
                Result::Err(e) => {
                    &&& e == SchedulerError::PastTimestamp
                    &&& *final(self) == *old(self)
                },
            },
    {
        if req.at <= now {
            return Err(SchedulerError::PastTimestamp);
        }
        let id = self.next_id;
        let ghost old_alloc = self.allocated@;
        self.next_id = self.next_id + 1;
        self.allocated = Ghost(self.allocated@.insert(id));
        let job = ScheduledJob {
            id,
            cron: None,
            at: Some(req.at),
            notify: req.notify,
            created_at: now,
            max_count: Some(1),
            count: 0,
            cancelled: false,
        };
        proof {
            assert(!has_id(self.jobs@, id)) by {
                if has_id(self.jobs@, id) {
                    let k = choose|k: int|
                        0 <= k < self.jobs@.len() && self.jobs@[k].id == id;
                    assert(old_alloc.contains(self.jobs@[k].id));
                }
            }
            lemma_push_effect(self.jobs@, job);
        }
        self.jobs.push(job);
        Ok(id)
    }

    /// Registers a one-time job, reading the wall clock.  Success means the
    /// target was still in the future at the instant the clock was read.
    pub fn add_one_time_job(&mut self, req: OneTimeRequest) -> (r: Result<u64, SchedulerError>)
        requires
            old(self).wf(),
            old(self).next_id < u64::MAX,
        ensures
            final(self).wf(),
            match r {
                Result::Ok(id) => {
                    &&& id == old(self).next_id
                    &&& !old(self).allocated@.contains(id)
                    &&& final(self).allocated@ == old(self).allocated@.insert(id)
                    &&& final(self).next_id == old(self).next_id + 1
                    &&& exists|now: i64|
                        req.at > now && final(self)@ == old(self)@.push(
                            #[trigger] one_time_job_spec(id, req, now),
                        )
                },
                Result::Err(e) => {
                    &&& e == SchedulerError::PastTimestamp
                    &&& *final(self) == *old(self)
                },
            },
    {
        let now = now_unix();
        let r = self.add_one_time_job_at(req, now);
        proof {
            match r {
                Result::Ok(id) => {
                    assert(req.at > now && self@ == old(self)@.push(
                        one_time_job_spec(id, req, now),
                    ));
                },
                Result::Err(_) => {},
            }
        }
        r
    }

    /// Removes a job: raises its cancellation and drops its entry, both
    /// visible at once to every later caller.  An absent identifier fails
    /// with `NotFound` and mutates nothing, however often it is tried.
    pub fn remove_job(&mut self, job_id: u64) -> (r: Result<(), SchedulerError>)
        requires
            old(self).wf(),
        ensures
            final(self).wf(),
            final(self).next_id == old(self).next_id,
            final(self).allocated@ == old(self).allocated@,
            match r {
                Result::Ok(_) => {
                    &&& has_id(old(self)@, job_id)
                    &&& removed_from(old(self)@, final(self)@, job_id)
                },
                Result::Err(e) => {
                    &&& e == SchedulerError::NotFound
                    &&& !has_id(old(self)@, job_id)
                    &&& *final(self) == *old(self)
                },
            },
    {
        match self.find_index(job_id) {
            Option::Some(i) => {
                proof {
                    lemma_idx_of(self.jobs@, i as int);
                    lemma_remove_effect(self.jobs@, i as int);
                }
                let ghost pre = self.jobs@;
                let _dropped = self.jobs.remove(i);
                proof {
                    assert forall|k: int|
                        0 <= k < self.jobs@.len() implies job_wf(#[trigger] self.jobs@[k])
                        && self.allocated@.contains(self.jobs@[k].id) by {
                        if k < i as int {
                            assert(self.jobs@[k] == pre[k]);
                        } else {
                            assert(self.jobs@[k] == pre[k + 1]);
                        }
                    }
                }
                Ok(())
            },
            Option::None => Err(SchedulerError::NotFound),
        }
    }

    /// A snapshot of every current entry, in registry order.
    pub fn list_jobs(&self) -> (r: Vec<ScheduledJob>)
        ensures
            r@ == self@,
    {
        let mut out: Vec<ScheduledJob> = Vec::new();
        let mut i: usize = 0;
        while i < self.jobs.len()
            invariant
                0 <= i <= self.jobs@.len(),
                out@.len() == i,
                forall|k: int| 0 <= k < i ==> out@[k] == self.jobs@[k],
            decreases self.jobs@.len() - i,
        {
            out.push(self.jobs[i].clone());
            i = i + 1;
        }
        proof {
            assert(out@ =~= self.jobs@);
        }
        out
    }

    /// A snapshot of the entry with the given identifier, or absence.
    pub fn get_job(&self, job_id: u64) -> (r: Option<ScheduledJob>)
        requires
            self.wf(),
        ensures
            match r {
                Option::Some(job) => has_id(self@, job_id) && job == job_of(self@, job_id),
                Option::None => !has_id(self@, job_id),
            },
    {
        match self.find_index(job_id) {
            Option::Some(i) => {
                proof {
                    lemma_idx_of(self.jobs@, i as int);
                }
                Some(self.jobs[i].clone())
            },
            Option::None => None,
        }
    }
}

impl NotificationScheduler {
    /// The execution coordinator's step at one firing of the trigger engine.
    ///
    /// `observed_cancelled` is the value the firing read from the job's
    /// shared cancellation flag; the read happens outside the registry's
    /// lock, so it may lag a concurrent removal by one firing.  The step
    /// decides everything at once: whether the payload is delivered, the
    /// post-increment occurrence number, and whether the job retires.  A
    /// delivery failure downstream changes none of it.
    pub fn record_firing(&mut self, job_id: u64, observed_cancelled: bool) -> (r: FiringOutcome)
        requires
            old(self).wf(),
        ensures
            final(self).wf(),
            final(self).next_id == old(self).next_id,
            final(self).allocated@ == old(self).allocated@,
            observed_cancelled ==> (if has_id(old(self)@, job_id) && job_of(
                old(self)@,
                job_id,
            ).is_one_time() {
                &&& r == (FiringOutcome::Skipped { removed: true })
                &&& removed_from(old(self)@, final(self)@, job_id)
            } else {
                &&& r == (FiringOutcome::Skipped { removed: false })
                &&& *final(self) == *old(self)
            }),
            (!observed_cancelled && !has_id(old(self)@, job_id)) ==> (r
                == FiringOutcome::DeliveredDetached && *final(self) == *old(self)),
            (!observed_cancelled && has_id(old(self)@, job_id)) ==> ({
                let job = job_of(old(self)@, job_id);
                let n: u32 = if job.count == u32::MAX {
                    u32::MAX
                } else {
                    (job.count + 1) as u32
                };
                if job.is_one_time() || retires(job.max_count, n) {
                    &&& r == (FiringOutcome::Delivered { occurrence: n, retired: true })
                    &&& removed_from(old(self)@, final(self)@, job_id)
                } else {
                    &&& r == (FiringOutcome::Delivered { occurrence: n, retired: false })
                    &&& final(self)@.len() == old(self)@.len()
                    &&& has_id(final(self)@, job_id)
                    &&& job_of(final(self)@, job_id) == with_count(job, n)
                    &&& forall|j: u64|
                        j != job_id ==> (has_id(final(self)@, j) <==> has_id(old(self)@, j))
                    &&& forall|j: u64|
                        j != job_id && has_id(old(self)@, j) ==> job_of(final(self)@, j)
                            == job_of(old(self)@, j)
                }
            }),
    {
        let idx = self.find_index(job_id);
        if observed_cancelled {
            match idx {
                Option::Some(i) => {
                    proof {
                        lemma_idx_of(self.jobs@, i as int);
                    }
                    if self.jobs[i].at.is_some() {
                        // Cancelled between arming and firing: a one-time entry
                        // must not linger, so the safety net drops it here.
                        proof {
                            lemma_remove_effect(self.jobs@, i as int);
                        }
                        let ghost pre = self.jobs@;
                        let _dropped = self.jobs.remove(i);
                        proof {
                            assert forall|k: int|
                                0 <= k < self.jobs@.len() implies job_wf(
                                #[trigger] self.jobs@[k],
                            ) && self.allocated@.contains(self.jobs@[k].id) by {
                                if k < i as int {
                                    assert(self.jobs@[k] == pre[k]);
                                } else {
                                    assert(self.jobs@[k] == pre[k + 1]);
                                }
                            }
                        }
                        FiringOutcome::Skipped { removed: true }
                    } else {
                        // A cancelled cron job was already removed by the
                        // removal request itself: nothing left to touch.
                        FiringOutcome::Skipped { removed: false }
                    }
                },
                Option::None => FiringOutcome::Skipped { removed: false },
            }
        } else {
            match idx {
                Option::None => FiringOutcome::DeliveredDetached,
                Option::Some(i) => {
                    proof {
                        lemma_idx_of(self.jobs@, i as int);
                    }
                    let count = self.jobs[i].count;
                    let n = if count == u32::MAX {
                        u32::MAX
                    } else {
                        count + 1
                    };
                    let one_time = self.jobs[i].at.is_some();
                    let bounded_hit = match self.jobs[i].max_count {
                        Option::Some(k) => n >= k,
                        Option::None => false,
                    };
                    if one_time || bounded_hit {
                        proof {
                            lemma_remove_effect(self.jobs@, i as int);
                        }
                        let ghost pre = self.jobs@;
                        let _dropped = self.jobs.remove(i);
                        proof {
                            assert forall|k: int|
                                0 <= k < self.jobs@.len() implies job_wf(
                                #[trigger] self.jobs@[k],
                            ) && self.allocated@.contains(self.jobs@[k].id) by {
                                if k < i as int {
                                    assert(self.jobs@[k] == pre[k]);
                                } else {
                                    assert(self.jobs@[k] == pre[k + 1]);
                                }
                            }
                        }
                        FiringOutcome::Delivered { occurrence: n, retired: true }
                    } else {
                        let ghost pre = self.jobs@;
                        let mut job = self.jobs.remove(i);
                        job.count = n;
                        self.jobs.insert(i, job);
                        proof {
                            assert(self.jobs@ =~= pre.update(
                                i as int,
                                with_count(pre[i as int], n),
                            ));
                            lemma_update_effect(pre, i as int, with_count(pre[i as int], n));
                            assert forall|k: int|
                                0 <= k < self.jobs@.len() implies job_wf(
                                #[trigger] self.jobs@[k],
                            ) && self.allocated@.contains(self.jobs@[k].id) by {
                                if k != i as int {
                                    assert(self.jobs@[k] == pre[k]);
                                } else {
                                    assert(self.jobs@[k] == with_count(pre[k], n));
                                    assert(job_wf(pre[k]));
                                }
                            }
                        }
                        FiringOutcome::Delivered { occurrence: n, retired: false }
                    }
                },
            }
        }
    }
}

/// The one-shot timer engine's delay from `now` to a target instant,
/// clamped at zero: `max(0, at - now)` in whole seconds.
pub fn compute_delay(at: i64, now: i64) -> (d: u64)
    ensures
        d as int == if at <= now {
            0int
        } else {
            at - now
        },
{
    if at <= now {
        0
    } else {
        let diff: i128 = (at as i128) - (now as i128);
        diff as u64
    }
}

/// Retirement bound: a job whose occurrence bound is `k` never sits in the
/// registry with `max(k, 1)` or more recorded firings — the firing that
/// reaches the bound also removes the entry.
pub proof fn lemma_occurrence_bounded(s: &NotificationScheduler, job_id: u64, k: u32)
    requires
        s.wf(),
        has_id(s@, job_id),
        job_of(s@, job_id).max_count == Option::Some(k),
    ensures
        (job_of(s@, job_id).count as int) < retire_bound(k),
{
    let i = idx_of(s@, job_id);
    assert(0 <= i < s@.len() && s@[i].id == job_id);
    assert(job_wf(s@[i]));
}

/// Retirement bound, the firing half: the occurrence number a live firing of
/// a bounded job would record never exceeds `max(k, 1)`; the contract of
/// `record_firing` removes the entry the moment that bound is reached, so no
/// later firing of the job can be counted.
pub proof fn lemma_firing_number_bounded(s: &NotificationScheduler, job_id: u64, k: u32)
    requires
        s.wf(),
        has_id(s@, job_id),
        job_of(s@, job_id).max_count == Option::Some(k),
    ensures
        ({
            let job = job_of(s@, job_id);
            let n: u32 = if job.count == u32::MAX {
                u32::MAX
            } else {
                (job.count + 1) as u32
            };
            n as int <= retire_bound(k)
        }),
{
    lemma_occurrence_bounded(s, job_id, k);
}

/// One-time completeness, the standing half: while a one-time job is present
/// it has never fired — its single firing also removes it, so presence means
/// the window between creation and firing is still open.
pub proof fn lemma_one_time_unfired(s: &NotificationScheduler, job_id: u64)
    requires
        s.wf(),
        has_id(s@, job_id),
        job_of(s@, job_id).is_one_time(),
    ensures
        job_of(s@, job_id).count == 0,
        job_of(s@, job_id).max_count == Option::Some(1u32),
{
    let i = idx_of(s@, job_id);
    assert(0 <= i < s@.len() && s@[i].id == job_id);
    assert(job_wf(s@[i]));
}

/// With unique identifiers, the entry found at an index is the entry the
/// identifier maps to.
pub proof fn lemma_idx_of(s: Seq<ScheduledJob>, i: int)
    requires
        unique_ids(s),
        0 <= i < s.len(),
    ensures
        has_id(s, s[i].id),
        idx_of(s, s[i].id) == i,
        job_of(s, s[i].id) == s[i],
{
    assert(has_id(s, s[i].id));
    let j = idx_of(s, s[i].id);
    assert(0 <= j < s.len() && s[j].id == s[i].id);
    if i < j {
        assert(s[i].id != s[j].id);
        assert(false);
    } else if j < i {
        assert(s[j].id != s[i].id);
        assert(false);
    }
}

/// Removing the entry at an index removes exactly its identifier and keeps
/// every other entry, with identifiers still unique.
pub proof fn lemma_remove_effect(s: Seq<ScheduledJob>, i: int)
    requires
        unique_ids(s),
        0 <= i < s.len(),
    ensures
        unique_ids(s.remove(i)),
        removed_from(s, s.remove(i), s[i].id),
{
    let t = s.remove(i);
    let sid = s[i].id;
    assert(t.len() == s.len() - 1);
    assert(forall|k: int| 0 <= k < i ==> t[k] == s[k]);
    assert(forall|k: int| i <= k < t.len() ==> t[k] == s[k + 1]);
    assert forall|k1: int, k2: int| 0 <= k1 < k2 < t.len() implies t[k1].id != t[k2].id by {
        let m1 = if k1 < i { k1 } else { k1 + 1 };
        let m2 = if k2 < i { k2 } else { k2 + 1 };
        assert(t[k1] == s[m1]);
        assert(t[k2] == s[m2]);
    }
    assert forall|k: int| 0 <= k < t.len() implies t[k].id != sid by {
        let m = if k < i { k } else { k + 1 };
        assert(t[k] == s[m]);
    }
    assert(!has_id(t, sid)) by {
        if has_id(t, sid) {
            let k = choose|k: int| 0 <= k < t.len() && t[k].id == sid;
            assert(t[k].id != sid);
        }
    }
    assert forall|j: u64| j != sid implies (has_id(t, j) <==> has_id(s, j)) by {
        if has_id(t, j) {
            let k = choose|k: int| 0 <= k < t.len() && t[k].id == j;
            let m = if k < i { k } else { k + 1 };
            assert(s[m].id == j);
            assert(has_id(s, j));
        }
        if has_id(s, j) {
            let k = choose|k: int| 0 <= k < s.len() && s[k].id == j;
            assert(k != i);
            let m = if k < i { k } else { k - 1 };
            assert(t[m].id == j);
            assert(has_id(t, j));
        }
    }
    assert forall|j: u64| j != sid && has_id(s, j) implies job_of(t, j) == job_of(s, j) by {
        let k = idx_of(s, j);
        assert(0 <= k < s.len() && s[k].id == j);
        assert(k != i);
        let m = if k < i { k } else { k - 1 };
        assert(t[m] == s[k]);
        lemma_idx_of(t, m);
        lemma_idx_of(s, k);
    }
}

/// Appending an entry with a fresh identifier adds exactly that identifier
/// and keeps every other entry, with identifiers still unique.
pub proof fn lemma_push_effect(s: Seq<ScheduledJob>, job: ScheduledJob)
    requires
        unique_ids(s),
        !has_id(s, job.id),
    ensures
        unique_ids(s.push(job)),
        has_id(s.push(job), job.id),
        job_of(s.push(job), job.id) == job,
        forall|j: u64| j != job.id ==> (has_id(s.push(job), j) <==> has_id(s, j)),
        forall|j: u64|
            j != job.id && has_id(s, j) ==> job_of(s.push(job), j) == job_of(s, j),
{
    let t = s.push(job);
    assert(t.len() == s.len() + 1);
    assert(forall|k: int| 0 <= k < s.len() ==> t[k] == s[k]);
    assert(t[s.len() as int] == job);
    assert forall|k1: int, k2: int| 0 <= k1 < k2 < t.len() implies t[k1].id != t[k2].id by {
        if k2 < s.len() {
            assert(t[k1] == s[k1]);
            assert(t[k2] == s[k2]);
        } else {
            assert(t[k2] == job);
            assert(t[k1] == s[k1]);
            if s[k1].id == job.id {
                assert(has_id(s, job.id));
            }
        }
    }
    lemma_idx_of(t, s.len() as int);
    assert forall|j: u64| j != job.id implies (has_id(t, j) <==> has_id(s, j)) by {
        if has_id(t, j) {
            let k = choose|k: int| 0 <= k < t.len() && t[k].id == j;
            assert(k < s.len());
            assert(s[k].id == j);
            assert(has_id(s, j));
        }
        if has_id(s, j) {
            let k = choose|k: int| 0 <= k < s.len() && s[k].id == j;
            assert(t[k].id == j);
            assert(has_id(t, j));
        }
    }
    assert forall|j: u64| j != job.id && has_id(s, j) implies job_of(t, j) == job_of(s, j) by {
        let k = idx_of(s, j);
        assert(0 <= k < s.len() && s[k].id == j);
        assert(t[k] == s[k]);
        lemma_idx_of(t, k);
        lemma_idx_of(s, k);
    }
}

/// Replacing the entry at an index by one with the same identifier keeps
/// every other entry and the identifier set, with identifiers still unique.
pub proof fn lemma_update_effect(s: Seq<ScheduledJob>, i: int, x: ScheduledJob)
    requires
        unique_ids(s),
        0 <= i < s.len(),
        x.id == s[i].id,
    ensures
        unique_ids(s.update(i, x)),
        has_id(s.update(i, x), x.id),
        job_of(s.update(i, x), x.id) == x,
        forall|j: u64| j != x.id ==> (has_id(s.update(i, x), j) <==> has_id(s, j)),
        forall|j: u64|
            j != x.id && has_id(s, j) ==> job_of(s.update(i, x), j) == job_of(s, j),
{
    let t = s.update(i, x);
    assert(t.len() == s.len());
    assert(forall|k: int| 0 <= k < s.len() && k != i ==> t[k] == s[k]);
    assert(t[i] == x);
    assert forall|k1: int, k2: int| 0 <= k1 < k2 < t.len() implies t[k1].id != t[k2].id by {
        assert(t[k1].id == s[k1].id);
        assert(t[k2].id == s[k2].id);
    }
    lemma_idx_of(t, i);
    assert forall|j: u64| j != x.id implies (has_id(t, j) <==> has_id(s, j)) by {
        if has_id(t, j) {
            let k = choose|k: int| 0 <= k < t.len() && t[k].id == j;
            assert(k != i);
            assert(s[k].id == j);
            assert(has_id(s, j));
        }
        if has_id(s, j) {
            let k = choose|k: int| 0 <= k < s.len() && s[k].id == j;
            assert(k != i);
            assert(t[k].id == j);
            assert(has_id(t, j));
        }
    }
    assert forall|j: u64| j != x.id && has_id(s, j) implies job_of(t, j) == job_of(s, j) by {
        let k = idx_of(s, j);
        assert(0 <= k < s.len() && s[k].id == j);
        assert(k != i);
        assert(t[k] == s[k]);
        lemma_idx_of(t, k);
        lemma_idx_of(s, k);
    }
}

} // verus!
