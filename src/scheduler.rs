//! Job lifecycle: validation, persistence in the job store, and the table
//! from job ids to the cron engine's handles.
//!
//! The cron engine itself is driven by the caller: after `create_job` or
//! `update_job` succeeds for an enabled job, the caller registers it with the
//! engine and records the handle; before that, it removes the handle that
//! `unschedule_job` hands back.
use vstd::prelude::*;
use crate::jobs::{ForecastJob, JobConfig, JobStorage, enabled_jobs};

verus! {

/// Why a scheduler operation failed.
pub enum SchedulerError {
    NotFound(String),
    InvalidCron(String),
    InvalidTimezone(String),
    Storage(String),
    Scheduler(String),
}

/// Whether the cron engine accepts `expr` as a schedule.
pub uninterp spec fn is_cron_expr(expr: Seq<char>) -> bool;

/// Whether `name` is a known IANA time zone.
pub uninterp spec fn is_tz_name(name: Seq<char>) -> bool;

/// Relies on tokio_cron_scheduler's JobBuilder::with_schedule, which parses the
/// schedule text with croner and nothing else.
#[verifier::external_body]
fn cron_accepts(expr: &str) -> (r: bool)
    ensures
        r == is_cron_expr(expr@),
{
    tokio_cron_scheduler::JobBuilder::new().with_schedule(expr).is_ok()
}

/// Relies on chrono_tz's `FromStr for Tz`: a lookup of the name in its table.
#[verifier::external_body]
fn tz_accepts(name: &str) -> (r: bool)
    ensures
        r == is_tz_name(name@),
{
    name.parse::<chrono_tz::Tz>().is_ok()
}

/// `r` is the invalid-cron error naming `expr`.
pub open spec fn is_invalid_cron<T>(r: Result<T, SchedulerError>, expr: Seq<char>) -> bool {
    match r {
        Err(SchedulerError::InvalidCron(c)) => c@ == expr,
        _ => false,
    }
}

/// `r` is the invalid-timezone error naming `name`.
pub open spec fn is_invalid_tz<T>(r: Result<T, SchedulerError>, name: Seq<char>) -> bool {
    match r {
        Err(SchedulerError::InvalidTimezone(t)) => t@ == name,
        _ => false,
    }
}

/// `r` is the not-found error naming `id`.
pub open spec fn is_not_found<T>(r: Result<T, SchedulerError>, id: Seq<char>) -> bool {
    match r {
        Err(SchedulerError::NotFound(t)) => t@ == id,
        _ => false,
    }
}

/// A job passes validation when its cron expression and its time zone both parse.
pub open spec fn job_valid(job: ForecastJob) -> bool {
    is_cron_expr(job.cron@) && is_tz_name(job.timezone@)
}

/// The first job among the first `k` of `jobs` with this id that passes validation.
pub open spec fn first_valid(jobs: Seq<ForecastJob>, k: nat, id: Seq<char>) -> Option<ForecastJob>
    decreases k,
{
    if k == 0 {
        None
    } else {
        let before = first_valid(jobs, (k - 1) as nat, id);
        if before is Some {
            before
        } else if jobs[k - 1].id@ == id && job_valid(jobs[k - 1]) {
            Some(jobs[k - 1])
        } else {
            None
        }
    }
}

/// The cron engine's handle for a scheduled job.
pub struct ScheduleHandle {
    pub job_id: String,
    pub handle: u128,
}

/// The handle recorded for `id` in `s`, if any.
pub open spec fn handle_lookup(s: Seq<ScheduleHandle>, id: Seq<char>) -> Option<u128> {
    if exists|i: int| 0 <= i < s.len() && (#[trigger] s[i]).job_id@ == id {
        Some(s[choose|i: int| 0 <= i < s.len() && (#[trigger] s[i]).job_id@ == id].handle)
    } else {
        None
    }
}

/// No two handles are recorded for one job.
pub open spec fn unique_jobs(s: Seq<ScheduleHandle>) -> bool {
    forall|i: int, j: int|
        0 <= i < s.len() && 0 <= j < s.len() && i != j ==> (#[trigger] s[i]).job_id@ != (
        #[trigger] s[j]).job_id@
}

proof fn lemma_handle_at(s: Seq<ScheduleHandle>, i: int)
    requires
        unique_jobs(s),
        0 <= i < s.len(),
    ensures
        handle_lookup(s, s[i].job_id@) == Some(s[i].handle),
{
    let k = s[i].job_id@;
    assert(0 <= i < s.len() && s[i].job_id@ == k);
    let j = choose|j: int| 0 <= j < s.len() && (#[trigger] s[j]).job_id@ == k;
    assert(j == i);
}

proof fn lemma_handle_push(s: Seq<ScheduleHandle>, e: ScheduleHandle)
    requires
        unique_jobs(s),
        forall|i: int| 0 <= i < s.len() ==> (#[trigger] s[i]).job_id@ != e.job_id@,
    ensures
        unique_jobs(s.push(e)),
        handle_lookup(s.push(e), e.job_id@) == Some(e.handle),
        forall|k: Seq<char>| k != e.job_id@ ==> handle_lookup(s.push(e), k) == handle_lookup(s, k),
{
    let t = s.push(e);
    assert forall|i: int, j: int|
        0 <= i < t.len() && 0 <= j < t.len() && i != j implies (#[trigger] t[i]).job_id@ != (
        #[trigger] t[j]).job_id@ by {
        if i < s.len() && j < s.len() {
            assert(t[i] == s[i] && t[j] == s[j]);
        } else if i < s.len() {
            assert(t[i] == s[i]);
        } else {
            assert(t[j] == s[j]);
        }
    }
    lemma_handle_at(t, s.len() as int);
    assert forall|k: Seq<char>| k != e.job_id@ implies handle_lookup(t, k) == handle_lookup(s, k) by {
        if exists|i: int| 0 <= i < s.len() && (#[trigger] s[i]).job_id@ == k {
            let i = choose|i: int| 0 <= i < s.len() && (#[trigger] s[i]).job_id@ == k;
            assert(t[i] == s[i]);
            lemma_handle_at(s, i);
            lemma_handle_at(t, i);
        } else {
            assert forall|i: int| 0 <= i < t.len() implies (#[trigger] t[i]).job_id@ != k by {
                if i < s.len() {
                    assert(t[i] == s[i]);
                }
            }
        }
    }
}

proof fn lemma_handle_remove(s: Seq<ScheduleHandle>, i: int)
    requires
        unique_jobs(s),
        0 <= i < s.len(),
    ensures
        unique_jobs(s.remove(i)),
        forall|a: int| 0 <= a < s.remove(i).len() ==> (#[trigger] s.remove(i)[a]).job_id@ != s[i].job_id@,
        forall|k: Seq<char>| k != s[i].job_id@ ==> handle_lookup(s.remove(i), k) == handle_lookup(s, k),
{
    let t = s.remove(i);
    assert forall|a: int, b: int|
        0 <= a < t.len() && 0 <= b < t.len() && a != b implies (#[trigger] t[a]).job_id@ != (
        #[trigger] t[b]).job_id@ by {
        let a2 = if a < i { a } else { a + 1 };
        let b2 = if b < i { b } else { b + 1 };
        assert(t[a] == s[a2] && t[b] == s[b2]);
    }
    assert forall|a: int| 0 <= a < t.len() implies (#[trigger] t[a]).job_id@ != s[i].job_id@ by {
        let a2 = if a < i { a } else { a + 1 };
        assert(t[a] == s[a2]);
    }
    assert forall|k: Seq<char>| k != s[i].job_id@ implies handle_lookup(t, k) == handle_lookup(s, k) by {
        if exists|j: int| 0 <= j < s.len() && (#[trigger] s[j]).job_id@ == k {
            let j = choose|j: int| 0 <= j < s.len() && (#[trigger] s[j]).job_id@ == k;
            let j2 = if j < i { j } else { j - 1 };
            assert(t[j2] == s[j]);
            lemma_handle_at(s, j);
            lemma_handle_at(t, j2);
        } else {
            assert forall|a: int| 0 <= a < t.len() implies (#[trigger] t[a]).job_id@ != k by {
                let a2 = if a < i { a } else { a + 1 };
                assert(t[a] == s[a2]);
            }
        }
    }
}

/// The checks a job must pass before it is stored, given whether its cron
/// expression and its time zone parse: the cron expression is checked first.
pub fn validate_job(job: &ForecastJob, cron_ok: bool, tz_ok: bool) -> (r: Result<(), SchedulerError>)
    ensures
        !cron_ok ==> is_invalid_cron(r, job.cron@),
        cron_ok && !tz_ok ==> is_invalid_tz(r, job.timezone@),
        cron_ok && tz_ok ==> r is Ok,
{
    if !cron_ok {
        Err(SchedulerError::InvalidCron(job.cron.clone()))
    } else if !tz_ok {
        Err(SchedulerError::InvalidTimezone(job.timezone.clone()))
    } else {
        Ok(())
    }
}

/// Checks that the job's cron expression and time zone parse.
pub fn check_job(job: &ForecastJob) -> (r: Result<(), SchedulerError>)
    ensures
        !is_cron_expr(job.cron@) ==> is_invalid_cron(r, job.cron@),
        is_cron_expr(job.cron@) && !is_tz_name(job.timezone@) ==> is_invalid_tz(r, job.timezone@),
        job_valid(*job) ==> r is Ok,
{
    let cron_ok = cron_accepts(job.cron.as_str());
    let tz_ok = tz_accepts(job.timezone.as_str());
    validate_job(job, cron_ok, tz_ok)
}

/// Stored jobs and the handles of those currently scheduled.
pub struct SchedulerService {
    storage: JobStorage,
    handles: Vec<ScheduleHandle>,
}

/// What an accepted create or update asks of the caller's cron engine.
pub struct JobChange {
    /// The job as stored.
    pub job: ForecastJob,
    /// The engine handle of the job's previous schedule, to be removed.
    pub unschedule: Option<u128>,
    /// Whether to register the job with the engine and then record its
    /// handle with `record_schedule`: exactly when the job is enabled.
    pub schedule: bool,
}

impl SchedulerService {
    /// Every stored job and every handle is as in `old`.
    pub open spec fn unchanged_from(&self, old: SchedulerService) -> bool {
        &&& self.jobs() == old.jobs()
        &&& forall|k: Seq<char>| #[trigger] self.job(k) == old.job(k)
        &&& forall|k: Seq<char>| #[trigger] self.handle(k) == old.handle(k)
    }

    /// `job` was accepted: it is stored in full under its id, its previous
    /// handle is handed back and forgotten, it is to be scheduled exactly when
    /// enabled, and every other job and handle is as in `old`.
    pub open spec fn accepted(&self, old: SchedulerService, job: ForecastJob, r: Result<
        JobChange,
        SchedulerError,
    >) -> bool {
        &&& r matches Ok(c) && c.job == job && c.schedule == job.enabled && c.unschedule == old.handle(
            job.id@,
        )
        &&& self.job(job.id@) == Some(job)
        &&& self.handle(job.id@) is None
        &&& self.jobs().len() == old.jobs().len() + if old.job(job.id@) is Some {
            0int
        } else {
            1int
        }
        &&& forall|k: Seq<char>| k != job.id@ ==> #[trigger] self.job(k) == old.job(k)
        &&& forall|k: Seq<char>| k != job.id@ ==> #[trigger] self.handle(k) == old.handle(k)
    }

    /// The stored job under `id`.
    pub closed spec fn job(&self, id: Seq<char>) -> Option<ForecastJob> {
        self.storage.lookup(id)
    }

    /// The engine handle recorded for `id`.
    pub closed spec fn handle(&self, id: Seq<char>) -> Option<u128> {
        handle_lookup(self.handles@, id)
    }

    /// The stored jobs, in store order.
    pub closed spec fn jobs(&self) -> Seq<ForecastJob> {
        self.storage@
    }

    pub closed spec fn wf(&self) -> bool {
        self.storage.wf() && unique_jobs(self.handles@)
    }

    /// A service over the jobs already in `storage`, none of them scheduled yet.
    pub fn new(storage: JobStorage) -> (s: Self)
        requires
            storage.wf(),
        ensures
            s.wf(),
            s.jobs() == storage@,
            forall|id: Seq<char>| s.job(id) == storage.lookup(id),
            forall|id: Seq<char>| s.handle(id) is None,
    {
        SchedulerService { storage, handles: Vec::new() }
    }

    fn handle_index(&self, id: &str) -> (r: Option<usize>)
        ensures
            r is Some ==> r->0 < self.handles@.len() && self.handles@[r->0 as int].job_id@ == id@,
            r is None ==> forall|i: int|
                0 <= i < self.handles@.len() ==> (#[trigger] self.handles@[i]).job_id@ != id@,
    {
        let key = String::from_str(id);
        let mut i: usize = 0;
        while i < self.handles.len()
            invariant
                i <= self.handles@.len(),
                key@ == id@,
                forall|j: int| 0 <= j < i ==> (#[trigger] self.handles@[j]).job_id@ != id@,
            decreases self.handles.len() - i,
        {
            if self.handles[i].job_id == key {
                return Some(i);
            }
            i = i + 1;
        }
        None
    }

    /// The engine handle recorded for `id`, if it is scheduled.
    pub fn scheduled_handle(&self, id: &str) -> (r: Option<u128>)
        requires
            self.wf(),
        ensures
            r == self.handle(id@),
    {
        match self.handle_index(id) {
            Some(i) => {
                proof {
                    lemma_handle_at(self.handles@, i as int);
                }
                Some(self.handles[i].handle)
            },
            None => None,
        }
    }

    /// Forgets the handle of `id` and returns it, for the caller to remove
    /// from the engine. Unscheduling a job that is not scheduled does nothing.
    pub fn unschedule_job(&mut self, id: &str) -> (r: Option<u128>)
        requires
            old(self).wf(),
        ensures
            final(self).wf(),
            r == old(self).handle(id@),
            final(self).handle(id@) is None,
            forall|k: Seq<char>| k != id@ ==> final(self).handle(k) == old(self).handle(k),
            forall|k: Seq<char>| final(self).job(k) == old(self).job(k),
            final(self).jobs() == old(self).jobs(),
    {
        let ghost s = self.handles@;
        match self.handle_index(id) {
            Some(i) => {
                proof {
                    lemma_handle_at(s, i as int);
                    lemma_handle_remove(s, i as int);
                }
                let h = self.handles.remove(i);
                Some(h.handle)
            },
            None => None,
        }
    }

    /// Records the engine handle under which job `id` was scheduled,
    /// replacing any handle recorded before.
    pub fn record_schedule(&mut self, id: &str, handle: u128)
        requires
            old(self).wf(),
        ensures
            final(self).wf(),
            final(self).handle(id@) == Some(handle),
            forall|k: Seq<char>| k != id@ ==> final(self).handle(k) == old(self).handle(k),
            forall|k: Seq<char>| final(self).job(k) == old(self).job(k),
            final(self).jobs() == old(self).jobs(),
    {
        let _previous = self.unschedule_job(id);
        let e = ScheduleHandle { job_id: String::from_str(id), handle };
        proof {
            lemma_handle_push(self.handles@, e);
        }
        self.handles.push(e);
    }

    /// Validates and stores a new job, given whether its cron expression and
    /// time zone parse. A rejected job leaves the store and the handles
    /// untouched. An accepted one is stored, its previous handle (if any) is
    /// handed back for removal from the engine, and it is to be registered
    /// with the engine exactly when it is enabled.
    pub fn create_job_checked(&mut self, job: ForecastJob, cron_ok: bool, tz_ok: bool) -> (r: Result<
        JobChange,
        SchedulerError,
    >)
        requires
            old(self).wf(),
        ensures
            final(self).wf(),
            !cron_ok ==> is_invalid_cron(r, job.cron@),
            cron_ok && !tz_ok ==> is_invalid_tz(r, job.timezone@),
            !(cron_ok && tz_ok) ==> final(self).unchanged_from(*old(self)),
            cron_ok && tz_ok ==> final(self).accepted(*old(self), job, r),
    {
        match validate_job(&job, cron_ok, tz_ok) {
            Err(e) => Err(e),
            Ok(()) => Ok(self.store_job(job)),
        }
    }

    /// Validates and stores a new job; see `create_job_checked`. A job whose
    /// cron expression or time zone does not parse is rejected.
    pub fn create_job(&mut self, job: ForecastJob) -> (r: Result<JobChange, SchedulerError>)
        requires
            old(self).wf(),
        ensures
            final(self).wf(),
            !is_cron_expr(job.cron@) ==> is_invalid_cron(r, job.cron@),
            is_cron_expr(job.cron@) && !is_tz_name(job.timezone@) ==> is_invalid_tz(r, job.timezone@),
            !job_valid(job) ==> final(self).unchanged_from(*old(self)),
            job_valid(job) ==> final(self).accepted(*old(self), job, r),
    {
        let cron_ok = cron_accepts(job.cron.as_str());
        let tz_ok = tz_accepts(job.timezone.as_str());
        self.create_job_checked(job, cron_ok, tz_ok)
    }

    /// Replaces a stored job, given whether its cron expression and time zone
    /// parse. An unknown id is not found; a rejected or unknown job leaves the
    /// store and the handles untouched. An accepted one is handled as by
    /// `create_job_checked`.
    pub fn update_job_checked(&mut self, job: ForecastJob, cron_ok: bool, tz_ok: bool) -> (r: Result<
        JobChange,
        SchedulerError,
    >)
        requires
            old(self).wf(),
        ensures
            final(self).wf(),
            old(self).job(job.id@) is None ==> is_not_found(r, job.id@),
            old(self).job(job.id@) is Some && !cron_ok ==> is_invalid_cron(r, job.cron@),
            old(self).job(job.id@) is Some && cron_ok && !tz_ok ==> is_invalid_tz(
                r,
                job.timezone@,
            ),
            !(old(self).job(job.id@) is Some && cron_ok && tz_ok) ==> final(self).unchanged_from(
                *old(self),
            ),
            old(self).job(job.id@) is Some && cron_ok && tz_ok ==> final(self).accepted(
                *old(self),
                job,
                r,
            ),
    {
        if !self.storage.has_job(job.id.as_str()) {
            return Err(SchedulerError::NotFound(job.id.clone()));
        }
        match validate_job(&job, cron_ok, tz_ok) {
            Err(e) => Err(e),
            Ok(()) => Ok(self.store_job(job)),
        }
    }

    /// Replaces a stored job after the same checks as `create_job`; see
    /// `update_job_checked`.
    pub fn update_job(&mut self, job: ForecastJob) -> (r: Result<JobChange, SchedulerError>)
        requires
            old(self).wf(),
        ensures
            final(self).wf(),
            old(self).job(job.id@) is None ==> is_not_found(r, job.id@),
            old(self).job(job.id@) is Some && !is_cron_expr(job.cron@) ==> is_invalid_cron(
                r,
                job.cron@,
            ),
            old(self).job(job.id@) is Some && is_cron_expr(job.cron@) && !is_tz_name(job.timezone@)
                ==> is_invalid_tz(r, job.timezone@),
            !(old(self).job(job.id@) is Some && job_valid(job)) ==> final(self).unchanged_from(
                *old(self),
            ),
            old(self).job(job.id@) is Some && job_valid(job) ==> final(self).accepted(
                *old(self),
                job,
                r,
            ),
    {
        let cron_ok = cron_accepts(job.cron.as_str());
        let tz_ok = tz_accepts(job.timezone.as_str());
        self.update_job_checked(job, cron_ok, tz_ok)
    }

    fn store_job(&mut self, job: ForecastJob) -> (c: JobChange)
        requires
            old(self).wf(),
        ensures
            final(self).wf(),
            final(self).accepted(*old(self), job, Ok::<JobChange, SchedulerError>(c)),
    {
        let previous = self.unschedule_job(job.id.as_str());
        self.storage.upsert(job.duplicate());
        let schedule = job.enabled;
        JobChange { job, unschedule: previous, schedule }
    }

    /// Removes a job and forgets its handle; true when the job was stored.
    pub fn delete_job(&mut self, job_id: &str) -> (removed: bool)
        requires
            old(self).wf(),
        ensures
            final(self).wf(),
            removed == old(self).job(job_id@) is Some,
            final(self).job(job_id@) is None,
            final(self).handle(job_id@) is None,
            forall|k: Seq<char>| k != job_id@ ==> final(self).job(k) == old(self).job(k),
            forall|k: Seq<char>| k != job_id@ ==> final(self).handle(k) == old(self).handle(k),
    {
        let _handle = self.unschedule_job(job_id);
        self.storage.remove(job_id)
    }

    /// A copy of the job stored under `job_id`.
    pub fn get_job(&self, job_id: &str) -> (r: Option<ForecastJob>)
        requires
            self.wf(),
        ensures
            r == self.job(job_id@),
    {
        self.storage.get(job_id)
    }

    /// Copies of all stored jobs.
    pub fn get_jobs(&self) -> (r: Vec<ForecastJob>)
        requires
            self.wf(),
        ensures
            r@ == self.jobs(),
    {
        self.storage.get_all()
    }

    /// The enabled jobs, which the caller schedules at start-up.
    pub fn jobs_to_schedule(&self) -> (r: Vec<ForecastJob>)
        requires
            self.wf(),
        ensures
            r@ == enabled_jobs(self.jobs()),
    {
        self.storage.get_enabled()
    }

    /// Number of stored jobs.
    pub fn job_count(&self) -> (n: usize)
        requires
            self.wf(),
        ensures
            n == self.jobs().len(),
    {
        self.storage.count()
    }

    /// Adds the configured jobs whose id is not stored yet, skipping those
    /// that fail validation; stored jobs are never overwritten. Returns the
    /// changes of the jobs that were added, for the caller to schedule.
    pub fn load_jobs(&mut self, config: &JobConfig) -> (added: Vec<JobChange>)
        requires
            old(self).wf(),
        ensures
            final(self).wf(),
            forall|k: Seq<char>|
                #[trigger] final(self).job(k) == if old(self).job(k) is Some {
                    old(self).job(k)
                } else {
                    first_valid(config.jobs@, config.jobs@.len(), k)
                },
            forall|k: Seq<char>|
                old(self).job(k) is Some ==> #[trigger] final(self).handle(k) == old(self).handle(k),
            forall|i: int|
                0 <= i < added@.len() ==> final(self).job((#[trigger] added@[i]).job.id@) == Some(
                    added@[i].job,
                ) && added@[i].schedule == added@[i].job.enabled,
    {
        let jobs = &config.jobs;
        let mut added: Vec<JobChange> = Vec::new();
        let mut i: usize = 0;
        while i < jobs.len()
            invariant
                i <= jobs@.len(),
                self.wf(),
                forall|k: Seq<char>|
                    #[trigger] self.job(k) == if old(self).job(k) is Some {
                        old(self).job(k)
                    } else {
                        first_valid(jobs@, i as nat, k)
                    },
                forall|k: Seq<char>|
                    old(self).job(k) is Some ==> #[trigger] self.handle(k) == old(self).handle(k),
                forall|a: int|
                    0 <= a < added@.len() ==> self.job((#[trigger] added@[a]).job.id@) == Some(
                        added@[a].job,
                    ) && added@[a].schedule == added@[a].job.enabled,
            decreases jobs.len() - i,
        {
            let job = &jobs[i];
            let ghost before = *self;
            if !self.storage.has_job(job.id.as_str()) {
                let candidate = job.duplicate();
                match self.create_job(candidate) {
                    Ok(created) => {
                        added.push(created);
                    },
                    Err(_) => {},
                }
            }
            proof {
                assert forall|k: Seq<char>|
                    #[trigger] self.job(k) == if old(self).job(k) is Some {
                        old(self).job(k)
                    } else {
                        first_valid(jobs@, (i + 1) as nat, k)
                    } by {
                    if k == job.id@ {
                        if before.job(k) is Some {
                            assert(first_valid(jobs@, i as nat, k) is Some || old(self).job(k) is Some);
                        }
                    }
                }
            }
            i = i + 1;
        }
        added
    }
}

} // verus!
