//! Forecast job definitions and the keyed store that holds them.
//!
//! Temperature thresholds are fixed-point integers in hundredths of a degree.
use vstd::prelude::*;
use vstd::string::*;

verus! {

/// When a forecast job sends a notification.
pub struct NotifyConfig {
    /// Send on every run.
    pub on_run: bool,
    /// Send when the forecast carries weather alerts.
    pub on_alert: bool,
    /// Send when a day's precipitation chance is above one half.
    pub on_precipitation: bool,
    /// Send when the current temperature is below this.
    pub cold_threshold: Option<i64>,
    /// Send when the current temperature is above this.
    pub heat_threshold: Option<i64>,
}

impl NotifyConfig {
    /// All triggers off, no thresholds.
    pub fn off() -> (c: Self)
        ensures
            !c.on_run && !c.on_alert && !c.on_precipitation,
            c.cold_threshold is None && c.heat_threshold is None,
    {
        NotifyConfig {
            on_run: false,
            on_alert: false,
            on_precipitation: false,
            cold_threshold: None,
            heat_threshold: None,
        }
    }

    /// A field-by-field copy.
    pub fn duplicate(&self) -> (c: Self)
        ensures
            c == *self,
    {
        NotifyConfig {
            on_run: self.on_run,
            on_alert: self.on_alert,
            on_precipitation: self.on_precipitation,
            cold_threshold: self.cold_threshold,
            heat_threshold: self.heat_threshold,
        }
    }
}

/// A recurring forecast job.
pub struct ForecastJob {
    /// Stable identifier.
    pub id: String,
    /// Display name.
    pub name: String,
    /// City to fetch the forecast for.
    pub city: String,
    /// "metric", "imperial" or "standard".
    pub units: String,
    /// Cron expression with a seconds field ("0 30 5 * * *").
    pub cron: String,
    /// IANA time zone the cron expression is read in.
    pub timezone: String,
    pub include_daily: bool,
    pub include_hourly: bool,
    pub enabled: bool,
    pub notify: NotifyConfig,
}

/// Units used when none are given.
pub fn default_units() -> (r: String)
    ensures
        r@ == "metric"@,
{
    String::from_str("metric")
}

/// Time zone used when none is given.
pub fn default_timezone() -> (r: String)
    ensures
        r@ == "UTC"@,
{
    String::from_str("UTC")
}

/// Relies on uuid::Uuid::new_v4 and its hyphenated text form: a random
/// identifier. Nothing is promised of the value.
#[verifier::external_body]
pub(crate) fn random_job_id() -> String {
    uuid::Uuid::new_v4().to_string()
}

impl ForecastJob {
    /// A new enabled job with a random id, metric units, UTC, daily forecast
    /// only, and all notification triggers off.
    pub fn new(name: &str, city: &str, cron: &str) -> (j: Self)
        ensures
            j.name@ == name@,
            j.city@ == city@,
            j.cron@ == cron@,
            j.units@ == "metric"@,
            j.timezone@ == "UTC"@,
            j.include_daily && !j.include_hourly && j.enabled,
            !j.notify.on_run && !j.notify.on_alert && !j.notify.on_precipitation,
            j.notify.cold_threshold is None && j.notify.heat_threshold is None,
    {
        let n = NotifyConfig::off();
        ForecastJob {
            id: random_job_id(),
            name: String::from_str(name),
            city: String::from_str(city),
            units: default_units(),
            cron: String::from_str(cron),
            timezone: default_timezone(),
            include_daily: true,
            include_hourly: false,
            enabled: true,
            notify: n,
        }
    }

    /// The same job read in another time zone.
    pub fn with_timezone(self, timezone: &str) -> (j: Self)
        ensures
            j == (ForecastJob { timezone: j.timezone, ..self }),
            j.timezone@ == timezone@,
    {
        let mut j = self;
        j.timezone = String::from_str(timezone);
        j
    }

    /// A field-by-field copy.
    pub fn duplicate(&self) -> (j: Self)
        ensures
            j == *self,
    {
        ForecastJob {
            id: self.id.clone(),
            name: self.name.clone(),
            city: self.city.clone(),
            units: self.units.clone(),
            cron: self.cron.clone(),
            timezone: self.timezone.clone(),
            include_daily: self.include_daily,
            include_hourly: self.include_hourly,
            enabled: self.enabled,
            notify: self.notify.duplicate(),
        }
    }
}

/// Jobs supplied by configuration.
pub struct JobConfig {
    pub jobs: Vec<ForecastJob>,
}

/// The job under `id` in `s`, if any.
pub open spec fn job_lookup(s: Seq<ForecastJob>, id: Seq<char>) -> Option<ForecastJob> {
    if exists|i: int| 0 <= i < s.len() && (#[trigger] s[i]).id@ == id {
        Some(s[choose|i: int| 0 <= i < s.len() && (#[trigger] s[i]).id@ == id])
    } else {
        None
    }
}

/// No two jobs of `s` share an id.
pub open spec fn unique_ids(s: Seq<ForecastJob>) -> bool {
    forall|i: int, j: int|
        0 <= i < s.len() && 0 <= j < s.len() && i != j ==> (#[trigger] s[i]).id@ != (#[trigger] s[j]).id@
}

/// The enabled jobs among the first `k` of `s`, in order.
pub open spec fn enabled_upto(s: Seq<ForecastJob>, k: nat) -> Seq<ForecastJob>
    decreases k,
{
    if k == 0 {
        seq![]
    } else if s[k - 1].enabled {
        enabled_upto(s, (k - 1) as nat).push(s[k - 1])
    } else {
        enabled_upto(s, (k - 1) as nat)
    }
}

/// The enabled jobs of `s`, in order.
pub open spec fn enabled_jobs(s: Seq<ForecastJob>) -> Seq<ForecastJob> {
    enabled_upto(s, s.len())
}

proof fn lemma_job_at(s: Seq<ForecastJob>, i: int)
    requires
        unique_ids(s),
        0 <= i < s.len(),
    ensures
        job_lookup(s, s[i].id@) == Some(s[i]),
{
    let k = s[i].id@;
    assert(0 <= i < s.len() && s[i].id@ == k);
    let j = choose|j: int| 0 <= j < s.len() && (#[trigger] s[j]).id@ == k;
    assert(j == i);
}

proof fn lemma_job_absent(s: Seq<ForecastJob>, id: Seq<char>)
    requires
        forall|i: int| 0 <= i < s.len() ==> (#[trigger] s[i]).id@ != id,
    ensures
        job_lookup(s, id) is None,
{
}

proof fn lemma_job_push(s: Seq<ForecastJob>, e: ForecastJob)
    requires
        unique_ids(s),
        job_lookup(s, e.id@) is None,
    ensures
        unique_ids(s.push(e)),
        job_lookup(s.push(e), e.id@) == Some(e),
        forall|k: Seq<char>| k != e.id@ ==> job_lookup(s.push(e), k) == job_lookup(s, k),
{
    let t = s.push(e);
    assert forall|i: int, j: int|
        0 <= i < t.len() && 0 <= j < t.len() && i != j implies (#[trigger] t[i]).id@ != (
        #[trigger] t[j]).id@ by {
        if i < s.len() && j < s.len() {
            assert(t[i] == s[i] && t[j] == s[j]);
        } else if i < s.len() {
            assert(t[i] == s[i]);
        } else {
            assert(t[j] == s[j]);
        }
    }
    lemma_job_at(t, s.len() as int);
    assert forall|k: Seq<char>| k != e.id@ implies job_lookup(t, k) == job_lookup(s, k) by {
        if exists|i: int| 0 <= i < s.len() && (#[trigger] s[i]).id@ == k {
            let i = choose|i: int| 0 <= i < s.len() && (#[trigger] s[i]).id@ == k;
            assert(t[i] == s[i]);
            lemma_job_at(s, i);
            lemma_job_at(t, i);
        } else {
            assert forall|i: int| 0 <= i < t.len() implies (#[trigger] t[i]).id@ != k by {
                if i < s.len() {
                    assert(t[i] == s[i]);
                }
            }
        }
    }
}

proof fn lemma_job_update(s: Seq<ForecastJob>, i: int, e: ForecastJob)
    requires
        unique_ids(s),
        0 <= i < s.len(),
        s[i].id@ == e.id@,
    ensures
        unique_ids(s.update(i, e)),
        job_lookup(s.update(i, e), e.id@) == Some(e),
        forall|k: Seq<char>| k != e.id@ ==> job_lookup(s.update(i, e), k) == job_lookup(s, k),
{
    let t = s.update(i, e);
    assert forall|a: int, b: int|
        0 <= a < t.len() && 0 <= b < t.len() && a != b implies (#[trigger] t[a]).id@ != (
        #[trigger] t[b]).id@ by {
        assert(t[a].id@ == s[a].id@ && t[b].id@ == s[b].id@);
    }
    lemma_job_at(t, i);
    assert forall|k: Seq<char>| k != e.id@ implies job_lookup(t, k) == job_lookup(s, k) by {
        if exists|j: int| 0 <= j < s.len() && (#[trigger] s[j]).id@ == k {
            let j = choose|j: int| 0 <= j < s.len() && (#[trigger] s[j]).id@ == k;
            assert(t[j] == s[j]);
            lemma_job_at(s, j);
            lemma_job_at(t, j);
        } else {
            assert forall|j: int| 0 <= j < t.len() implies (#[trigger] t[j]).id@ != k by {
                if j != i {
                    assert(t[j] == s[j]);
                }
            }
        }
    }
}

proof fn lemma_job_remove(s: Seq<ForecastJob>, i: int)
    requires
        unique_ids(s),
        0 <= i < s.len(),
    ensures
        unique_ids(s.remove(i)),
        job_lookup(s.remove(i), s[i].id@) is None,
        forall|k: Seq<char>| k != s[i].id@ ==> job_lookup(s.remove(i), k) == job_lookup(s, k),
{
    let t = s.remove(i);
    assert forall|a: int, b: int|
        0 <= a < t.len() && 0 <= b < t.len() && a != b implies (#[trigger] t[a]).id@ != (
        #[trigger] t[b]).id@ by {
        let a2 = if a < i { a } else { a + 1 };
        let b2 = if b < i { b } else { b + 1 };
        assert(t[a] == s[a2] && t[b] == s[b2]);
    }
    assert forall|a: int| 0 <= a < t.len() implies (#[trigger] t[a]).id@ != s[i].id@ by {
        let a2 = if a < i { a } else { a + 1 };
        assert(t[a] == s[a2]);
    }
    assert forall|k: Seq<char>| k != s[i].id@ implies job_lookup(t, k) == job_lookup(s, k) by {
        if exists|j: int| 0 <= j < s.len() && (#[trigger] s[j]).id@ == k {
            let j = choose|j: int| 0 <= j < s.len() && (#[trigger] s[j]).id@ == k;
            let j2 = if j < i { j } else { j - 1 };
            assert(t[j2] == s[j]);
            lemma_job_at(s, j);
            lemma_job_at(t, j2);
        } else {
            assert forall|a: int| 0 <= a < t.len() implies (#[trigger] t[a]).id@ != k by {
                let a2 = if a < i { a } else { a + 1 };
                assert(t[a] == s[a2]);
            }
        }
    }
}

/// Job definitions keyed by id; whether a job is scheduled is kept elsewhere.
pub struct JobStorage {
    jobs: Vec<ForecastJob>,
}

impl View for JobStorage {
    type V = Seq<ForecastJob>;

    closed spec fn view(&self) -> Seq<ForecastJob> {
        self.jobs@
    }
}

impl JobStorage {
    pub open spec fn wf(&self) -> bool {
        unique_ids(self@)
    }

    /// The job stored under `id`, if any.
    pub open spec fn lookup(&self, id: Seq<char>) -> Option<ForecastJob> {
        job_lookup(self@, id)
    }

    /// An empty store.
    pub fn new() -> (s: Self)
        ensures
            s.wf(),
            s@.len() == 0,
            forall|id: Seq<char>| s.lookup(id) is None,
    {
        JobStorage { jobs: Vec::new() }
    }

    fn index_of(&self, id: &str) -> (r: Option<usize>)
        ensures
            r is Some ==> r->0 < self@.len() && self@[r->0 as int].id@ == id@,
            r is None ==> forall|i: int| 0 <= i < self@.len() ==> (#[trigger] self@[i]).id@ != id@,
    {
        let key = String::from_str(id);
        let mut i: usize = 0;
        while i < self.jobs.len()
            invariant
                i <= self.jobs@.len(),
                key@ == id@,
                forall|j: int| 0 <= j < i ==> (#[trigger] self.jobs@[j]).id@ != id@,
            decreases self.jobs.len() - i,
        {
            if self.jobs[i].id == key {
                return Some(i);
            }
            i = i + 1;
        }
        None
    }

    /// Inserts `job`, or replaces the whole job stored under its id.
    pub fn upsert(&mut self, job: ForecastJob)
        requires
            old(self).wf(),
        ensures
            final(self).wf(),
            final(self).lookup(job.id@) == Some(job),
            forall|k: Seq<char>| k != job.id@ ==> final(self).lookup(k) == old(self).lookup(k),
            final(self)@.len() == old(self)@.len() + if old(self).lookup(job.id@) is Some {
                0int
            } else {
                1int
            },
    {
        let ghost s = self.jobs@;
        match self.index_of(job.id.as_str()) {
            Some(i) => {
                proof {
                    lemma_job_update(s, i as int, job);
                    lemma_job_at(s, i as int);
                }
                self.jobs.set(i, job);
            },
            None => {
                proof {
                    lemma_job_absent(s, job.id@);
                    lemma_job_push(s, job);
                }
                self.jobs.push(job);
            },
        }
    }

    /// A copy of the job stored under `id`.
    pub fn get(&self, id: &str) -> (r: Option<ForecastJob>)
        requires
            self.wf(),
        ensures
            r == self.lookup(id@),
    {
        match self.index_of(id) {
            Some(i) => {
                proof {
                    lemma_job_at(self@, i as int);
                }
                Some(self.jobs[i].duplicate())
            },
            None => {
                proof {
                    lemma_job_absent(self@, id@);
                }
                None
            },
        }
    }

    /// Whether a job is stored under `id`.
    pub fn has_job(&self, id: &str) -> (r: bool)
        requires
            self.wf(),
        ensures
            r == self.lookup(id@) is Some,
    {
        let found = self.index_of(id);
        proof {
            if found is Some {
                lemma_job_at(self@, found->0 as int);
            } else {
                lemma_job_absent(self@, id@);
            }
        }
        found.is_some()
    }

    /// Removes the job stored under `id`; true when there was one.
    pub fn remove(&mut self, id: &str) -> (removed: bool)
        requires
            old(self).wf(),
        ensures
            final(self).wf(),
            removed == old(self).lookup(id@) is Some,
            final(self).lookup(id@) is None,
            forall|k: Seq<char>| k != id@ ==> final(self).lookup(k) == old(self).lookup(k),
    {
        let ghost s = self.jobs@;
        match self.index_of(id) {
            Some(i) => {
                proof {
                    lemma_job_at(s, i as int);
                    lemma_job_remove(s, i as int);
                }
                let _gone = self.jobs.remove(i);
                true
            },
            None => {
                proof {
                    lemma_job_absent(s, id@);
                }
                false
            },
        }
    }

    /// Copies of all stored jobs.
    pub fn get_all(&self) -> (r: Vec<ForecastJob>)
        ensures
            r@ == self@,
    {
        let mut out: Vec<ForecastJob> = Vec::new();
        let mut i: usize = 0;
        while i < self.jobs.len()
            invariant
                i <= self.jobs@.len(),
                out@ == self.jobs@.subrange(0, i as int),
            decreases self.jobs.len() - i,
        {
            out.push(self.jobs[i].duplicate());
            i = i + 1;
            assert(out@ =~= self.jobs@.subrange(0, i as int));
        }
        assert(self.jobs@.subrange(0, i as int) =~= self.jobs@);
        out
    }

    /// Copies of the enabled jobs, in store order.
    pub fn get_enabled(&self) -> (r: Vec<ForecastJob>)
        ensures
            r@ == enabled_jobs(self@),
    {
        let mut out: Vec<ForecastJob> = Vec::new();
        let mut i: usize = 0;
        while i < self.jobs.len()
            invariant
                i <= self.jobs@.len(),
                out@ == enabled_upto(self.jobs@, i as nat),
            decreases self.jobs.len() - i,
        {
            if self.jobs[i].enabled {
                out.push(self.jobs[i].duplicate());
            }
            i = i + 1;
        }
        out
    }

    /// Number of stored jobs.
    pub fn count(&self) -> (n: usize)
        ensures
            n == self@.len(),
    {
        self.jobs.len()
    }
}

} // verus!
