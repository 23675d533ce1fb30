//! The history backfill: which cities to fill, in what order, and the
//! budget-gated run that walks them one metered fetch at a time.
//!
//! A run is driven by the caller: it asks `next_action`, performs what it is
//! told (look up a city's missing buckets, or fetch one bucket), reports back,
//! and stops at `Finish`.
use vstd::prelude::*;
use vstd::string::*;
use crate::budget::{ApiCallBudget, BudgetView, after_call, call_within, reconciled, remaining_of, unix_now_secs, utc_day};
use crate::devices::Device;
use crate::jobs::ForecastJob;

verus! {

#[verifier::external_type_specification]
#[verifier::external_body]
#[verifier::reject_recursive_types(T)]
#[verifier::reject_recursive_types(S)]
pub struct ExIndexSet<T, S>(indexmap::IndexSet<T, S>);

/// The items of a set of city names, in insertion order.
pub uninterp spec fn city_set_items(s: indexmap::IndexSet<String>) -> Seq<Seq<char>>;

/// Relies on indexmap's IndexSet::new: an empty set.
#[verifier::external_body]
fn city_set_new() -> (s: indexmap::IndexSet<String>)
    ensures
        city_set_items(s) == Seq::<Seq<char>>::empty(),
{
    indexmap::IndexSet::new()
}

/// Relies on indexmap's IndexSet::insert: an item equal to one held is
/// refused and the order kept; any other is added at the end.
#[verifier::external_body]
fn city_set_insert(s: &mut indexmap::IndexSet<String>, city: String) -> (added: bool)
    ensures
        added == !city_set_items(*old(s)).contains(city@),
        city_set_items(*final(s)) == if added {
            city_set_items(*old(s)).push(city@)
        } else {
            city_set_items(*old(s))
        },
{
    s.insert(city)
}

/// Relies on indexmap's `IntoIterator for IndexSet`: the items in order.
#[verifier::external_body]
fn city_set_into_vec(s: indexmap::IndexSet<String>) -> (v: Vec<String>)
    ensures
        v@.len() == city_set_items(s).len(),
        forall|i: int| 0 <= i < v@.len() ==> (#[trigger] v@[i])@ == city_set_items(s)[i],
{
    s.into_iter().collect()
}

/// `s` with `x` added at the end unless it is already there.
pub open spec fn push_new(s: Seq<Seq<char>>, x: Seq<char>) -> Seq<Seq<char>> {
    if s.contains(x) {
        s
    } else {
        s.push(x)
    }
}

/// The items of `s` in order of first occurrence, without repeats.
pub open spec fn dedup(s: Seq<Seq<char>>) -> Seq<Seq<char>>
    decreases s.len(),
{
    if s.len() == 0 {
        seq![]
    } else {
        push_new(dedup(s.drop_last()), s.last())
    }
}

/// The names in the first `k` of `cities`.
pub open spec fn names_upto(cities: Seq<String>, k: nat) -> Seq<Seq<char>>
    decreases k,
{
    if k == 0 {
        seq![]
    } else {
        names_upto(cities, (k - 1) as nat).push(cities[k - 1]@)
    }
}

/// The home city (first city) of each enabled device among the first `k`.
pub open spec fn home_cities(devices: Seq<Device>, k: nat) -> Seq<Seq<char>>
    decreases k,
{
    if k == 0 {
        seq![]
    } else if devices[k - 1].enabled && devices[k - 1].cities@.len() > 0 {
        home_cities(devices, (k - 1) as nat).push(devices[k - 1].cities@[0]@)
    } else {
        home_cities(devices, (k - 1) as nat)
    }
}

/// All cities of the enabled devices among the first `k`.
pub open spec fn device_cities(devices: Seq<Device>, k: nat) -> Seq<Seq<char>>
    decreases k,
{
    if k == 0 {
        seq![]
    } else if devices[k - 1].enabled {
        device_cities(devices, (k - 1) as nat) + names_upto(
            devices[k - 1].cities@,
            devices[k - 1].cities@.len(),
        )
    } else {
        device_cities(devices, (k - 1) as nat)
    }
}

/// The cities of the enabled jobs among the first `k`.
pub open spec fn job_cities(jobs: Seq<ForecastJob>, k: nat) -> Seq<Seq<char>>
    decreases k,
{
    if k == 0 {
        seq![]
    } else if jobs[k - 1].enabled {
        job_cities(jobs, (k - 1) as nat).push(jobs[k - 1].city@)
    } else {
        job_cities(jobs, (k - 1) as nat)
    }
}

/// Every candidate city in priority order: home cities of enabled devices,
/// then all their cities, then enabled jobs' cities, then the fallback list.
pub open spec fn city_candidates(
    devices: Seq<Device>,
    jobs: Seq<ForecastJob>,
    fallback: Seq<String>,
) -> Seq<Seq<char>> {
    home_cities(devices, devices.len()) + device_cities(devices, devices.len()) + job_cities(
        jobs,
        jobs.len(),
    ) + names_upto(fallback, fallback.len())
}

proof fn lemma_dedup_push(s: Seq<Seq<char>>, x: Seq<char>)
    ensures
        dedup(s.push(x)) == push_new(dedup(s), x),
{
    assert(s.push(x).drop_last() =~= s);
}

fn add_city(
    set: &mut indexmap::IndexSet<String>,
    city: &String,
    Ghost(seen): Ghost<Seq<Seq<char>>>,
)
    requires
        city_set_items(*old(set)) == dedup(seen),
    ensures
        city_set_items(*final(set)) == dedup(seen.push(city@)),
{
    proof {
        lemma_dedup_push(seen, city@);
    }
    let _added = city_set_insert(set, city.clone());
}

/// The cities to backfill, in priority order and without repeats (the first
/// occurrence wins): each enabled device's home city, then the rest of the
/// enabled devices' cities, then the enabled jobs' cities, then the fallback.
pub fn build_city_list(devices: &Vec<Device>, jobs: &Vec<ForecastJob>, fallback: &Vec<String>) -> (r:
    Vec<String>)
    ensures
        r@.len() == dedup(city_candidates(devices@, jobs@, fallback@)).len(),
        forall|i: int|
            0 <= i < r@.len() ==> (#[trigger] r@[i])@ == dedup(
                city_candidates(devices@, jobs@, fallback@),
            )[i],
{
    let mut set = city_set_new();
    let ghost mut seen: Seq<Seq<char>> = seq![];
    let mut i: usize = 0;
    while i < devices.len()
        invariant
            i <= devices@.len(),
            seen == home_cities(devices@, i as nat),
            city_set_items(set) == dedup(seen),
        decreases devices.len() - i,
    {
        let d = &devices[i];
        if d.enabled && d.cities.len() > 0 {
            add_city(&mut set, &d.cities[0], Ghost(seen));
            proof {
                seen = seen.push(d.cities@[0]@);
            }
        }
        i = i + 1;
    }
    let ghost homes = seen;
    let mut i: usize = 0;
    while i < devices.len()
        invariant
            i <= devices@.len(),
            seen == homes + device_cities(devices@, i as nat),
            city_set_items(set) == dedup(seen),
        decreases devices.len() - i,
    {
        let d = &devices[i];
        if d.enabled {
            let ghost base = seen;
            let mut j: usize = 0;
            while j < d.cities.len()
                invariant
                    j <= d.cities@.len(),
                    seen == base + names_upto(d.cities@, j as nat),
                    city_set_items(set) == dedup(seen),
                decreases d.cities.len() - j,
            {
                add_city(&mut set, &d.cities[j], Ghost(seen));
                proof {
                    assert(base + names_upto(d.cities@, (j + 1) as nat) =~= seen.push(d.cities@[j as int]@));
                    seen = seen.push(d.cities@[j as int]@);
                }
                j = j + 1;
            }
            proof {
                assert(homes + device_cities(devices@, (i + 1) as nat) =~= seen);
            }
        }
        i = i + 1;
    }
    let ghost before_jobs = seen;
    let mut i: usize = 0;
    while i < jobs.len()
        invariant
            i <= jobs@.len(),
            seen == before_jobs + job_cities(jobs@, i as nat),
            city_set_items(set) == dedup(seen),
        decreases jobs.len() - i,
    {
        if jobs[i].enabled {
            add_city(&mut set, &jobs[i].city, Ghost(seen));
            proof {
                assert(before_jobs + job_cities(jobs@, (i + 1) as nat) =~= seen.push(jobs@[i as int].city@));
                seen = seen.push(jobs@[i as int].city@);
            }
        }
        i = i + 1;
    }
    let ghost before_fallback = seen;
    let mut i: usize = 0;
    while i < fallback.len()
        invariant
            i <= fallback@.len(),
            seen == before_fallback + names_upto(fallback@, i as nat),
            city_set_items(set) == dedup(seen),
        decreases fallback.len() - i,
    {
        add_city(&mut set, &fallback[i], Ghost(seen));
        proof {
            assert(before_fallback + names_upto(fallback@, (i + 1) as nat) =~= seen.push(fallback@[i as int]@));
            seen = seen.push(fallback@[i as int]@);
        }
        i = i + 1;
    }
    proof {
        assert(seen =~= city_candidates(devices@, jobs@, fallback@));
    }
    city_set_into_vec(set)
}

/// The trailing window `[now - years * 365 days, now]` of a run.
pub fn backfill_window(now: i64, max_years: u32) -> (r: (i64, i64))
    ensures
        r.1 == now,
        r.0 == if now - max_years * 365 * 86400 >= i64::MIN {
            now - max_years * 365 * 86400
        } else {
            i64::MIN as int
        },
{
    let span: i128 = max_years as i128 * 365 * 86400;
    let start: i128 = now as i128 - span;
    if start >= i64::MIN as i128 {
        (start as i64, now)
    } else {
        (i64::MIN, now)
    }
}

/// What the caller does next in a run.
pub enum BackfillAction {
    /// Look up this city and list its missing buckets, then report them with
    /// `city_ready`, or call `city_failed`.
    PrepareCity(String),
    /// Fetch this bucket of the current city (one metered call), then wait
    /// the throttling delay; a failed fetch is skipped.
    Fetch { city: String, bucket: i64 },
    /// The run is over.
    Finish,
}

/// The abstract state of a run.
pub struct RunView {
    pub cities: Seq<Seq<char>>,
    /// Index of the next city to prepare.
    pub next_city: nat,
    /// Waiting for the missing buckets of the city last handed out.
    pub awaiting: bool,
    /// Missing buckets of the current city.
    pub pending: Seq<i64>,
    /// Index of the next pending bucket to fetch.
    pub next_bucket: nat,
    pub finished: bool,
}

/// The kind of the next action.
pub enum StepKind {
    Prepare(nat),
    Fetch(i64),
    Finish,
}

/// One step of a run on day `today`: the state after it, the budget after
/// it, and what the caller is told to do. Before each fetch one call is
/// recorded on the budget; a refused call ends the whole run. Before each
/// city the remaining budget is checked; none left ends the run.
pub open spec fn step(r: RunView, b: BudgetView, today: int) -> (RunView, BudgetView, StepKind) {
    if r.finished || r.awaiting {
        (RunView { finished: true, ..r }, b, StepKind::Finish)
    } else if r.next_bucket < r.pending.len() {
        if call_within(b, today) {
            (
                RunView { next_bucket: r.next_bucket + 1, ..r },
                after_call(b, today),
                StepKind::Fetch(r.pending[r.next_bucket as int]),
            )
        } else {
            (RunView { finished: true, ..r }, after_call(b, today), StepKind::Finish)
        }
    } else if r.next_city >= r.cities.len() {
        (RunView { finished: true, ..r }, b, StepKind::Finish)
    } else if remaining_of(b, today) == 0 {
        (RunView { finished: true, ..r }, reconciled(b, today), StepKind::Finish)
    } else {
        (
            RunView {
                next_city: r.next_city + 1,
                awaiting: true,
                pending: seq![],
                next_bucket: 0,
                ..r
            },
            reconciled(b, today),
            StepKind::Prepare(r.next_city),
        )
    }
}

/// `(r2, b2, a)` is the outcome of one step of `r` with budget `b` on day `today`.
pub open spec fn stepped(r: RunView, b: BudgetView, today: int, r2: RunView, b2: BudgetView, a: BackfillAction) -> bool {
    let (r3, b3, k) = step(r, b, today);
    &&& r2 == r3
    &&& b2 == b3
    &&& match k {
        StepKind::Finish => a is Finish,
        StepKind::Prepare(i) => a matches BackfillAction::PrepareCity(c) && c@ == r.cities[i as int],
        StepKind::Fetch(t) => a matches BackfillAction::Fetch { city, bucket } && bucket == t
            && city@ == r.cities[r.next_city - 1],
    }
}

/// A run over a prioritised city list.
pub struct BackfillRun {
    cities: Vec<String>,
    next_city: usize,
    awaiting: bool,
    pending: Vec<i64>,
    next_bucket: usize,
    finished: bool,
    inserted: u64,
}

impl View for BackfillRun {
    type V = RunView;

    closed spec fn view(&self) -> RunView {
        RunView {
            cities: Seq::new(self.cities@.len(), |i: int| self.cities@[i]@),
            next_city: self.next_city as nat,
            awaiting: self.awaiting,
            pending: self.pending@,
            next_bucket: self.next_bucket as nat,
            finished: self.finished,
        }
    }
}

impl BackfillRun {
    pub closed spec fn wf(&self) -> bool {
        &&& self.next_city <= self.cities@.len()
        &&& self.next_bucket <= self.pending@.len()
        &&& (self.next_bucket < self.pending@.len() ==> self.next_city > 0)
        &&& (self.awaiting ==> self.next_city > 0)
    }

    /// The records stored so far, as reported by the caller.
    pub closed spec fn inserted(&self) -> nat {
        self.inserted as nat
    }

    /// A run that has not started, over `cities` in this order.
    pub fn new(cities: Vec<String>) -> (r: Self)
        ensures
            r.wf(),
            r@.cities.len() == cities@.len(),
            forall|i: int| 0 <= i < cities@.len() ==> r@.cities[i] == (#[trigger] cities@[i])@,
            r@.next_city == 0 && !r@.awaiting && r@.pending.len() == 0 && r@.next_bucket == 0,
            !r@.finished,
            r.inserted() == 0,
    {
        BackfillRun {
            cities,
            next_city: 0,
            awaiting: false,
            pending: Vec::new(),
            next_bucket: 0,
            finished: false,
            inserted: 0,
        }
    }

    /// Decides the next action on day `today`, recording a call on `budget`
    /// before each fetch.
    pub fn next_action_on(&mut self, budget: &mut ApiCallBudget, today: i64) -> (a: BackfillAction)
        requires
            old(self).wf(),
            old(budget).wf(),
        ensures
            final(self).wf(),
            final(budget).wf(),
            final(self).inserted() == old(self).inserted(),
            stepped(old(self)@, old(budget)@, today as int, final(self)@, final(budget)@, a),
    {
        if self.finished || self.awaiting {
            self.finished = true;
            return BackfillAction::Finish;
        }
        if self.next_bucket < self.pending.len() {
            let within = budget.record_call_on(today);
            if within {
                let bucket = self.pending[self.next_bucket];
                self.next_bucket = self.next_bucket + 1;
                let city = self.cities[self.next_city - 1].clone();
                return BackfillAction::Fetch { city, bucket };
            } else {
                self.finished = true;
                return BackfillAction::Finish;
            }
        }
        if self.next_city >= self.cities.len() {
            self.finished = true;
            return BackfillAction::Finish;
        }
        let left = budget.remaining_on(today);
        if left == 0 {
            self.finished = true;
            return BackfillAction::Finish;
        }
        let city = self.cities[self.next_city].clone();
        self.next_city = self.next_city + 1;
        self.awaiting = true;
        self.pending = Vec::new();
        self.next_bucket = 0;
        proof {
            assert(self@.pending =~= Seq::<i64>::empty());
        }
        BackfillAction::PrepareCity(city)
    }

    /// Decides the next action today; see `next_action_on`.
    pub fn next_action(&mut self, budget: &mut ApiCallBudget) -> (a: BackfillAction)
        requires
            old(self).wf(),
            old(budget).wf(),
        ensures
            final(self).wf(),
            final(budget).wf(),
            exists|today: int| #[trigger] stepped(old(self)@, old(budget)@, today, final(self)@, final(budget)@, a),
    {
        let today = utc_day(unix_now_secs());
        self.next_action_on(budget, today)
    }

    /// Reports the missing buckets of the city last handed out; they are
    /// fetched next, in this order. Ignored when no city is awaited.
    pub fn city_ready(&mut self, buckets: Vec<i64>)
        requires
            old(self).wf(),
        ensures
            final(self).wf(),
            final(self).inserted() == old(self).inserted(),
            old(self)@.awaiting ==> final(self)@ == (RunView {
                awaiting: false,
                pending: buckets@,
                next_bucket: 0,
                ..old(self)@
            }),
            !old(self)@.awaiting ==> final(self)@ == old(self)@,
    {
        if self.awaiting {
            self.awaiting = false;
            self.pending = buckets;
            self.next_bucket = 0;
        }
    }

    /// Reports that the city last handed out could not be looked up; the run
    /// moves on to the next city.
    pub fn city_failed(&mut self)
        requires
            old(self).wf(),
        ensures
            final(self).wf(),
            final(self).inserted() == old(self).inserted(),
            old(self)@.awaiting ==> final(self)@ == (RunView { awaiting: false, ..old(self)@ }),
            !old(self)@.awaiting ==> final(self)@ == old(self)@,
    {
        if self.awaiting {
            self.awaiting = false;
        }
    }

    /// Adds the records a fetch stored to the run's total.
    pub fn record_inserted(&mut self, count: u64)
        requires
            old(self).wf(),
        ensures
            final(self).wf(),
            final(self)@ == old(self)@,
            final(self).inserted() == if old(self).inserted() + count <= u64::MAX {
                old(self).inserted() + count
            } else {
                u64::MAX as int
            },
    {
        self.inserted = if self.inserted <= u64::MAX - count {
            self.inserted + count
        } else {
            u64::MAX
        };
    }

    /// Records stored during the run.
    pub fn total_inserted(&self) -> (n: u64)
        ensures
            n == self.inserted(),
    {
        self.inserted
    }

    /// Whether the run is over.
    pub fn is_finished(&self) -> (r: bool)
        ensures
            r == self@.finished,
    {
        self.finished
    }
}

/// A run ends at its next step once the day's budget is spent, handing out
/// no further city and leaving the rest of the list untouched; an ended run
/// stays ended; each fetch is one call within the budget; and cities are
/// handed out one at a time in list order.
pub proof fn lemma_budget_stops_run(r: RunView, b: BudgetView, today: int)
    ensures
        remaining_of(b, today) == 0 ==> {
            &&& step(r, b, today).2 is Finish
            &&& step(r, b, today).0.finished
            &&& step(r, b, today).0.next_city == r.next_city
        },
        r.finished ==> step(r, b, today).2 is Finish && step(r, b, today).1 == b
            && step(r, b, today).0 == r,
        step(r, b, today).2 is Fetch ==> call_within(b, today) && step(r, b, today).1 == after_call(
            b,
            today,
        ),
        step(r, b, today).2 matches StepKind::Prepare(i) ==> i == r.next_city && step(
            r,
            b,
            today,
        ).0.next_city == r.next_city + 1,
        step(r, b, today).0.next_city >= r.next_city,
{
}

/// A run driven for at most `fuel` steps on day `today`, where each city `i`
/// that is handed out reports `needs[i]` as its missing buckets: the final
/// run, the final budget, and how many fetches were handed out.
pub open spec fn drive(
    r: RunView,
    b: BudgetView,
    today: int,
    needs: Seq<Seq<i64>>,
    fuel: nat,
) -> (RunView, BudgetView, nat)
    decreases fuel,
{
    if fuel == 0 {
        (r, b, 0)
    } else {
        let (r2, b2, k) = step(r, b, today);
        match k {
            StepKind::Finish => (r2, b2, 0),
            StepKind::Prepare(i) => drive(
                RunView { awaiting: false, pending: needs[i as int], next_bucket: 0, ..r2 },
                b2,
                today,
                needs,
                (fuel - 1) as nat,
            ),
            StepKind::Fetch(_) => {
                let (r3, b3, n) = drive(r2, b2, today, needs, (fuel - 1) as nat);
                (r3, b3, n + 1)
            },
        }
    }
}

/// With a budget of `limit` calls and more cities than that, each needing at
/// least one call, a run hands out exactly the remaining calls, then ends,
/// having handed out at most `limit` cities in list order: the others are
/// left untouched for a later run. (Stated for any state reached along the
/// way; a fresh run and budget have `next_city == 0` and `used == 0`.)
pub proof fn lemma_run_spends_budget(
    r: RunView,
    b: BudgetView,
    today: int,
    needs: Seq<Seq<i64>>,
    fuel: nat,
)
    requires
        !r.finished,
        !r.awaiting,
        b.day == today,
        b.used <= b.limit <= u32::MAX,
        r.next_bucket <= r.pending.len(),
        r.next_city <= b.limit,
        needs.len() == r.cities.len(),
        r.cities.len() > b.limit,
        forall|i: int| 0 <= i < needs.len() ==> (#[trigger] needs[i]).len() >= 1,
        r.next_city - (if r.next_bucket == 0 && r.pending.len() > 0 {
            1int
        } else {
            0int
        }) <= b.used,
        fuel >= 2 * (b.limit - b.used) + 2 - (if r.next_bucket < r.pending.len() {
            1int
        } else {
            0int
        }),
    ensures
        drive(r, b, today, needs, fuel).2 == b.limit - b.used,
        drive(r, b, today, needs, fuel).0.finished,
        drive(r, b, today, needs, fuel).0.next_city <= b.limit,
    decreases fuel,
{
    let (r2, b2, k) = step(r, b, today);
    assert(reconciled(b, today) == b);
    if b.used < b.limit {
        if r.next_bucket < r.pending.len() {
            assert(call_within(b, today));
            lemma_run_spends_budget(r2, b2, today, needs, (fuel - 1) as nat);
        } else {
            assert(remaining_of(b, today) > 0);
            assert(r.next_city < r.cities.len());
            let r3 = RunView {
                awaiting: false,
                pending: needs[r.next_city as int],
                next_bucket: 0,
                ..r2
            };
            assert(needs[r.next_city as int].len() >= 1);
            lemma_run_spends_budget(r3, b2, today, needs, (fuel - 1) as nat);
        }
    } else {
        if r.next_bucket < r.pending.len() {
            assert(!call_within(b, today));
        } else {
            assert(remaining_of(b, today) == 0);
        }
    }
}

} // verus!
