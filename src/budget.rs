//! A daily quota of metered upstream calls, reset at each UTC day boundary.
use vstd::prelude::*;
use crate::clock::unix_now_millis;

verus! {

/// Seconds in one UTC day.
pub const SECONDS_PER_DAY: i64 = 86400;

/// The UTC day (days since the Unix epoch, rounded down) holding instant `ts`.
pub open spec fn utc_day_of(ts: int) -> int {
    ts / (SECONDS_PER_DAY as int)
}

/// `a / d` rounded toward negative infinity.
pub fn floor_div(a: i64, d: i64) -> (q: i64)
    requires
        d > 0,
    ensures
        q == a as int / d as int,
{
    if a >= 0 {
        ((a as u64) / (d as u64)) as i64
    } else {
        let back: u64 = (0 - (a + 1)) as u64;
        let k = back / (d as u64);
        proof {
            let bi = back as int;
            let di = d as int;
            let ai = a as int;
            let ki = k as int;
            vstd::arithmetic::div_mod::lemma_fundamental_div_mod(bi, di);
            vstd::arithmetic::div_mod::lemma_mod_pos_bound(bi, di);
            vstd::arithmetic::div_mod::lemma_fundamental_div_mod(ai, di);
            vstd::arithmetic::div_mod::lemma_mod_bound(ai, di);
            let q = ai / di;
            let r = ai % di;
            let rb = bi % di;
            assert(q == -ki - 1) by (nonlinear_arith)
                requires
                    bi == di * ki + rb,
                    0 <= rb < di,
                    ai == -bi - 1,
                    ai == di * q + r,
                    0 <= r < di,
            ;
        }
        -(k as i64) - 1
    }
}

/// The wall clock in whole seconds since the Unix epoch.
pub(crate) fn unix_now_secs() -> i64 {
    floor_div(unix_now_millis(), 1000)
}

/// The UTC day number of a Unix timestamp.
pub fn utc_day(ts: i64) -> (day: i64)
    ensures
        day == utc_day_of(ts as int),
{
    floor_div(ts, SECONDS_PER_DAY)
}

/// The abstract state of a budget.
pub struct BudgetView {
    pub limit: nat,
    pub used: nat,
    pub day: int,
}

/// The state after reconciling `v` with day `today`: a new day starts from zero.
pub open spec fn reconciled(v: BudgetView, today: int) -> BudgetView {
    if today == v.day {
        v
    } else {
        BudgetView { limit: v.limit, used: 0, day: today }
    }
}

/// The state after one recorded call on day `today`; the count stops at the
/// largest `u32`.
pub open spec fn after_call(v: BudgetView, today: int) -> BudgetView {
    let r = reconciled(v, today);
    BudgetView {
        limit: r.limit,
        used: if r.used < u32::MAX { r.used + 1 } else { r.used },
        day: today,
    }
}

/// Whether a call recorded on day `today` is within the limit.
pub open spec fn call_within(v: BudgetView, today: int) -> bool {
    reconciled(v, today).used < v.limit
}

/// Calls left on day `today`, never below zero.
pub open spec fn remaining_of(v: BudgetView, today: int) -> nat {
    let r = reconciled(v, today);
    if r.used < r.limit {
        (r.limit - r.used) as nat
    } else {
        0
    }
}

/// The state after `k` calls in a row on day `today`.
pub open spec fn after_calls(v: BudgetView, today: int, k: nat) -> BudgetView
    decreases k,
{
    if k == 0 {
        reconciled(v, today)
    } else {
        after_call(after_calls(v, today, (k - 1) as nat), today)
    }
}

/// Tracks daily usage of a metered API with a reset at UTC day boundaries.
pub struct ApiCallBudget {
    daily_limit: u32,
    calls_today: u32,
    current_day: i64,
}

impl View for ApiCallBudget {
    type V = BudgetView;

    closed spec fn view(&self) -> BudgetView {
        BudgetView {
            limit: self.daily_limit as nat,
            used: self.calls_today as nat,
            day: self.current_day as int,
        }
    }
}

impl ApiCallBudget {
    /// Fits in the machine counters.
    pub closed spec fn wf(&self) -> bool {
        &&& self@.limit <= u32::MAX
        &&& self@.used <= u32::MAX
        &&& i64::MIN <= self@.day <= i64::MAX
    }

    /// A budget of `daily_limit` calls, with nothing used, dated today.
    pub fn new(daily_limit: u32) -> (b: Self)
        ensures
            b.wf(),
            b@.limit == daily_limit,
            b@.used == 0,
    {
        Self::new_on(daily_limit, utc_day(unix_now_secs()))
    }

    /// A budget of `daily_limit` calls, with nothing used, dated `today`.
    pub fn new_on(daily_limit: u32, today: i64) -> (b: Self)
        ensures
            b.wf(),
            b@ == (BudgetView { limit: daily_limit as nat, used: 0, day: today as int }),
    {
        ApiCallBudget { daily_limit, calls_today: 0, current_day: today }
    }

    /// Starts a new count if `today` differs from the stored day.
    pub fn maybe_reset_on(&mut self, today: i64)
        requires
            old(self).wf(),
        ensures
            final(self).wf(),
            final(self)@ == reconciled(old(self)@, today as int),
    {
        if today != self.current_day {
            self.current_day = today;
            self.calls_today = 0;
        }
    }

    /// Records one call on day `today`; true when it was within the limit.
    /// The call is counted either way.
    pub fn record_call_on(&mut self, today: i64) -> (within: bool)
        requires
            old(self).wf(),
        ensures
            final(self).wf(),
            within == call_within(old(self)@, today as int),
            final(self)@ == after_call(old(self)@, today as int),
    {
        self.maybe_reset_on(today);
        let prev = self.calls_today;
        self.calls_today = prev.saturating_add(1);
        prev < self.daily_limit
    }

    /// Calls left on day `today`.
    pub fn remaining_on(&mut self, today: i64) -> (left: u32)
        requires
            old(self).wf(),
        ensures
            final(self).wf(),
            final(self)@ == reconciled(old(self)@, today as int),
            left == remaining_of(old(self)@, today as int),
    {
        self.maybe_reset_on(today);
        self.daily_limit.saturating_sub(self.calls_today)
    }

    /// Calls recorded on day `today`.
    pub fn used_today_on(&mut self, today: i64) -> (used: u32)
        requires
            old(self).wf(),
        ensures
            final(self).wf(),
            final(self)@ == reconciled(old(self)@, today as int),
            used == reconciled(old(self)@, today as int).used,
    {
        self.maybe_reset_on(today);
        self.calls_today
    }

    /// Starts a new count if the UTC day has changed since the stored day.
    pub fn maybe_reset(&mut self)
        requires
            old(self).wf(),
        ensures
            final(self).wf(),
            exists|today: int| final(self)@ == reconciled(old(self)@, today),
    {
        let today = utc_day(unix_now_secs());
        self.maybe_reset_on(today);
    }

    /// Records one call now; true when it was within today's limit.
    pub fn record_call(&mut self) -> (within: bool)
        requires
            old(self).wf(),
        ensures
            final(self).wf(),
            exists|today: int|
                within == call_within(old(self)@, today) && final(self)@ == after_call(
                    old(self)@,
                    today,
                ),
    {
        let today = utc_day(unix_now_secs());
        self.record_call_on(today)
    }

    /// Calls left today.
    pub fn remaining(&mut self) -> (left: u32)
        requires
            old(self).wf(),
        ensures
            final(self).wf(),
            exists|today: int|
                left == remaining_of(old(self)@, today) && final(self)@ == reconciled(
                    old(self)@,
                    today,
                ),
    {
        let today = utc_day(unix_now_secs());
        self.remaining_on(today)
    }

    /// Calls recorded today.
    pub fn used_today(&mut self) -> (used: u32)
        requires
            old(self).wf(),
        ensures
            final(self).wf(),
            exists|today: int|
                used == reconciled(old(self)@, today).used && final(self)@ == reconciled(
                    old(self)@,
                    today,
                ),
    {
        let today = utc_day(unix_now_secs());
        self.used_today_on(today)
    }
}

/// For every limit: on one day, a fresh budget accepts exactly `limit` calls,
/// refuses the next one, and then has nothing remaining.
pub proof fn lemma_exact_limit(v: BudgetView, today: int)
    requires
        v.used == 0,
        v.limit <= u32::MAX,
    ensures
        forall|k: nat| k < v.limit ==> #[trigger] call_within(after_calls(v, today, k), today),
        after_calls(v, today, v.limit).used == v.limit,
        !call_within(after_calls(v, today, v.limit), today),
        remaining_of(after_calls(v, today, v.limit), today) == 0,
{
    lemma_calls_count(v, today, v.limit);
    assert forall|k: nat| k < v.limit implies #[trigger] call_within(
        after_calls(v, today, k),
        today,
    ) by {
        lemma_calls_count(v, today, k);
    }
}

/// After `k` calls on one day from an empty count, `k` calls are counted.
proof fn lemma_calls_count(v: BudgetView, today: int, k: nat)
    requires
        v.used == 0,
        k <= u32::MAX,
    ensures
        after_calls(v, today, k).used == k,
        after_calls(v, today, k).day == today,
        after_calls(v, today, k).limit == v.limit,
    decreases k,
{
    if k > 0 {
        lemma_calls_count(v, today, (k - 1) as nat);
    }
}

/// The count goes back to zero once per change of day: the first access on a
/// new day resets it, and later accesses on that day do not reset it again.
pub proof fn lemma_reset_once_per_day(v: BudgetView, today: int)
    ensures
        today != v.day ==> reconciled(v, today).used == 0,
        reconciled(v, today).day == today,
        reconciled(reconciled(v, today), today) == reconciled(v, today),
        reconciled(after_call(v, today), today) == after_call(v, today),
{
}

} // verus!
