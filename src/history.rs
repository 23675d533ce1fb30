//! Hourly weather history kept per (city, timestamp, units), and the
//! detection of the hourly buckets that are still missing.
//!
//! Measurements are fixed-point integers: temperatures and speeds in
//! hundredths, coordinates in millionths of a degree.
use vstd::prelude::*;

verus! {

/// Seconds between two history buckets.
pub const BUCKET_SECS: i64 = 3600;

/// One observation for a city at one instant.
pub struct HistoryRecord {
    pub city: String,
    pub lat: i64,
    pub lon: i64,
    pub timestamp: i64,
    pub temperature: i64,
    pub feels_like: i64,
    pub humidity: i32,
    pub pressure: i32,
    pub wind_speed: i64,
    pub wind_direction: Option<i32>,
    pub clouds: Option<i32>,
    pub visibility: Option<i32>,
    pub description: Option<String>,
    pub icon: Option<String>,
    pub rain_1h: Option<i64>,
    pub snow_1h: Option<i64>,
    pub units: String,
    pub fetched_at: i64,
}

/// The natural key of a record.
pub open spec fn record_key(r: HistoryRecord) -> (Seq<char>, int, Seq<char>) {
    (r.city@, r.timestamp as int, r.units@)
}

/// Whether `s` holds a record under `key`.
pub open spec fn holds_key(s: Seq<HistoryRecord>, key: (Seq<char>, int, Seq<char>)) -> bool {
    exists|i: int| 0 <= i < s.len() && record_key(#[trigger] s[i]) == key
}

/// No two records of `s` share a key.
pub open spec fn keys_unique(s: Seq<HistoryRecord>) -> bool {
    forall|i: int, j: int|
        0 <= i < s.len() && 0 <= j < s.len() && i != j ==> record_key(#[trigger] s[i])
            != record_key(#[trigger] s[j])
}

/// `s` after inserting `r`, which is ignored when its key is already present.
pub open spec fn insert_ignoring(s: Seq<HistoryRecord>, r: HistoryRecord) -> Seq<HistoryRecord> {
    if holds_key(s, record_key(r)) {
        s
    } else {
        s.push(r)
    }
}

/// `s` after inserting the first `k` records of `batch` in order.
pub open spec fn insert_all(s: Seq<HistoryRecord>, batch: Seq<HistoryRecord>, k: nat) -> Seq<
    HistoryRecord,
>
    decreases k,
{
    if k == 0 {
        s
    } else {
        insert_ignoring(insert_all(s, batch, (k - 1) as nat), batch[k - 1])
    }
}

/// The timestamp of bucket `k` from `start`.
pub open spec fn bucket_at(start: int, step: int, k: int) -> int {
    start + k * step
}

/// How many buckets `start, start + step, ...` lie at or before `end`.
pub open spec fn bucket_count(start: int, end: int, step: int) -> nat {
    if end < start {
        0
    } else {
        ((end - start) / step + 1) as nat
    }
}

/// The buckets among the first `k` that `existing` does not hold, in order.
pub open spec fn missing_upto(existing: Seq<i64>, start: int, step: int, k: nat) -> Seq<i64>
    decreases k,
{
    if k == 0 {
        seq![]
    } else {
        let t = bucket_at(start, step, k - 1);
        let before = missing_upto(existing, start, step, (k - 1) as nat);
        if existing.contains(t as i64) {
            before
        } else {
            before.push(t as i64)
        }
    }
}

/// The buckets in `[start, end]` at `step` seconds apart that `existing` does not hold.
pub open spec fn missing_buckets(existing: Seq<i64>, start: int, end: int, step: int) -> Seq<i64> {
    missing_upto(existing, start, step, bucket_count(start, end, step))
}

/// The buckets among the first `k` for which `s` holds no record of this city and units.
pub open spec fn store_missing_upto(
    s: Seq<HistoryRecord>,
    city: Seq<char>,
    units: Seq<char>,
    start: int,
    step: int,
    k: nat,
) -> Seq<i64>
    decreases k,
{
    if k == 0 {
        seq![]
    } else {
        let t = bucket_at(start, step, k - 1);
        let before = store_missing_upto(s, city, units, start, step, (k - 1) as nat);
        if holds_key(s, (city, t, units)) {
            before
        } else {
            before.push(t as i64)
        }
    }
}

proof fn lemma_missing_agree(
    existing: Seq<i64>,
    s: Seq<HistoryRecord>,
    city: Seq<char>,
    units: Seq<char>,
    start: int,
    end: int,
    step: int,
    k: nat,
)
    requires
        step > 0,
        start <= end,
        k <= bucket_count(start, end, step),
        i64::MIN <= start,
        end <= i64::MAX,
        forall|t: i64|
            existing.contains(t) <==> (start <= t <= end && holds_key(s, (city, t as int, units))),
    ensures
        missing_upto(existing, start, step, k) == store_missing_upto(s, city, units, start, step, k),
    decreases k,
{
    if k > 0 {
        lemma_missing_agree(existing, s, city, units, start, end, step, (k - 1) as nat);
        lemma_bucket_in_range(start, end, step, k - 1);
        let t = bucket_at(start, step, k - 1);
        assert(existing.contains(t as i64) <==> holds_key(s, (city, t, units)));
    }
}

/// Whether `v` holds `x`.
pub fn contains_timestamp(v: &Vec<i64>, x: i64) -> (r: bool)
    ensures
        r == v@.contains(x),
{
    let mut i: usize = 0;
    while i < v.len()
        invariant
            i <= v.len(),
            forall|j: int| 0 <= j < i ==> v@[j] != x,
        decreases v.len() - i,
    {
        if v[i] == x {
            return true;
        }
        i = i + 1;
    }
    false
}

proof fn lemma_bucket_in_range(start: int, end: int, step: int, k: int)
    requires
        step > 0,
        start <= end,
        0 <= k < bucket_count(start, end, step),
    ensures
        start <= bucket_at(start, step, k) <= end,
{
    let q = (end - start) / step;
    vstd::arithmetic::div_mod::lemma_fundamental_div_mod(end - start, step);
    vstd::arithmetic::div_mod::lemma_mod_pos_bound(end - start, step);
    assert(start <= start + k * step <= end) by (nonlinear_arith)
        requires
            step > 0,
            0 <= k <= q,
            end - start == step * q + (end - start) % step,
            0 <= (end - start) % step,
    ;
}

proof fn lemma_past_last_bucket(start: int, end: int, step: int)
    requires
        step > 0,
        start <= end,
    ensures
        bucket_at(start, step, bucket_count(start, end, step) as int) > end,
{
    let q = (end - start) / step;
    vstd::arithmetic::div_mod::lemma_fundamental_div_mod(end - start, step);
    vstd::arithmetic::div_mod::lemma_mod_pos_bound(end - start, step);
    assert(start + (q + 1) * step > end) by (nonlinear_arith)
        requires
            step > 0,
            end - start == step * q + (end - start) % step,
            (end - start) % step < step,
    ;
}

/// The timestamps `start, start + interval, ...` up to `end` that are not
/// in `existing`, in increasing order.
pub fn missing_timestamps(existing: &Vec<i64>, start_ts: i64, end_ts: i64, interval_secs: i64) -> (r:
    Vec<i64>)
    requires
        interval_secs > 0,
    ensures
        r@ == missing_buckets(existing@, start_ts as int, end_ts as int, interval_secs as int),
{
    let ghost n = bucket_count(start_ts as int, end_ts as int, interval_secs as int);
    let mut missing: Vec<i64> = Vec::new();
    if end_ts < start_ts {
        return missing;
    }
    let mut ts: i128 = start_ts as i128;
    let ghost mut k: nat = 0;
    while ts <= end_ts as i128
        invariant
            interval_secs > 0,
            start_ts <= end_ts,
            k <= n,
            n == bucket_count(start_ts as int, end_ts as int, interval_secs as int),
            ts == bucket_at(start_ts as int, interval_secs as int, k as int),
            k < n ==> ts <= end_ts,
            k == n ==> ts > end_ts,
            missing@ == missing_upto(existing@, start_ts as int, interval_secs as int, k),
        decreases n - k,
    {
        proof {
            if k == n {
                assert(false);
            }
            lemma_bucket_in_range(start_ts as int, end_ts as int, interval_secs as int, k as int);
        }
        let t = ts as i64;
        if !contains_timestamp(existing, t) {
            missing.push(t);
        }
        ts = ts + interval_secs as i128;
        proof {
            k = k + 1;
            assert(ts == bucket_at(start_ts as int, interval_secs as int, k as int)) by (
            nonlinear_arith)
                requires
                    ts == bucket_at(start_ts as int, interval_secs as int, (k - 1) as int)
                        + interval_secs,
            ;
            if k < n {
                lemma_bucket_in_range(start_ts as int, end_ts as int, interval_secs as int, k as int);
            } else {
                lemma_past_last_bucket(start_ts as int, end_ts as int, interval_secs as int);
            }
        }
    }
    missing
}

/// Weather history held in memory; no two records share a natural key.
pub struct HistoryStore {
    records: Vec<HistoryRecord>,
}

impl View for HistoryStore {
    type V = Seq<HistoryRecord>;

    closed spec fn view(&self) -> Seq<HistoryRecord> {
        self.records@
    }
}

impl HistoryStore {
    pub open spec fn wf(&self) -> bool {
        keys_unique(self@)
    }

    /// An empty store.
    pub fn new() -> (s: Self)
        ensures
            s.wf(),
            s@ == Seq::<HistoryRecord>::empty(),
    {
        HistoryStore { records: Vec::new() }
    }

    /// The records held, in insertion order.
    pub fn records(&self) -> (r: &Vec<HistoryRecord>)
        ensures
            r@ == self@,
    {
        &self.records
    }

    /// Number of records held.
    pub fn len(&self) -> (n: usize)
        ensures
            n == self@.len(),
    {
        self.records.len()
    }

    fn position(&self, city: &String, timestamp: i64, units: &String) -> (r: Option<usize>)
        ensures
            r is Some ==> r->0 < self@.len() && record_key(self@[r->0 as int]) == (
                city@,
                timestamp as int,
                units@,
            ),
            r is None ==> !holds_key(self@, (city@, timestamp as int, units@)),
    {
        let mut i: usize = 0;
        while i < self.records.len()
            invariant
                i <= self@.len(),
                self@ == self.records@,
                forall|j: int|
                    0 <= j < i ==> record_key(#[trigger] self@[j]) != (
                        city@,
                        timestamp as int,
                        units@,
                    ),
            decreases self.records.len() - i,
        {
            let r = &self.records[i];
            if r.timestamp == timestamp && r.city == *city && r.units == *units {
                return Some(i);
            }
            i = i + 1;
        }
        None
    }

    /// Whether a record is held for this city, instant and units.
    pub fn has_data(&self, city: &String, timestamp: i64, units: &String) -> (r: bool)
        ensures
            r == holds_key(self@, (city@, timestamp as int, units@)),
    {
        self.position(city, timestamp, units).is_some()
    }

    /// Inserts the records in order, ignoring each whose key is already held
    /// (held records are never overwritten); returns how many were added.
    pub fn insert_batch(&mut self, records: Vec<HistoryRecord>) -> (inserted: usize)
        requires
            old(self).wf(),
        ensures
            final(self).wf(),
            final(self)@ == insert_all(old(self)@, records@, records@.len()),
            inserted == final(self)@.len() - old(self)@.len(),
    {
        let mut batch = records;
        let total = batch.len();
        let ghost all = batch@;
        let ghost start = self@;
        let mut inserted: usize = 0;
        let mut i: usize = 0;
        while batch.len() > 0
            invariant
                i + batch@.len() == all.len(),
                total == all.len(),
                inserted <= i,
                batch@ == all.subrange(i as int, all.len() as int),
                self.wf(),
                self@ == insert_all(start, all, i as nat),
                inserted == self@.len() - start.len(),
                self@.len() >= start.len(),
            decreases batch.len(),
        {
            let r = batch.remove(0);
            assert(r == all[i as int]);
            assert(batch@ =~= all.subrange(i + 1, all.len() as int));
            let found = self.position(&r.city, r.timestamp, &r.units);
            if found.is_none() {
                proof {
                    assert forall|a: int, b: int|
                        0 <= a < self@.len() + 1 && 0 <= b < self@.len() + 1 && a != b implies record_key(
                        #[trigger] self@.push(r)[a],
                    ) != record_key(#[trigger] self@.push(r)[b]) by {
                        if a == self@.len() as int {
                            assert(self@.push(r)[b] == self@[b]);
                        } else if b == self@.len() as int {
                            assert(self@.push(r)[a] == self@[a]);
                        }
                    }
                }
                self.records.push(r);
                inserted = inserted + 1;
            }
            i = i + 1;
        }
        assert(all.len() == i);
        inserted
    }

    /// Timestamps held for this city and units within `[start_ts, end_ts]`, in store order.
    pub fn existing_timestamps(&self, city: &String, start_ts: i64, end_ts: i64, units: &String) -> (r:
        Vec<i64>)
        ensures
            forall|t: i64|
                r@.contains(t) <==> (start_ts <= t <= end_ts && holds_key(
                    self@,
                    (city@, t as int, units@),
                )),
    {
        let mut out: Vec<i64> = Vec::new();
        let mut i: usize = 0;
        while i < self.records.len()
            invariant
                i <= self@.len(),
                self@ == self.records@,
                forall|k: int|
                    0 <= k < out@.len() ==> start_ts <= #[trigger] out@[k] <= end_ts && exists|
                        j: int,
                    |
                        0 <= j < i && record_key(#[trigger] self@[j]) == (
                            city@,
                            out@[k] as int,
                            units@,
                        ),
                forall|j: int|
                    0 <= j < i && start_ts <= (#[trigger] self@[j]).timestamp <= end_ts
                        && self@[j].city@ == city@ && self@[j].units@ == units@ ==> out@.contains(
                        self@[j].timestamp,
                    ),
            decreases self.records.len() - i,
        {
            let r = &self.records[i];
            if r.timestamp >= start_ts && r.timestamp <= end_ts && r.city == *city && r.units
                == *units {
                let ghost before = out@;
                out.push(r.timestamp);
                proof {
                    assert(out@[out@.len() - 1] == self@[i as int].timestamp);
                    assert forall|j: int|
                        0 <= j < i + 1 && start_ts <= (#[trigger] self@[j]).timestamp <= end_ts
                            && self@[j].city@ == city@ && self@[j].units@ == units@ implies out@.contains(
                        self@[j].timestamp,
                    ) by {
                        if j < i {
                            assert(before.contains(self@[j].timestamp));
                            let k = choose|k: int| 0 <= k < before.len() && before[k] == self@[j].timestamp;
                            assert(out@[k] == before[k]);
                        } else {
                            assert(out@[out@.len() - 1] == self@[j].timestamp);
                        }
                    }
                }
            }
            i = i + 1;
        }
        proof {
            assert forall|t: i64|
                out@.contains(t) <==> (start_ts <= t <= end_ts && holds_key(
                    self@,
                    (city@, t as int, units@),
                )) by {
                if out@.contains(t) {
                    let k = choose|k: int| 0 <= k < out@.len() && out@[k] == t;
                    assert(start_ts <= out@[k] <= end_ts);
                }
                if start_ts <= t <= end_ts && holds_key(self@, (city@, t as int, units@)) {
                    let j = choose|j: int|
                        0 <= j < self@.len() && record_key(#[trigger] self@[j]) == (
                            city@,
                            t as int,
                            units@,
                        );
                    assert(start_ts <= self@[j].timestamp <= end_ts);
                }
            }
        }
        out
    }

    /// The hourly-style buckets `start_ts, start_ts + interval_secs, ...` up to
    /// `end_ts` that hold no record for this city and units.
    pub fn get_missing_timestamps(
        &self,
        city: &String,
        start_ts: i64,
        end_ts: i64,
        interval_secs: i64,
        units: &String,
    ) -> (r: Vec<i64>)
        requires
            interval_secs > 0,
        ensures
            r@ == store_missing_upto(
                self@,
                city@,
                units@,
                start_ts as int,
                interval_secs as int,
                bucket_count(start_ts as int, end_ts as int, interval_secs as int),
            ),
    {
        let existing = self.existing_timestamps(city, start_ts, end_ts, units);
        let r = missing_timestamps(&existing, start_ts, end_ts, interval_secs);
        proof {
            if start_ts <= end_ts {
                lemma_missing_agree(
                    existing@,
                    self@,
                    city@,
                    units@,
                    start_ts as int,
                    end_ts as int,
                    interval_secs as int,
                    bucket_count(start_ts as int, end_ts as int, interval_secs as int),
                );
            }
        }
        r
    }
}

/// After a record is inserted its key is held, so inserting it again is a
/// no-op that adds nothing; a batch holding the same record twice adds it once.
pub proof fn lemma_insert_dedup(s: Seq<HistoryRecord>, r: HistoryRecord)
    ensures
        holds_key(insert_all(s, seq![r], 1), record_key(r)),
        insert_all(insert_all(s, seq![r], 1), seq![r], 1) == insert_all(s, seq![r], 1),
        insert_all(s, seq![r, r], 2) == insert_all(s, seq![r], 1),
        holds_key(s, record_key(r)) ==> insert_all(s, seq![r], 1) == s,
        !holds_key(s, record_key(r)) ==> insert_all(s, seq![r], 1).len() == s.len() + 1,
{
    let once = insert_all(s, seq![r], 1);
    assert(insert_all(s, seq![r], 0) == s);
    assert(once == insert_ignoring(s, r));
    if !holds_key(s, record_key(r)) {
        assert(once[s.len() as int] == r);
    }
    assert(holds_key(once, record_key(r)));
    assert(insert_all(once, seq![r], 0) == once);
    assert(insert_all(once, seq![r], 1) == insert_ignoring(once, r));
    assert(seq![r, r][0] == r);
    assert(seq![r, r][1] == r);
    assert(insert_all(s, seq![r, r], 0) == s);
    assert(insert_all(s, seq![r, r], 1) == insert_ignoring(s, r));
    assert(insert_all(s, seq![r, r], 2) == insert_ignoring(once, r));
}

/// With records at `t` and two hours later only, the hourly buckets from `t`
/// to two hours later miss exactly the one in between.
pub proof fn lemma_single_gap(t: i64)
    requires
        t <= i64::MAX - 7200,
    ensures
        missing_buckets(seq![t, (t + 7200) as i64], t as int, t + 7200, 3600) == seq![
            (t + 3600) as i64,
        ],
{
    let e = seq![t, (t + 7200) as i64];
    assert(bucket_count(t as int, t + 7200, 3600) == 3);
    assert(e.contains(t)) by {
        assert(e[0] == t);
    }
    assert(e.contains((t + 7200) as i64)) by {
        assert(e[1] == (t + 7200) as i64);
    }
    assert(!e.contains((t + 3600) as i64));
    assert(missing_upto(e, t as int, 3600, 0) == Seq::<i64>::empty());
    assert(missing_upto(e, t as int, 3600, 1) == Seq::<i64>::empty());
    assert(missing_upto(e, t as int, 3600, 2) == seq![(t + 3600) as i64]);
    assert(missing_upto(e, t as int, 3600, 3) == seq![(t + 3600) as i64]);
}

} // verus!
