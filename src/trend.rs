//! Daily history summaries and the trend computed over them.
//!
//! Measurements are fixed-point integers in hundredths of their unit
//! (1523 stands for 15.23 degrees).
use vstd::prelude::*;
use vstd::string::*;
use crate::text::{int_numeral, push_int, push_text};

verus! {

/// The most days a trend is computed over; keeps the sums within `i128`.
pub const MAX_TREND_DAYS: usize = 1048576;

/// A slope above this many hundredths per day is a rising trend (0.1 unit/day).
pub const TREND_THRESHOLD: i128 = 10;

/// One day of aggregated history.
pub struct DailyHistorySummary {
    pub date: String,
    pub temp_min: i64,
    pub temp_max: i64,
    pub temp_avg: i64,
    pub humidity_avg: i64,
    pub wind_speed_avg: i64,
    pub precipitation_total: i64,
    pub dominant_condition: Option<String>,
}

/// An extreme value and the day it was seen.
pub struct TrendExtreme {
    pub value: i64,
    pub date: String,
}

/// Statistics over a run of days.
pub struct TrendSummary {
    pub avg_temp: i64,
    pub temp_trend: String,
    pub max_temp: TrendExtreme,
    pub min_temp: TrendExtreme,
    pub total_precipitation: i64,
    pub avg_humidity: i64,
}

/// `a / b` rounded to the nearest integer, halves away from zero.
pub open spec fn div_round(a: int, b: int) -> int {
    if a >= 0 {
        (2 * a + b) / (2 * b)
    } else {
        -((-2 * a + b) / (2 * b))
    }
}

/// `a / b` rounded toward zero, as Rust's integer division does.
pub open spec fn div_trunc(a: int, b: int) -> int {
    if a >= 0 {
        a / b
    } else {
        -((-a) / b)
    }
}

/// The daily average temperatures.
pub open spec fn avg_temps(days: Seq<DailyHistorySummary>) -> Seq<int> {
    Seq::new(days.len(), |i: int| days[i].temp_avg as int)
}

/// The daily average humidities.
pub open spec fn avg_humidities(days: Seq<DailyHistorySummary>) -> Seq<int> {
    Seq::new(days.len(), |i: int| days[i].humidity_avg as int)
}

/// The daily precipitation totals.
pub open spec fn precipitations(days: Seq<DailyHistorySummary>) -> Seq<int> {
    Seq::new(days.len(), |i: int| days[i].precipitation_total as int)
}

/// Sum of the first `k` values.
pub open spec fn sum_of(ys: Seq<int>, k: nat) -> int
    decreases k,
{
    if k == 0 {
        0
    } else {
        sum_of(ys, (k - 1) as nat) + ys[k - 1]
    }
}

/// Sum of `i * ys[i]` over the first `k` values.
pub open spec fn weighted_sum_of(ys: Seq<int>, k: nat) -> int
    decreases k,
{
    if k == 0 {
        0
    } else {
        weighted_sum_of(ys, (k - 1) as nat) + (k - 1) * ys[k - 1]
    }
}

/// Sum of the day indices `0 .. k`.
pub open spec fn index_sum(k: nat) -> int
    decreases k,
{
    if k == 0 {
        0
    } else {
        index_sum((k - 1) as nat) + (k - 1)
    }
}

/// Sum of the squared day indices `0 .. k`.
pub open spec fn index_square_sum(k: nat) -> int
    decreases k,
{
    if k == 0 {
        0
    } else {
        index_square_sum((k - 1) as nat) + (k - 1) * (k - 1)
    }
}

/// Numerator of the least-squares slope of `ys` against the day index.
pub open spec fn slope_numerator(ys: Seq<int>) -> int {
    let n = ys.len();
    n * weighted_sum_of(ys, n) - index_sum(n) * sum_of(ys, n)
}

/// Denominator of the least-squares slope over `n` days.
pub open spec fn slope_denominator(n: nat) -> int {
    n * index_square_sum(n) - index_sum(n) * index_sum(n)
}

/// The trend of a run of daily averages: rising when the least-squares slope
/// is above the threshold, falling when below its negation, else stable.
/// Fewer than two days are stable.
pub open spec fn trend_label(ys: Seq<int>) -> Seq<char> {
    if ys.len() < 2 {
        "stable"@
    } else if slope_numerator(ys) > TREND_THRESHOLD * slope_denominator(ys.len()) {
        "rising"@
    } else if slope_numerator(ys) < -(TREND_THRESHOLD * slope_denominator(ys.len())) {
        "falling"@
    } else {
        "stable"@
    }
}

/// `i` is the last day holding the highest `temp_max`.
pub open spec fn is_last_max(days: Seq<DailyHistorySummary>, i: int) -> bool {
    &&& 0 <= i < days.len()
    &&& forall|j: int| 0 <= j < days.len() ==> days[j].temp_max <= days[i].temp_max
    &&& forall|j: int| i < j < days.len() ==> days[j].temp_max < days[i].temp_max
}

/// `i` is the first day holding the lowest `temp_min`.
pub open spec fn is_first_min(days: Seq<DailyHistorySummary>, i: int) -> bool {
    &&& 0 <= i < days.len()
    &&& forall|j: int| 0 <= j < days.len() ==> days[i].temp_min <= days[j].temp_min
    &&& forall|j: int| 0 <= j < i ==> days[i].temp_min < days[j].temp_min
}

pub open spec fn i64_bound() -> int {
    0x8000_0000_0000_0000
}

pub open spec fn within_i64(ys: Seq<int>) -> bool {
    forall|i: int| 0 <= i < ys.len() ==> -i64_bound() <= #[trigger] ys[i] < i64_bound()
}

proof fn lemma_quotient_bounds(x: int, d: int, lo: int, hi: int)
    requires
        d > 0,
        x >= 0,
        d * lo <= x,
        x < d * (hi + 1),
    ensures
        lo <= x / d <= hi,
{
    vstd::arithmetic::div_mod::lemma_fundamental_div_mod(x, d);
    vstd::arithmetic::div_mod::lemma_mod_pos_bound(x, d);
    let q = x / d;
    let r = x % d;
    assert(lo <= q <= hi) by (nonlinear_arith)
        requires
            x == d * q + r,
            0 <= r < d,
            d > 0,
            d * lo <= x,
            x < d * (hi + 1),
    ;
}

/// Bounds of the running sums, for `k` values that each fit in `i64`.
proof fn lemma_sum_bounds(ys: Seq<int>, k: nat)
    requires
        k <= ys.len(),
        within_i64(ys),
    ensures
        0 <= index_sum(k) <= k * k,
        0 <= index_square_sum(k) <= k * k * k,
        -(k * i64_bound()) <= sum_of(ys, k) <= k * i64_bound(),
        -(k * k * i64_bound()) <= weighted_sum_of(ys, k) <= k * k * i64_bound(),
    decreases k,
{
    if k > 0 {
        let j = (k - 1) as nat;
        lemma_sum_bounds(ys, j);
        let y = ys[j as int];
        let b = i64_bound();
        let s = index_sum(j);
        let q = index_square_sum(j);
        let w = weighted_sum_of(ys, j);
        assert(0 <= s + j <= k * k) by (nonlinear_arith)
            requires
                0 <= s <= j * j,
                k == j + 1,
        ;
        assert(0 <= q + j * j <= k * k * k) by (nonlinear_arith)
            requires
                0 <= q <= j * j * j,
                k == j + 1,
        ;
        assert(-(k * k * b) <= w + j * y <= k * k * b) by (nonlinear_arith)
            requires
                -(j * j * b) <= w <= j * j * b,
                -b <= y < b,
                k == j + 1,
                b > 0,
        ;
        assert(-(k * b) <= sum_of(ys, j) + y <= k * b) by (nonlinear_arith)
            requires
                -(j * b) <= sum_of(ys, j) <= j * b,
                -b <= y < b,
                k == j + 1,
        ;
    }
}

/// `div_round(a, n)` of a sum of `n` values that fit in `i64` fits in `i64`.
proof fn lemma_div_round_fits(a: int, n: int)
    requires
        n > 0,
        -(n * i64_bound()) <= a <= n * (i64_bound() - 1),
    ensures
        -i64_bound() <= div_round(a, n) < i64_bound(),
{
    let b = i64_bound();
    if a >= 0 {
        assert(2 * n * 0 <= 2 * a + n);
        assert(2 * a + n < 2 * n * (b - 1 + 1)) by (nonlinear_arith)
            requires
                a <= n * (b - 1),
                n > 0,
        ;
        lemma_quotient_bounds(2 * a + n, 2 * n, 0, b - 1);
    } else {
        assert(-2 * a + n < 2 * n * (b + 1)) by (nonlinear_arith)
            requires
                -a <= n * b,
                n > 0,
        ;
        lemma_quotient_bounds(-2 * a + n, 2 * n, 0, b);
    }
}

/// `a / b` rounded to the nearest integer, halves away from zero.
pub(crate) fn rounded_quotient(a: i128, b: i128) -> (r: i128)
    requires
        b > 0,
        -0x1000_0000_0000_0000_0000_0000_0000 <= a <= 0x1000_0000_0000_0000_0000_0000_0000,
        b <= 0x1000_0000_0000_0000_0000_0000_0000,
    ensures
        r == div_round(a as int, b as int),
{
    let d = 2 * (b as u128);
    if a >= 0 {
        let x = 2 * (a as u128) + (b as u128);
        (x / d) as i128
    } else {
        let x = 2 * ((-a) as u128) + (b as u128);
        proof {
            lemma_quotient_bounds(x as int, d as int, 0, 0x1000_0000_0000_0000_0000_0000_0000);
        }
        -((x / d) as i128)
    }
}

/// Rounds a value in thousandths to hundredths, halves away from zero.
pub fn round_2(val: i64) -> (r: i64)
    ensures
        r == div_round(val as int, 10),
{
    proof {
        lemma_div_round_fits(val as int, 10);
    }
    rounded_quotient(val as i128, 10) as i64
}

/// The length of a period as whole days followed by `d` ("7d").
pub fn format_period(start_ts: i64, end_ts: i64) -> (r: String)
    ensures
        r@ == int_numeral(div_trunc(end_ts - start_ts, 86400)) + "d"@,
{
    let span = end_ts as i128 - start_ts as i128;
    let days: i64 = if span >= 0 {
        ((span as u128) / 86400) as i64
    } else {
        -((((-span) as u128) / 86400) as i64)
    };
    let mut s = String::new();
    push_int(&mut s, days);
    push_text(&mut s, "d");
    s
}

/// A daily measurement that is summed over a run of days.
#[derive(PartialEq, Eq, Structural, Clone, Copy)]
enum Measure {
    TempAvg,
    HumidityAvg,
    Precipitation,
}

spec fn measures(days: Seq<DailyHistorySummary>, m: Measure) -> Seq<int> {
    match m {
        Measure::TempAvg => avg_temps(days),
        Measure::HumidityAvg => avg_humidities(days),
        Measure::Precipitation => precipitations(days),
    }
}

/// Sum of one measurement over all days.
fn sum_measure(days: &Vec<DailyHistorySummary>, m: Measure) -> (s: i128)
    requires
        days.len() <= MAX_TREND_DAYS,
    ensures
        s == sum_of(measures(days@, m), days.len() as nat),
{
    let ghost ys = measures(days@, m);
    assert(within_i64(ys));
    let mut s: i128 = 0;
    let mut i: usize = 0;
    while i < days.len()
        invariant
            i <= days.len() <= MAX_TREND_DAYS,
            ys.len() == days.len(),
            within_i64(ys),
            s == sum_of(ys, i as nat),
            ys == measures(days@, m),
        decreases days.len() - i,
    {
        proof {
            lemma_sum_bounds(ys, (i + 1) as nat);
            assert((i + 1) * i64_bound() <= 0x1000_0000_0000_0000_0000_0000_0000) by (
            nonlinear_arith)
                requires
                    i + 1 <= 1048576,
            ;
        }
        let d = &days[i];
        let v: i64 = match m {
            Measure::TempAvg => d.temp_avg,
            Measure::HumidityAvg => d.humidity_avg,
            Measure::Precipitation => d.precipitation_total,
        };
        s = s + v as i128;
        i = i + 1;
    }
    s
}

/// Classifies the daily average temperatures as "rising", "falling" or
/// "stable" by the least-squares slope against the day index.
pub fn compute_trend_direction(days: &Vec<DailyHistorySummary>) -> (r: String)
    requires
        days.len() <= MAX_TREND_DAYS,
    ensures
        r@ == trend_label(avg_temps(days@)),
{
    let ghost ys = avg_temps(days@);
    let n = days.len();
    if n < 2 {
        return String::from_str("stable");
    }
    assert(within_i64(ys));
    let mut i: usize = 0;
    let mut sx: i128 = 0;
    let mut sy: i128 = 0;
    let mut sxy: i128 = 0;
    let mut sx2: i128 = 0;
    while i < n
        invariant
            n == days.len() <= MAX_TREND_DAYS,
            i <= n,
            ys == avg_temps(days@),
            within_i64(ys),
            sx == index_sum(i as nat),
            sx2 == index_square_sum(i as nat),
            sy == sum_of(ys, i as nat),
            sxy == weighted_sum_of(ys, i as nat),
        decreases n - i,
    {
        proof {
            lemma_sum_bounds(ys, (i + 1) as nat);
            let k = (i + 1) as int;
            let b = i64_bound();
            assert(k * k * k <= 0x1_0000_0000_0000_0000 && k * k * b
                <= 0x1_0000_0000_0000_0000_0000_0000_0000 && k * b
                <= 0x1_0000_0000_0000_0000_0000_0000_0000) by (nonlinear_arith)
                requires
                    k <= 1048576,
                    k >= 0,
                    b == 0x8000_0000_0000_0000,
            ;
            assert(-b <= ys[i as int] < b);
            assert(i * i <= 0x1_0000_0000_0000) by (nonlinear_arith)
                requires
                    i <= 1048576,
            ;
            assert(-(0x10_0000 * b) <= i * ys[i as int] <= 0x10_0000 * b) by (nonlinear_arith)
                requires
                    0 <= i <= 1048576,
                    -b <= ys[i as int] < b,
            ;
        }
        let y = days[i].temp_avg as i128;
        let x = i as i128;
        sx = sx + x;
        sy = sy + y;
        sxy = sxy + x * y;
        sx2 = sx2 + x * x;
        i = i + 1;
    }
    let nn = n as i128;
    proof {
        lemma_sum_bounds(ys, n as nat);
        let k = n as int;
        let b = i64_bound();
        assert(-(k * (k * k * b)) <= k * sxy <= k * (k * k * b)) by (nonlinear_arith)
            requires
                -(k * k * b) <= sxy <= k * k * b,
                0 <= k,
        ;
        lemma_cube_bound(k);
        assert(k * (k * k * b) == (k * k * k) * b) by (nonlinear_arith);
        assert((k * k * k) * b <= 0x800_0000_0000_0000_0000_0000_0000_0000) by (nonlinear_arith)
            requires
                0 <= k * k * k <= 0x1000_0000_0000_0000,
                b == 0x8000_0000_0000_0000,
        ;
        assert(-((k * k) * (k * b)) <= sx * sy <= (k * k) * (k * b)) by (nonlinear_arith)
            requires
                0 <= sx <= k * k,
                -(k * b) <= sy <= k * b,
                0 <= k,
        ;
        assert((k * k) * (k * b) == (k * k * k) * b) by (nonlinear_arith);
        assert(0 <= k * sx2 <= k * (k * k * k) && k * (k * k * k) <= 0x1_0000_0000_0000_0000_0000)
            by (nonlinear_arith)
            requires
                0 <= sx2 <= k * k * k,
                0 <= k <= 1048576,
        ;
        assert(0 <= sx * sx <= (k * k) * (k * k) && (k * k) * (k * k)
            <= 0x1_0000_0000_0000_0000_0000) by (nonlinear_arith)
            requires
                0 <= sx <= k * k,
                0 <= k <= 1048576,
        ;
    }
    let num = nn * sxy - sx * sy;
    let den = nn * sx2 - sx * sx;
    assert(-0x1_0000_0000_0000_0000_0000 <= den <= 0x1_0000_0000_0000_0000_0000);
    if num > TREND_THRESHOLD * den {
        String::from_str("rising")
    } else if num < -(TREND_THRESHOLD * den) {
        String::from_str("falling")
    } else {
        String::from_str("stable")
    }
}

/// Index of the last day with the highest `temp_max`.
fn last_max_index(days: &Vec<DailyHistorySummary>) -> (i: usize)
    requires
        days.len() > 0,
    ensures
        is_last_max(days@, i as int),
{
    let mut best: usize = 0;
    let mut k: usize = 1;
    while k < days.len()
        invariant
            0 <= best < k <= days.len(),
            forall|j: int| 0 <= j < k ==> days@[j].temp_max <= days@[best as int].temp_max,
            forall|j: int| best < j < k ==> days@[j].temp_max < days@[best as int].temp_max,
        decreases days.len() - k,
    {
        if days[k].temp_max >= days[best].temp_max {
            best = k;
        }
        k = k + 1;
    }
    best
}

/// Index of the first day with the lowest `temp_min`.
fn first_min_index(days: &Vec<DailyHistorySummary>) -> (i: usize)
    requires
        days.len() > 0,
    ensures
        is_first_min(days@, i as int),
{
    let mut best: usize = 0;
    let mut k: usize = 1;
    while k < days.len()
        invariant
            0 <= best < k <= days.len(),
            forall|j: int| 0 <= j < k ==> days@[best as int].temp_min <= days@[j].temp_min,
            forall|j: int| 0 <= j < best ==> days@[best as int].temp_min < days@[j].temp_min,
        decreases days.len() - k,
    {
        if days[k].temp_min < days[best].temp_min {
            best = k;
        }
        k = k + 1;
    }
    best
}

/// Summary statistics over a run of days: mean temperature and humidity
/// (rounded to the nearest hundredth), the trend, the extremes with their
/// dates, and the total precipitation. No days give an all-zero summary
/// with a stable trend.
pub fn compute_trend_summary(days: &Vec<DailyHistorySummary>) -> (s: TrendSummary)
    requires
        days.len() <= MAX_TREND_DAYS,
        i64::MIN <= sum_of(precipitations(days@), days.len() as nat) <= i64::MAX,
    ensures
        s.temp_trend@ == trend_label(avg_temps(days@)),
        days.len() == 0 ==> {
            &&& s.avg_temp == 0
            &&& s.avg_humidity == 0
            &&& s.total_precipitation == 0
            &&& s.max_temp.value == 0 && s.max_temp.date@.len() == 0
            &&& s.min_temp.value == 0 && s.min_temp.date@.len() == 0
        },
        days.len() > 0 ==> {
            let n = days.len() as int;
            &&& s.avg_temp == div_round(sum_of(avg_temps(days@), n as nat), n)
            &&& s.avg_humidity == div_round(sum_of(avg_humidities(days@), n as nat), n)
            &&& s.total_precipitation == sum_of(precipitations(days@), n as nat)
            &&& exists|i: int|
                is_last_max(days@, i) && s.max_temp.value == days@[i].temp_max
                    && s.max_temp.date@ == days@[i].date@
            &&& exists|i: int|
                is_first_min(days@, i) && s.min_temp.value == days@[i].temp_min
                    && s.min_temp.date@ == days@[i].date@
        },
{
    let temp_trend = compute_trend_direction(days);
    if days.len() == 0 {
        return TrendSummary {
            avg_temp: 0,
            temp_trend,
            max_temp: TrendExtreme { value: 0, date: String::new() },
            min_temp: TrendExtreme { value: 0, date: String::new() },
            total_precipitation: 0,
            avg_humidity: 0,
        };
    }
    let n = days.len() as i128;
    let temp_sum = sum_measure(days, Measure::TempAvg);
    let humidity_sum = sum_measure(days, Measure::HumidityAvg);
    let precipitation_sum = sum_measure(days, Measure::Precipitation);
    proof {
        let k = days.len() as nat;
        let b = i64_bound();
        assert(within_i64(avg_temps(days@)));
        assert(within_i64(avg_humidities(days@)));
        assert(within_i64(precipitations(days@)));
        lemma_sum_bounds(avg_temps(days@), k);
        lemma_sum_bounds(avg_humidities(days@), k);
        lemma_sum_bounds(precipitations(days@), k);
        assert(k * b <= 0x1000_0000_0000_0000_0000_0000_0000) by (nonlinear_arith)
            requires
                k <= 1048576,
                b == 0x8000_0000_0000_0000,
        ;
        lemma_sum_upper(avg_temps(days@), k);
        lemma_sum_upper(avg_humidities(days@), k);
        lemma_div_round_fits(temp_sum as int, k as int);
        lemma_div_round_fits(humidity_sum as int, k as int);
    }
    let avg_temp = rounded_quotient(temp_sum, n) as i64;
    let avg_humidity = rounded_quotient(humidity_sum, n) as i64;
    let hi = last_max_index(days);
    let lo = first_min_index(days);
    assert(is_last_max(days@, hi as int));
    assert(is_first_min(days@, lo as int));
    TrendSummary {
        avg_temp,
        temp_trend,
        max_temp: TrendExtreme { value: days[hi].temp_max, date: days[hi].date.clone() },
        min_temp: TrendExtreme { value: days[lo].temp_min, date: days[lo].date.clone() },
        total_precipitation: precipitation_sum as i64,
        avg_humidity,
    }
}

proof fn lemma_cube_bound(k: int)
    requires
        0 <= k <= 1048576,
    ensures
        0 <= k * k <= 0x100_0000_0000,
        0 <= k * k * k <= 0x1000_0000_0000_0000,
{
    assert(0 <= k * k <= 0x100_0000_0000) by (nonlinear_arith)
        requires
            0 <= k <= 1048576,
    ;
    assert(0 <= (k * k) * k <= 0x100_0000_0000 * 1048576) by (nonlinear_arith)
        requires
            0 <= k * k <= 0x100_0000_0000,
            0 <= k <= 1048576,
    ;
}

/// A sum of `k` values below the `i64` bound is at most `k` times its largest value.
proof fn lemma_sum_upper(ys: Seq<int>, k: nat)
    requires
        k <= ys.len(),
        within_i64(ys),
    ensures
        sum_of(ys, k) <= k * (i64_bound() - 1),
    decreases k,
{
    if k > 0 {
        lemma_sum_upper(ys, (k - 1) as nat);
        assert(ys[k - 1] <= i64_bound() - 1);
        assert(k * (i64_bound() - 1) == (k - 1) * (i64_bound() - 1) + (i64_bound() - 1))
            by (nonlinear_arith);
    }
}

} // verus!
