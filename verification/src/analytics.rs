//! Typical durations: for one component in one cell, how long the recent
//! deployments took and how much they differ.

use vstd::prelude::*;
use vstd::string::StringExecFns;
use crate::clock::Timestamp;
use crate::duration::{Duration, NANOS_PER_MICRO};
use crate::model::{Cell, CellView, Deployment, DeploymentView};
use crate::store::{Store, StoreView};

verus! {

/// The history holds at most this many deployments.
pub const WINDOW: usize = 100;

/// The history reaches ninety days back; this is their length in
/// microseconds.
pub const MAX_AGE_MICROS: i64 = 7_776_000_000_000;

/// One past the largest value whose square a `u128` holds: two to the
/// power of 64.
pub const ROOT_LIMIT: u128 = 18_446_744_073_709_551_616;

/// Whether `s` is the whole part of the square root of `q`.
pub open spec fn is_floor_sqrt(s: int, q: int) -> bool {
    0 <= s && s * s <= q < (s + 1) * (s + 1)
}

/// The whole part of the square root of `q`; zero for a negative `q`.
pub open spec fn floor_sqrt(q: int) -> int {
    if q < 0 {
        0
    } else {
        choose|s: int| is_floor_sqrt(s, q)
    }
}

/// Squaring keeps the order of numbers that are not negative.
proof fn lemma_square_monotone(a: int, b: int)
    requires
        0 <= a <= b,
    ensures
        a * a <= b * b,
{
    assert(a * a <= b * b) by (nonlinear_arith)
        requires
            0 <= a <= b,
    ;
}

/// A number has one whole square root only.
pub proof fn lemma_floor_sqrt_unique(s: int, q: int)
    requires
        is_floor_sqrt(s, q),
    ensures
        floor_sqrt(q) == s,
{
    assert(s * s >= 0) by (nonlinear_arith);
    let t = choose|t: int| is_floor_sqrt(t, q);
    if t < s {
        lemma_square_monotone(t + 1, s);
    }
    if s < t {
        lemma_square_monotone(s + 1, t);
    }
}

/// The whole part of the square root of `q`.
pub fn isqrt(q: u128) -> (r: u128)
    ensures
        r == floor_sqrt(q as int),
        is_floor_sqrt(r as int, q as int),
        r < ROOT_LIMIT,
{
    let mut lo: u128 = 0;
    let mut hi: u128 = ROOT_LIMIT;
    assert(ROOT_LIMIT * ROOT_LIMIT > u128::MAX);
    while hi - lo > 1
        invariant
            lo < hi <= ROOT_LIMIT,
            lo * lo <= q,
            q < hi * hi,
        decreases hi - lo,
    {
        let mid: u128 = lo + (hi - lo) / 2;
        assert(mid * mid <= u128::MAX) by (nonlinear_arith)
            requires
                0 <= mid <= 18_446_744_073_709_551_615,
        ;
        if mid * mid <= q {
            lo = mid;
        } else {
            hi = mid;
        }
    }
    proof {
        assert(hi == lo + 1);
        lemma_floor_sqrt_unique(lo as int, q as int);
    }
    lo
}

/// What a history is kept of: one component in one cell.
pub struct Series {
    pub component: Seq<char>,
    pub cell: CellView,
}

/// Whether `d` counts for the history of `series` at `now`: it belongs to
/// the series, has started and finished, is not cancelled, and finished no
/// more than ninety days ago.
pub open spec fn qualifies(d: DeploymentView, series: Series, now: int) -> bool {
    &&& d.component == series.component
    &&& d.cell == series.cell
    &&& d.cancellation_timestamp.is_none()
    &&& d.start_timestamp.is_some()
    &&& d.finish_timestamp.is_some()
    &&& d.finish_timestamp.unwrap() >= now - MAX_AGE_MICROS
}

/// Whether `e` is more recent than `d`: it finished later, or at the same
/// time with the higher id.
pub open spec fn newer(e: DeploymentView, d: DeploymentView) -> bool {
    e.finish_timestamp.unwrap() > d.finish_timestamp.unwrap() || (e.finish_timestamp.unwrap()
        == d.finish_timestamp.unwrap() && e.id > d.id)
}

/// How many of `rows` count for the history and are more recent than `d`.
pub open spec fn count_newer(rows: Seq<DeploymentView>, series: Series, now: int, d: DeploymentView)
    -> nat
    decreases rows.len(),
{
    if rows.len() == 0 {
        0
    } else {
        count_newer(rows.drop_last(), series, now, d) + if qualifies(rows.last(), series, now)
            && newer(rows.last(), d) {
            1nat
        } else {
            0nat
        }
    }
}

/// Whether `d` is in the history of `series` at `now`, given the whole
/// table `all`: it counts for the history, and fewer than a hundred
/// deployments that count are more recent.
pub open spec fn in_window(all: Seq<DeploymentView>, series: Series, now: int, d: DeploymentView)
    -> bool {
    qualifies(d, series, now) && count_newer(all, series, now, d) < WINDOW
}

/// The time that a finished deployment took, in microseconds.
pub open spec fn took(d: DeploymentView) -> int {
    d.finish_timestamp.unwrap() - d.start_timestamp.unwrap()
}

/// How many of `rows` are in the history.
pub open spec fn window_count(
    rows: Seq<DeploymentView>,
    all: Seq<DeploymentView>,
    series: Series,
    now: int,
) -> nat
    decreases rows.len(),
{
    if rows.len() == 0 {
        0
    } else {
        window_count(rows.drop_last(), all, series, now) + if in_window(
            all,
            series,
            now,
            rows.last(),
        ) {
            1nat
        } else {
            0nat
        }
    }
}

/// The time that those of `rows` that are in the history took together.
pub open spec fn window_sum(
    rows: Seq<DeploymentView>,
    all: Seq<DeploymentView>,
    series: Series,
    now: int,
) -> int
    decreases rows.len(),
{
    if rows.len() == 0 {
        0
    } else {
        window_sum(rows.drop_last(), all, series, now) + if in_window(
            all,
            series,
            now,
            rows.last(),
        ) {
            took(rows.last())
        } else {
            0
        }
    }
}

/// The sum of the squares of the times that those of `rows` that are in
/// the history took.
pub open spec fn window_sum_sq(
    rows: Seq<DeploymentView>,
    all: Seq<DeploymentView>,
    series: Series,
    now: int,
) -> int
    decreases rows.len(),
{
    if rows.len() == 0 {
        0
    } else {
        window_sum_sq(rows.drop_last(), all, series, now) + if in_window(
            all,
            series,
            now,
            rows.last(),
        ) {
            took(rows.last()) * took(rows.last())
        } else {
            0
        }
    }
}

/// The sample standard deviation of `n` values with the sum `sum` and the
/// sum of squares `sum_sq`, rounded down to a whole number; zero for fewer
/// than two values.
pub open spec fn spread(n: int, sum: int, sum_sq: int) -> int {
    if n < 2 {
        0
    } else {
        floor_sqrt(crate::blocking::at_least_zero(n * sum_sq - sum * sum) / (n * (n - 1)))
    }
}

/// Whether the standard deviation of such values is beyond what the
/// arithmetic at hand can tell.
pub open spec fn too_large(n: int, sum: int, sum_sq: int) -> bool {
    n >= 2 && (n * sum_sq > i128::MAX || sum * sum > i128::MAX)
}

/// The typical duration of the deployments of one series.
#[derive(Clone, Copy, Debug)]
pub struct Analytics {
    /// How many deployments the history holds.
    pub deployment_count: u64,
    /// Their mean duration, rounded down to the microsecond.
    pub avg_duration: Duration,
    /// The sample standard deviation of their durations, rounded down to
    /// the microsecond; zero for a single deployment.
    pub stddev_duration: Duration,
}

/// Why a history could not be summed up.
#[derive(Clone, Copy, Debug, PartialEq, Eq, Structural)]
pub enum AnalyticsError {
    /// The durations are too long for their deviation to be computed.
    Overflow,
}

/// What the history of `series` in the table `all` comes to at `now`:
/// nothing for an empty history, else count, mean and deviation in
/// microseconds, or the reason why there is none.
pub open spec fn summary_of(all: Seq<DeploymentView>, series: Series, now: int) -> Result<
    Option<(int, int, int)>,
    AnalyticsError,
> {
    let n = window_count(all, all, series, now) as int;
    let sum = window_sum(all, all, series, now);
    let sum_sq = window_sum_sq(all, all, series, now);
    if n == 0 {
        Ok(None)
    } else if too_large(n, sum, sum_sq) {
        Err(AnalyticsError::Overflow)
    } else {
        Ok(Some((n, sum / n, spread(n, sum, sum_sq))))
    }
}

/// Whether a summary says what `expected` says, count for count and
/// microsecond for microsecond.
pub open spec fn summary_matches(
    r: Result<Option<Analytics>, AnalyticsError>,
    expected: Result<Option<(int, int, int)>, AnalyticsError>,
) -> bool {
    match r {
        Ok(Some(a)) => match expected {
            Ok(Some((n, avg, deviation))) => {
                &&& a.deployment_count == n
                &&& a.avg_duration@ == avg * NANOS_PER_MICRO
                &&& a.stddev_duration@ == deviation * NANOS_PER_MICRO
            },
            _ => false,
        },
        Ok(None) => expected == Ok::<Option<(int, int, int)>, AnalyticsError>(None),
        Err(e) => expected == Err::<Option<(int, int, int)>, AnalyticsError>(e),
    }
}

/// Whether no two rows share an id.
pub open spec fn distinct_ids(rows: Seq<DeploymentView>) -> bool {
    forall|i: int, j: int|
        0 <= i < j < rows.len() ==> (#[trigger] rows[i]).id != (#[trigger] rows[j]).id
}

/// Among the first `k` rows, either none is in the history, or one of them
/// is the oldest of those that are.
proof fn lemma_oldest(all: Seq<DeploymentView>, series: Series, now: int, k: int) -> (o: int)
    requires
        distinct_ids(all),
        0 <= k <= all.len(),
    ensures
        o == -1 || 0 <= o < k,
        o == -1 ==> forall|j: int| 0 <= j < k ==> !in_window(all, series, now, #[trigger] all[j]),
        o != -1 ==> in_window(all, series, now, all[o]),
        o != -1 ==> forall|j: int|
            0 <= j < k && j != o && in_window(all, series, now, #[trigger] all[j]) ==> newer(
                all[j],
                all[o],
            ),
    decreases k,
{
    if k == 0 {
        -1
    } else {
        let before = lemma_oldest(all, series, now, k - 1);
        let row = all[k - 1];
        if !in_window(all, series, now, row) {
            before
        } else if before == -1 {
            k - 1
        } else if newer(row, all[before]) {
            before
        } else {
            assert(all[before].id != all[k - 1].id);
            assert(newer(all[before], row));
            assert forall|j: int|
                0 <= j < k && j != k - 1 && in_window(all, series, now, #[trigger] all[j]) implies newer(
                all[j],
                row,
            ) by {
                if j != before {
                    assert(newer(all[j], all[before]));
                }
            }
            k - 1
        }
    }
}

/// Where all rows of the history among the first `k`, but perhaps the row
/// at `o`, are more recent than the row at `o`, the history holds no more
/// of the first `k` than are more recent than that row, and one.
proof fn lemma_count_against_oldest(
    all: Seq<DeploymentView>,
    series: Series,
    now: int,
    k: int,
    o: int,
)
    requires
        0 <= k <= all.len(),
        0 <= o < all.len(),
        forall|j: int|
            0 <= j < k && j != o && in_window(all, series, now, #[trigger] all[j]) ==> newer(
                all[j],
                all[o],
            ),
    ensures
        window_count(all.take(k), all, series, now) <= count_newer(
            all.take(k),
            series,
            now,
            all[o],
        ) + if o < k {
            1nat
        } else {
            0nat
        },
    decreases k,
{
    if k > 0 {
        lemma_count_against_oldest(all, series, now, k - 1, o);
        assert(all.take(k).drop_last() =~= all.take(k - 1));
        assert(all.take(k).last() == all[k - 1]);
    }
}

/// Where none of the first `k` rows is in the history, the history holds
/// none of them.
proof fn lemma_count_none(all: Seq<DeploymentView>, series: Series, now: int, k: int)
    requires
        0 <= k <= all.len(),
        forall|j: int| 0 <= j < k ==> !in_window(all, series, now, #[trigger] all[j]),
    ensures
        window_count(all.take(k), all, series, now) == 0,
    decreases k,
{
    if k > 0 {
        lemma_count_none(all, series, now, k - 1);
        assert(all.take(k).drop_last() =~= all.take(k - 1));
        assert(all.take(k).last() == all[k - 1]);
    }
}

/// Of the first `k` rows no more are more recent than `d` than of all rows.
proof fn lemma_count_newer_prefix(
    all: Seq<DeploymentView>,
    series: Series,
    now: int,
    d: DeploymentView,
    k: int,
)
    requires
        0 <= k <= all.len(),
    ensures
        count_newer(all.take(k), series, now, d) <= count_newer(all, series, now, d),
    decreases all.len() - k,
{
    if k < all.len() {
        lemma_count_newer_prefix(all, series, now, d, k + 1);
        assert(all.take(k + 1).drop_last() =~= all.take(k));
    } else {
        assert(all.take(k) =~= all);
    }
}

/// The history never holds more than a hundred deployments, whichever
/// rows of the table one looks at.
pub proof fn lemma_window_bound(all: Seq<DeploymentView>, series: Series, now: int, k: int)
    requires
        distinct_ids(all),
        0 <= k <= all.len(),
    ensures
        window_count(all.take(k), all, series, now) <= WINDOW,
{
    let o = lemma_oldest(all, series, now, k);
    if o == -1 {
        lemma_count_none(all, series, now, k);
    } else {
        lemma_count_against_oldest(all, series, now, k, o);
        lemma_count_newer_prefix(all, series, now, all[o], k);
    }
}

/// In a sound table no two rows share an id.
pub proof fn lemma_wf_distinct_ids(s: StoreView)
    requires
        s.wf(),
    ensures
        distinct_ids(s.rows),
{
    assert forall|i: int, j: int| 0 <= i < j < s.rows.len() implies (#[trigger] s.rows[i]).id != (
    #[trigger] s.rows[j]).id by {
        assert(s.rows[i].id < s.rows[j].id);
    }
}

/// The longest time between two timestamps, in microseconds.
pub const LONGEST_MICROS: i64 = 631_107_417_599_999_999;

/// The series of one component in one cell.
pub open spec fn series_of(component: Seq<char>, cell: CellView) -> Series {
    Series { component, cell }
}

/// Whether `row` counts for the history of the series at `now`.
fn qualifies_row(row: &Deployment, component: &String, cell: &Cell, now: Timestamp) -> (r: bool)
    ensures
        r == qualifies(row@, series_of(component@, cell@), now@),
{
    if !(row.component == *component) || !row.cell.same_as(cell) {
        return false;
    }
    if row.cancellation_timestamp.is_some() || row.start_timestamp.is_none() {
        return false;
    }
    match row.finish_timestamp {
        Some(finish) => {
            let now_micros: i64 = now.unix_micros();
            finish.unix_micros() >= now_micros - MAX_AGE_MICROS
        },
        None => false,
    }
}

/// Whether `e` is more recent than `d`; both have finished.
fn newer_row(e: &Deployment, d: &Deployment) -> (r: bool)
    requires
        e@.finish_timestamp.is_some(),
        d@.finish_timestamp.is_some(),
    ensures
        r == newer(e@, d@),
{
    match (e.finish_timestamp, d.finish_timestamp) {
        (Some(a), Some(b)) => a.is_after(&b) || (a.unix_micros() == b.unix_micros() && e.id
            > d.id),
        _ => false,
    }
}

/// How many rows of the table count for the history and are more recent
/// than the row at `at`, which has finished.
fn rank(store: &Store, at: usize, component: &String, cell: &Cell, now: Timestamp) -> (r: usize)
    requires
        at < store@.rows.len(),
        store@.rows[at as int].finish_timestamp.is_some(),
    ensures
        r == count_newer(
            store@.rows,
            series_of(component@, cell@),
            now@,
            store@.rows[at as int],
        ),
{
    let ghost all = store@.rows;
    let ghost series = series_of(component@, cell@);
    let d = store.row(at);
    let total = store.len();
    let mut count: usize = 0;
    let mut i: usize = 0;
    while i < total
        invariant
            i <= total,
            total == all.len(),
            all == store@.rows,
            at < all.len(),
            d@ == all[at as int],
            d@.finish_timestamp.is_some(),
            series == series_of(component@, cell@),
            count <= i,
            count == count_newer(all.take(i as int), series, now@, d@),
        decreases total - i,
    {
        proof {
            assert(all.take(i as int + 1).drop_last() =~= all.take(i as int));
        }
        let e = store.row(i);
        if qualifies_row(e, component, cell, now) && newer_row(e, d) {
            count += 1;
        }
        i += 1;
    }
    proof {
        assert(all.take(i as int) =~= all);
    }
    count
}

/// A product of two numbers that are not negative stays within `m`
/// exactly where the first stays within the quotient of `m` by the second.
proof fn lemma_product_bound(a: int, b: int, m: int)
    requires
        0 <= a,
        0 < b,
        0 <= m,
    ensures
        a * b <= m <==> a <= m / b,
{
    vstd::arithmetic::div_mod::lemma_fundamental_div_mod(m, b);
    let q = m / b;
    let r = m % b;
    assert(0 <= r < b) by {
        vstd::arithmetic::div_mod::lemma_mod_bound(m, b);
    }
    if a <= q {
        assert(a * b <= q * b) by (nonlinear_arith)
            requires
                a <= q,
                0 < b,
        ;
        assert(b * q == q * b) by (nonlinear_arith);
    } else {
        assert(a * b >= (q + 1) * b) by (nonlinear_arith)
            requires
                a >= q + 1,
                0 < b,
        ;
        assert((q + 1) * b == b * q + b) by (nonlinear_arith);
    }
}

/// The history of one component in one cell, summed up at `now`: how many
/// deployments it holds, how long they took on average and how far they
/// differ; nothing where the history is empty.
pub fn analytics(store: &Store, component: &str, cell: &Cell, now: Timestamp) -> (r: Result<
    Option<Analytics>,
    AnalyticsError,
>)
    requires
        store.wf(),
    ensures
        summary_matches(r, summary_of(store@.rows, series_of(component@, cell@), now@)),
        window_count(store@.rows, store@.rows, series_of(component@, cell@), now@) <= WINDOW,
{
    let ghost all = store@.rows;
    let ghost series = series_of(component@, cell@);
    let component = String::from_str(component);
    let total = store.len();
    let mut n: u64 = 0;
    let mut sum: i128 = 0;
    let mut sum_sq: i128 = 0;
    let mut i: usize = 0;
    proof {
        lemma_wf_distinct_ids(store@);
    }
    while i < total
        invariant
            i <= total,
            total == all.len(),
            all == store@.rows,
            store.wf(),
            distinct_ids(all),
            series == series_of(component@, cell@),
            n == window_count(all.take(i as int), all, series, now@),
            sum == window_sum(all.take(i as int), all, series, now@),
            sum_sq == window_sum_sq(all.take(i as int), all, series, now@),
            n <= WINDOW,
            0 <= sum <= n * LONGEST_MICROS,
            0 <= sum_sq <= n * (LONGEST_MICROS * LONGEST_MICROS),
        decreases total - i,
    {
        proof {
            assert(all.take(i as int + 1).drop_last() =~= all.take(i as int));
            assert(all.take(i as int + 1).last() == all[i as int]);
            lemma_window_bound(all, series, now@, i as int + 1);
            assert(crate::store::timestamps_in_order(all[i as int]));
        }
        let row = store.row(i);
        if qualifies_row(row, &component, cell, now) {
            if rank(store, i, &component, cell, now) < WINDOW {
                match (row.start_timestamp, row.finish_timestamp) {
                    (Some(start), Some(finish)) => {
                        let d: i64 = finish.unix_micros() - start.unix_micros();
                        let wide: i128 = d as i128;
                        proof {
                            lemma_square_monotone(d as int, LONGEST_MICROS as int);
                            assert((n + 1) * LONGEST_MICROS == n * LONGEST_MICROS
                                + LONGEST_MICROS) by (nonlinear_arith);
                            assert((n + 1) * (LONGEST_MICROS * LONGEST_MICROS) == n * (
                            LONGEST_MICROS * LONGEST_MICROS) + LONGEST_MICROS * LONGEST_MICROS)
                                by (nonlinear_arith);
                            assert(n * (LONGEST_MICROS * LONGEST_MICROS) <= 100 * (LONGEST_MICROS
                                * LONGEST_MICROS)) by (nonlinear_arith)
                                requires
                                    n <= 100,
                            ;
                        }
                        n += 1;
                        sum += wide;
                        sum_sq += wide * wide;
                    },
                    _ => {},
                }
            }
        }
        i += 1;
    }
    proof {
        assert(all.take(i as int) =~= all);
    }
    if n == 0 {
        return Ok(None);
    }
    let count: i128 = n as i128;
    let avg: i128 = sum / count;
    proof {
        assert(n * LONGEST_MICROS <= 100 * LONGEST_MICROS) by (nonlinear_arith)
            requires
                n <= 100,
        ;
        lemma_product_bound(LONGEST_MICROS + 1, count as int, sum as int);
        assert((LONGEST_MICROS + 1) * count > n * LONGEST_MICROS) by (nonlinear_arith)
            requires
                count == n,
                n >= 1,
        ;
        assert(avg <= LONGEST_MICROS);
    }
    let avg_duration = Duration::microseconds(avg as i64);
    if n < 2 {
        return Ok(
            Some(Analytics { deployment_count: n, avg_duration, stddev_duration: Duration::zero() }),
        );
    }
    proof {
        lemma_product_bound(sum_sq as int, count as int, i128::MAX as int);
        assert(sum_sq * count == count * sum_sq) by (nonlinear_arith);
    }
    if sum_sq > i128::MAX / count {
        return Err(AnalyticsError::Overflow);
    }
    if sum > 0 {
        proof {
            lemma_product_bound(sum as int, sum as int, i128::MAX as int);
        }
        if sum > i128::MAX / sum {
            return Err(AnalyticsError::Overflow);
        }
    }
    let numerator: i128 = count * sum_sq - sum * sum;
    assert(2 <= count * (count - 1) <= 9900) by (nonlinear_arith)
        requires
            2 <= count <= 100,
    ;
    let divisor: i128 = count * (count - 1);
    let clipped: i128 = if numerator > 0 {
        numerator
    } else {
        0
    };
    let quotient: i128 = clipped / divisor;
    let root: u128 = isqrt(quotient as u128);
    proof {
        lemma_product_bound(quotient as int, divisor as int, clipped as int);
        assert(quotient * 2 <= clipped) by (nonlinear_arith)
            requires
                quotient * divisor <= clipped,
                divisor >= 2,
                quotient >= 0,
        ;
        if root >= 9_223_372_036_854_775_808 {
            lemma_square_monotone(9_223_372_036_854_775_808, root as int);
            assert(9_223_372_036_854_775_808int * 9_223_372_036_854_775_808int
                == 85_070_591_730_234_615_865_843_651_857_942_052_864int);
        }
    }
    let stddev_duration = Duration::microseconds(root as i64);
    Ok(Some(Analytics { deployment_count: n, avg_duration, stddev_duration }))
}

/// Only deployments that have finished and are not cancelled are in a
/// history, and a summary counts at most a hundred of them.
pub proof fn lemma_history_is_clean(
    all: Seq<DeploymentView>,
    series: Series,
    now: int,
    d: DeploymentView,
)
    requires
        distinct_ids(all),
    ensures
        in_window(all, series, now, d) ==> d.finish_timestamp.is_some()
            && d.start_timestamp.is_some() && d.cancellation_timestamp.is_none(),
        window_count(all, all, series, now) <= WINDOW,
        summary_of(all, series, now) matches Ok(Some(summary)) ==> 1 <= summary.0 <= WINDOW,
{
    lemma_window_bound(all, series, now, all.len() as int);
    assert(all.take(all.len() as int) =~= all);
}

/// A history of one deployment has the duration of that deployment as its
/// mean and no deviation.
pub proof fn lemma_single_deployment(all: Seq<DeploymentView>, series: Series, now: int)
    requires
        window_count(all, all, series, now) == 1,
    ensures
        summary_of(all, series, now) == Ok::<Option<(int, int, int)>, AnalyticsError>(
            Some((1, window_sum(all, all, series, now), 0)),
        ),
{
}

} // verus!
