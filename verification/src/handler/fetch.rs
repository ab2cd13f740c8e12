//! Reading the store: single deployments, blockers, outliers, cells.

use vstd::prelude::*;
use vstd::string::StringExecFns;
use crate::analytics::{analytics, series_of, summary_of, AnalyticsError};
use crate::blocking::{blockers_among, blockers_of, blocks, BlockingDeployment, BlockingView};
use crate::cli::Environment;
use crate::clock::Timestamp;
use crate::duration::{Duration, NANOS_PER_MICRO};
use crate::model::{
    clone_opt_text, opt_text_eq, Cell, CellView, Deployment, DeploymentState, DeploymentView,
    OutlierDeployment, OutlierView, StaleHeartbeatDeployment, StaleView,
};
use crate::order::{text_lt, text_order, Order};
use crate::store::{stale, Store};

verus! {

/// The deployment with this id, if the store holds it.
pub fn deployment(store: &Store, deployment_id: i64) -> (r: Option<Deployment>)
    requires
        store.wf(),
    ensures
        match r {
            Some(d) => store@.get(deployment_id as int) == Some(d@),
            None => store@.get(deployment_id as int).is_none(),
        },
{
    store.get(deployment_id)
}

/// Whether the row carries this URL.
pub open spec fn has_url(d: DeploymentView, url: Seq<char>) -> bool {
    d.url == Some(url)
}

/// The id of the most recent deployment that carries `url`: the highest
/// id among them.
pub fn deployment_id_by_url(store: &Store, url: &str) -> (r: Option<i64>)
    requires
        store.wf(),
    ensures
        match r {
            Some(id) => {
                &&& exists|i: int|
                    0 <= i < store@.rows.len() && (#[trigger] store@.rows[i]).id == id && has_url(
                        store@.rows[i],
                        url@,
                    )
                &&& forall|i: int|
                    0 <= i < store@.rows.len() && has_url(#[trigger] store@.rows[i], url@)
                        ==> store@.rows[i].id <= id
            },
            None => forall|i: int|
                0 <= i < store@.rows.len() ==> !has_url(#[trigger] store@.rows[i], url@),
        },
{
    let wanted = Some(String::from_str(url));
    let total = store.len();
    let mut found: Option<i64> = None;
    let mut i: usize = 0;
    while i < total
        invariant
            i <= total,
            total == store@.rows.len(),
            store.wf(),
            crate::model::opt_text(wanted) == Some(url@),
            match found {
                Some(id) => {
                    &&& exists|k: int|
                        0 <= k < i && (#[trigger] store@.rows[k]).id == id && has_url(
                            store@.rows[k],
                            url@,
                        )
                    &&& forall|k: int|
                        0 <= k < i && has_url(#[trigger] store@.rows[k], url@) ==> store@.rows[k].id
                            <= id
                },
                None => forall|k: int| 0 <= k < i ==> !has_url(#[trigger] store@.rows[k], url@),
            },
        decreases total - i,
    {
        let row = store.row(i);
        if opt_text_eq(&row.url, &wanted) {
            proof {
                assert forall|k: int| 0 <= k < i implies (#[trigger] store@.rows[k]).id
                    <= row.id by {
                    assert(store@.rows[k].id < store@.rows[i as int].id);
                }
                assert(store@.rows[i as int].id == row.id && has_url(store@.rows[i as int], url@));
            }
            found = Some(row.id);
        }
        i += 1;
    }
    found
}

/// A blocker with the typical duration of its series in the table `all`
/// at `now`, where the series has a history.
pub open spec fn joined(all: Seq<DeploymentView>, d: DeploymentView, now: int) -> Result<
    BlockingView,
    AnalyticsError,
> {
    match summary_of(all, series_of(d.component, d.cell), now) {
        Ok(Some((_, avg, deviation))) => Ok(
            BlockingView {
                deployment: d,
                avg_duration: Some(avg * NANOS_PER_MICRO),
                stddev_duration: Some(deviation * NANOS_PER_MICRO),
            },
        ),
        Ok(None) => Ok(BlockingView { deployment: d, avg_duration: None, stddev_duration: None }),
        Err(e) => Err(e),
    }
}

/// Whether `d` keeps `c` waiting at `now`.
fn blocks_row(d: &Deployment, c: &Deployment, now: Timestamp) -> (r: bool)
    ensures
        r == blocks(d@, c@, now@),
{
    if d.id >= c.id || !d.cell.same_as(&c.cell) {
        return false;
    }
    let apart = d.concurrency_key.is_none() || c.concurrency_key.is_none() || !opt_text_eq(
        &d.concurrency_key,
        &c.concurrency_key,
    );
    if !apart || d.cancellation_timestamp.is_some() {
        return false;
    }
    match d.finish_timestamp {
        Some(finish) => d.buffer_time.exceeds(&now.since(&finish)),
        None => true,
    }
}

/// The row as a blocker, with the typical duration of its series.
fn join(store: &Store, row: &Deployment, now: Timestamp) -> (r: Result<
    BlockingDeployment,
    AnalyticsError,
>)
    requires
        store.wf(),
    ensures
        match r {
            Ok(b) => joined(store@.rows, row@, now@) == Ok::<BlockingView, AnalyticsError>(b@),
            Err(e) => joined(store@.rows, row@, now@) == Err::<BlockingView, AnalyticsError>(e),
        },
{
    match analytics(store, row.component.as_str(), &row.cell, now) {
        Ok(Some(a)) => Ok(
            BlockingDeployment {
                deployment: row.clone(),
                avg_duration: Some(a.avg_duration),
                stddev_duration: Some(a.stddev_duration),
            },
        ),
        Ok(None) => Ok(
            BlockingDeployment { deployment: row.clone(), avg_duration: None, stddev_duration: None },
        ),
        Err(e) => Err(e),
    }
}

/// The deployments that keep the deployment `deployment_id` waiting at
/// `now`, by ascending id, each with the typical duration of its series.
///
/// The answer fails where the history of one of them cannot be summed up.
pub fn blocking_deployments(store: &Store, deployment_id: i64, now: Timestamp) -> (r: Result<
    Vec<BlockingDeployment>,
    AnalyticsError,
>)
    requires
        store.wf(),
    ensures
        match r {
            Ok(v) => {
                let expected = blockers_of(store@, deployment_id as int, now@);
                &&& v@.len() == expected.len()
                &&& forall|k: int|
                    0 <= k < v@.len() ==> joined(store@.rows, #[trigger] expected[k], now@) == Ok::<
                        BlockingView,
                        AnalyticsError,
                    >(v@[k]@)
            },
            Err(e) => exists|k: int|
                0 <= k < blockers_of(store@, deployment_id as int, now@).len() && joined(
                    store@.rows,
                    #[trigger] blockers_of(store@, deployment_id as int, now@)[k],
                    now@,
                ) == Err::<BlockingView, AnalyticsError>(e),
        },
{
    let mut out: Vec<BlockingDeployment> = Vec::new();
    let candidate = match store.get(deployment_id) {
        Some(c) => c,
        None => {
            return Ok(out);
        },
    };
    let ghost all = store@.rows;
    let ghost c = candidate@;
    let total = store.len();
    let mut i: usize = 0;
    while i < total
        invariant
            i <= total,
            total == all.len(),
            all == store@.rows,
            store.wf(),
            c == candidate@,
            store@.get(deployment_id as int) == Some(c),
            out@.len() == blockers_among(all.take(i as int), c, now@).len(),
            forall|k: int|
                0 <= k < out@.len() ==> joined(
                    all,
                    #[trigger] blockers_among(all.take(i as int), c, now@)[k],
                    now@,
                ) == Ok::<BlockingView, AnalyticsError>(out@[k]@),
        decreases total - i,
    {
        proof {
            assert(all.take(i as int + 1).drop_last() =~= all.take(i as int));
            assert(all.take(i as int + 1).last() == all[i as int]);
        }
        let row = store.row(i);
        if blocks_row(row, &candidate, now) {
            match join(store, row, now) {
                Ok(b) => {
                    out.push(b);
                },
                Err(e) => {
                    proof {
                        crate::blocking::lemma_blockers_complete(all, c, now@, i as int);
                        let found = blockers_among(all, c, now@);
                        let k = choose|k: int| 0 <= k < found.len() && found[k] == all[i as int];
                        assert(joined(all, found[k], now@) == Err::<BlockingView, AnalyticsError>(e));
                    }
                    return Err(e);
                },
            }
        }
        i += 1;
    }
    proof {
        assert(all.take(i as int) =~= all);
    }
    Ok(out)
}

/// Whether the running time of `d` at `now` is beyond what the history of
/// its series in the table `all` suggests: the deployment is running, the
/// series has a history, and the deployment has run longer than the mean
/// and twice the deviation together.
pub open spec fn is_outlier(all: Seq<DeploymentView>, d: DeploymentView, now: int) -> bool {
    d.state() == DeploymentState::Running && match summary_of(
        all,
        series_of(d.component, d.cell),
        now,
    ) {
        Ok(Some((_, avg, deviation))) => now - d.start_timestamp.unwrap() > avg + 2 * deviation,
        _ => false,
    }
}

/// Whether `d` is running and the history of its series cannot be summed up.
pub open spec fn outlier_unknown(all: Seq<DeploymentView>, d: DeploymentView, now: int) -> bool {
    d.state() == DeploymentState::Running && summary_of(
        all,
        series_of(d.component, d.cell),
        now,
    ).is_err()
}

/// What is reported of the outlier `d`.
pub open spec fn outlier_of(all: Seq<DeploymentView>, d: DeploymentView, now: int) -> OutlierView {
    let summary = summary_of(all, series_of(d.component, d.cell), now).unwrap().unwrap();
    OutlierView {
        id: d.id,
        env: d.cell.environment,
        cloud_provider: d.cell.cloud_provider,
        region: d.cell.region,
        cell_index: d.cell.index,
        component: d.component,
        url: d.url,
        note: d.note,
        version: d.version,
        current_duration: (now - d.start_timestamp.unwrap()) * NANOS_PER_MICRO,
        avg_duration: summary.1 * NANOS_PER_MICRO,
        stddev_duration: summary.2 * NANOS_PER_MICRO,
    }
}

/// Those of `rows` that are outliers at `now`, in the order of `rows`.
pub open spec fn outliers_among(rows: Seq<DeploymentView>, all: Seq<DeploymentView>, now: int)
    -> Seq<DeploymentView>
    decreases rows.len(),
{
    if rows.len() == 0 {
        Seq::empty()
    } else {
        let rest = outliers_among(rows.drop_last(), all, now);
        if is_outlier(all, rows.last(), now) {
            rest.push(rows.last())
        } else {
            rest
        }
    }
}

/// The running deployments that take far longer than their history
/// suggests, by ascending id.
///
/// The answer fails where the history of a running deployment cannot be
/// summed up.
pub fn outlier_deployments(store: &Store, now: Timestamp) -> (r: Result<
    Vec<OutlierDeployment>,
    AnalyticsError,
>)
    requires
        store.wf(),
    ensures
        r.is_err() <==> exists|i: int|
            0 <= i < store@.rows.len() && outlier_unknown(
                store@.rows,
                #[trigger] store@.rows[i],
                now@,
            ),
        match r {
            Ok(v) => {
                let expected = outliers_among(store@.rows, store@.rows, now@);
                &&& v@.len() == expected.len()
                &&& forall|k: int|
                    0 <= k < v@.len() ==> (#[trigger] v@[k])@ == outlier_of(
                        store@.rows,
                        expected[k],
                        now@,
                    )
            },
            Err(_) => true,
        },
{
    let ghost all = store@.rows;
    let mut out: Vec<OutlierDeployment> = Vec::new();
    let total = store.len();
    let mut i: usize = 0;
    while i < total
        invariant
            i <= total,
            total == all.len(),
            all == store@.rows,
            store.wf(),
            forall|k: int| 0 <= k < i ==> !outlier_unknown(all, #[trigger] all[k], now@),
            out@.len() == outliers_among(all.take(i as int), all, now@).len(),
            forall|k: int|
                0 <= k < out@.len() ==> (#[trigger] out@[k])@ == outlier_of(
                    all,
                    outliers_among(all.take(i as int), all, now@)[k],
                    now@,
                ),
        decreases total - i,
    {
        proof {
            assert(all.take(i as int + 1).drop_last() =~= all.take(i as int));
            assert(all.take(i as int + 1).last() == all[i as int]);
        }
        let row = store.row(i);
        match (row.state(), row.start_timestamp) {
            (DeploymentState::Running, Some(start)) => {
                match analytics(store, row.component.as_str(), &row.cell, now) {
                    Ok(Some(a)) => {
                        let current = now.since(&start);
                        let limit: i128 = a.avg_duration.whole_nanoseconds() + 2
                            * a.stddev_duration.whole_nanoseconds();
                        if current.whole_nanoseconds() > limit {
                            out.push(
                                OutlierDeployment {
                                    id: row.id,
                                    env: row.cell.environment.clone(),
                                    cloud_provider: row.cell.cloud_provider.clone(),
                                    region: row.cell.region.clone(),
                                    cell_index: row.cell.index,
                                    component: row.component.clone(),
                                    url: clone_opt_text(&row.url),
                                    note: clone_opt_text(&row.note),
                                    version: clone_opt_text(&row.version),
                                    current_duration: current,
                                    avg_duration: a.avg_duration,
                                    stddev_duration: a.stddev_duration,
                                },
                            );
                        }
                    },
                    Ok(None) => {},
                    Err(e) => {
                        assert(outlier_unknown(all, all[i as int], now@));
                        return Err(e);
                    },
                }
            },
            _ => {},
        }
        i += 1;
    }
    proof {
        assert(all.take(i as int) =~= all);
    }
    Ok(out)
}

/// What is reported of the stale deployment `d` at `now`.
pub open spec fn stale_of(d: DeploymentView, now: int) -> StaleView {
    StaleView {
        id: d.id,
        component: d.component,
        version: d.version,
        heartbeat_timestamp: d.heartbeat_timestamp.unwrap(),
        time_since_heartbeat: (now - d.heartbeat_timestamp.unwrap()) * NANOS_PER_MICRO,
    }
}

/// Those of `rows` whose heartbeat is stale at `now`, in the order of `rows`.
pub open spec fn stale_among(rows: Seq<DeploymentView>, now: int, timeout: int) -> Seq<
    DeploymentView,
>
    decreases rows.len(),
{
    if rows.len() == 0 {
        Seq::empty()
    } else {
        let rest = stale_among(rows.drop_last(), now, timeout);
        if stale(rows.last(), now, timeout) {
            rest.push(rows.last())
        } else {
            rest
        }
    }
}

/// The running deployments whose last sign of life at `now` is more than
/// `timeout` old, by ascending id.
pub fn stale_heartbeat_deployments(store: &Store, timeout: Duration, now: Timestamp) -> (r: Vec<
    StaleHeartbeatDeployment,
>)
    ensures
        r@.len() == stale_among(store@.rows, now@, timeout@).len(),
        forall|k: int|
            0 <= k < r@.len() ==> (#[trigger] r@[k])@ == stale_of(
                stale_among(store@.rows, now@, timeout@)[k],
                now@,
            ),
{
    let ghost all = store@.rows;
    let mut out: Vec<StaleHeartbeatDeployment> = Vec::new();
    let total = store.len();
    let mut i: usize = 0;
    while i < total
        invariant
            i <= total,
            total == all.len(),
            all == store@.rows,
            out@.len() == stale_among(all.take(i as int), now@, timeout@).len(),
            forall|k: int|
                0 <= k < out@.len() ==> (#[trigger] out@[k])@ == stale_of(
                    stale_among(all.take(i as int), now@, timeout@)[k],
                    now@,
                ),
        decreases total - i,
    {
        proof {
            assert(all.take(i as int + 1).drop_last() =~= all.take(i as int));
            assert(all.take(i as int + 1).last() == all[i as int]);
        }
        let row = store.row(i);
        match (row.state(), row.heartbeat_timestamp) {
            (DeploymentState::Running, Some(seen)) => {
                let since = now.since(&seen);
                if since.exceeds(&timeout) {
                    out.push(
                        StaleHeartbeatDeployment {
                            id: row.id,
                            component: row.component.clone(),
                            version: clone_opt_text(&row.version),
                            heartbeat_timestamp: seen,
                            time_since_heartbeat: since,
                        },
                    );
                }
            },
            _ => {},
        }
        i += 1;
    }
    proof {
        assert(all.take(i as int) =~= all);
    }
    out
}

/// Whether the cell `a` comes before the cell `b` in listings: by cloud
/// provider, then by region, then by index.
pub open spec fn cell_lt(a: CellView, b: CellView) -> bool {
    text_lt(a.cloud_provider, b.cloud_provider) || (a.cloud_provider == b.cloud_provider && (
    text_lt(a.region, b.region) || (a.region == b.region && a.index < b.index)))
}

/// What comes before a cell that comes before a third comes before the
/// third.
pub proof fn lemma_cell_lt_transitive(a: CellView, b: CellView, c: CellView)
    requires
        cell_lt(a, b),
        cell_lt(b, c),
    ensures
        cell_lt(a, c),
{
    if text_lt(a.cloud_provider, b.cloud_provider) && text_lt(b.cloud_provider, c.cloud_provider) {
        crate::order::lemma_text_lt_transitive(a.cloud_provider, b.cloud_provider, c.cloud_provider);
    }
    if text_lt(a.region, b.region) && text_lt(b.region, c.region) {
        crate::order::lemma_text_lt_transitive(a.region, b.region, c.region);
    }
}

/// How the cell `a` stands to the cell `b` in listings of one environment.
fn cell_order(a: &Cell, b: &Cell) -> (r: Order)
    requires
        a@.environment == b@.environment,
    ensures
        r == Order::Before <==> cell_lt(a@, b@),
        r == Order::Same <==> a@ == b@,
        r == Order::After <==> cell_lt(b@, a@),
{
    proof {
        crate::order::lemma_text_lt_total(a@.cloud_provider, b@.cloud_provider);
        crate::order::lemma_text_lt_total(a@.region, b@.region);
        crate::order::lemma_text_lt_irreflexive(a@.cloud_provider);
        crate::order::lemma_text_lt_irreflexive(a@.region);
    }
    match text_order(a.cloud_provider.as_str(), b.cloud_provider.as_str()) {
        Order::Before => Order::Before,
        Order::After => Order::After,
        Order::Same => match text_order(a.region.as_str(), b.region.as_str()) {
            Order::Before => Order::Before,
            Order::After => Order::After,
            Order::Same => {
                if a.index < b.index {
                    Order::Before
                } else if a.index > b.index {
                    Order::After
                } else {
                    Order::Same
                }
            },
        },
    }
}

/// The cells as plain values.
pub open spec fn cells_view(cells: Seq<Cell>) -> Seq<CellView> {
    Seq::new(cells.len(), |i: int| cells[i]@)
}

/// Whether the cells come in the order of listings, none of them twice.
pub open spec fn cells_ascending(v: Seq<CellView>) -> bool {
    forall|a: int, b: int| 0 <= a < b < v.len() ==> cell_lt(#[trigger] v[a], #[trigger] v[b])
}

/// Whether one of the first `upto` of `rows` targets the cell `c`.
pub open spec fn targeted(rows: Seq<DeploymentView>, upto: int, c: CellView) -> bool {
    exists|k: int| 0 <= k < upto && (#[trigger] rows[k]).cell == c
}

/// Whether `v` lists the cells that the first `upto` of `rows` target in
/// the environment called `environment`: each of these cells once, no
/// other cell, in the order of listings.
pub open spec fn lists_cells(
    v: Seq<CellView>,
    rows: Seq<DeploymentView>,
    environment: Seq<char>,
    upto: int,
) -> bool {
    &&& cells_ascending(v)
    &&& forall|a: int|
        0 <= a < v.len() ==> (#[trigger] v[a]).environment == environment && targeted(
            rows,
            upto,
            v[a],
        )
    &&& forall|k: int|
        0 <= k < upto && (#[trigger] rows[k]).cell.environment == environment ==> v.contains(
            rows[k].cell,
        )
}

/// A listing of the cells of the first `i` rows, with the cell of the
/// next row put in at its place, lists the cells of the first `i + 1` rows.
proof fn lemma_listing_grows(
    old_v: Seq<CellView>,
    rows: Seq<DeploymentView>,
    environment: Seq<char>,
    i: int,
    p: int,
)
    requires
        0 <= i < rows.len(),
        0 <= p <= old_v.len(),
        lists_cells(old_v, rows, environment, i),
        rows[i].cell.environment == environment,
        forall|a: int| 0 <= a < p ==> cell_lt(#[trigger] old_v[a], rows[i].cell),
        forall|a: int| p <= a < old_v.len() ==> cell_lt(rows[i].cell, #[trigger] old_v[a]),
    ensures
        lists_cells(old_v.insert(p, rows[i].cell), rows, environment, i + 1),
{
    let c = rows[i].cell;
    let v = old_v.insert(p, c);
    assert(v[p] == c);
    assert forall|a: int, b: int| 0 <= a < b < v.len() implies cell_lt(
        #[trigger] v[a],
        #[trigger] v[b],
    ) by {
        if b < p {
            assert(cell_lt(old_v[a], old_v[b]));
        } else if b == p {
            assert(cell_lt(old_v[a], c));
        } else if a < p {
            assert(cell_lt(old_v[a], old_v[b - 1]));
        } else if a == p {
            assert(cell_lt(c, old_v[b - 1]));
        } else {
            assert(cell_lt(old_v[a - 1], old_v[b - 1]));
        }
    }
    assert forall|a: int| 0 <= a < v.len() implies (#[trigger] v[a]).environment == environment
        && targeted(rows, i + 1, v[a]) by {
        if a == p {
            assert(rows[i].cell == v[a]);
        } else {
            let a0 = if a < p {
                a
            } else {
                a - 1
            };
            assert(v[a] == old_v[a0]);
            assert(targeted(rows, i, old_v[a0]));
            let k = choose|k: int| 0 <= k < i && (#[trigger] rows[k]).cell == old_v[a0];
            assert(rows[k].cell == v[a]);
        }
    }
    assert forall|k: int|
        0 <= k < i + 1 && (#[trigger] rows[k]).cell.environment == environment implies v.contains(
        rows[k].cell,
    ) by {
        if k == i {
            assert(v[p] == rows[k].cell);
        } else {
            assert(old_v.contains(rows[k].cell));
            let a0 = choose|a: int| 0 <= a < old_v.len() && old_v[a] == rows[k].cell;
            if a0 < p {
                assert(v[a0] == rows[k].cell);
            } else {
                assert(v[a0 + 1] == rows[k].cell);
            }
        }
    }
}

/// A listing of the cells of the first `i` rows lists the cells of the
/// first `i + 1` rows where the next row targets another environment or a
/// cell that is listed.
proof fn lemma_listing_stays(
    v: Seq<CellView>,
    rows: Seq<DeploymentView>,
    environment: Seq<char>,
    i: int,
)
    requires
        0 <= i < rows.len(),
        lists_cells(v, rows, environment, i),
        rows[i].cell.environment != environment || v.contains(rows[i].cell),
    ensures
        lists_cells(v, rows, environment, i + 1),
{
    assert forall|a: int| 0 <= a < v.len() implies (#[trigger] v[a]).environment == environment
        && targeted(rows, i + 1, v[a]) by {
        assert(targeted(rows, i, v[a]));
        let k = choose|k: int| 0 <= k < i && (#[trigger] rows[k]).cell == v[a];
        assert(rows[k].cell == v[a]);
    }
}

/// Where `cell` stands among the cells: how many come before it, and
/// whether the cell at that place is the same.
fn locate_cell(cells: &Vec<Cell>, cell: &Cell) -> (r: (usize, bool))
    requires
        cells_ascending(cells_view(cells@)),
        forall|a: int|
            0 <= a < cells@.len() ==> (#[trigger] cells_view(cells@)[a]).environment
                == cell@.environment,
    ensures
        r.0 <= cells@.len(),
        forall|a: int| 0 <= a < r.0 ==> cell_lt(#[trigger] cells_view(cells@)[a], cell@),
        r.1 ==> r.0 < cells@.len() && cells_view(cells@)[r.0 as int] == cell@,
        !r.1 ==> forall|a: int|
            r.0 <= a < cells@.len() ==> cell_lt(cell@, #[trigger] cells_view(cells@)[a]),
{
    let ghost v = cells_view(cells@);
    let mut i: usize = 0;
    while i < cells.len()
        invariant
            i <= cells.len(),
            v == cells_view(cells@),
            cells_ascending(v),
            forall|a: int| 0 <= a < v.len() ==> (#[trigger] v[a]).environment == cell@.environment,
            forall|a: int| 0 <= a < i ==> cell_lt(#[trigger] v[a], cell@),
        decreases cells.len() - i,
    {
        assert(v[i as int] == cells@[i as int]@);
        match cell_order(&cells[i], cell) {
            Order::Before => {},
            Order::Same => {
                return (i, true);
            },
            Order::After => {
                proof {
                    assert forall|a: int| i <= a < v.len() implies cell_lt(
                        cell@,
                        #[trigger] v[a],
                    ) by {
                        if a > i {
                            lemma_cell_lt_transitive(cell@, v[i as int], v[a]);
                        }
                    }
                }
                return (i, false);
            },
        }
        i += 1;
    }
    (i, false)
}

/// The distinct cells that deployments in `environment` have targeted, by
/// cloud provider, region and index.
pub fn cells(store: &Store, environment: Environment) -> (r: Vec<Cell>)
    ensures
        lists_cells(cells_view(r@), store@.rows, environment.name(), store@.rows.len() as int),
{
    let ghost all = store@.rows;
    let name = environment.to_string();
    let mut out: Vec<Cell> = Vec::new();
    let total = store.len();
    let mut i: usize = 0;
    while i < total
        invariant
            i <= total,
            total == all.len(),
            all == store@.rows,
            name@ == environment.name(),
            lists_cells(cells_view(out@), all, name@, i as int),
        decreases total - i,
    {
        let row = store.row(i);
        let ghost old_v = cells_view(out@);
        if row.cell.environment == name {
            let (place, found) = locate_cell(&out, &row.cell);
            if !found {
                out.insert(place, row.cell.clone());
                proof {
                    assert(cells_view(out@) =~= old_v.insert(place as int, row.cell@));
                    lemma_listing_grows(old_v, all, name@, i as int, place as int);
                }
            } else {
                proof {
                    assert(old_v[place as int] == row.cell@);
                    lemma_listing_stays(old_v, all, name@, i as int);
                }
            }
        } else {
            proof {
                lemma_listing_stays(old_v, all, name@, i as int);
            }
        }
        i += 1;
    }
    out
}

} // verus!
