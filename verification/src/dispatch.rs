//! One invocation of the queue: the verb of the command line, carried out
//! on the store.

use vstd::prelude::*;
use crate::analytics::AnalyticsError;
use crate::cli::{CancelTarget, HeartbeatTarget, ListEntity, Mode};
use crate::clock::Timestamp;
use crate::coordinator::lines_view;
use crate::handler;
use crate::handler::cancel::{location_selector, version_selector};
use crate::handler::fetch::{
    cells_view, has_url, lists_cells, outlier_of, outlier_unknown, outliers_among,
};
use crate::handler::list::listing_of;
use crate::model::{opt_text, requested_view, Cell, Deployment, OutlierDeployment};
use crate::store::{count_hits, identities_kept, Store, StoreError, StoreView};

verus! {

/// What came of an invocation.
#[derive(Debug)]
#[allow(inconsistent_fields)]
pub enum Outcome {
    /// The deployment is queued under this id. It waits for its turn next.
    Queued { deployment_id: i64 },
    /// The deployment is marked as finished.
    Finished,
    /// The one deployment that was named is cancelled, or was so already.
    Cancelled,
    /// So many deployments were cancelled.
    CancelledMany { count: u64 },
    /// The summary of the deployment.
    Info { summary: String },
    /// The running deployments that take far too long.
    Outliers { outliers: Vec<OutlierDeployment> },
    /// The cells of the environment, and their listing.
    Cells { cells: Vec<Cell>, lines: Vec<String> },
    /// The heartbeat of this deployment was written. It is written again
    /// at every tick from now on.
    Heartbeat { deployment_id: i64 },
}

/// Why an invocation failed.
#[derive(Clone, Copy, Debug, PartialEq, Eq, Structural)]
pub enum QueueError {
    /// The store turned the step down.
    Store(StoreError),
    /// The history of a deployment cannot be summed up.
    Analytics(AnalyticsError),
    /// No deployment carries the URL.
    NoDeploymentWithUrl,
}

/// Whether a row of `s` carries `url`.
pub open spec fn url_known(s: StoreView, url: Seq<char>) -> bool {
    exists|i: int| 0 <= i < s.rows.len() && has_url(#[trigger] s.rows[i], url)
}

/// Whether `id` is the highest id among the rows of `s` that carry `url`.
pub open spec fn latest_with_url(s: StoreView, url: Seq<char>, id: int) -> bool {
    &&& exists|i: int|
        0 <= i < s.rows.len() && (#[trigger] s.rows[i]).id == id && has_url(s.rows[i], url)
    &&& forall|i: int| 0 <= i < s.rows.len() && has_url(#[trigger] s.rows[i], url) ==> s.rows[i].id <= id
}

/// Whether the invocation failed for the reason `e`.
pub open spec fn failed_with(outcome: Result<Outcome, QueueError>, e: QueueError) -> bool {
    match outcome {
        Ok(_) => false,
        Err(x) => x == e,
    }
}

/// Whether `outcome` and the table `after` are what a cancellation
/// through `sel` comes to on the table `before` at `now`.
pub open spec fn cancelled_many(
    sel: crate::store::SelectorView,
    note: Option<Seq<char>>,
    before: StoreView,
    now: int,
    after: StoreView,
    outcome: Result<Outcome, QueueError>,
) -> bool {
    if before.cancellation_too_early(sel, now) {
        after == before && failed_with(outcome, QueueError::Store(StoreError::InvalidTransition))
    } else {
        &&& after == before.cancelled_where(sel, note, now)
        &&& outcome matches Ok(Outcome::CancelledMany { count })
        &&& count == count_hits(before.rows, sel)
    }
}

/// Whether `outcome` and the table `after` are what the verb `mode` comes
/// to on the table `before` at `now`.
pub open spec fn carried_out(
    mode: Mode,
    before: StoreView,
    now: int,
    after: StoreView,
    outcome: Result<Outcome, QueueError>,
) -> bool {
    match mode {
        Mode::Start(start) => match before.enqueued(requested_view(start), now) {
            Ok(v) => {
                &&& after == v
                &&& outcome matches Ok(Outcome::Queued { deployment_id })
                &&& deployment_id == before.next_id()
            },
            Err(e) => after == before && failed_with(outcome, QueueError::Store(e)),
        },
        Mode::Finish { deployment_id } => match before.finished(deployment_id as int, now) {
            Ok(v) => after == v && outcome matches Ok(Outcome::Finished),
            Err(e) => after == before && failed_with(outcome, QueueError::Store(e)),
        },
        Mode::Cancel { cancellation_note, target } => {
            let note = opt_text(cancellation_note);
            match target {
                CancelTarget::Deployment { deployment_id } => match before.cancelled(
                    deployment_id as int,
                    note,
                    now,
                ) {
                    Ok(v) => after == v && outcome matches Ok(Outcome::Cancelled),
                    Err(e) => after == before && failed_with(outcome, QueueError::Store(e)),
                },
                CancelTarget::Version { component, version } => cancelled_many(
                    version_selector(component@, version@),
                    note,
                    before,
                    now,
                    after,
                    outcome,
                ),
                CancelTarget::Location {
                    environment,
                    cloud_provider,
                    region,
                    cell_index,
                } => cancelled_many(
                    location_selector(environment.name(), cloud_provider@, region@, cell_index),
                    note,
                    before,
                    now,
                    after,
                    outcome,
                ),
            }
        },
        Mode::Info { deployment_id } => after == before && match before.get(deployment_id as int) {
            Some(d) => {
                &&& outcome matches Ok(Outcome::Info { summary })
                &&& summary@ == d.summary_text()
            },
            None => failed_with(outcome, QueueError::Store(StoreError::NotFound)),
        },
        Mode::List { entity } => after == before && match entity {
            ListEntity::Outliers => {
                let unknown = exists|i: int|
                    0 <= i < before.rows.len() && outlier_unknown(
                        before.rows,
                        #[trigger] before.rows[i],
                        now,
                    );
                let expected = outliers_among(before.rows, before.rows, now);
                if unknown {
                    outcome matches Err(QueueError::Analytics(_))
                } else {
                    &&& outcome matches Ok(Outcome::Outliers { outliers })
                    &&& outliers@.len() == expected.len()
                    &&& forall|k: int|
                        0 <= k < outliers@.len() ==> (#[trigger] outliers@[k])@ == outlier_of(
                            before.rows,
                            expected[k],
                            now,
                        )
                }
            },
            ListEntity::Cells { environment } => {
                &&& outcome matches Ok(Outcome::Cells { cells, lines })
                &&& lists_cells(
                    cells_view(cells@),
                    before.rows,
                    environment.name(),
                    before.rows.len() as int,
                )
                &&& lines_view(lines@) == listing_of(environment, cells_view(cells@))
            },
        },
        Mode::Heartbeat { target } => match target {
            HeartbeatTarget::Deployment { deployment_id } => {
                &&& after == before.heartbeat_written(deployment_id as int, now)
                &&& outcome matches Ok(Outcome::Heartbeat { deployment_id: id })
                &&& id == deployment_id
            },
            HeartbeatTarget::Url { url } => {
                if url_known(before, url@) {
                    &&& outcome matches Ok(Outcome::Heartbeat { deployment_id })
                    &&& latest_with_url(before, url@, deployment_id as int)
                    &&& after == before.heartbeat_written(deployment_id as int, now)
                } else {
                    after == before && failed_with(outcome, QueueError::NoDeploymentWithUrl)
                }
            },
        },
    }
}

/// Carries out the verb `mode` on the store at `now`.
///
/// To start is to queue the deployment; the wait for its turn and the
/// start itself follow, look by look. To send heartbeats is to write the
/// first one; the others follow, tick by tick.
pub fn run_deploy_queue(store: &mut Store, mode: Mode, now: Timestamp) -> (r: Result<
    Outcome,
    QueueError,
>)
    requires
        old(store).wf(),
    ensures
        final(store).wf(),
        identities_kept(old(store)@, final(store)@),
        carried_out(mode, old(store)@, now@, final(store)@, r),
{
    match mode {
        Mode::Start(start) => {
            match handler::enqueue_deployment(store, Deployment::from(start), now) {
                Ok(deployment_id) => Ok(Outcome::Queued { deployment_id }),
                Err(e) => Err(QueueError::Store(e)),
            }
        },
        Mode::Finish { deployment_id } => {
            match handler::finish_deployment(store, deployment_id, now) {
                Ok(()) => Ok(Outcome::Finished),
                Err(e) => Err(QueueError::Store(e)),
            }
        },
        Mode::Cancel { cancellation_note, target } => {
            let note: Option<&str> = match &cancellation_note {
                Some(n) => Some(n.as_str()),
                None => None,
            };
            match target {
                CancelTarget::Deployment { deployment_id } => {
                    match handler::cancel::deployment(store, deployment_id, note, now) {
                        Ok(()) => Ok(Outcome::Cancelled),
                        Err(e) => Err(QueueError::Store(e)),
                    }
                },
                CancelTarget::Version { component, version } => {
                    match handler::cancel::by_component_version(
                        store,
                        component.as_str(),
                        version.as_str(),
                        note,
                        now,
                    ) {
                        Ok(count) => Ok(Outcome::CancelledMany { count }),
                        Err(e) => Err(QueueError::Store(e)),
                    }
                },
                CancelTarget::Location { environment, cloud_provider, region, cell_index } => {
                    match handler::cancel::by_location(
                        store,
                        environment.as_ref(),
                        cloud_provider.as_str(),
                        region.as_str(),
                        cell_index,
                        note,
                        now,
                    ) {
                        Ok(count) => Ok(Outcome::CancelledMany { count }),
                        Err(e) => Err(QueueError::Store(e)),
                    }
                },
            }
        },
        Mode::Info { deployment_id } => {
            match handler::show_deployment_info(store, deployment_id) {
                Ok(summary) => Ok(Outcome::Info { summary }),
                Err(e) => Err(QueueError::Store(e)),
            }
        },
        Mode::List { entity } => match entity {
            ListEntity::Outliers => match handler::fetch::outlier_deployments(store, now) {
                Ok(outliers) => Ok(Outcome::Outliers { outliers }),
                Err(e) => Err(QueueError::Analytics(e)),
            },
            ListEntity::Cells { environment } => {
                let (cells, lines) = handler::list::cells(store, environment);
                Ok(Outcome::Cells { cells, lines })
            },
        },
        Mode::Heartbeat { target } => {
            let deployment_id = match target {
                HeartbeatTarget::Deployment { deployment_id } => deployment_id,
                HeartbeatTarget::Url { url } => {
                    match handler::fetch::deployment_id_by_url(store, url.as_str()) {
                        Some(id) => id,
                        None => {
                            return Err(QueueError::NoDeploymentWithUrl);
                        },
                    }
                },
            };
            handler::update_heartbeat(store, deployment_id, now);
            Ok(Outcome::Heartbeat { deployment_id })
        },
    }
}

} // verus!
