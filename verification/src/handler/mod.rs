//! The verbs of the queue, each as one operation on the store.

use vstd::prelude::*;
use vstd::string::StringExecFns;
use crate::clock::Timestamp;
use crate::constants::HEARTBEAT_TIMEOUT_SECS;
use crate::duration::{Duration, NANOS_PER_SECOND};
use crate::model::Deployment;
use crate::model::{DeploymentState, DeploymentView};
use crate::store::{
    cancelled_row, count_hits, identities_kept, Selector, SelectorView, Store, StoreError,
    StoreView,
};

pub mod cancel;
pub mod fetch;
pub mod list;

verus! {

/// Queues `deployment` at `now` and hands back the id it got.
///
/// The deployment must target a known environment. Of `deployment` only
/// what identifies it is taken.
pub fn enqueue_deployment(store: &mut Store, deployment: Deployment, now: Timestamp) -> (r: Result<
    i64,
    StoreError,
>)
    requires
        old(store).wf(),
    ensures
        final(store).wf(),
        identities_kept(old(store)@, final(store)@),
        match old(store)@.enqueued(deployment@, now@) {
            Ok(v) => {
                &&& r matches Ok(id)
                &&& id == old(store)@.next_id()
                &&& final(store)@ == v
            },
            Err(e) => r == Err::<i64, StoreError>(e) && final(store)@ == old(store)@,
        },
{
    store.enqueue(deployment, now)
}

/// Marks the queued deployment `deployment_id` as started at `now`.
pub fn start_deployment(store: &mut Store, deployment_id: i64, now: Timestamp) -> (r: Result<
    (),
    StoreError,
>)
    requires
        old(store).wf(),
    ensures
        final(store).wf(),
        identities_kept(old(store)@, final(store)@),
        match old(store)@.started(deployment_id as int, now@) {
            Ok(v) => r.is_ok() && final(store)@ == v,
            Err(e) => r == Err::<(), StoreError>(e) && final(store)@ == old(store)@,
        },
{
    store.start(deployment_id, now)
}

/// Marks the running deployment `deployment_id` as finished at `now`.
pub fn finish_deployment(store: &mut Store, deployment_id: i64, now: Timestamp) -> (r: Result<
    (),
    StoreError,
>)
    requires
        old(store).wf(),
    ensures
        final(store).wf(),
        identities_kept(old(store)@, final(store)@),
        match old(store)@.finished(deployment_id as int, now@) {
            Ok(v) => r.is_ok() && final(store)@ == v,
            Err(e) => r == Err::<(), StoreError>(e) && final(store)@ == old(store)@,
        },
{
    store.finish(deployment_id, now)
}

/// Records a sign of life of the deployment `deployment_id` at `now`. An
/// id that the store does not hold changes nothing.
pub fn update_heartbeat(store: &mut Store, deployment_id: i64, now: Timestamp)
    requires
        old(store).wf(),
    ensures
        final(store).wf(),
        identities_kept(old(store)@, final(store)@),
        final(store)@ == old(store)@.heartbeat_written(deployment_id as int, now@),
{
    store.heartbeat(deployment_id, now)
}

/// The one-line summary of the deployment `deployment_id`.
pub fn show_deployment_info(store: &Store, deployment_id: i64) -> (r: Result<String, StoreError>)
    requires
        store.wf(),
    ensures
        match r {
            Ok(text) => store@.get(deployment_id as int).is_some() && text@ == store@.get(
                deployment_id as int,
            ).unwrap().summary_text(),
            Err(e) => store@.get(deployment_id as int).is_none() && e == StoreError::NotFound,
        },
{
    match fetch::deployment(store, deployment_id) {
        Some(d) => Ok(d.summary()),
        None => Err(StoreError::NotFound),
    }
}

/// The note that a deployment leaves on those it cancels for their stale
/// heartbeat.
pub open spec fn stale_note_text(canceller: int) -> Seq<char> {
    "Cancelled by deployment "@ + crate::text::decimal(canceller) + " due to stale heartbeat"@
}

/// The note that the deployment `canceller_deployment_id` leaves on those
/// it cancels for their stale heartbeat.
pub fn stale_note(canceller_deployment_id: i64) -> (r: String)
    ensures
        r@ == stale_note_text(canceller_deployment_id as int),
{
    let mut out = String::from_str("Cancelled by deployment ");
    crate::text::push_decimal(&mut out, canceller_deployment_id);
    out.append(" due to stale heartbeat");
    out
}

/// The selector of the running deployments whose heartbeat at `now` is
/// older than the heartbeat timeout.
pub open spec fn stale_selector(now: int) -> SelectorView {
    SelectorView::StaleHeartbeat { now, timeout: HEARTBEAT_TIMEOUT_SECS * NANOS_PER_SECOND }
}

/// Cancels at `now`, in the name of the deployment
/// `canceller_deployment_id`, exactly the running deployments whose last
/// sign of life is older than the heartbeat timeout, and tells how many
/// those were.
pub fn cancel_stale_heartbeat_deployments(
    store: &mut Store,
    canceller_deployment_id: i64,
    now: Timestamp,
) -> (r: Result<u64, StoreError>)
    requires
        old(store).wf(),
    ensures
        final(store).wf(),
        identities_kept(old(store)@, final(store)@),
        ({
            let sel = stale_selector(now@);
            let note = Some(stale_note_text(canceller_deployment_id as int));
            match r {
                Ok(n) => !old(store)@.cancellation_too_early(sel, now@) && final(store)@ == old(
                    store,
                )@.cancelled_where(sel, note, now@) && n == count_hits(old(store)@.rows, sel),
                Err(e) => old(store)@.cancellation_too_early(sel, now@) && e
                    == StoreError::InvalidTransition && final(store)@ == old(store)@,
            }
        }),
{
    let note = stale_note(canceller_deployment_id);
    let timeout = Duration::seconds(HEARTBEAT_TIMEOUT_SECS as i64);
    let sel = Selector::StaleHeartbeat { now, timeout };
    store.cancel_where(&sel, Some(note.as_str()), now)
}

/// Whether the heartbeat of `row` is stale at `now`: the deployment is
/// running and its last sign of life is more than the heartbeat timeout
/// old.
pub open spec fn heartbeat_is_stale(row: DeploymentView, now: int) -> bool {
    &&& row.state() == DeploymentState::Running
    &&& row.heartbeat_timestamp.is_some()
    &&& (now - row.heartbeat_timestamp.unwrap()) > HEARTBEAT_TIMEOUT_SECS
        * crate::constants::MICROS_PER_SECOND
}

/// The sweeper cancels exactly the running deployments whose last sign of
/// life is more than the heartbeat timeout old, with the note of the
/// deployment in whose name it sweeps, and leaves every other deployment
/// as it is. A queued deployment is never swept.
pub proof fn lemma_sweeper_is_exact(s: StoreView, canceller: int, now: int, i: int)
    requires
        0 <= i < s.rows.len(),
    ensures
        s.cancelled_where(stale_selector(now), Some(stale_note_text(canceller)), now).rows[i]
            == if heartbeat_is_stale(s.rows[i], now) {
            cancelled_row(s.rows[i], Some(stale_note_text(canceller)), now)
        } else {
            s.rows[i]
        },
        s.rows[i].state() == DeploymentState::Queued ==> !heartbeat_is_stale(s.rows[i], now),
{
}

} // verus!
