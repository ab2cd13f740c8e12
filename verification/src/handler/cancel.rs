//! Cancelling deployments: one by id, or all of a version or a location.

use vstd::prelude::*;
use vstd::string::StringExecFns;
use crate::clock::Timestamp;
use crate::store::{count_hits, identities_kept, Selector, SelectorView, Store, StoreError};
use crate::text::opt_str_view;

verus! {

/// Cancels the deployment `deployment_id` at `now`, with a note where one
/// is given.
///
/// A queued or running deployment becomes cancelled. Cancelling a
/// cancelled deployment again, or an id that the store does not hold,
/// changes nothing. A finished deployment cannot be cancelled.
pub fn deployment(
    store: &mut Store,
    deployment_id: i64,
    cancellation_note: Option<&str>,
    now: Timestamp,
) -> (r: Result<(), StoreError>)
    requires
        old(store).wf(),
    ensures
        final(store).wf(),
        identities_kept(old(store)@, final(store)@),
        match old(store)@.cancelled(deployment_id as int, opt_str_view(cancellation_note), now@) {
            Ok(v) => r.is_ok() && final(store)@ == v,
            Err(e) => r == Err::<(), StoreError>(e) && final(store)@ == old(store)@,
        },
{
    store.cancel(deployment_id, cancellation_note, now)
}

/// The selector of all deployments of `component` in `version`.
pub open spec fn version_selector(component: Seq<char>, version: Seq<char>) -> SelectorView {
    SelectorView::Version { component, version }
}

/// The selector of all deployments to a location, or to one cell of it.
pub open spec fn location_selector(
    environment: Seq<char>,
    cloud_provider: Seq<char>,
    region: Seq<char>,
    cell_index: Option<i32>,
) -> SelectorView {
    SelectorView::Location {
        environment,
        cloud_provider,
        region,
        cell_index: match cell_index {
            Some(c) => Some(c as int),
            None => None,
        },
    }
}

/// Cancels at `now` every queued or running deployment of `component` in
/// `version`, in whatever cell, and tells how many those were.
pub fn by_component_version(
    store: &mut Store,
    component: &str,
    version: &str,
    cancellation_note: Option<&str>,
    now: Timestamp,
) -> (r: Result<u64, StoreError>)
    requires
        old(store).wf(),
    ensures
        final(store).wf(),
        identities_kept(old(store)@, final(store)@),
        ({
            let sel = version_selector(component@, version@);
            match r {
                Ok(n) => !old(store)@.cancellation_too_early(sel, now@) && final(store)@ == old(
                    store,
                )@.cancelled_where(sel, opt_str_view(cancellation_note), now@) && n == count_hits(
                    old(store)@.rows,
                    sel,
                ),
                Err(e) => old(store)@.cancellation_too_early(sel, now@) && e
                    == StoreError::InvalidTransition && final(store)@ == old(store)@,
            }
        }),
{
    let sel = Selector::Version {
        component: String::from_str(component),
        version: String::from_str(version),
    };
    store.cancel_where(&sel, cancellation_note, now)
}

/// Cancels at `now` every queued or running deployment to the location,
/// or to the one cell of it where `cell_index` is given, and tells how
/// many those were.
pub fn by_location(
    store: &mut Store,
    environment: &str,
    cloud_provider: &str,
    region: &str,
    cell_index: Option<i32>,
    cancellation_note: Option<&str>,
    now: Timestamp,
) -> (r: Result<u64, StoreError>)
    requires
        old(store).wf(),
    ensures
        final(store).wf(),
        identities_kept(old(store)@, final(store)@),
        ({
            let sel = location_selector(environment@, cloud_provider@, region@, cell_index);
            match r {
                Ok(n) => !old(store)@.cancellation_too_early(sel, now@) && final(store)@ == old(
                    store,
                )@.cancelled_where(sel, opt_str_view(cancellation_note), now@) && n == count_hits(
                    old(store)@.rows,
                    sel,
                ),
                Err(e) => old(store)@.cancellation_too_early(sel, now@) && e
                    == StoreError::InvalidTransition && final(store)@ == old(store)@,
            }
        }),
{
    let sel = Selector::Location {
        environment: String::from_str(environment),
        cloud_provider: String::from_str(cloud_provider),
        region: String::from_str(region),
        cell_index,
    };
    store.cancel_where(&sel, cancellation_note, now)
}

} // verus!
