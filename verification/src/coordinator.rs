//! Waiting for one's turn: how long the blockers are expected to take, and
//! what the waiting deployment does next.

use vstd::prelude::*;
use vstd::string::StringExecFns;
use crate::analytics::AnalyticsError;
use crate::blocking::{
    blockers_of, human_span, opt_span, BlockingDeployment, BlockingView, EtaError,
};
use crate::duration::DurationExt;
use crate::handler::fetch::{blocking_deployments, joined};
use crate::handler::{cancel_stale_heartbeat_deployments, stale_note_text, stale_selector};
use crate::model::DeploymentView;
use crate::store::{identities_kept, Store, StoreError};
use crate::clock::Timestamp;
use crate::duration::{duration_in_range, Duration};
use crate::order::{text_lt, text_order, Order};

verus! {

/// What a blocker adds to the expected waiting time at `now`, in
/// nanoseconds: the rest of its deployment and its buffer where the
/// history tells how long the deployment takes; else the rest of its
/// buffer where there is any; else nothing that could be told.
pub open spec fn contribution(b: BlockingView, now: int) -> Result<Option<int>, EtaError> {
    match b.remaining_at(now) {
        Err(e) => Err(e),
        Ok((Some(t), buffer)) => {
            if duration_in_range(t + buffer) {
                Ok(Some(t + buffer))
            } else {
                Err(EtaError::Overflow)
            }
        },
        Ok((None, buffer)) => {
            if buffer > 0 {
                Ok(Some(buffer))
            } else {
                Ok(None)
            }
        },
    }
}

/// A contribution with its span in nanoseconds.
pub open spec fn contribution_view(r: Result<Option<Duration>, EtaError>) -> Result<
    Option<int>,
    EtaError,
> {
    match r {
        Ok(o) => Ok(opt_span(o)),
        Err(e) => Err(e),
    }
}

/// What `b` adds to the expected waiting time at `now`.
pub fn contribution_of(b: &BlockingDeployment, now: Timestamp) -> (r: Result<
    Option<Duration>,
    EtaError,
>)
    ensures
        contribution_view(r) == contribution(b@, now@),
        r matches Ok(Some(d)) ==> d.wf(),
{
    match b.remaining_time_at(now) {
        Err(e) => Err(e),
        Ok((Some(t), buffer)) => match t.checked_add(&buffer) {
            Some(total) => Ok(Some(total)),
            None => Err(EtaError::Overflow),
        },
        Ok((None, buffer)) => {
            if buffer.is_positive() {
                let _ = buffer.whole_nanoseconds();
                Ok(Some(buffer))
            } else {
                Ok(None)
            }
        },
    }
}

/// The blockers as plain values.
pub open spec fn blockers_view(v: Seq<BlockingDeployment>) -> Seq<BlockingView> {
    Seq::new(v.len(), |i: int| v[i]@)
}

/// The expected waiting time for all of `bs` at `now`, summed up blocker
/// by blocker, or the first reason why it cannot be told.
pub open spec fn total_eta(bs: Seq<BlockingView>, now: int) -> Result<int, EtaError>
    decreases bs.len(),
{
    if bs.len() == 0 {
        Ok(0)
    } else {
        match total_eta(bs.drop_last(), now) {
            Err(e) => Err(e),
            Ok(t) => match contribution(bs.last(), now) {
                Err(e) => Err(e),
                Ok(Some(c)) => {
                    if duration_in_range(t + c) {
                        Ok(t + c)
                    } else {
                        Err(EtaError::Overflow)
                    }
                },
                Ok(None) => Ok(t),
            },
        }
    }
}

/// The expected waiting time for those of `bs` that deploy `component`,
/// summed up blocker by blocker; `None` where the sum is beyond what a
/// duration can hold. Blockers of which nothing can be told add nothing.
pub open spec fn component_eta(bs: Seq<BlockingView>, now: int, component: Seq<char>) -> Option<
    int,
>
    decreases bs.len(),
{
    if bs.len() == 0 {
        Some(0)
    } else {
        match component_eta(bs.drop_last(), now, component) {
            None => None,
            Some(t) => {
                if bs.last().deployment.component != component {
                    Some(t)
                } else {
                    match contribution(bs.last(), now) {
                        Ok(Some(c)) => {
                            if duration_in_range(t + c) {
                                Some(t + c)
                            } else {
                                None
                            }
                        },
                        _ => Some(t),
                    }
                }
            },
        }
    }
}

/// Whether `b` adds a known time at `now`.
pub open spec fn tells(b: BlockingView, now: int) -> bool {
    match contribution(b, now) {
        Ok(Some(_)) => true,
        _ => false,
    }
}

/// Whether one of `bs` that deploys `component` adds a known time at `now`.
pub open spec fn contributes(bs: Seq<BlockingView>, now: int, component: Seq<char>) -> bool {
    exists|k: int|
        0 <= k < bs.len() && (#[trigger] bs[k]).deployment.component == component && tells(
            bs[k],
            now,
        )
}

/// Whether of one of `bs` nothing can be told at `now`.
pub open spec fn any_unknown(bs: Seq<BlockingView>, now: int) -> bool {
    exists|k: int|
        0 <= k < bs.len() && contribution(#[trigger] bs[k], now) == Ok::<Option<int>, EtaError>(
            None,
        )
}

/// The expected waiting time for the deployments of one component.
#[derive(Debug)]
pub struct ComponentEta {
    pub component: String,
    pub remaining: Duration,
}

/// How long a waiting deployment is expected to wait.
#[derive(Debug)]
pub struct EtaReport {
    /// The expected waiting time for all blockers together.
    pub total_remaining: Duration,
    /// The same for each component of which something can be told, by
    /// ascending component name.
    pub component_times: Vec<ComponentEta>,
    /// Whether there is a blocker of which nothing can be told.
    pub has_unknown_eta: bool,
}

/// Whether the entries come by strictly ascending component name.
pub open spec fn ascending(v: Seq<ComponentEta>) -> bool {
    forall|a: int, b: int|
        0 <= a < b < v.len() ==> text_lt((#[trigger] v[a]).component@, (#[trigger] v[b]).component@)
}

/// Whether the entries are what `bs` come to at `now`, component by
/// component: one entry for each component of which something can be
/// told, with the expected waiting time for its deployments, by ascending
/// component name.
pub open spec fn component_times_of(v: Seq<ComponentEta>, bs: Seq<BlockingView>, now: int)
    -> bool {
    &&& ascending(v)
    &&& forall|a: int|
        0 <= a < v.len() ==> contributes(bs, now, (#[trigger] v[a]).component@) && component_eta(
            bs,
            now,
            v[a].component@,
        ) == Some(v[a].remaining@)
    &&& forall|k: int|
        0 <= k < bs.len() && tells(#[trigger] bs[k], now) ==> exists|a: int|
            0 <= a < v.len() && (#[trigger] v[a]).component@ == bs[k].deployment.component
}

/// The expected waiting time for all of `blockers`, and whether there is
/// one of which nothing can be told.
fn total_of(blockers: &Vec<BlockingDeployment>, now: Timestamp) -> (r: Result<
    (Duration, bool),
    EtaError,
>)
    ensures
        match r {
            Ok((t, unknown)) => total_eta(blockers_view(blockers@), now@) == Ok::<int, EtaError>(
                t@,
            ) && unknown == any_unknown(blockers_view(blockers@), now@) && t.wf(),
            Err(e) => total_eta(blockers_view(blockers@), now@) == Err::<int, EtaError>(e),
        },
{
    let ghost bs = blockers_view(blockers@);
    let mut total = Duration::zero();
    let mut unknown = false;
    let mut i: usize = 0;
    while i < blockers.len()
        invariant
            i <= blockers.len(),
            bs == blockers_view(blockers@),
            total.wf(),
            total_eta(bs.take(i as int), now@) == Ok::<int, EtaError>(total@),
            unknown == any_unknown(bs.take(i as int), now@),
        decreases blockers.len() - i,
    {
        proof {
            assert(bs.take(i as int + 1).drop_last() =~= bs.take(i as int));
            assert(bs.take(i as int + 1).last() == bs[i as int]);
            assert(bs[i as int] == blockers@[i as int]@);
        }
        let ghost before = bs.take(i as int);
        let ghost after = bs.take(i as int + 1);
        match contribution_of(&blockers[i], now) {
            Err(e) => {
                proof {
                    lemma_total_eta_fails(bs, now@, i as int + 1);
                }
                return Err(e);
            },
            Ok(Some(c)) => {
                match total.checked_add(&c) {
                    Some(t) => {
                        total = t;
                    },
                    None => {
                        proof {
                            lemma_total_eta_fails(bs, now@, i as int + 1);
                        }
                        return Err(EtaError::Overflow);
                    },
                }
                proof {
                    if any_unknown(after, now@) {
                        let k = choose|k: int|
                            0 <= k < after.len() && contribution(#[trigger] after[k], now@) == Ok::<
                                Option<int>,
                                EtaError,
                            >(None);
                        assert(before[k] == after[k]);
                    }
                    if any_unknown(before, now@) {
                        let k = choose|k: int|
                            0 <= k < before.len() && contribution(#[trigger] before[k], now@)
                                == Ok::<Option<int>, EtaError>(None);
                        assert(before[k] == after[k]);
                    }
                }
            },
            Ok(None) => {
                unknown = true;
                proof {
                    assert(contribution(after[i as int], now@) == Ok::<Option<int>, EtaError>(None));
                }
            },
        }
        i += 1;
    }
    proof {
        assert(bs.take(i as int) =~= bs);
    }
    Ok((total, unknown))
}

/// Where the sum over the first `k` blockers cannot be told, neither can
/// the sum over all, for the same reason.
proof fn lemma_total_eta_fails(bs: Seq<BlockingView>, now: int, k: int)
    requires
        0 <= k <= bs.len(),
        total_eta(bs.take(k), now).is_err(),
    ensures
        total_eta(bs, now) == total_eta(bs.take(k), now),
    decreases bs.len() - k,
{
    if k < bs.len() {
        assert(bs.take(k + 1).drop_last() =~= bs.take(k));
        lemma_total_eta_fails(bs, now, k + 1);
    } else {
        assert(bs.take(k) =~= bs);
    }
}

/// The expected waiting time for those of `blockers` that deploy
/// `component`.
fn component_total(blockers: &Vec<BlockingDeployment>, now: Timestamp, component: &String) -> (r:
    Option<Duration>)
    ensures
        opt_span(r) == component_eta(blockers_view(blockers@), now@, component@),
        r matches Some(d) ==> d.wf(),
{
    let ghost bs = blockers_view(blockers@);
    let mut total = Duration::zero();
    let mut i: usize = 0;
    while i < blockers.len()
        invariant
            i <= blockers.len(),
            bs == blockers_view(blockers@),
            total.wf(),
            component_eta(bs.take(i as int), now@, component@) == Some(total@),
        decreases blockers.len() - i,
    {
        proof {
            assert(bs.take(i as int + 1).drop_last() =~= bs.take(i as int));
            assert(bs.take(i as int + 1).last() == bs[i as int]);
            assert(bs[i as int] == blockers@[i as int]@);
        }
        if blockers[i].deployment.component == *component {
            match contribution_of(&blockers[i], now) {
                Ok(Some(c)) => {
                    match total.checked_add(&c) {
                        Some(t) => {
                            total = t;
                        },
                        None => {
                            proof {
                                lemma_component_eta_fails(bs, now@, component@, i as int + 1);
                            }
                            return None;
                        },
                    }
                },
                _ => {},
            }
        }
        i += 1;
    }
    proof {
        assert(bs.take(i as int) =~= bs);
    }
    Some(total)
}

/// Where the sum for a component over the first `k` blockers is beyond
/// what a duration can hold, so is the sum over all.
proof fn lemma_component_eta_fails(bs: Seq<BlockingView>, now: int, component: Seq<char>, k: int)
    requires
        0 <= k <= bs.len(),
        component_eta(bs.take(k), now, component).is_none(),
    ensures
        component_eta(bs, now, component).is_none(),
    decreases bs.len() - k,
{
    if k < bs.len() {
        assert(bs.take(k + 1).drop_last() =~= bs.take(k));
        lemma_component_eta_fails(bs, now, component, k + 1);
    } else {
        assert(bs.take(k) =~= bs);
    }
}

/// Where `name` stands among the entries: how many entries come before
/// it, and whether the entry at that place carries it.
fn locate(entries: &Vec<ComponentEta>, name: &String) -> (r: (usize, bool))
    requires
        ascending(entries@),
    ensures
        r.0 <= entries@.len(),
        forall|a: int| 0 <= a < r.0 ==> text_lt((#[trigger] entries@[a]).component@, name@),
        r.1 ==> r.0 < entries@.len() && entries@[r.0 as int].component@ == name@,
        !r.1 ==> forall|a: int|
            r.0 <= a < entries@.len() ==> text_lt(name@, (#[trigger] entries@[a]).component@),
{
    let mut i: usize = 0;
    while i < entries.len()
        invariant
            i <= entries.len(),
            ascending(entries@),
            forall|a: int| 0 <= a < i ==> text_lt((#[trigger] entries@[a]).component@, name@),
        decreases entries.len() - i,
    {
        match text_order(entries[i].component.as_str(), name.as_str()) {
            Order::Before => {},
            Order::Same => {
                return (i, true);
            },
            Order::After => {
                proof {
                    assert forall|a: int| i <= a < entries@.len() implies text_lt(
                        name@,
                        (#[trigger] entries@[a]).component@,
                    ) by {
                        if a > i {
                            crate::order::lemma_text_lt_transitive(
                                name@,
                                entries@[i as int].component@,
                                entries@[a].component@,
                            );
                        }
                    }
                }
                return (i, false);
            },
        }
        i += 1;
    }
    (i, false)
}

/// Whether the first `i` of `bs` that tell something have their component
/// among the entries.
spec fn covered(v: Seq<ComponentEta>, bs: Seq<BlockingView>, now: int, i: int) -> bool {
    forall|k: int|
        0 <= k < i && tells(#[trigger] bs[k], now) ==> exists|a: int|
            0 <= a < v.len() && (#[trigger] v[a]).component@ == bs[k].deployment.component
}

/// Whether each entry carries what `bs` come to for its component.
spec fn sums_right(v: Seq<ComponentEta>, bs: Seq<BlockingView>, now: int) -> bool {
    forall|a: int|
        0 <= a < v.len() ==> contributes(bs, now, (#[trigger] v[a]).component@) && component_eta(
            bs,
            now,
            v[a].component@,
        ) == Some(v[a].remaining@)
}

/// The expected waiting time for each component of which something can be
/// told, by ascending component name; `None` where one of these sums is
/// beyond what a duration can hold.
fn component_times(blockers: &Vec<BlockingDeployment>, now: Timestamp) -> (r: Option<
    Vec<ComponentEta>,
>)
    ensures
        match r {
            Some(v) => component_times_of(v@, blockers_view(blockers@), now@),
            None => exists|k: int|
                0 <= k < blockers@.len() && tells(
                    #[trigger] blockers_view(blockers@)[k],
                    now@,
                ) && component_eta(
                    blockers_view(blockers@),
                    now@,
                    blockers_view(blockers@)[k].deployment.component,
                ).is_none(),
        },
{
    let ghost bs = blockers_view(blockers@);
    let mut out: Vec<ComponentEta> = Vec::new();
    let mut i: usize = 0;
    while i < blockers.len()
        invariant
            i <= blockers.len(),
            bs == blockers_view(blockers@),
            ascending(out@),
            sums_right(out@, bs, now@),
            covered(out@, bs, now@, i as int),
        decreases blockers.len() - i,
    {
        proof {
            assert(bs[i as int] == blockers@[i as int]@);
        }
        let ghost old_out = out@;
        let name = &blockers[i].deployment.component;
        match contribution_of(&blockers[i], now) {
            Ok(Some(_)) => {
                let (place, found) = locate(&out, name);
                if found {
                    assert(covered(out@, bs, now@, i as int + 1)) by {
                        assert forall|k: int| 0 <= k < i + 1 && tells(
                            #[trigger] bs[k],
                            now@,
                        ) implies exists|a: int|
                            0 <= a < out@.len() && (#[trigger] out@[a]).component@
                                == bs[k].deployment.component by {
                            if k == i {
                                assert(out@[place as int].component@
                                    == bs[k].deployment.component);
                            }
                        }
                    }
                } else {
                    let remaining = match component_total(blockers, now, name) {
                        Some(t) => t,
                        None => {
                            assert(tells(bs[i as int], now@));
                            return None;
                        },
                    };
                    let entry = ComponentEta { component: name.clone(), remaining };
                    out.insert(place, entry);
                    proof {
                        let p = place as int;
                        assert(out@ == old_out.insert(p, entry));
                        assert(out@[p] == entry);
                        assert forall|a: int| 0 <= a < p implies out@[a] == old_out[a] by {}
                        assert forall|a: int| p < a < out@.len() implies out@[a] == old_out[a
                            - 1] by {}
                        assert(ascending(out@)) by {
                            assert forall|a: int, b: int| 0 <= a < b < out@.len() implies text_lt(
                                (#[trigger] out@[a]).component@,
                                (#[trigger] out@[b]).component@,
                            ) by {
                                if b < p {
                                    assert(text_lt(old_out[a].component@, old_out[b].component@));
                                } else if b == p {
                                    assert(text_lt(old_out[a].component@, name@));
                                } else if a < p {
                                    assert(text_lt(
                                        old_out[a].component@,
                                        old_out[b - 1].component@,
                                    ));
                                } else if a == p {
                                    assert(text_lt(name@, old_out[b - 1].component@));
                                } else {
                                    assert(text_lt(
                                        old_out[a - 1].component@,
                                        old_out[b - 1].component@,
                                    ));
                                }
                            }
                        }
                        assert(sums_right(out@, bs, now@)) by {
                            assert forall|a: int| 0 <= a < out@.len() implies contributes(
                                bs,
                                now@,
                                (#[trigger] out@[a]).component@,
                            ) && component_eta(bs, now@, out@[a].component@) == Some(
                                out@[a].remaining@,
                            ) by {
                                if a < p {
                                    assert(out@[a] == old_out[a]);
                                } else if a == p {
                                    assert(bs[i as int].deployment.component == name@ && tells(
                                        bs[i as int],
                                        now@,
                                    ));
                                } else {
                                    assert(out@[a] == old_out[a - 1]);
                                }
                            }
                        }
                        assert(covered(out@, bs, now@, i as int + 1)) by {
                            assert forall|k: int| 0 <= k < i + 1 && tells(
                                #[trigger] bs[k],
                                now@,
                            ) implies exists|a: int|
                                0 <= a < out@.len() && (#[trigger] out@[a]).component@
                                    == bs[k].deployment.component by {
                                if k == i {
                                    assert(out@[p].component@ == bs[k].deployment.component);
                                } else {
                                    let a0 = choose|a: int|
                                        0 <= a < old_out.len() && (#[trigger] old_out[a]).component@
                                            == bs[k].deployment.component;
                                    if a0 < p {
                                        assert(out@[a0].component@ == bs[k].deployment.component);
                                    } else {
                                        assert(out@[a0 + 1].component@
                                            == bs[k].deployment.component);
                                    }
                                }
                            }
                        }
                    }
                }
            },
            _ => {
                assert(!tells(bs[i as int], now@));
            },
        }
        i += 1;
    }
    Some(out)
}

/// Why the expected waiting time for `bs` cannot be told at `now`, if it
/// cannot: the first reason that the sum over all blockers meets, or else
/// that the sum for one component is beyond what a duration can hold.
pub open spec fn eta_failure(bs: Seq<BlockingView>, now: int) -> Option<EtaError> {
    match total_eta(bs, now) {
        Err(e) => Some(e),
        Ok(_) => {
            if exists|k: int|
                0 <= k < bs.len() && tells(#[trigger] bs[k], now) && component_eta(
                    bs,
                    now,
                    bs[k].deployment.component,
                ).is_none() {
                Some(EtaError::Overflow)
            } else {
                None
            }
        },
    }
}

/// Where the sum over all blockers can be told, each blocker adds a known
/// time or none, and has a summary.
proof fn lemma_total_tells_all(bs: Seq<BlockingView>, now: int, k: int)
    requires
        total_eta(bs, now).is_ok(),
        0 <= k < bs.len(),
    ensures
        contribution(bs[k], now).is_ok(),
        bs[k].summary_text_at(now).is_ok(),
    decreases bs.len(),
{
    if k < bs.len() - 1 {
        lemma_total_tells_all(bs.drop_last(), now, k);
    }
}

/// How long a deployment that waits for `blockers` is expected to wait at
/// `now`: in all, and for each component of which something can be told.
///
/// There is no answer where a blocker is cancelled or a sum of spans is
/// beyond what a duration can hold.
pub fn eta_report(blockers: &Vec<BlockingDeployment>, now: Timestamp) -> (r: Result<
    EtaReport,
    EtaError,
>)
    ensures
        ({
            let bs = blockers_view(blockers@);
            match r {
                Ok(report) => {
                    &&& eta_failure(bs, now@).is_none()
                    &&& total_eta(bs, now@) == Ok::<int, EtaError>(report.total_remaining@)
                    &&& report.has_unknown_eta == any_unknown(bs, now@)
                    &&& component_times_of(report.component_times@, bs, now@)
                },
                Err(e) => eta_failure(bs, now@) == Some(e),
            }
        }),
{
    let (total_remaining, has_unknown_eta) = match total_of(blockers, now) {
        Ok(pair) => pair,
        Err(e) => {
            return Err(e);
        },
    };
    match component_times(blockers, now) {
        Some(component_times) => {
            proof {
                let bs = blockers_view(blockers@);
                let v = component_times@;
                assert forall|k: int| 0 <= k < bs.len() && tells(#[trigger] bs[k], now@) implies !(
                component_eta(bs, now@, bs[k].deployment.component).is_none()) by {
                    let a = choose|a: int|
                        0 <= a < v.len() && (#[trigger] v[a]).component@
                            == bs[k].deployment.component;
                    assert(component_eta(bs, now@, v[a].component@) == Some(v[a].remaining@));
                }
            }
            Ok(EtaReport { total_remaining, component_times, has_unknown_eta })
        },
        None => Err(EtaError::Overflow),
    }
}

/// The texts as plain values.
pub open spec fn lines_view(v: Seq<String>) -> Seq<Seq<char>> {
    Seq::new(v.len(), |i: int| v[i]@)
}

/// One line for each entry with a positive time: the component and the
/// time for people to read.
pub open spec fn component_lines(v: Seq<ComponentEta>) -> Seq<Seq<char>>
    decreases v.len(),
{
    if v.len() == 0 {
        Seq::empty()
    } else {
        let rest = component_lines(v.drop_last());
        if v.last().remaining@ > 0 {
            rest.push("  "@ + v.last().component@ + ": ~"@ + human_span(v.last().remaining@))
        } else {
            rest
        }
    }
}

/// What is said of the expected waiting time: for a positive total, the
/// total and then the components; else, where something is unknown, that
/// the total is unknown; else nothing.
pub open spec fn eta_lines_of(total: int, v: Seq<ComponentEta>, unknown: bool) -> Seq<Seq<char>> {
    if total > 0 {
        seq!["Total ETA: ~"@ + human_span(total)] + component_lines(v)
    } else if unknown {
        seq!["Total ETA: unknown (missing analytics data)"@]
    } else {
        Seq::empty()
    }
}

/// What is said of the expected waiting time, line by line.
pub fn eta_lines(report: &EtaReport) -> (r: Vec<String>)
    ensures
        lines_view(r@) == eta_lines_of(
            report.total_remaining@,
            report.component_times@,
            report.has_unknown_eta,
        ),
{
    let mut out: Vec<String> = Vec::new();
    if report.total_remaining.is_positive() {
        let mut first = String::from_str("Total ETA: ~");
        let text = report.total_remaining.format_human();
        first.append(text.as_str());
        out.push(first);
        let ghost head = lines_view(out@);
        assert(head =~= seq!["Total ETA: ~"@ + human_span(report.total_remaining@)]);
        let ghost v = report.component_times@;
        let mut i: usize = 0;
        while i < report.component_times.len()
            invariant
                i <= report.component_times.len(),
                v == report.component_times@,
                lines_view(out@) == head + component_lines(v.take(i as int)),
            decreases report.component_times.len() - i,
        {
            proof {
                assert(v.take(i as int + 1).drop_last() =~= v.take(i as int));
                assert(v.take(i as int + 1).last() == v[i as int]);
            }
            let entry = &report.component_times[i];
            if entry.remaining.is_positive() {
                let mut line = String::from_str("  ");
                line.append(entry.component.as_str());
                line.append(": ~");
                let text = entry.remaining.format_human();
                line.append(text.as_str());
                let ghost before = lines_view(out@);
                out.push(line);
                assert(lines_view(out@) =~= before.push(line@));
                assert(lines_view(out@) =~= head + component_lines(v.take(i as int + 1)));
            }
            i += 1;
        }
        proof {
            assert(v.take(i as int) =~= v);
        }
    } else if report.has_unknown_eta {
        out.push(String::from_str("Total ETA: unknown (missing analytics data)"));
        assert(lines_view(out@) =~= seq!["Total ETA: unknown (missing analytics data)"@]);
    } else {
        assert(lines_view(out@) =~= Seq::<Seq<char>>::empty());
    }
    out
}

/// What a waiting deployment learns of its blockers.
#[derive(Debug)]
pub struct WaitReport {
    /// The ids of the blockers, ascending.
    pub blocking_ids: Vec<i64>,
    /// How long the wait is expected to last.
    pub eta: EtaReport,
    /// One summary for each blocker, in the order of the ids.
    pub summaries: Vec<String>,
}

/// What a waiting deployment does next.
#[derive(Debug)]
pub enum WaitStep {
    /// Nothing blocks: start.
    Proceed,
    /// Blockers remain: pause, then look again.
    Wait(WaitReport),
}

/// Why a look at the blockers failed.
#[derive(Clone, Copy, Debug, PartialEq, Eq, Structural)]
pub enum WaitError {
    /// The sweep of stale deployments was turned down.
    Store(StoreError),
    /// The history of a blocker cannot be summed up.
    Analytics(AnalyticsError),
    /// The remaining time of a blocker cannot be told.
    Eta(EtaError),
}

/// The blockers `expected`, each with the typical duration of its series
/// in the table `all` at `now`.
pub open spec fn joined_all(all: Seq<DeploymentView>, expected: Seq<DeploymentView>, now: int)
    -> Seq<BlockingView> {
    Seq::new(expected.len(), |k: int| joined(all, expected[k], now).unwrap())
}

/// Whether the report says of the blockers `bs` at `now` what there is to
/// say: their ids, the expected waiting time, and a summary of each.
pub open spec fn reports(report: WaitReport, bs: Seq<BlockingView>, now: int) -> bool {
    &&& report.blocking_ids@.len() == bs.len()
    &&& forall|k: int|
        0 <= k < bs.len() ==> (#[trigger] report.blocking_ids@[k]) == bs[k].deployment.id
    &&& total_eta(bs, now) == Ok::<int, EtaError>(report.eta.total_remaining@)
    &&& report.eta.has_unknown_eta == any_unknown(bs, now)
    &&& component_times_of(report.eta.component_times@, bs, now)
    &&& report.summaries@.len() == bs.len()
    &&& forall|k: int|
        0 <= k < bs.len() ==> bs[k].summary_text_at(now) == Ok::<Seq<char>, EtaError>(
            (#[trigger] report.summaries@[k])@,
        )
}

/// What there is to say of `blockers` at `now`.
pub fn wait_report(blockers: &Vec<BlockingDeployment>, now: Timestamp) -> (r: Result<
    WaitReport,
    EtaError,
>)
    ensures
        match r {
            Ok(report) => eta_failure(blockers_view(blockers@), now@).is_none() && reports(
                report,
                blockers_view(blockers@),
                now@,
            ),
            Err(e) => eta_failure(blockers_view(blockers@), now@) == Some(e),
        },
{
    let ghost bs = blockers_view(blockers@);
    let eta = match eta_report(blockers, now) {
        Ok(eta) => eta,
        Err(e) => {
            return Err(e);
        },
    };
    let mut blocking_ids: Vec<i64> = Vec::new();
    let mut summaries: Vec<String> = Vec::new();
    let mut i: usize = 0;
    while i < blockers.len()
        invariant
            i <= blockers.len(),
            bs == blockers_view(blockers@),
            total_eta(bs, now@).is_ok(),
            blocking_ids@.len() == i,
            summaries@.len() == i,
            forall|k: int| 0 <= k < i ==> (#[trigger] blocking_ids@[k]) == bs[k].deployment.id,
            forall|k: int|
                0 <= k < i ==> bs[k].summary_text_at(now@) == Ok::<Seq<char>, EtaError>(
                    (#[trigger] summaries@[k])@,
                ),
        decreases blockers.len() - i,
    {
        proof {
            assert(bs[i as int] == blockers@[i as int]@);
        }
        proof {
            lemma_total_tells_all(bs, now@, i as int);
        }
        let summary = match blockers[i].summary_at(now) {
            Ok(text) => text,
            Err(e) => {
                assert(bs[i as int].summary_text_at(now@).is_ok());
                return Err(e);
            },
        };
        blocking_ids.push(blockers[i].deployment.id);
        summaries.push(summary);
        i += 1;
    }
    Ok(WaitReport { blocking_ids, eta, summaries })
}

/// One look of the waiting deployment `deployment_id` at its blockers, at
/// `now`.
///
/// First every running deployment whose heartbeat is stale is cancelled in
/// the name of the waiting one. Then the blockers are read. Without
/// blockers the deployment proceeds; else it learns what keeps it waiting.
pub fn wait_step(store: &mut Store, deployment_id: i64, now: Timestamp) -> (r: Result<
    WaitStep,
    WaitError,
>)
    requires
        old(store).wf(),
    ensures
        final(store).wf(),
        identities_kept(old(store)@, final(store)@),
        ({
            let sel = stale_selector(now@);
            let swept = old(store)@.cancelled_where(
                sel,
                Some(stale_note_text(deployment_id as int)),
                now@,
            );
            let expected = blockers_of(swept, deployment_id as int, now@);
            let bs = joined_all(swept.rows, expected, now@);
            match r {
                Err(WaitError::Store(e)) => old(store)@.cancellation_too_early(sel, now@) && e
                    == StoreError::InvalidTransition && final(store)@ == old(store)@,
                Err(WaitError::Analytics(e)) => final(store)@ == swept && exists|k: int|
                    0 <= k < expected.len() && joined(swept.rows, #[trigger] expected[k], now@)
                        == Err::<BlockingView, AnalyticsError>(e),
                Err(WaitError::Eta(e)) => final(store)@ == swept && expected.len() > 0
                    && eta_failure(bs, now@) == Some(e),
                Ok(WaitStep::Proceed) => final(store)@ == swept && expected.len() == 0,
                Ok(WaitStep::Wait(report)) => final(store)@ == swept && expected.len() > 0
                    && eta_failure(bs, now@).is_none() && reports(report, bs, now@),
            }
        }),
{
    match cancel_stale_heartbeat_deployments(store, deployment_id, now) {
        Ok(_) => {},
        Err(e) => {
            return Err(WaitError::Store(e));
        },
    }
    let blockers = match blocking_deployments(store, deployment_id, now) {
        Ok(v) => v,
        Err(e) => {
            return Err(WaitError::Analytics(e));
        },
    };
    if blockers.len() == 0 {
        return Ok(WaitStep::Proceed);
    }
    proof {
        let expected = blockers_of(store@, deployment_id as int, now@);
        assert(blockers_view(blockers@) =~= joined_all(store@.rows, expected, now@));
    }
    match wait_report(&blockers, now) {
        Ok(report) => Ok(WaitStep::Wait(report)),
        Err(e) => Err(WaitError::Eta(e)),
    }
}

} // verus!
