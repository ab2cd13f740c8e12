//! Deployments that stand in the way of another one, and how long each of
//! them is expected to keep standing there.

use vstd::prelude::*;
use vstd::string::StringExecFns;
use crate::clock::{now, timestamp_in_range, Timestamp};
use crate::duration::{
    duration_in_range, human_text, Duration, DurationExt, NANOS_PER_MICRO, NANOS_PER_SECOND,
};
use crate::model::{Deployment, DeploymentState, DeploymentView};

verus! {

/// Why the remaining time of a blocker could not be told.
#[derive(Clone, Copy, Debug, PartialEq, Eq, Structural)]
pub enum EtaError {
    /// The deployment is cancelled, and a cancelled deployment blocks nothing.
    CancelledBlocking,
    /// A sum or difference of spans is beyond what a duration can hold.
    Overflow,
    /// The clock reads a time that no timestamp can hold.
    Clock,
}

/// A deployment that blocks another one, with the typical duration of
/// deployments like it, where the history knows one.
#[derive(Debug)]
pub struct BlockingDeployment {
    pub deployment: Deployment,
    pub avg_duration: Option<Duration>,
    pub stddev_duration: Option<Duration>,
}

/// The length of an optional span in nanoseconds, if it is there.
pub open spec fn opt_span(o: Option<Duration>) -> Option<int> {
    match o {
        Some(d) => Some(d@),
        None => None,
    }
}

/// A blocker as plain values; spans in nanoseconds.
pub struct BlockingView {
    pub deployment: DeploymentView,
    pub avg_duration: Option<int>,
    pub stddev_duration: Option<int>,
}

impl View for BlockingDeployment {
    type V = BlockingView;

    open spec fn view(&self) -> BlockingView {
        BlockingView {
            deployment: self.deployment@,
            avg_duration: opt_span(self.avg_duration),
            stddev_duration: opt_span(self.stddev_duration),
        }
    }
}

/// `x`, or zero where `x` is negative.
pub open spec fn at_least_zero(x: int) -> int {
    if x > 0 {
        x
    } else {
        0
    }
}

/// How a span reads for people: the rendering of its whole seconds, and
/// that of the empty span where it is negative.
pub open spec fn human_span(nanos: int) -> Seq<char> {
    if nanos < 0 {
        "0s"@
    } else {
        human_text((nanos / NANOS_PER_SECOND as int) as u64, 0)
    }
}

impl BlockingView {
    /// Whether the remaining time depends on the current time: it does for
    /// a running deployment with a known typical duration, and for a
    /// finished one.
    pub open spec fn needs_clock(self) -> bool {
        match self.deployment.state() {
            DeploymentState::Running => self.avg_duration.is_some(),
            DeploymentState::Finished => true,
            _ => false,
        }
    }

    /// The time that the blocker is expected to keep its cell at `now`
    /// (microseconds since the Unix epoch), in nanoseconds: first the rest
    /// of the deployment itself, unknown without a typical duration, then
    /// the rest of the buffer.
    ///
    /// A queued deployment has all of its typical duration and all of its
    /// buffer before it. A running one has the typical duration less the
    /// time it has run, but not less than nothing. A finished one has only
    /// what is left of its buffer.
    pub open spec fn remaining_at(self, now: int) -> Result<(Option<int>, int), EtaError> {
        let d = self.deployment;
        match d.state() {
            DeploymentState::Queued => Ok((self.avg_duration, d.buffer_time)),
            DeploymentState::Running => match self.avg_duration {
                Some(avg) => {
                    let rest = avg - (now - d.start_timestamp.unwrap()) * NANOS_PER_MICRO;
                    if duration_in_range(rest) {
                        Ok((Some(at_least_zero(rest)), d.buffer_time))
                    } else {
                        Err(EtaError::Overflow)
                    }
                },
                None => Ok((None, d.buffer_time)),
            },
            DeploymentState::Finished => {
                let rest = d.buffer_time - (now - d.finish_timestamp.unwrap()) * NANOS_PER_MICRO;
                if duration_in_range(rest) {
                    Ok((None, at_least_zero(rest)))
                } else {
                    Err(EtaError::Overflow)
                }
            },
            DeploymentState::Cancelled => Err(EtaError::CancelledBlocking),
        }
    }
}

/// A remaining time with its spans in nanoseconds.
pub open spec fn remaining_view(r: Result<(Option<Duration>, Duration), EtaError>) -> Result<
    (Option<int>, int),
    EtaError,
> {
    match r {
        Ok((deployment_time, buffer_time)) => Ok((opt_span(deployment_time), buffer_time@)),
        Err(e) => Err(e),
    }
}

impl BlockingDeployment {
    /// The time that the blocker is expected to keep its cell at `now`.
    pub fn remaining_time_at(&self, now: Timestamp) -> (r: Result<
        (Option<Duration>, Duration),
        EtaError,
    >)
        ensures
            remaining_view(r) == self@.remaining_at(now@),
    {
        let buffer_time = self.deployment.buffer_time;
        match self.deployment.state() {
            DeploymentState::Queued => Ok((self.avg_duration, buffer_time)),
            DeploymentState::Running => {
                match (self.deployment.start_timestamp, self.avg_duration) {
                    (Some(start_time), Some(avg_duration)) => {
                        let elapsed = now.since(&start_time);
                        match avg_duration.checked_sub(&elapsed) {
                            Some(rest) => Ok((Some(rest.max_zero()), buffer_time)),
                            None => Err(EtaError::Overflow),
                        }
                    },
                    _ => Ok((None, buffer_time)),
                }
            },
            DeploymentState::Finished => {
                match self.deployment.finish_timestamp {
                    Some(finish_time) => {
                        let since_finish = now.since(&finish_time);
                        match buffer_time.checked_sub(&since_finish) {
                            Some(rest) => Ok((None, rest.max_zero())),
                            None => Err(EtaError::Overflow),
                        }
                    },
                    None => Err(EtaError::CancelledBlocking),
                }
            },
            DeploymentState::Cancelled => Err(EtaError::CancelledBlocking),
        }
    }

    /// Whether the remaining time depends on the current time.
    pub fn needs_clock(&self) -> (r: bool)
        ensures
            r == self@.needs_clock(),
    {
        match self.deployment.state() {
            DeploymentState::Running => self.avg_duration.is_some(),
            DeploymentState::Finished => true,
            _ => false,
        }
    }

    /// The time that the blocker is expected to keep its cell, as of now.
    ///
    /// The clock is read only where the answer depends on it. The answer is
    /// then the one for some point in time, namely the one the clock gave.
    pub fn remaining_time(&self) -> (r: Result<(Option<Duration>, Duration), EtaError>)
        ensures
            !self@.needs_clock() ==> remaining_view(r) == self@.remaining_at(0),
            self@.needs_clock() ==> r == Err::<(Option<Duration>, Duration), EtaError>(
                EtaError::Clock,
            ) || exists|t: int| #[trigger]
                timestamp_in_range(t) && remaining_view(r) == self@.remaining_at(t),
    {
        if !self.needs_clock() {
            let any = Timestamp::from_unix_micros(0);
            assert(timestamp_in_range(0));
            return self.remaining_time_at(any.unwrap());
        }
        match now() {
            Some(t) => {
                assert(timestamp_in_range(t@));
                self.remaining_time_at(t)
            },
            None => Err(EtaError::Clock),
        }
    }
}

/// `text` with what is known of the time that a blocker in `state` still
/// needs: `deployment_time` for the deployment itself, where the history
/// tells, and `buffer_time` after it; both in nanoseconds.
pub open spec fn with_eta(
    text: Seq<char>,
    state: DeploymentState,
    deployment_time: Option<int>,
    buffer_time: int,
) -> Seq<char> {
    match deployment_time {
        Some(t) => {
            if t + buffer_time > 0 {
                let first = text + ": ~"@ + human_span(t + buffer_time) + " remaining"@;
                if buffer_time > 0 {
                    first + " (includes ~"@ + human_span(buffer_time) + " buffer)"@
                } else {
                    first
                }
            } else if state == DeploymentState::Running {
                if buffer_time > 0 {
                    text + ": overdue"@ + ", ~"@ + human_span(buffer_time) + " buffer remaining"@
                } else {
                    text + ": overdue"@
                }
            } else {
                text
            }
        },
        None => match state {
            DeploymentState::Finished => {
                if buffer_time > 0 {
                    text + ": ~"@ + human_span(buffer_time) + " buffer remaining"@
                } else {
                    text
                }
            },
            DeploymentState::Queued | DeploymentState::Running => {
                if buffer_time > 0 {
                    text + ": unknown deployment time"@ + ", ~"@ + human_span(buffer_time)
                        + " buffer"@
                } else {
                    text + ": unknown deployment time"@
                }
            },
            DeploymentState::Cancelled => text,
        },
    }
}

/// `text` with `extra` behind it in round brackets, where there is any.
pub open spec fn with_bracketed(text: Seq<char>, extra: Option<Seq<char>>) -> Seq<char> {
    match extra {
        Some(e) => text + " ("@ + e + ")"@,
        None => text,
    }
}

impl BlockingView {
    /// The one-line summary of the blocker at `now`: the headline of the
    /// deployment, the time it still needs, then note and URL.
    pub open spec fn summary_text_at(self, now: int) -> Result<Seq<char>, EtaError> {
        let d = self.deployment;
        match self.remaining_at(now) {
            Err(e) => Err(e),
            Ok((deployment_time, buffer_time)) => {
                if deployment_time.is_some() && !duration_in_range(
                    deployment_time.unwrap() + buffer_time,
                ) {
                    Err(EtaError::Overflow)
                } else {
                    Ok(
                        with_bracketed(
                            with_bracketed(
                                with_eta(d.headline(), d.state(), deployment_time, buffer_time),
                                d.note,
                            ),
                            d.url,
                        ),
                    )
                }
            },
        }
    }
}

/// What a summary reads, if there is one.
pub open spec fn summary_view(r: Result<String, EtaError>) -> Result<Seq<char>, EtaError> {
    match r {
        Ok(s) => Ok(s@),
        Err(e) => Err(e),
    }
}

/// Appends the rendering of a span for people.
fn push_human(out: &mut String, span: &Duration)
    ensures
        final(out)@ == old(out)@ + human_span(span@),
{
    let text = span.format_human();
    out.append(text.as_str());
}

/// Appends `extra` in round brackets, where there is any.
fn push_bracketed(out: &mut String, extra: &Option<String>)
    ensures
        final(out)@ == with_bracketed(old(out)@, crate::model::opt_text(*extra)),
{
    if let Some(e) = extra {
        out.append(" (");
        out.append(e.as_str());
        out.append(")");
    }
}

impl BlockingDeployment {
    /// The one-line summary of the blocker at `now`, with the time it is
    /// expected to need.
    pub fn summary_at(&self, now: Timestamp) -> (r: Result<String, EtaError>)
        ensures
            summary_view(r) == self@.summary_text_at(now@),
    {
        let state = self.deployment.state();
        let mut out = self.deployment.headline();
        let (deployment_time, buffer_time) = match self.remaining_time_at(now) {
            Ok(pair) => pair,
            Err(e) => {
                return Err(e);
            },
        };
        match deployment_time {
            Some(t) => {
                let total = match t.checked_add(&buffer_time) {
                    Some(total) => total,
                    None => {
                        return Err(EtaError::Overflow);
                    },
                };
                if total.is_positive() {
                    out.append(": ~");
                    push_human(&mut out, &total);
                    out.append(" remaining");
                    if buffer_time.is_positive() {
                        out.append(" (includes ~");
                        push_human(&mut out, &buffer_time);
                        out.append(" buffer)");
                    }
                } else if state == DeploymentState::Running {
                    out.append(": overdue");
                    if buffer_time.is_positive() {
                        out.append(", ~");
                        push_human(&mut out, &buffer_time);
                        out.append(" buffer remaining");
                    }
                }
            },
            None => match state {
                DeploymentState::Finished => {
                    if buffer_time.is_positive() {
                        out.append(": ~");
                        push_human(&mut out, &buffer_time);
                        out.append(" buffer remaining");
                    }
                },
                DeploymentState::Queued | DeploymentState::Running => {
                    out.append(": unknown deployment time");
                    if buffer_time.is_positive() {
                        out.append(", ~");
                        push_human(&mut out, &buffer_time);
                        out.append(" buffer");
                    }
                },
                DeploymentState::Cancelled => {},
            },
        }
        push_bracketed(&mut out, &self.deployment.note);
        push_bracketed(&mut out, &self.deployment.url);
        Ok(out)
    }

    /// The one-line summary of the blocker as of now.
    ///
    /// The clock is read only where the summary depends on it. The summary
    /// is then the one for some point in time, namely the one the clock gave.
    pub fn summary(&self) -> (r: Result<String, EtaError>)
        ensures
            !self@.needs_clock() ==> summary_view(r) == self@.summary_text_at(0),
            self@.needs_clock() ==> r == Err::<String, EtaError>(EtaError::Clock) || exists|
                t: int,
            | #[trigger]
                timestamp_in_range(t) && summary_view(r) == self@.summary_text_at(t),
    {
        if !self.needs_clock() {
            let any = Timestamp::from_unix_micros(0);
            assert(timestamp_in_range(0));
            return self.summary_at(any.unwrap());
        }
        match now() {
            Some(t) => {
                assert(timestamp_in_range(t@));
                self.summary_at(t)
            },
            None => Err(EtaError::Clock),
        }
    }
}

/// Whether two deployments target the same cell.
pub open spec fn same_cell(d: DeploymentView, c: DeploymentView) -> bool {
    d.cell == c.cell
}

/// Whether two deployments keep each other waiting as far as their
/// concurrency keys go: they do unless both carry a key and the keys are
/// equal. The empty key is a key like any other.
pub open spec fn not_in_same_concurrency_group(d: DeploymentView, c: DeploymentView) -> bool {
    d.concurrency_key.is_none() || c.concurrency_key.is_none() || d.concurrency_key
        != c.concurrency_key
}

/// Whether `d` still holds its cell at `now`: it is not cancelled, and it
/// has not finished or finished less than its buffer time ago.
pub open spec fn active(d: DeploymentView, now: int) -> bool {
    &&& d.cancellation_timestamp.is_none()
    &&& d.finish_timestamp.is_none() || d.finish_timestamp.unwrap() * NANOS_PER_MICRO > now
        * NANOS_PER_MICRO - d.buffer_time
}

/// Whether `d` keeps `c` waiting at `now`: it came earlier, targets the
/// same cell, is not in the same concurrency group and still holds the cell.
pub open spec fn blocks(d: DeploymentView, c: DeploymentView, now: int) -> bool {
    &&& d.id < c.id
    &&& same_cell(d, c)
    &&& not_in_same_concurrency_group(d, c)
    &&& active(d, now)
}

/// Those of `rows` that keep `c` waiting at `now`, in the order of `rows`.
pub open spec fn blockers_among(rows: Seq<DeploymentView>, c: DeploymentView, now: int) -> Seq<
    DeploymentView,
>
    decreases rows.len(),
{
    if rows.len() == 0 {
        Seq::empty()
    } else {
        let rest = blockers_among(rows.drop_last(), c, now);
        if blocks(rows.last(), c, now) {
            rest.push(rows.last())
        } else {
            rest
        }
    }
}

/// The deployments that keep the deployment `id` waiting at `now`, by
/// ascending id; none where the id is not in the table.
pub open spec fn blockers_of(s: crate::store::StoreView, id: int, now: int) -> Seq<
    DeploymentView,
> {
    match s.get(id) {
        Some(c) => blockers_among(s.rows, c, now),
        None => Seq::empty(),
    }
}

/// Every blocker is a row that blocks.
pub proof fn lemma_blockers_sound(rows: Seq<DeploymentView>, c: DeploymentView, now: int)
    ensures
        forall|k: int|
            0 <= k < blockers_among(rows, c, now).len() ==> blocks(
                #[trigger] blockers_among(rows, c, now)[k],
                c,
                now,
            ) && rows.contains(blockers_among(rows, c, now)[k]),
    decreases rows.len(),
{
    if rows.len() > 0 {
        lemma_blockers_sound(rows.drop_last(), c, now);
        let rest = blockers_among(rows.drop_last(), c, now);
        assert forall|k: int| 0 <= k < blockers_among(rows, c, now).len() implies blocks(
            #[trigger] blockers_among(rows, c, now)[k],
            c,
            now,
        ) && rows.contains(blockers_among(rows, c, now)[k]) by {
            if k < rest.len() {
                let d = rest[k];
                assert(rows.drop_last().contains(d));
                let j = choose|j: int| 0 <= j < rows.drop_last().len() && rows.drop_last()[j] == d;
                assert(rows[j] == d);
            } else {
                assert(rows[rows.len() - 1] == rows.last());
            }
        }
    }
}

/// Every row that blocks is a blocker.
pub proof fn lemma_blockers_complete(
    rows: Seq<DeploymentView>,
    c: DeploymentView,
    now: int,
    i: int,
)
    requires
        0 <= i < rows.len(),
        blocks(rows[i], c, now),
    ensures
        blockers_among(rows, c, now).contains(rows[i]),
    decreases rows.len(),
{
    let all = blockers_among(rows, c, now);
    let rest = blockers_among(rows.drop_last(), c, now);
    if i == rows.len() - 1 {
        assert(all[all.len() - 1] == rows[i]);
    } else {
        lemma_blockers_complete(rows.drop_last(), c, now, i);
        let k = choose|k: int| 0 <= k < rest.len() && rest[k] == rows.drop_last()[i];
        assert(all[k] == rows[i]);
    }
}

/// The blockers come by ascending id where the rows do.
pub proof fn lemma_blockers_ascending(rows: Seq<DeploymentView>, c: DeploymentView, now: int)
    requires
        forall|i: int, j: int|
            0 <= i < j < rows.len() ==> (#[trigger] rows[i]).id < (#[trigger] rows[j]).id,
    ensures
        forall|k: int, l: int|
            0 <= k < l < blockers_among(rows, c, now).len() ==> (#[trigger] blockers_among(
                rows,
                c,
                now,
            )[k]).id < (#[trigger] blockers_among(rows, c, now)[l]).id,
    decreases rows.len(),
{
    if rows.len() > 0 {
        let front = rows.drop_last();
        assert forall|i: int, j: int| 0 <= i < j < front.len() implies (#[trigger] front[i]).id < (
        #[trigger] front[j]).id by {
            assert(rows[i].id < rows[j].id);
        }
        lemma_blockers_ascending(front, c, now);
        lemma_blockers_sound(front, c, now);
        let rest = blockers_among(front, c, now);
        let all = blockers_among(rows, c, now);
        assert forall|k: int, l: int| 0 <= k < l < all.len() implies (#[trigger] all[k]).id < (
        #[trigger] all[l]).id by {
            if l >= rest.len() {
                let d = rest[k];
                assert(front.contains(d));
                let j = choose|j: int| 0 <= j < front.len() && front[j] == d;
                assert(rows[j].id < rows[rows.len() - 1].id);
            }
        }
    }
}

/// An earlier deployment in the same cell, not in the same concurrency
/// group, that still holds the cell at `now`, is among the blockers of the
/// later one: the later one is blocked.
pub proof fn lemma_earlier_active_blocks(s: crate::store::StoreView, a: int, b: int, now: int)
    requires
        s.wf(),
        0 <= a < s.rows.len(),
        0 <= b < s.rows.len(),
        s.rows[a].id < s.rows[b].id,
        same_cell(s.rows[a], s.rows[b]),
        not_in_same_concurrency_group(s.rows[a], s.rows[b]),
        active(s.rows[a], now),
    ensures
        blockers_of(s, s.rows[b].id, now).contains(s.rows[a]),
        blockers_of(s, s.rows[b].id, now).len() > 0,
{
    crate::store::lemma_position(s, b);
    lemma_blockers_complete(s.rows, s.rows[b], now, a);
}

/// From the end of its buffer time on, a finished deployment holds its
/// cell no longer and blocks nothing. At the very end of the buffer time
/// it blocks no more.
pub proof fn lemma_buffer_expires(d: DeploymentView, c: DeploymentView, now: int)
    requires
        d.finish_timestamp.is_some(),
        now * NANOS_PER_MICRO >= d.finish_timestamp.unwrap() * NANOS_PER_MICRO + d.buffer_time,
    ensures
        !active(d, now),
        !blocks(d, c, now),
{
}

/// Before the end of its buffer time a finished deployment that is not
/// cancelled still holds its cell.
pub proof fn lemma_buffer_holds(d: DeploymentView, now: int)
    requires
        d.finish_timestamp.is_some(),
        d.cancellation_timestamp.is_none(),
        now * NANOS_PER_MICRO < d.finish_timestamp.unwrap() * NANOS_PER_MICRO + d.buffer_time,
    ensures
        active(d, now),
{
}

/// A cancelled deployment blocks nothing, finished or not, and none is
/// among the blockers of any deployment.
pub proof fn lemma_cancelled_never_blocks(
    s: crate::store::StoreView,
    d: DeploymentView,
    id: int,
    now: int,
)
    ensures
        d.cancellation_timestamp.is_some() ==> forall|c: DeploymentView| !blocks(d, c, now),
        forall|k: int|
            0 <= k < blockers_of(s, id, now).len() ==> (#[trigger] blockers_of(
                s,
                id,
                now,
            )[k]).cancellation_timestamp.is_none(),
{
    match s.get(id) {
        Some(c) => {
            lemma_blockers_sound(s.rows, c, now);
        },
        None => {},
    }
}

/// The empty concurrency key is a key: two deployments that both carry it
/// are in the same group and do not block each other, while a deployment
/// that carries it is in no group with one that carries none.
pub proof fn lemma_empty_key_is_a_key(d: DeploymentView, c: DeploymentView, now: int)
    ensures
        d.concurrency_key == Some(Seq::<char>::empty()) && c.concurrency_key == Some(
            Seq::<char>::empty(),
        ) ==> !not_in_same_concurrency_group(d, c) && !blocks(d, c, now),
        d.concurrency_key == Some(Seq::<char>::empty()) && c.concurrency_key.is_none()
            ==> not_in_same_concurrency_group(d, c),
{
}

/// Blocking carries on along the queue: what blocks a deployment that
/// blocks a third one blocks the third one too, unless the first and the
/// third are in the same concurrency group.
pub proof fn lemma_blocking_carries_on(
    a: DeploymentView,
    b: DeploymentView,
    c: DeploymentView,
    now: int,
)
    requires
        blocks(a, b, now),
        blocks(b, c, now),
        not_in_same_concurrency_group(a, c),
    ensures
        blocks(a, c, now),
{
}

/// Whether `d` is in its buffer at `now`: it has finished, is not
/// cancelled, and no more than its buffer time has passed since.
pub open spec fn buffering(d: DeploymentView, now: int) -> bool {
    &&& d.state() == DeploymentState::Finished
    &&& (now - d.finish_timestamp.unwrap()) * NANOS_PER_MICRO <= d.buffer_time
}

impl Deployment {
    /// Whether the deployment is in its buffer at `now`.
    pub fn is_buffering(&self, now: Timestamp) -> (r: bool)
        ensures
            r == buffering(self@, now@),
    {
        match (self.state(), self.finish_timestamp) {
            (DeploymentState::Finished, Some(finish)) => !now.since(&finish).exceeds(
                &self.buffer_time,
            ),
            _ => false,
        }
    }
}

/// A finished deployment that still holds its cell is in its buffer.
pub proof fn lemma_holding_is_buffering(d: DeploymentView, now: int)
    requires
        d.state() == DeploymentState::Finished,
        active(d, now),
    ensures
        buffering(d, now),
{
}

} // verus!
