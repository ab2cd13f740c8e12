//! Reserving and releasing named resources at a lock service: what each
//! answer of the service means for the next step.

use vstd::prelude::*;
use vstd::string::StringExecFns;
use crate::duration::StdDuration;
use crate::model::{opt_text, opt_text_eq};
use crate::text::{contains_text, last_word, last_word_of, occurs_in};

pub mod cli;

verus! {

/// So many requests may fail or meet a server error before the client
/// gives up.
pub const MAX_FAILURES: usize = 15;

/// Pause after a failed request, in seconds.
pub const FAILURE_RETRY_SECS: u64 = 2;

/// Pause while someone else holds the resource, in seconds.
pub const BUSY_RETRY_SECS: u64 = 5;

/// The longest pause before another look at a reserved resource, in
/// seconds.
pub const MAX_WAIT_SECS: u64 = 300;

/// What the service knows of one resource.
#[derive(Debug)]
pub struct ResourceListItem {
    pub name: String,
    pub description: String,
    pub isolated: bool,
    pub isolation_channel_name: Option<String>,
    /// Until when the resource is reserved, as the service writes it.
    pub active_reservation: Option<String>,
    pub active_reservation_user_name: Option<String>,
    pub active_reservation_reason: Option<String>,
}

/// How an attempt to reserve ended.
#[derive(Clone, Copy, Debug, PartialEq, Eq, Structural)]
pub enum ReservationResult {
    /// The resource is reserved now.
    Success,
    /// Someone else holds the resource.
    Conflict,
    /// The attempt is to be made again.
    Retry,
}

/// What came of one request to the service.
#[derive(Clone, Copy, Debug, PartialEq, Eq, Structural)]
pub enum HttpEvent {
    /// The service answered with this status code.
    Status(u16),
    /// The request did not get through.
    Failed,
}

/// Why the client stops.
#[derive(Clone, Copy, Debug, PartialEq, Eq, Structural)]
pub enum BotError {
    /// The service found the request malformed.
    BadRequest,
    /// The service did not accept the API key.
    Unauthorized,
    /// The service answered with a status that tells nothing, or with
    /// server errors too many times.
    UnexpectedStatus(u16),
    /// Requests did not get through too many times.
    RequestFailed,
    /// The request was counted as failed and is to be made again.
    RetryNeeded,
    /// The resource to release is not reserved.
    NotReserved,
    /// The resource to release is held by someone else.
    ReservedBySomeoneElse,
    /// The service does not know the resource.
    ResourceNotFound,
    /// A reserved resource names no holder.
    MissingUserName,
    /// A reserved resource gives no reason.
    MissingReason,
}

/// What to do after an attempt to reserve.
#[derive(Clone, Copy, Debug, PartialEq, Eq, Structural)]
pub enum ReservationStep {
    /// The attempt ended: act on the result.
    Done(ReservationResult),
    /// The service does not know the resource: create it, then try again.
    CreateMissing,
}

/// Whether a status code tells of an error on the side of the server.
pub open spec fn is_server_error(status: u16) -> bool {
    500 <= status < 600
}

/// How many requests have failed so far.
#[derive(Clone, Copy, Debug)]
pub struct State {
    failure_count: usize,
}

impl State {
    #[verifier::type_invariant]
    closed spec fn bounded(self) -> bool {
        self.failure_count <= MAX_FAILURES
    }

    /// The number of failures so far.
    pub closed spec fn failures(&self) -> int {
        self.failure_count as int
    }

    /// A client that has not met a failure yet.
    pub fn new() -> (r: State)
        ensures
            r.failures() == 0,
    {
        State { failure_count: 0 }
    }

    /// The number of failures so far.
    pub fn failure_count(&self) -> (r: usize)
        ensures
            r == self.failures(),
            r <= MAX_FAILURES,
    {
        proof {
            use_type_invariant(self);
        }
        self.failure_count
    }

    /// Takes note of a request that did not get through. The fifteen
    /// first are borne, and the caller pauses and tries again; the next
    /// one ends the run.
    pub fn request_failure(&mut self) -> (r: Result<(), BotError>)
        ensures
            old(self).failures() >= MAX_FAILURES ==> r == Err::<(), BotError>(
                BotError::RequestFailed,
            ) && final(self).failures() == old(self).failures(),
            old(self).failures() < MAX_FAILURES ==> r == Ok::<(), BotError>(())
                && final(self).failures() == old(self).failures() + 1,
    {
        proof {
            use_type_invariant(&*self);
        }
        if self.failure_count >= MAX_FAILURES {
            return Err(BotError::RequestFailed);
        }
        self.failure_count = self.failure_count + 1;
        Ok(())
    }

    /// Takes note of a status code that tells nothing of the request
    /// itself. A server error is borne like a request that did not get
    /// through; any other status ends the run.
    pub fn status_code(&mut self, status_code: u16) -> (r: Result<(), BotError>)
        ensures
            !is_server_error(status_code) || old(self).failures() >= MAX_FAILURES ==> r == Err::<
                (),
                BotError,
            >(BotError::UnexpectedStatus(status_code)) && final(self).failures() == old(
                self,
            ).failures(),
            is_server_error(status_code) && old(self).failures() < MAX_FAILURES ==> r == Ok::<
                (),
                BotError,
            >(()) && final(self).failures() == old(self).failures() + 1,
    {
        proof {
            use_type_invariant(&*self);
        }
        let server_error = 500 <= status_code && status_code < 600;
        if !server_error || self.failure_count >= MAX_FAILURES {
            return Err(BotError::UnexpectedStatus(status_code));
        }
        self.failure_count = self.failure_count + 1;
        Ok(())
    }

    /// What a status or a failure that tells nothing of the request means:
    /// `Ok` where it was counted and the request is to be made again, else
    /// why the run ends.
    pub open spec fn counted(before: int, event: HttpEvent) -> Result<(), BotError> {
        match event {
            HttpEvent::Failed => {
                if before >= MAX_FAILURES {
                    Err(BotError::RequestFailed)
                } else {
                    Ok(())
                }
            },
            HttpEvent::Status(code) => {
                if !is_server_error(code) || before >= MAX_FAILURES {
                    Err(BotError::UnexpectedStatus(code))
                } else {
                    Ok(())
                }
            },
        }
    }

    /// The number of failures after such an event.
    pub open spec fn failures_after(before: int, event: HttpEvent) -> int {
        if State::counted(before, event).is_ok() {
            before + 1
        } else {
            before
        }
    }

    /// Counts an event that tells nothing of the request.
    fn count(&mut self, event: HttpEvent) -> (r: Result<(), BotError>)
        ensures
            r == State::counted(old(self).failures(), event),
            final(self).failures() == State::failures_after(old(self).failures(), event),
    {
        match event {
            HttpEvent::Failed => self.request_failure(),
            HttpEvent::Status(code) => self.status_code(code),
        }
    }

    /// What the answer to a request for the list of resources means.
    ///
    /// `Ok` where the list came and is to be read. A malformed request and
    /// a refused key end the run. Anything else is counted: the request is
    /// to be made again, unless there were too many failures or the status
    /// tells nothing.
    pub open spec fn fetch_outcome(before: int, event: HttpEvent) -> Result<(), BotError> {
        match event {
            HttpEvent::Status(200) => Ok(()),
            HttpEvent::Status(400) => Err(BotError::BadRequest),
            HttpEvent::Status(401) => Err(BotError::Unauthorized),
            _ => match State::counted(before, event) {
                Ok(()) => Err(BotError::RetryNeeded),
                Err(e) => Err(e),
            },
        }
    }

    /// Whether the event is one that is counted when the list of
    /// resources is asked for.
    pub open spec fn fetch_counts(event: HttpEvent) -> bool {
        match event {
            HttpEvent::Status(200) | HttpEvent::Status(400) | HttpEvent::Status(401) => false,
            _ => true,
        }
    }

    /// Decides on the answer to a request for the list of resources.
    pub fn fetch_resource_data(&mut self, event: HttpEvent) -> (r: Result<(), BotError>)
        ensures
            r == State::fetch_outcome(old(self).failures(), event),
            final(self).failures() == if State::fetch_counts(event) {
                State::failures_after(old(self).failures(), event)
            } else {
                old(self).failures()
            },
    {
        match event {
            HttpEvent::Status(200) => Ok(()),
            HttpEvent::Status(400) => Err(BotError::BadRequest),
            HttpEvent::Status(401) => Err(BotError::Unauthorized),
            _ => match self.count(event) {
                Ok(()) => Err(BotError::RetryNeeded),
                Err(e) => Err(e),
            },
        }
    }

    /// What the answer to a request to create a resource means: `Ok` where
    /// the resource is there now, created or found; else as for the list
    /// of resources.
    pub open spec fn create_outcome(before: int, event: HttpEvent) -> Result<(), BotError> {
        match event {
            HttpEvent::Status(201) => Ok(()),
            HttpEvent::Status(409) => Ok(()),
            HttpEvent::Status(400) => Err(BotError::BadRequest),
            HttpEvent::Status(401) => Err(BotError::Unauthorized),
            _ => match State::counted(before, event) {
                Ok(()) => Err(BotError::RetryNeeded),
                Err(e) => Err(e),
            },
        }
    }

    /// Whether the event is one that is counted when a resource is created.
    pub open spec fn create_counts(event: HttpEvent) -> bool {
        match event {
            HttpEvent::Status(201) | HttpEvent::Status(409) | HttpEvent::Status(400)
            | HttpEvent::Status(401) => false,
            _ => true,
        }
    }

    /// Decides on the answer to a request to create a resource.
    pub fn create_resource_if_missing(&mut self, event: HttpEvent) -> (r: Result<(), BotError>)
        ensures
            r == State::create_outcome(old(self).failures(), event),
            final(self).failures() == if State::create_counts(event) {
                State::failures_after(old(self).failures(), event)
            } else {
                old(self).failures()
            },
    {
        match event {
            HttpEvent::Status(201) => Ok(()),
            HttpEvent::Status(409) => Ok(()),
            HttpEvent::Status(400) => Err(BotError::BadRequest),
            HttpEvent::Status(401) => Err(BotError::Unauthorized),
            _ => match self.count(event) {
                Ok(()) => Err(BotError::RetryNeeded),
                Err(e) => Err(e),
            },
        }
    }

    /// What the answer to an attempt to reserve means.
    pub open spec fn reservation_outcome(before: int, event: HttpEvent) -> Result<
        ReservationStep,
        BotError,
    > {
        match event {
            HttpEvent::Status(201) => Ok(ReservationStep::Done(ReservationResult::Success)),
            HttpEvent::Status(409) => Ok(ReservationStep::Done(ReservationResult::Conflict)),
            HttpEvent::Status(400) => Err(BotError::BadRequest),
            HttpEvent::Status(401) => Err(BotError::Unauthorized),
            HttpEvent::Status(404) => Ok(ReservationStep::CreateMissing),
            _ => match State::counted(before, event) {
                Ok(()) => Ok(ReservationStep::Done(ReservationResult::Retry)),
                Err(e) => Err(e),
            },
        }
    }

    /// Whether the event is one that is counted at an attempt to reserve.
    pub open spec fn reservation_counts(event: HttpEvent) -> bool {
        match event {
            HttpEvent::Status(201) | HttpEvent::Status(409) | HttpEvent::Status(400)
            | HttpEvent::Status(401) | HttpEvent::Status(404) => false,
            _ => true,
        }
    }

    /// Decides on the answer to an attempt to reserve.
    pub fn attempt_reservation(&mut self, event: HttpEvent) -> (r: Result<ReservationStep, BotError>)
        ensures
            r == State::reservation_outcome(old(self).failures(), event),
            final(self).failures() == if State::reservation_counts(event) {
                State::failures_after(old(self).failures(), event)
            } else {
                old(self).failures()
            },
    {
        match event {
            HttpEvent::Status(201) => Ok(ReservationStep::Done(ReservationResult::Success)),
            HttpEvent::Status(409) => Ok(ReservationStep::Done(ReservationResult::Conflict)),
            HttpEvent::Status(400) => Err(BotError::BadRequest),
            HttpEvent::Status(401) => Err(BotError::Unauthorized),
            HttpEvent::Status(404) => Ok(ReservationStep::CreateMissing),
            _ => match self.count(event) {
                Ok(()) => Ok(ReservationStep::Done(ReservationResult::Retry)),
                Err(e) => Err(e),
            },
        }
    }

    /// What the answer to a request to release means: `Ok(true)` where the
    /// resource is released, `Ok(false)` where the request is to be made
    /// again.
    pub open spec fn release_outcome(before: int, event: HttpEvent) -> Result<bool, BotError> {
        match event {
            HttpEvent::Status(200) => Ok(true),
            HttpEvent::Status(208) => Err(BotError::NotReserved),
            HttpEvent::Status(409) => Err(BotError::ReservedBySomeoneElse),
            HttpEvent::Status(400) => Err(BotError::BadRequest),
            HttpEvent::Status(401) => Err(BotError::Unauthorized),
            HttpEvent::Status(404) => Err(BotError::ResourceNotFound),
            _ => match State::counted(before, event) {
                Ok(()) => Ok(false),
                Err(e) => Err(e),
            },
        }
    }

    /// Whether the event is one that is counted when a resource is released.
    pub open spec fn release_counts(event: HttpEvent) -> bool {
        match event {
            HttpEvent::Status(200) | HttpEvent::Status(208) | HttpEvent::Status(409)
            | HttpEvent::Status(400) | HttpEvent::Status(401) | HttpEvent::Status(404) => false,
            _ => true,
        }
    }

    /// Decides on the answer to a request to release.
    pub fn release(&mut self, event: HttpEvent) -> (r: Result<bool, BotError>)
        ensures
            r == State::release_outcome(old(self).failures(), event),
            final(self).failures() == if State::release_counts(event) {
                State::failures_after(old(self).failures(), event)
            } else {
                old(self).failures()
            },
    {
        match event {
            HttpEvent::Status(200) => Ok(true),
            HttpEvent::Status(208) => Err(BotError::NotReserved),
            HttpEvent::Status(409) => Err(BotError::ReservedBySomeoneElse),
            HttpEvent::Status(400) => Err(BotError::BadRequest),
            HttpEvent::Status(401) => Err(BotError::Unauthorized),
            HttpEvent::Status(404) => Err(BotError::ResourceNotFound),
            _ => match self.count(event) {
                Ok(()) => Ok(false),
                Err(e) => Err(e),
            },
        }
    }
}

/// A resource as plain values.
pub struct ResourceView {
    pub name: Seq<char>,
    pub description: Seq<char>,
    pub isolated: bool,
    pub isolation_channel_name: Option<Seq<char>>,
    pub active_reservation: Option<Seq<char>>,
    pub active_reservation_user_name: Option<Seq<char>>,
    pub active_reservation_reason: Option<Seq<char>>,
}

impl View for ResourceListItem {
    type V = ResourceView;

    open spec fn view(&self) -> ResourceView {
        ResourceView {
            name: self.name@,
            description: self.description@,
            isolated: self.isolated,
            isolation_channel_name: opt_text(self.isolation_channel_name),
            active_reservation: opt_text(self.active_reservation),
            active_reservation_user_name: opt_text(self.active_reservation_user_name),
            active_reservation_reason: opt_text(self.active_reservation_reason),
        }
    }
}

/// Whether `resource` is the one that is asked for: it carries the name,
/// and, where a channel is asked for, it is isolated in that channel.
pub open spec fn is_wanted(resource: ResourceView, name: Seq<char>, channel: Option<Seq<char>>)
    -> bool {
    resource.name == name && (channel.is_none() || (resource.isolated
        && resource.isolation_channel_name == channel))
}

/// The place of the first of `resources` that is asked for.
pub fn find_resource(
    resources: &Vec<ResourceListItem>,
    resource_name: &str,
    isolation_channel: &Option<String>,
) -> (r: Option<usize>)
    ensures
        match r {
            Some(i) => i < resources@.len() && is_wanted(
                resources@[i as int]@,
                resource_name@,
                opt_text(*isolation_channel),
            ) && forall|k: int|
                0 <= k < i ==> !is_wanted(
                    (#[trigger] resources@[k])@,
                    resource_name@,
                    opt_text(*isolation_channel),
                ),
            None => forall|k: int|
                0 <= k < resources@.len() ==> !is_wanted(
                    (#[trigger] resources@[k])@,
                    resource_name@,
                    opt_text(*isolation_channel),
                ),
        },
{
    let name = String::from_str(resource_name);
    let mut i: usize = 0;
    while i < resources.len()
        invariant
            i <= resources.len(),
            name@ == resource_name@,
            forall|k: int|
                0 <= k < i ==> !is_wanted(
                    (#[trigger] resources@[k])@,
                    resource_name@,
                    opt_text(*isolation_channel),
                ),
        decreases resources.len() - i,
    {
        let resource = &resources[i];
        if resource.name == name && (isolation_channel.is_none() || (resource.isolated
            && opt_text_eq(&resource.isolation_channel_name, isolation_channel))) {
            return Some(i);
        }
        i += 1;
    }
    None
}

/// The point in time that a text in the format of RFC 3339 names, in
/// seconds since the Unix epoch and nanoseconds beyond them; `None` where
/// the text is not in that format.
pub uninterp spec fn rfc3339_instant(text: Seq<char>) -> Option<(i64, u32)>;

/// Reads a point in time with `chrono::DateTime::parse_from_rfc3339`.
///
/// Trusted: the answer is a function of the text alone.
#[verifier::external_body]
fn parse_rfc3339(text: &str) -> (r: Option<(i64, u32)>)
    ensures
        r == rfc3339_instant(text@),
{
    match chrono::DateTime::parse_from_rfc3339(text) {
        Ok(d) => Some((d.timestamp(), d.timestamp_subsec_nanos())),
        Err(_) => None,
    }
}

/// How a point in time reads in UTC, where the calendar reaches it.
pub uninterp spec fn utc_text(secs: i64, nanos: u32) -> Option<Seq<char>>;

/// Writes a point in time as `chrono` displays a `DateTime` in UTC.
///
/// Trusted: the text is a function of the seconds and nanoseconds alone.
#[verifier::external_body]
fn format_utc(secs: i64, nanos: u32) -> (r: Option<String>)
    ensures
        opt_text(r) == utc_text(secs, nanos),
{
    match chrono::DateTime::from_timestamp(secs, nanos) {
        Some(d) => Some(d.to_string()),
        None => None,
    }
}

/// Draws a number from zero to `max`, both included, with
/// `rand::Rng::gen_range`.
///
/// Trusted: the number is no larger than `max`. Which one is left open.
#[verifier::external_body]
fn random_up_to(max: u64) -> (r: u64)
    ensures
        r <= max,
{
    rand::Rng::gen_range(&mut rand::thread_rng(), 0..=max)
}

/// Until when a reservation runs, where it says so in a way that can be
/// read.
pub open spec fn expiration_of(active_reservation: Option<Seq<char>>) -> Option<(i64, u32)> {
    match active_reservation {
        Some(t) => rfc3339_instant(t),
        None => None,
    }
}

/// Until when the reservation runs.
pub fn parse_expiration_time(active_reservation: &Option<String>) -> (r: Option<(i64, u32)>)
    ensures
        r == expiration_of(opt_text(*active_reservation)),
{
    match active_reservation {
        Some(timestamp) => parse_rfc3339(timestamp.as_str()),
        None => None,
    }
}

/// A point in time in nanoseconds since the Unix epoch.
pub open spec fn instant_nanos(instant: (i64, u32)) -> int {
    instant.0 * 1_000_000_000 + instant.1
}

/// What is to be said of the reservation of `resource`, with `expires`
/// as the reading of its end where that is known.
///
/// A resource without a reservation says so. A reservation must name its
/// holder and its reason. Where the last word of the reason points to a
/// workflow run, holder and run are named, else holder and reason.
pub open spec fn message_text(resource: ResourceView, expires: Option<Seq<char>>) -> Result<
    Seq<char>,
    BotError,
> {
    if resource.active_reservation.is_none() {
        Ok("No active reservation."@)
    } else if resource.active_reservation_user_name.is_none() {
        Err(BotError::MissingUserName)
    } else if resource.active_reservation_reason.is_none() {
        Err(BotError::MissingReason)
    } else {
        let user = resource.active_reservation_user_name.unwrap();
        let reason = resource.active_reservation_reason.unwrap();
        let by_user = "Existing reservation by user "@ + user + " with reason \""@ + reason + "\""@;
        let base = match last_word_of(reason) {
            Some(word) => {
                if occurs_in(word, "/actions/runs/"@) {
                    "Existing reservation by component "@ + user + " in "@ + word
                } else {
                    by_user
                }
            },
            None => by_user,
        };
        match expires {
            Some(e) => Ok(base + ". Expires at: "@ + e + "."@),
            None => Ok(base + "."@),
        }
    }
}

/// What a message reads, if there is one.
pub open spec fn message_view(r: Result<String, BotError>) -> Result<Seq<char>, BotError> {
    match r {
        Ok(s) => Ok(s@),
        Err(e) => Err(e),
    }
}

/// What is to be said of the reservation of `resource`, with `expires`
/// as the reading of its end where that is known.
pub fn reservation_message(resource: &ResourceListItem, expires: Option<&str>) -> (r: Result<
    String,
    BotError,
>)
    ensures
        message_view(r) == message_text(resource@, crate::text::opt_str_view(expires)),
{
    if resource.active_reservation.is_none() {
        return Ok(String::from_str("No active reservation."));
    }
    let user = match &resource.active_reservation_user_name {
        Some(user) => user,
        None => {
            return Err(BotError::MissingUserName);
        },
    };
    let reason = match &resource.active_reservation_reason {
        Some(reason) => reason,
        None => {
            return Err(BotError::MissingReason);
        },
    };
    let workflow_url = match last_word(reason.as_str()) {
        Some(word) => {
            if contains_text(word, "/actions/runs/") {
                Some(word)
            } else {
                None
            }
        },
        None => None,
    };
    let mut out = match workflow_url {
        Some(url) => {
            let mut out = String::from_str("Existing reservation by component ");
            out.append(user.as_str());
            out.append(" in ");
            out.append(url);
            out
        },
        None => {
            let mut out = String::from_str("Existing reservation by user ");
            out.append(user.as_str());
            out.append(" with reason \"");
            out.append(reason.as_str());
            out.append("\"");
            out
        },
    };
    match expires {
        Some(e) => {
            out.append(". Expires at: ");
            out.append(e);
            out.append(".");
        },
        None => {
            out.append(".");
        },
    }
    Ok(out)
}

/// How the end of a reservation reads, where the reservation says when it
/// ends in a way that can be read.
pub open spec fn expiry_text_of(active_reservation: Option<Seq<char>>) -> Option<Seq<char>> {
    match expiration_of(active_reservation) {
        Some((secs, nanos)) => utc_text(secs, nanos),
        None => None,
    }
}

/// What is to be said of the reservation of `resource`: who holds it and
/// why, and until when where that can be read.
pub fn log_reservation_info(resource: &ResourceListItem) -> (r: Result<String, BotError>)
    ensures
        message_view(r) == message_text(
            resource@,
            expiry_text_of(opt_text(resource.active_reservation)),
        ),
{
    let expires = match parse_expiration_time(&resource.active_reservation) {
        Some((secs, nanos)) => format_utc(secs, nanos),
        None => None,
    };
    match &expires {
        Some(text) => reservation_message(resource, Some(text.as_str())),
        None => reservation_message(resource, None),
    }
}

/// Whether `resource` is reserved at `now` (nanoseconds since the Unix
/// epoch): it carries a reservation, and that has not run out or does not
/// say when it does.
pub open spec fn is_reserved_at(resource: ResourceView, now: int) -> bool {
    resource.active_reservation.is_some() && match expiration_of(resource.active_reservation) {
        Some(expires) => instant_nanos(expires) > now,
        None => true,
    }
}

/// Whether `resource` is reserved at `now`.
pub fn has_active_reservation_at(resource: &ResourceListItem, now: i128) -> (r: bool)
    ensures
        r == is_reserved_at(resource@, now as int),
{
    if resource.active_reservation.is_none() {
        return false;
    }
    match parse_expiration_time(&resource.active_reservation) {
        Some((secs, nanos)) => {
            let expires: i128 = secs as i128 * 1_000_000_000 + nanos as i128;
            expires > now
        },
        None => true,
    }
}

/// Whether `resource` is reserved as of now. The clock decides only
/// where the reservation says when it ends.
pub fn has_active_reservation(resource: &ResourceListItem) -> (r: bool)
    ensures
        resource@.active_reservation.is_none() ==> !r,
        resource@.active_reservation.is_some() && expiration_of(
            resource@.active_reservation,
        ).is_none() ==> r,
        exists|now: int| r == #[trigger] is_reserved_at(resource@, now),
{
    let now = crate::clock::unix_nanos_now();
    let r = has_active_reservation_at(resource, now);
    assert(r == is_reserved_at(resource@, now as int));
    r
}

/// How long to wait before another look at a resource whose reservation
/// ends at `expires`, at `now`, in nanoseconds: until the reservation
/// ends, but no longer than five minutes; one second where it has ended;
/// and where the end is unknown, one second and the `jitter` in
/// milliseconds.
pub open spec fn wait_nanos(expires: Option<(i64, u32)>, now: int, jitter: u64) -> int {
    match expires {
        None => 1_000_000_000 + jitter * 1_000_000,
        Some(e) => {
            let left = instant_nanos(e) - now;
            if left <= 0 {
                1_000_000_000
            } else if left > MAX_WAIT_SECS * 1_000_000_000 {
                MAX_WAIT_SECS * 1_000_000_000
            } else {
                left
            }
        },
    }
}

/// The largest jitter: a third of a second, in milliseconds.
pub const MAX_JITTER_MILLIS: u64 = 333;

/// The length of an unsigned span in nanoseconds.
pub open spec fn std_nanos(d: StdDuration) -> int {
    d.secs() * 1_000_000_000 + d.nanos()
}

/// How long to wait before another look at a resource whose reservation
/// ends at `expires`, at `now`, with `jitter` milliseconds on top where
/// the end is unknown.
pub fn wait_time_at(expires: Option<(i64, u32)>, now: i128, jitter: u64) -> (r: StdDuration)
    requires
        jitter <= MAX_JITTER_MILLIS,
    ensures
        std_nanos(r) == wait_nanos(expires, now as int, jitter),
        r.wf(),
{
    match expires {
        None => StdDuration::from_millis(1_000 + jitter),
        Some((secs, nanos)) => {
            let at: i128 = secs as i128 * 1_000_000_000 + nanos as i128;
            if at <= now {
                return StdDuration::from_secs(1);
            }
            let limit: i128 = MAX_WAIT_SECS as i128 * 1_000_000_000;
            if now < 0 && at > limit + now {
                return StdDuration::from_secs(MAX_WAIT_SECS);
            }
            if now >= 0 && at - now > limit {
                return StdDuration::from_secs(MAX_WAIT_SECS);
            }
            let left: i128 = at - now;
            StdDuration::from_nanos(left as u64)
        },
    }
}

/// How long to wait before another look at `resource`, as of now.
///
/// Where the reservation does not say when it ends, the wait is one
/// second and up to a third of a second more, drawn at random. Else it is
/// at least one second or what is left of the reservation, and no more
/// than five minutes.
pub fn calculate_wait_time(resource: &ResourceListItem) -> (r: StdDuration)
    ensures
        r.wf(),
        exists|now: int, jitter: u64|
            jitter <= MAX_JITTER_MILLIS && std_nanos(r) == #[trigger] wait_nanos(
                expiration_of(resource@.active_reservation),
                now,
                jitter,
            ),
{
    let expires = parse_expiration_time(&resource.active_reservation);
    let jitter = match expires {
        None => random_up_to(MAX_JITTER_MILLIS),
        Some(_) => 0,
    };
    let now = crate::clock::unix_nanos_now();
    let r = wait_time_at(expires, now, jitter);
    assert(std_nanos(r) == wait_nanos(
        expiration_of(resource@.active_reservation),
        now as int,
        jitter,
    ));
    r
}

/// How long to wait where nothing is known of the resource: between one
/// and five seconds, drawn at random.
pub fn fallback_wait_time() -> (r: StdDuration)
    ensures
        1_000_000_000 <= std_nanos(r) <= 5_000_000_000,
        r.wf(),
{
    StdDuration::from_millis(1_000 + random_up_to(4_000))
}

} // verus!
