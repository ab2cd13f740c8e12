//! Deployments, the cells they target, and the state that their timestamps
//! put them in.

use vstd::prelude::*;
use vstd::string::StringExecFns;
use crate::cli::StartDeployment;
use crate::clock::Timestamp;
use crate::duration::Duration;

verus! {

/// What an optional text reads, if it is there.
pub open spec fn opt_text(o: Option<String>) -> Option<Seq<char>> {
    match o {
        Some(s) => Some(s@),
        None => None,
    }
}

/// The point in time of an optional timestamp, if it is there.
pub open spec fn opt_time(o: Option<Timestamp>) -> Option<int> {
    match o {
        Some(t) => Some(t@),
        None => None,
    }
}

/// A copy of an optional text.
pub fn clone_opt_text(o: &Option<String>) -> (r: Option<String>)
    ensures
        opt_text(r) == opt_text(*o),
{
    match o {
        Some(s) => Some(s.clone()),
        None => None,
    }
}

/// Whether two optional texts are both absent or read the same.
pub fn opt_text_eq(a: &Option<String>, b: &Option<String>) -> (r: bool)
    ensures
        r == (opt_text(*a) == opt_text(*b)),
{
    match (a, b) {
        (Some(x), Some(y)) => *x == *y,
        (None, None) => true,
        _ => false,
    }
}

/// A deployment target: one cell of one region of one cloud provider, in
/// one environment.
#[derive(Debug)]
pub struct Cell {
    pub environment: String,
    pub cloud_provider: String,
    pub region: String,
    pub index: i32,
}

/// A cell as plain values.
pub struct CellView {
    pub environment: Seq<char>,
    pub cloud_provider: Seq<char>,
    pub region: Seq<char>,
    pub index: int,
}

impl View for Cell {
    type V = CellView;

    open spec fn view(&self) -> CellView {
        CellView {
            environment: self.environment@,
            cloud_provider: self.cloud_provider@,
            region: self.region@,
            index: self.index as int,
        }
    }
}

impl Clone for Cell {
    fn clone(&self) -> (r: Cell)
        ensures
            r@ == self@,
    {
        Cell {
            environment: self.environment.clone(),
            cloud_provider: self.cloud_provider.clone(),
            region: self.region.clone(),
            index: self.index,
        }
    }
}

impl Default for Cell {
    fn default() -> (r: Cell)
        ensures
            r@ == Cell::default_view(),
    {
        Cell {
            environment: String::new(),
            cloud_provider: String::new(),
            region: String::new(),
            index: 0,
        }
    }
}

impl Cell {
    /// The cell that `default` gives: empty names and index 0.
    pub open spec fn default_view() -> CellView {
        CellView {
            environment: Seq::<char>::empty(),
            cloud_provider: Seq::<char>::empty(),
            region: Seq::<char>::empty(),
            index: 0,
        }
    }

    /// Whether this is the same target as `other`.
    pub fn same_as(&self, other: &Cell) -> (r: bool)
        ensures
            r == (self@ == other@),
    {
        self.index == other.index && self.environment == other.environment
            && self.cloud_provider == other.cloud_provider && self.region == other.region
    }

    /// The cell in one word: environment, provider, region and index with
    /// hyphens between them.
    pub open spec fn label_text(c: CellView) -> Seq<char> {
        c.environment + "-"@ + c.cloud_provider + "-"@ + c.region + "-"@
            + crate::text::decimal(c.index)
    }

    /// The cell in one word, as listings show it.
    pub fn label(&self) -> (r: String)
        ensures
            r@ == Cell::label_text(self@),
    {
        let mut out = self.environment.clone();
        out.append("-");
        out.append(self.cloud_provider.as_str());
        out.append("-");
        out.append(self.region.as_str());
        out.append("-");
        crate::text::push_decimal(&mut out, self.index as i64);
        out
    }
}

/// The state of a deployment, as its timestamps give it.
#[derive(Clone, Copy, Debug, PartialEq, Eq, Structural)]
pub enum DeploymentState {
    Queued,
    Running,
    Finished,
    Cancelled,
}

/// The state of a deployment of which it is known whether it was started,
/// finished and cancelled. A cancellation outweighs a finish, and a finish
/// outweighs a start.
pub open spec fn state_of(started: bool, finished: bool, cancelled: bool) -> DeploymentState {
    if cancelled {
        DeploymentState::Cancelled
    } else if finished {
        DeploymentState::Finished
    } else if started {
        DeploymentState::Running
    } else {
        DeploymentState::Queued
    }
}

impl DeploymentState {
    /// The word for the state in summaries.
    pub open spec fn verb_text(self) -> Seq<char> {
        match self {
            DeploymentState::Queued => "queued"@,
            DeploymentState::Running => "deploying"@,
            DeploymentState::Finished => "deployed"@,
            DeploymentState::Cancelled => "cancelled"@,
        }
    }

    /// The name of the state.
    pub open spec fn name_text(self) -> Seq<char> {
        match self {
            DeploymentState::Queued => "queued"@,
            DeploymentState::Running => "running"@,
            DeploymentState::Finished => "finished"@,
            DeploymentState::Cancelled => "cancelled"@,
        }
    }

    /// The state that the three lifecycle timestamps put a deployment in.
    pub fn from_timestamps(
        start: Option<Timestamp>,
        finish: Option<Timestamp>,
        cancel: Option<Timestamp>,
    ) -> (r: DeploymentState)
        ensures
            r == state_of(start.is_some(), finish.is_some(), cancel.is_some()),
    {
        match (start, finish, cancel) {
            (_, _, Some(_)) => DeploymentState::Cancelled,
            (_, Some(_), None) => DeploymentState::Finished,
            (Some(_), None, None) => DeploymentState::Running,
            (None, None, None) => DeploymentState::Queued,
        }
    }

    /// The word for the state in summaries.
    pub fn state_verb(&self) -> (r: &'static str)
        ensures
            r@ == self.verb_text(),
    {
        match self {
            DeploymentState::Queued => "queued",
            DeploymentState::Running => "deploying",
            DeploymentState::Finished => "deployed",
            DeploymentState::Cancelled => "cancelled",
        }
    }

    /// The name of the state.
    pub fn to_string(&self) -> (r: String)
        ensures
            r@ == self.name_text(),
    {
        match self {
            DeploymentState::Queued => String::from_str("queued"),
            DeploymentState::Running => String::from_str("running"),
            DeploymentState::Finished => String::from_str("finished"),
            DeploymentState::Cancelled => String::from_str("cancelled"),
        }
    }
}

/// One deployment: what identifies it, and how far it has come.
#[derive(Debug)]
pub struct Deployment {
    pub id: i64,
    pub cell: Cell,
    pub component: String,
    pub version: Option<String>,
    pub url: Option<String>,
    pub note: Option<String>,
    pub start_timestamp: Option<Timestamp>,
    pub finish_timestamp: Option<Timestamp>,
    pub cancellation_timestamp: Option<Timestamp>,
    pub cancellation_note: Option<String>,
    pub concurrency_key: Option<String>,
    /// How long the cell stays held after this deployment has finished.
    pub buffer_time: Duration,
    /// When the deployment last gave a sign of life.
    pub heartbeat_timestamp: Option<Timestamp>,
    /// When the store took the deployment in.
    pub created_at: Option<Timestamp>,
}

/// A deployment as plain values: texts as sequences of characters, points
/// in time in microseconds since the Unix epoch, the buffer time in
/// nanoseconds.
pub struct DeploymentView {
    pub id: int,
    pub cell: CellView,
    pub component: Seq<char>,
    pub version: Option<Seq<char>>,
    pub url: Option<Seq<char>>,
    pub note: Option<Seq<char>>,
    pub start_timestamp: Option<int>,
    pub finish_timestamp: Option<int>,
    pub cancellation_timestamp: Option<int>,
    pub cancellation_note: Option<Seq<char>>,
    pub concurrency_key: Option<Seq<char>>,
    pub buffer_time: int,
    pub heartbeat_timestamp: Option<int>,
    pub created_at: Option<int>,
}

/// The part of a deployment that never changes once the store holds it.
pub struct Identity {
    pub id: int,
    pub cell: CellView,
    pub component: Seq<char>,
    pub version: Option<Seq<char>>,
    pub url: Option<Seq<char>>,
    pub note: Option<Seq<char>>,
    pub concurrency_key: Option<Seq<char>>,
    pub created_at: Option<int>,
}

impl DeploymentView {
    /// The state that the timestamps give.
    pub open spec fn state(self) -> DeploymentState {
        state_of(
            self.start_timestamp.is_some(),
            self.finish_timestamp.is_some(),
            self.cancellation_timestamp.is_some(),
        )
    }

    /// The fields that identify the deployment.
    pub open spec fn identity(self) -> Identity {
        Identity {
            id: self.id,
            cell: self.cell,
            component: self.component,
            version: self.version,
            url: self.url,
            note: self.note,
            concurrency_key: self.concurrency_key,
            created_at: self.created_at,
        }
    }

    /// The version, or the word that stands in for a missing one.
    pub open spec fn version_text(self) -> Seq<char> {
        match self.version {
            Some(v) => v,
            None => "unknown"@,
        }
    }

    /// How every summary begins: id, state, component and version.
    pub open spec fn headline(self) -> Seq<char> {
        crate::text::decimal(self.id) + " "@ + self.state().verb_text() + " "@ + self.component
            + "(@"@ + self.version_text() + ")"@
    }

    /// The one-line summary: the headline, then the note and the URL where
    /// there are any.
    pub open spec fn summary_text(self) -> Seq<char> {
        let with_note = match self.note {
            Some(n) => self.headline() + ": ("@ + n + ")"@,
            None => self.headline(),
        };
        match self.url {
            Some(u) => with_note + " ("@ + u + ")"@,
            None => with_note,
        }
    }
}

impl View for Deployment {
    type V = DeploymentView;

    open spec fn view(&self) -> DeploymentView {
        DeploymentView {
            id: self.id as int,
            cell: self.cell@,
            component: self.component@,
            version: opt_text(self.version),
            url: opt_text(self.url),
            note: opt_text(self.note),
            start_timestamp: opt_time(self.start_timestamp),
            finish_timestamp: opt_time(self.finish_timestamp),
            cancellation_timestamp: opt_time(self.cancellation_timestamp),
            cancellation_note: opt_text(self.cancellation_note),
            concurrency_key: opt_text(self.concurrency_key),
            buffer_time: self.buffer_time@,
            heartbeat_timestamp: opt_time(self.heartbeat_timestamp),
            created_at: opt_time(self.created_at),
        }
    }
}

impl Clone for Deployment {
    fn clone(&self) -> (r: Deployment)
        ensures
            r@ == self@,
    {
        Deployment {
            id: self.id,
            cell: self.cell.clone(),
            component: self.component.clone(),
            version: clone_opt_text(&self.version),
            url: clone_opt_text(&self.url),
            note: clone_opt_text(&self.note),
            start_timestamp: self.start_timestamp,
            finish_timestamp: self.finish_timestamp,
            cancellation_timestamp: self.cancellation_timestamp,
            cancellation_note: clone_opt_text(&self.cancellation_note),
            concurrency_key: clone_opt_text(&self.concurrency_key),
            buffer_time: self.buffer_time,
            heartbeat_timestamp: self.heartbeat_timestamp,
            created_at: self.created_at,
        }
    }
}

impl Default for Deployment {
    fn default() -> (r: Deployment)
        ensures
            r@.id == 0,
            r@.cell == Cell::default_view(),
            r@.component == Seq::<char>::empty(),
            r@.version.is_none(),
            r@.url.is_none(),
            r@.note.is_none(),
            r@.concurrency_key.is_none(),
            r@.cancellation_note.is_none(),
            r@.state() == DeploymentState::Queued,
            r@.heartbeat_timestamp.is_none(),
            r@.created_at.is_none(),
            r@.buffer_time == 0,
    {
        Deployment {
            id: 0,
            cell: Cell::default(),
            component: String::new(),
            version: None,
            url: None,
            note: None,
            start_timestamp: None,
            finish_timestamp: None,
            cancellation_timestamp: None,
            cancellation_note: None,
            concurrency_key: None,
            buffer_time: Duration::zero(),
            heartbeat_timestamp: None,
            created_at: None,
        }
    }
}

/// The deployment that a request to start describes, before the store has
/// seen it: queued, without an id, a buffer time or a time of creation.
pub open spec fn requested_view(start: StartDeployment) -> DeploymentView {
    DeploymentView {
        id: 0,
        cell: CellView {
            environment: start.environment.name(),
            cloud_provider: start.cloud_provider@,
            region: start.region@,
            index: start.cell_index as int,
        },
        component: start.component@,
        version: opt_text(start.version),
        url: opt_text(start.url),
        note: opt_text(start.note),
        start_timestamp: None,
        finish_timestamp: None,
        cancellation_timestamp: None,
        cancellation_note: None,
        concurrency_key: opt_text(start.concurrency_key),
        buffer_time: 0,
        heartbeat_timestamp: None,
        created_at: None,
    }
}

impl Deployment {
    /// The deployment that a request to start describes.
    pub fn from(start: StartDeployment) -> (r: Deployment)
        ensures
            r@ == requested_view(start),
    {
        Deployment {
            id: 0,
            cell: Cell {
                environment: start.environment.to_string(),
                cloud_provider: start.cloud_provider,
                region: start.region,
                index: start.cell_index,
            },
            component: start.component,
            version: start.version,
            url: start.url,
            note: start.note,
            start_timestamp: None,
            finish_timestamp: None,
            cancellation_timestamp: None,
            cancellation_note: None,
            concurrency_key: start.concurrency_key,
            buffer_time: Duration::zero(),
            heartbeat_timestamp: None,
            created_at: None,
        }
    }

    /// The state that the timestamps give.
    pub fn state(&self) -> (r: DeploymentState)
        ensures
            r == self@.state(),
    {
        DeploymentState::from_timestamps(
            self.start_timestamp,
            self.finish_timestamp,
            self.cancellation_timestamp,
        )
    }

    /// Starts a summary: id, state, component and version.
    pub fn headline(&self) -> (r: String)
        ensures
            r@ == self@.headline(),
    {
        let mut out = crate::text::decimal_string(self.id);
        out.append(" ");
        out.append(self.state().state_verb());
        out.append(" ");
        out.append(self.component.as_str());
        out.append("(@");
        match &self.version {
            Some(v) => out.append(v.as_str()),
            None => out.append("unknown"),
        }
        out.append(")");
        out
    }

    /// A compact summary of the deployment in one line.
    pub fn summary(&self) -> (r: String)
        ensures
            r@ == self@.summary_text(),
    {
        let mut out = self.headline();
        if let Some(note) = &self.note {
            out.append(": (");
            out.append(note.as_str());
            out.append(")");
        }
        if let Some(url) = &self.url {
            out.append(" (");
            out.append(url.as_str());
            out.append(")");
        }
        out
    }
}

/// A running deployment that takes far longer than its history suggests.
#[derive(Debug)]
pub struct OutlierDeployment {
    pub id: i64,
    pub env: String,
    pub cloud_provider: String,
    pub region: String,
    pub cell_index: i32,
    pub component: String,
    pub url: Option<String>,
    pub note: Option<String>,
    pub version: Option<String>,
    /// How long the deployment has been running.
    pub current_duration: Duration,
    /// How long deployments of its series take on average.
    pub avg_duration: Duration,
    /// How far deployments of its series differ from that.
    pub stddev_duration: Duration,
}

/// An outlier as plain values; spans in nanoseconds.
pub struct OutlierView {
    pub id: int,
    pub env: Seq<char>,
    pub cloud_provider: Seq<char>,
    pub region: Seq<char>,
    pub cell_index: int,
    pub component: Seq<char>,
    pub url: Option<Seq<char>>,
    pub note: Option<Seq<char>>,
    pub version: Option<Seq<char>>,
    pub current_duration: int,
    pub avg_duration: int,
    pub stddev_duration: int,
}

impl View for OutlierDeployment {
    type V = OutlierView;

    open spec fn view(&self) -> OutlierView {
        OutlierView {
            id: self.id as int,
            env: self.env@,
            cloud_provider: self.cloud_provider@,
            region: self.region@,
            cell_index: self.cell_index as int,
            component: self.component@,
            url: opt_text(self.url),
            note: opt_text(self.note),
            version: opt_text(self.version),
            current_duration: self.current_duration@,
            avg_duration: self.avg_duration@,
            stddev_duration: self.stddev_duration@,
        }
    }
}

/// What the sweeper needs to know of a deployment whose heartbeat is stale.
#[derive(Debug)]
pub struct StaleHeartbeatDeployment {
    pub id: i64,
    pub component: String,
    pub version: Option<String>,
    pub heartbeat_timestamp: Timestamp,
    pub time_since_heartbeat: Duration,
}

/// A stale deployment as plain values; the time since the heartbeat in
/// nanoseconds.
pub struct StaleView {
    pub id: int,
    pub component: Seq<char>,
    pub version: Option<Seq<char>>,
    pub heartbeat_timestamp: int,
    pub time_since_heartbeat: int,
}

impl View for StaleHeartbeatDeployment {
    type V = StaleView;

    open spec fn view(&self) -> StaleView {
        StaleView {
            id: self.id as int,
            component: self.component@,
            version: opt_text(self.version),
            heartbeat_timestamp: self.heartbeat_timestamp@,
            time_since_heartbeat: self.time_since_heartbeat@,
        }
    }
}

} // verus!
