//! The table of deployments and the transitions that move a deployment
//! through its life.

use vstd::prelude::*;
use vstd::string::StringExecFns;
use crate::cli::Environment;
use crate::clock::Timestamp;
use crate::duration::Duration;
use crate::model::{Deployment, DeploymentState, DeploymentView};
use crate::text::opt_str_view;

verus! {

/// Why the store turned an operation down.
#[derive(Clone, Copy, Debug, PartialEq, Eq, Structural)]
pub enum StoreError {
    /// No deployment has the id that was asked for.
    NotFound,
    /// The deployment is not in a state from which the step can be taken,
    /// or the step would come before one that it has to follow.
    InvalidTransition,
    /// The row breaks a rule of the table: an unknown environment, an id
    /// that does not follow the ids already there, timestamps out of order.
    ConstraintViolation,
    /// No id is left for another deployment.
    IdsExhausted,
}

/// The buffer time of `prod` in a fresh store: ten minutes, in microseconds.
pub const PROD_BUFFER_MICROS: i64 = 600_000_000;

/// All deployments ever queued, in the order of their ids, and the buffer
/// time of each environment.
pub struct Store {
    rows: Vec<Deployment>,
    dev_buffer: Duration,
    prod_buffer: Duration,
}

/// The store as plain values; buffer times in nanoseconds.
pub struct StoreView {
    pub rows: Seq<DeploymentView>,
    pub dev_buffer: int,
    pub prod_buffer: int,
}

/// Whether the timestamps of a row are in order: nothing finishes that has
/// not started, and neither a finish nor a cancellation comes before the
/// start.
pub open spec fn timestamps_in_order(d: DeploymentView) -> bool {
    &&& d.finish_timestamp.is_some() ==> d.start_timestamp.is_some()
        && d.start_timestamp.unwrap() <= d.finish_timestamp.unwrap()
    &&& d.cancellation_timestamp.is_some() && d.start_timestamp.is_some()
        ==> d.start_timestamp.unwrap() <= d.cancellation_timestamp.unwrap()
}

impl StoreView {
    /// The buffer time of the environment called `name`, if there is one.
    pub open spec fn buffer_of(self, name: Seq<char>) -> Option<int> {
        if name == "dev"@ {
            Some(self.dev_buffer)
        } else if name == "prod"@ {
            Some(self.prod_buffer)
        } else {
            None
        }
    }

    /// Whether the table is sound: ids grow strictly from row to row, each
    /// row has its timestamps in order, targets a known environment and
    /// carries the buffer time of that environment.
    pub open spec fn wf(self) -> bool {
        &&& forall|i: int, j: int|
            0 <= i < j < self.rows.len() ==> (#[trigger] self.rows[i]).id < (
            #[trigger] self.rows[j]).id
        &&& forall|i: int|
            0 <= i < self.rows.len() ==> timestamps_in_order(#[trigger] self.rows[i])
        &&& forall|i: int|
            0 <= i < self.rows.len() ==> self.buffer_of((#[trigger] self.rows[i]).cell.environment)
                == Some(self.rows[i].buffer_time)
    }

    /// Whether a deployment with this id is in the table.
    pub open spec fn has_id(self, id: int) -> bool {
        exists|i: int| 0 <= i < self.rows.len() && (#[trigger] self.rows[i]).id == id
    }

    /// Where in the table the deployment with this id stands.
    pub open spec fn position(self, id: int) -> Option<int> {
        if self.has_id(id) {
            Some(choose|i: int| 0 <= i < self.rows.len() && (#[trigger] self.rows[i]).id == id)
        } else {
            None
        }
    }

    /// The deployment with this id, if it is in the table.
    pub open spec fn get(self, id: int) -> Option<DeploymentView> {
        match self.position(id) {
            Some(i) => Some(self.rows[i]),
            None => None,
        }
    }

    /// The id that the next deployment gets.
    pub open spec fn next_id(self) -> int {
        if self.rows.len() == 0 {
            1
        } else {
            self.rows.last().id + 1
        }
    }

    /// The table with row `i` replaced by `row`.
    pub open spec fn with_row(self, i: int, row: DeploymentView) -> StoreView {
        StoreView { rows: self.rows.update(i, row), ..self }
    }
}

/// Whether everything that was in the table `before` is still in the table
/// `after`, at the same place and with its identity untouched.
pub open spec fn identities_kept(before: StoreView, after: StoreView) -> bool {
    &&& before.rows.len() <= after.rows.len()
    &&& forall|i: int|
        0 <= i < before.rows.len() ==> (#[trigger] after.rows[i]).identity()
            == before.rows[i].identity()
}

impl StoreView {
    /// The table after the deployment `id` was started at `now`: only a
    /// queued deployment can start.
    pub open spec fn started(self, id: int, now: int) -> Result<StoreView, StoreError> {
        match self.position(id) {
            None => Err(StoreError::NotFound),
            Some(i) => {
                let row = self.rows[i];
                if row.state() != DeploymentState::Queued {
                    Err(StoreError::InvalidTransition)
                } else {
                    Ok(self.with_row(i, DeploymentView { start_timestamp: Some(now), ..row }))
                }
            },
        }
    }

    /// The table after the deployment `id` was finished at `now`: only a
    /// running deployment can finish, and not before it started.
    pub open spec fn finished(self, id: int, now: int) -> Result<StoreView, StoreError> {
        match self.position(id) {
            None => Err(StoreError::NotFound),
            Some(i) => {
                let row = self.rows[i];
                if row.state() != DeploymentState::Running || now < row.start_timestamp.unwrap() {
                    Err(StoreError::InvalidTransition)
                } else {
                    Ok(self.with_row(i, DeploymentView { finish_timestamp: Some(now), ..row }))
                }
            },
        }
    }

    /// The table after the deployment `id` gave a sign of life at `now`.
    /// An id that is not in the table changes nothing.
    pub open spec fn heartbeat_written(self, id: int, now: int) -> StoreView {
        match self.position(id) {
            None => self,
            Some(i) => self.with_row(
                i,
                DeploymentView { heartbeat_timestamp: Some(now), ..self.rows[i] },
            ),
        }
    }
}

/// A row after its cancellation at `now` with the note `note`.
pub open spec fn cancelled_row(row: DeploymentView, note: Option<Seq<char>>, now: int)
    -> DeploymentView {
    DeploymentView { cancellation_timestamp: Some(now), cancellation_note: note, ..row }
}

/// Whether a row can still be cancelled: it is queued or running.
pub open spec fn cancellable(row: DeploymentView) -> bool {
    row.state() == DeploymentState::Queued || row.state() == DeploymentState::Running
}

/// Whether a cancellation at `now` would come before the start of the row.
pub open spec fn starts_after(row: DeploymentView, now: int) -> bool {
    row.start_timestamp.is_some() && now < row.start_timestamp.unwrap()
}

/// Which rows a cancellation of many reaches.
#[derive(Debug)]
pub enum Selector {
    /// Every deployment of this component in this version, in all cells.
    Version { component: String, version: String },
    /// Every deployment to this location; to one cell of it where
    /// `cell_index` is given.
    Location { environment: String, cloud_provider: String, region: String, cell_index: Option<i32> },
    /// Every running deployment whose last sign of life at `now` is more
    /// than `timeout` old.
    StaleHeartbeat { now: Timestamp, timeout: Duration },
}

/// A selector as plain values.
pub enum SelectorView {
    Version { component: Seq<char>, version: Seq<char> },
    Location {
        environment: Seq<char>,
        cloud_provider: Seq<char>,
        region: Seq<char>,
        cell_index: Option<int>,
    },
    StaleHeartbeat { now: int, timeout: int },
}

/// Whether the row is running and its last sign of life at `now`
/// (microseconds since the Unix epoch) is more than `timeout` nanoseconds
/// old. A deployment that never gave one is not stale.
pub open spec fn stale(row: DeploymentView, now: int, timeout: int) -> bool {
    &&& row.state() == DeploymentState::Running
    &&& row.heartbeat_timestamp.is_some()
    &&& (now - row.heartbeat_timestamp.unwrap()) * crate::duration::NANOS_PER_MICRO > timeout
}

impl View for Selector {
    type V = SelectorView;

    open spec fn view(&self) -> SelectorView {
        match self {
            Selector::Version { component, version } => SelectorView::Version {
                component: component@,
                version: version@,
            },
            Selector::Location { environment, cloud_provider, region, cell_index } => {
                SelectorView::Location {
                    environment: environment@,
                    cloud_provider: cloud_provider@,
                    region: region@,
                    cell_index: match cell_index {
                        Some(c) => Some(*c as int),
                        None => None,
                    },
                }
            },
            Selector::StaleHeartbeat { now, timeout } => SelectorView::StaleHeartbeat {
                now: now@,
                timeout: timeout@,
            },
        }
    }
}

impl SelectorView {
    /// Whether the selector reaches `row`.
    pub open spec fn selects(self, row: DeploymentView) -> bool {
        match self {
            SelectorView::Version { component, version } => row.component == component
                && row.version == Some(version),
            SelectorView::Location { environment, cloud_provider, region, cell_index } => {
                &&& row.cell.environment == environment
                &&& row.cell.cloud_provider == cloud_provider
                &&& row.cell.region == region
                &&& (cell_index.is_none() || cell_index == Some(row.cell.index))
            },
            SelectorView::StaleHeartbeat { now, timeout } => stale(row, now, timeout),
        }
    }

    /// Whether a cancellation through the selector changes `row`.
    pub open spec fn hits(self, row: DeploymentView) -> bool {
        self.selects(row) && cancellable(row)
    }
}

/// The number of rows that a cancellation through `sel` changes.
pub open spec fn count_hits(rows: Seq<DeploymentView>, sel: SelectorView) -> nat
    decreases rows.len(),
{
    if rows.len() == 0 {
        0
    } else {
        count_hits(rows.drop_last(), sel) + if sel.hits(rows.last()) {
            1nat
        } else {
            0nat
        }
    }
}

impl StoreView {
    /// The table after the cancellation of the deployment `id` at `now`.
    ///
    /// A queued or running deployment becomes cancelled and takes the note.
    /// One that is cancelled already stays as it is, and so does the table
    /// where the id is not in it. A finished deployment cannot be
    /// cancelled, and no cancellation comes before the start.
    pub open spec fn cancelled(self, id: int, note: Option<Seq<char>>, now: int) -> Result<
        StoreView,
        StoreError,
    > {
        match self.position(id) {
            None => Ok(self),
            Some(i) => {
                let row = self.rows[i];
                if row.state() == DeploymentState::Cancelled {
                    Ok(self)
                } else if row.state() == DeploymentState::Finished || starts_after(row, now) {
                    Err(StoreError::InvalidTransition)
                } else {
                    Ok(self.with_row(i, cancelled_row(row, note, now)))
                }
            },
        }
    }

    /// Whether a cancellation through `sel` at `now` would come before the
    /// start of a row that it changes.
    pub open spec fn cancellation_too_early(self, sel: SelectorView, now: int) -> bool {
        exists|i: int|
            0 <= i < self.rows.len() && sel.hits(#[trigger] self.rows[i]) && starts_after(
                self.rows[i],
                now,
            )
    }

    /// The table after every queued or running row that `sel` reaches was
    /// cancelled at `now` with the note `note`.
    pub open spec fn cancelled_where(self, sel: SelectorView, note: Option<Seq<char>>, now: int)
        -> StoreView {
        StoreView {
            rows: Seq::new(
                self.rows.len(),
                |i: int|
                    if sel.hits(self.rows[i]) {
                        cancelled_row(self.rows[i], note, now)
                    } else {
                        self.rows[i]
                    },
            ),
            ..self
        }
    }
}

impl StoreView {
    /// Whether the table can take `row` in as its last row: the id follows
    /// the ids already there, the environment is known and the timestamps
    /// are in order.
    pub open spec fn accepts(self, row: DeploymentView) -> bool {
        &&& self.rows.len() == 0 || self.rows.last().id < row.id
        &&& self.buffer_of(row.cell.environment).is_some()
        &&& timestamps_in_order(row)
    }

    /// The table with `row` as its last row, under the buffer time of its
    /// environment.
    pub open spec fn inserted(self, row: DeploymentView) -> StoreView {
        StoreView {
            rows: self.rows.push(
                DeploymentView {
                    buffer_time: self.buffer_of(row.cell.environment).unwrap(),
                    ..row
                },
            ),
            ..self
        }
    }

    /// The row that the table makes of a deployment that is queued at
    /// `now`: the next id, no step taken yet, created at `now`.
    pub open spec fn queued_row(self, d: DeploymentView, now: int) -> DeploymentView {
        DeploymentView {
            id: self.next_id(),
            start_timestamp: None,
            finish_timestamp: None,
            cancellation_timestamp: None,
            cancellation_note: None,
            heartbeat_timestamp: None,
            created_at: Some(now),
            ..d
        }
    }

    /// What queueing the deployment `d` at `now` comes to: the new table,
    /// or why the deployment was not taken in.
    pub open spec fn enqueued(self, d: DeploymentView, now: int) -> Result<StoreView, StoreError> {
        if self.buffer_of(d.cell.environment).is_none() {
            Err(StoreError::ConstraintViolation)
        } else if self.next_id() > i64::MAX {
            Err(StoreError::IdsExhausted)
        } else {
            Ok(self.inserted(self.queued_row(d, now)))
        }
    }
}

/// In a sound table a row stands where its id is found.
pub proof fn lemma_position(s: StoreView, i: int)
    requires
        s.wf(),
        0 <= i < s.rows.len(),
    ensures
        s.position(s.rows[i].id) == Some(i),
        s.get(s.rows[i].id) == Some(s.rows[i]),
{
    let id = s.rows[i].id;
    assert(s.has_id(id));
    let j = choose|j: int| 0 <= j < s.rows.len() && (#[trigger] s.rows[j]).id == id;
    if j < i {
        assert(s.rows[j].id < s.rows[i].id);
    }
    if i < j {
        assert(s.rows[i].id < s.rows[j].id);
    }
}

/// The rows of a table as plain values.
pub open spec fn rows_view(rows: Seq<Deployment>) -> Seq<DeploymentView> {
    Seq::new(rows.len(), |i: int| rows[i]@)
}

impl View for Store {
    type V = StoreView;

    closed spec fn view(&self) -> StoreView {
        StoreView {
            rows: rows_view(self.rows@),
            dev_buffer: self.dev_buffer@,
            prod_buffer: self.prod_buffer@,
        }
    }
}

impl Store {
    /// Whether the table is sound.
    pub open spec fn wf(&self) -> bool {
        self@.wf()
    }

    /// An empty store with the usual buffer times: none in `dev`, ten
    /// minutes in `prod`.
    pub fn new() -> (r: Store)
        ensures
            r.wf(),
            r@.rows.len() == 0,
            r@.dev_buffer == 0,
            r@.prod_buffer == PROD_BUFFER_MICROS * crate::duration::NANOS_PER_MICRO,
    {
        Store {
            rows: Vec::new(),
            dev_buffer: Duration::zero(),
            prod_buffer: Duration::microseconds(PROD_BUFFER_MICROS),
        }
    }

    /// An empty store with the given buffer times for `dev` and `prod`.
    pub fn with_buffer_times(dev: Duration, prod: Duration) -> (r: Store)
        ensures
            r.wf(),
            r@.rows.len() == 0,
            r@.dev_buffer == dev@,
            r@.prod_buffer == prod@,
    {
        Store { rows: Vec::new(), dev_buffer: dev, prod_buffer: prod }
    }

    /// The number of deployments in the table.
    pub fn len(&self) -> (r: usize)
        ensures
            r == self@.rows.len(),
    {
        self.rows.len()
    }

    /// The buffer time of the environment called `name`, if there is one.
    pub fn buffer_time(&self, name: &str) -> (r: Option<Duration>)
        ensures
            crate::blocking::opt_span(r) == self@.buffer_of(name@),
    {
        proof {
            crate::cli::lemma_environment_names_differ();
        }
        match Environment::parse(name) {
            Some(Environment::Dev) => Some(self.dev_buffer),
            Some(Environment::Prod) => Some(self.prod_buffer),
            None => None,
        }
    }

    /// The row at place `i` of the table.
    pub fn row(&self, i: usize) -> (r: &Deployment)
        requires
            i < self@.rows.len(),
        ensures
            r@ == self@.rows[i as int],
    {
        &self.rows[i]
    }

    /// Where in the table the deployment with this id stands.
    fn find_index(&self, id: i64) -> (r: Option<usize>)
        requires
            self.wf(),
        ensures
            match r {
                Some(i) => self@.position(id as int) == Some(i as int) && i < self@.rows.len(),
                None => self@.position(id as int).is_none(),
            },
    {
        let mut i: usize = 0;
        while i < self.rows.len()
            invariant
                i <= self.rows.len(),
                self.wf(),
                forall|k: int| 0 <= k < i ==> (#[trigger] self@.rows[k]).id != id,
            decreases self.rows.len() - i,
        {
            if self.rows[i].id == id {
                proof {
                    assert(self@.rows[i as int].id == id);
                    lemma_position(self@, i as int);
                }
                return Some(i);
            }
            i += 1;
        }
        None
    }

    /// The deployment with this id, if it is in the table.
    pub fn get(&self, id: i64) -> (r: Option<Deployment>)
        requires
            self.wf(),
        ensures
            match r {
                Some(d) => self@.get(id as int) == Some(d@),
                None => self@.get(id as int).is_none(),
            },
    {
        match self.find_index(id) {
            Some(i) => Some(self.rows[i].clone()),
            None => None,
        }
    }

    /// Takes `row` in as the last row of the table, as it is but for the
    /// buffer time, which is that of its environment.
    pub fn insert_row(&mut self, row: Deployment) -> (r: Result<(), StoreError>)
        requires
            old(self).wf(),
        ensures
            final(self).wf(),
            identities_kept(old(self)@, final(self)@),
            match r {
                Ok(()) => old(self)@.accepts(row@) && final(self)@ == old(self)@.inserted(row@),
                Err(e) => !old(self)@.accepts(row@) && e == StoreError::ConstraintViolation
                    && final(self)@ == old(self)@,
            },
    {
        let n = self.rows.len();
        if n > 0 && self.rows[n - 1].id >= row.id {
            assert(self@.rows.last() == self.rows@[n - 1]@);
            return Err(StoreError::ConstraintViolation);
        }
        let buffer = match self.buffer_time(row.cell.environment.as_str()) {
            Some(b) => b,
            None => {
                return Err(StoreError::ConstraintViolation);
            },
        };
        if !in_order(&row) {
            return Err(StoreError::ConstraintViolation);
        }
        let mut taken = row;
        taken.buffer_time = buffer;
        self.rows.push(taken);
        proof {
            let v = old(self)@.inserted(row@);
            assert(self@.rows =~= v.rows);
            if n > 0 {
                assert(old(self)@.rows.last() == old(self).rows@[n - 1]@);
            }
            assert forall|i: int, j: int| 0 <= i < j < v.rows.len() implies (#[trigger] v.rows[i]).id
                < (#[trigger] v.rows[j]).id by {
                if j == n {
                    if i < n - 1 {
                        assert(old(self)@.rows[i].id < old(self)@.rows[n - 1].id);
                    }
                } else {
                    assert(old(self)@.rows[i].id < old(self)@.rows[j].id);
                }
            }
            assert forall|i: int| 0 <= i < v.rows.len() implies timestamps_in_order(
                #[trigger] v.rows[i],
            ) by {
                if i < n {
                    assert(timestamps_in_order(old(self)@.rows[i]));
                }
            }
            assert forall|i: int| 0 <= i < v.rows.len() implies v.buffer_of(
                (#[trigger] v.rows[i]).cell.environment,
            ) == Some(v.rows[i].buffer_time) by {
                if i < n {
                    assert(old(self)@.buffer_of(old(self)@.rows[i].cell.environment) == Some(
                        old(self)@.rows[i].buffer_time,
                    ));
                }
            }
        }
        Ok(())
    }

    /// The id that the next deployment gets, if one is left.
    pub fn next_id(&self) -> (r: Option<i64>)
        ensures
            match r {
                Some(id) => id == self@.next_id(),
                None => self@.next_id() > i64::MAX,
            },
    {
        let n = self.rows.len();
        if n == 0 {
            return Some(1);
        }
        assert(self@.rows.last() == self.rows@[n - 1]@);
        let last = self.rows[n - 1].id;
        if last == i64::MAX {
            None
        } else {
            Some(last + 1)
        }
    }

    /// Queues `deployment` at `now` and hands back the id it got. Of
    /// `deployment` only what identifies it is taken; whatever it says of
    /// its id and its steps is set aside.
    pub fn enqueue(&mut self, deployment: Deployment, now: Timestamp) -> (r: Result<
        i64,
        StoreError,
    >)
        requires
            old(self).wf(),
        ensures
            final(self).wf(),
            identities_kept(old(self)@, final(self)@),
            match old(self)@.enqueued(deployment@, now@) {
                Ok(v) => {
                    &&& r matches Ok(id)
                    &&& id == old(self)@.next_id()
                    &&& final(self)@ == v
                },
                Err(e) => r == Err::<i64, StoreError>(e) && final(self)@ == old(self)@,
            },
    {
        if self.buffer_time(deployment.cell.environment.as_str()).is_none() {
            return Err(StoreError::ConstraintViolation);
        }
        let id = match self.next_id() {
            Some(id) => id,
            None => {
                return Err(StoreError::IdsExhausted);
            },
        };
        let mut row = deployment;
        row.id = id;
        row.start_timestamp = None;
        row.finish_timestamp = None;
        row.cancellation_timestamp = None;
        row.cancellation_note = None;
        row.heartbeat_timestamp = None;
        row.created_at = Some(now);
        assert(row@ == old(self)@.queued_row(deployment@, now@));
        match self.insert_row(row) {
            Ok(()) => Ok(id),
            Err(e) => Err(e),
        }
    }

    /// Marks the deployment `id` as started at `now`.
    pub fn start(&mut self, id: i64, now: Timestamp) -> (r: Result<(), StoreError>)
        requires
            old(self).wf(),
        ensures
            final(self).wf(),
            identities_kept(old(self)@, final(self)@),
            match old(self)@.started(id as int, now@) {
                Ok(v) => r.is_ok() && final(self)@ == v,
                Err(e) => r == Err::<(), StoreError>(e) && final(self)@ == old(self)@,
            },
    {
        let i = match self.find_index(id) {
            Some(i) => i,
            None => {
                return Err(StoreError::NotFound);
            },
        };
        match self.rows[i].state() {
            DeploymentState::Queued => {},
            _ => {
                return Err(StoreError::InvalidTransition);
            },
        }
        self.rows[i].start_timestamp = Some(now);
        proof {
            let v = old(self)@.started(id as int, now@).unwrap();
            assert(self@.rows =~= v.rows);
        }
        Ok(())
    }

    /// Marks the deployment `id` as finished at `now`.
    pub fn finish(&mut self, id: i64, now: Timestamp) -> (r: Result<(), StoreError>)
        requires
            old(self).wf(),
        ensures
            final(self).wf(),
            identities_kept(old(self)@, final(self)@),
            match old(self)@.finished(id as int, now@) {
                Ok(v) => r.is_ok() && final(self)@ == v,
                Err(e) => r == Err::<(), StoreError>(e) && final(self)@ == old(self)@,
            },
    {
        let i = match self.find_index(id) {
            Some(i) => i,
            None => {
                return Err(StoreError::NotFound);
            },
        };
        match self.rows[i].state() {
            DeploymentState::Running => {},
            _ => {
                return Err(StoreError::InvalidTransition);
            },
        }
        match self.rows[i].start_timestamp {
            Some(start) => {
                if start.is_after(&now) {
                    return Err(StoreError::InvalidTransition);
                }
            },
            None => {},
        }
        self.rows[i].finish_timestamp = Some(now);
        proof {
            let v = old(self)@.finished(id as int, now@).unwrap();
            assert(self@.rows =~= v.rows);
        }
        Ok(())
    }

    /// Records a sign of life of the deployment `id` at `now`.
    pub fn heartbeat(&mut self, id: i64, now: Timestamp)
        requires
            old(self).wf(),
        ensures
            final(self).wf(),
            identities_kept(old(self)@, final(self)@),
            final(self)@ == old(self)@.heartbeat_written(id as int, now@),
    {
        match self.find_index(id) {
            Some(i) => {
                self.rows[i].heartbeat_timestamp = Some(now);
                proof {
                    let v = old(self)@.heartbeat_written(id as int, now@);
                    assert(self@.rows =~= v.rows);
                }
            },
            None => {},
        }
    }

    /// Cancels the deployment `id` at `now`, with a note where one is given.
    pub fn cancel(&mut self, id: i64, note: Option<&str>, now: Timestamp) -> (r: Result<
        (),
        StoreError,
    >)
        requires
            old(self).wf(),
        ensures
            final(self).wf(),
            identities_kept(old(self)@, final(self)@),
            match old(self)@.cancelled(id as int, opt_str_view(note), now@) {
                Ok(v) => r.is_ok() && final(self)@ == v,
                Err(e) => r == Err::<(), StoreError>(e) && final(self)@ == old(self)@,
            },
    {
        let i = match self.find_index(id) {
            Some(i) => i,
            None => {
                return Ok(());
            },
        };
        match self.rows[i].state() {
            DeploymentState::Cancelled => {
                return Ok(());
            },
            DeploymentState::Finished => {
                return Err(StoreError::InvalidTransition);
            },
            _ => {},
        }
        match self.rows[i].start_timestamp {
            Some(start) => {
                if start.is_after(&now) {
                    return Err(StoreError::InvalidTransition);
                }
            },
            None => {},
        }
        self.rows[i].cancellation_timestamp = Some(now);
        self.rows[i].cancellation_note = owned_note(note);
        proof {
            let v = old(self)@.cancelled(id as int, opt_str_view(note), now@).unwrap();
            assert(self@.rows =~= v.rows);
        }
        Ok(())
    }
}

impl Selector {
    /// Whether the selector reaches `row`.
    pub fn selects(&self, row: &Deployment) -> (r: bool)
        ensures
            r == self@.selects(row@),
    {
        match self {
            Selector::Version { component, version } => {
                row.component == *component && match &row.version {
                    Some(v) => *v == *version,
                    None => false,
                }
            },
            Selector::Location { environment, cloud_provider, region, cell_index } => {
                row.cell.environment == *environment && row.cell.cloud_provider == *cloud_provider
                    && row.cell.region == *region && match cell_index {
                    Some(c) => *c == row.cell.index,
                    None => true,
                }
            },
            Selector::StaleHeartbeat { now, timeout } => {
                match (row.state(), row.heartbeat_timestamp) {
                    (DeploymentState::Running, Some(seen)) => now.since(&seen).exceeds(timeout),
                    _ => false,
                }
            },
        }
    }

    /// Whether a cancellation through the selector changes `row`.
    pub fn hits(&self, row: &Deployment) -> (r: bool)
        ensures
            r == self@.hits(row@),
    {
        self.selects(row) && match row.state() {
            DeploymentState::Queued | DeploymentState::Running => true,
            _ => false,
        }
    }
}

impl Store {
    /// Whether a cancellation through `sel` at `now` would come before the
    /// start of a row that it changes.
    fn cancellation_too_early(&self, sel: &Selector, now: Timestamp) -> (r: bool)
        ensures
            r == self@.cancellation_too_early(sel@, now@),
    {
        let mut i: usize = 0;
        while i < self.rows.len()
            invariant
                i <= self.rows.len(),
                forall|k: int|
                    0 <= k < i ==> !(sel@.hits(#[trigger] self@.rows[k]) && starts_after(
                        self@.rows[k],
                        now@,
                    )),
            decreases self.rows.len() - i,
        {
            if sel.hits(&self.rows[i]) {
                match self.rows[i].start_timestamp {
                    Some(start) => {
                        if start.is_after(&now) {
                            assert(sel@.hits(self@.rows[i as int]) && starts_after(
                                self@.rows[i as int],
                                now@,
                            ));
                            return true;
                        }
                    },
                    None => {},
                }
            }
            i += 1;
        }
        false
    }

    /// Cancels at `now` every queued or running deployment that `sel`
    /// reaches, and tells how many those were. Where the cancellation would
    /// come before the start of one of them, nothing is cancelled.
    pub fn cancel_where(&mut self, sel: &Selector, note: Option<&str>, now: Timestamp) -> (r:
        Result<u64, StoreError>)
        requires
            old(self).wf(),
        ensures
            final(self).wf(),
            identities_kept(old(self)@, final(self)@),
            match r {
                Ok(n) => !old(self)@.cancellation_too_early(sel@, now@) && final(self)@ == old(
                    self,
                )@.cancelled_where(sel@, opt_str_view(note), now@) && n == count_hits(
                    old(self)@.rows,
                    sel@,
                ),
                Err(e) => old(self)@.cancellation_too_early(sel@, now@) && e
                    == StoreError::InvalidTransition && final(self)@ == old(self)@,
            },
    {
        if self.cancellation_too_early(sel, now) {
            return Err(StoreError::InvalidTransition);
        }
        let ghost before = self@;
        let ghost goal = before.cancelled_where(sel@, opt_str_view(note), now@);
        let mut count: u64 = 0;
        let mut i: usize = 0;
        while i < self.rows.len()
            invariant
                i <= self.rows.len(),
                self.rows.len() == before.rows.len(),
                before.wf(),
                !before.cancellation_too_early(sel@, now@),
                goal == before.cancelled_where(sel@, opt_str_view(note), now@),
                self@.dev_buffer == before.dev_buffer,
                self@.prod_buffer == before.prod_buffer,
                forall|k: int| 0 <= k < i ==> #[trigger] self@.rows[k] == goal.rows[k],
                forall|k: int|
                    i <= k < before.rows.len() ==> #[trigger] self@.rows[k] == before.rows[k],
                count == count_hits(before.rows.take(i as int), sel@),
                count <= i,
            decreases self.rows.len() - i,
        {
            proof {
                assert(before.rows.take(i as int + 1).drop_last() =~= before.rows.take(i as int));
                assert(self@.rows[i as int] == before.rows[i as int]);
            }
            let ghost prev = self@;
            let ghost prev_rows = self.rows@;
            if sel.hits(&self.rows[i]) {
                self.rows[i].cancellation_timestamp = Some(now);
                self.rows[i].cancellation_note = owned_note(note);
                count += 1;
                proof {
                    assert(self.rows@.len() == prev_rows.len());
                    assert forall|k: int| 0 <= k < prev_rows.len() && k != i implies self.rows@[k]
                        == prev_rows[k] by {}
                    assert(self@.rows[i as int] == goal.rows[i as int]);
                }
            }
            proof {
                assert forall|k: int| 0 <= k < i + 1 implies #[trigger] self@.rows[k]
                    == goal.rows[k] by {
                    if k < i {
                        assert(self@.rows[k] == prev.rows[k]);
                    }
                }
                assert forall|k: int| i + 1 <= k < before.rows.len() implies #[trigger] self@.rows[k]
                    == before.rows[k] by {
                    assert(self@.rows[k] == prev.rows[k]);
                }
            }
            i += 1;
        }
        proof {
            assert(before.rows.take(i as int) =~= before.rows);
            assert(self@.rows =~= goal.rows);
            lemma_cancelled_where_wf(before, sel@, opt_str_view(note), now@);
        }
        Ok(count)
    }
}

/// Cancelling through a selector keeps a sound table sound and every
/// identity untouched, unless it comes too early for a row.
pub proof fn lemma_cancelled_where_wf(
    s: StoreView,
    sel: SelectorView,
    note: Option<Seq<char>>,
    now: int,
)
    requires
        s.wf(),
        !s.cancellation_too_early(sel, now),
    ensures
        s.cancelled_where(sel, note, now).wf(),
        identities_kept(s, s.cancelled_where(sel, note, now)),
{
    let t = s.cancelled_where(sel, note, now);
    assert forall|i: int| 0 <= i < t.rows.len() implies timestamps_in_order(
        #[trigger] t.rows[i],
    ) by {
        assert(timestamps_in_order(s.rows[i]));
        if sel.hits(s.rows[i]) {
            assert(!starts_after(s.rows[i], now));
        }
    }
    assert forall|i: int, j: int| 0 <= i < j < t.rows.len() implies (#[trigger] t.rows[i]).id < (
    #[trigger] t.rows[j]).id by {
        assert(s.rows[i].id < s.rows[j].id);
    }
    assert forall|i: int| 0 <= i < t.rows.len() implies t.buffer_of(
        (#[trigger] t.rows[i]).cell.environment,
    ) == Some(t.rows[i].buffer_time) by {
        assert(s.buffer_of(s.rows[i].cell.environment) == Some(s.rows[i].buffer_time));
    }
}

/// Whether the timestamps of `row` are in order.
fn in_order(row: &Deployment) -> (r: bool)
    ensures
        r == timestamps_in_order(row@),
{
    let finish_ok = match (row.start_timestamp, row.finish_timestamp) {
        (Some(start), Some(finish)) => !start.is_after(&finish),
        (None, Some(_)) => false,
        _ => true,
    };
    let cancel_ok = match (row.start_timestamp, row.cancellation_timestamp) {
        (Some(start), Some(cancel)) => !start.is_after(&cancel),
        _ => true,
    };
    finish_ok && cancel_ok
}

/// An owned copy of an optional note.
fn owned_note(note: Option<&str>) -> (r: Option<String>)
    ensures
        crate::model::opt_text(r) == opt_str_view(note),
{
    match note {
        Some(n) => Some(String::from_str(n)),
        None => None,
    }
}

/// A table keeps the identities of its own rows.
pub proof fn lemma_identities_kept_reflexive(s: StoreView)
    ensures
        identities_kept(s, s),
{
}

/// Identities that are kept from one table to a second and from the second
/// to a third are kept from the first to the third: what holds of one step
/// holds of any number of steps.
pub proof fn lemma_identities_kept_transitive(a: StoreView, b: StoreView, c: StoreView)
    requires
        identities_kept(a, b),
        identities_kept(b, c),
    ensures
        identities_kept(a, c),
{
    assert forall|i: int| 0 <= i < a.rows.len() implies (#[trigger] c.rows[i]).identity()
        == a.rows[i].identity() by {
        assert(b.rows[i].identity() == a.rows[i].identity());
    }
}

/// No step that a deployment can take touches the identity of any
/// deployment in the table, and none takes a deployment out of it.
pub proof fn lemma_steps_keep_identities(
    s: StoreView,
    id: int,
    d: DeploymentView,
    sel: SelectorView,
    note: Option<Seq<char>>,
    now: int,
)
    requires
        s.wf(),
    ensures
        s.enqueued(d, now) matches Ok(v) ==> identities_kept(s, v),
        s.started(id, now) matches Ok(v) ==> identities_kept(s, v),
        s.finished(id, now) matches Ok(v) ==> identities_kept(s, v),
        s.cancelled(id, note, now) matches Ok(v) ==> identities_kept(s, v),
        identities_kept(s, s.heartbeat_written(id, now)),
        identities_kept(s, s.cancelled_where(sel, note, now)),
{
}

/// Cancelling again what was cancelled changes nothing: the deployment
/// keeps the timestamp and the note of the first cancellation.
pub proof fn lemma_cancel_again(
    s: StoreView,
    id: int,
    first_note: Option<Seq<char>>,
    first: int,
    second_note: Option<Seq<char>>,
    second: int,
)
    requires
        s.wf(),
        s.cancelled(id, first_note, first).is_ok(),
    ensures
        s.cancelled(id, first_note, first).unwrap().cancelled(id, second_note, second)
            == s.cancelled(id, first_note, first),
{
    let v = s.cancelled(id, first_note, first).unwrap();
    match s.position(id) {
        None => {},
        Some(i) => {
            assert(0 <= i < s.rows.len() && s.rows[i].id == id);
            if s.rows[i].state() != DeploymentState::Cancelled {
                assert(v.rows[i].id == id);
                assert(v.has_id(id));
                let j = choose|j: int| 0 <= j < v.rows.len() && (#[trigger] v.rows[j]).id == id;
                if j != i {
                    assert(v.rows[j] == s.rows[j]);
                    if j < i {
                        assert(s.rows[j].id < s.rows[i].id);
                    } else {
                        assert(s.rows[i].id < s.rows[j].id);
                    }
                }
                assert(v.rows[i].state() == DeploymentState::Cancelled);
            }
        },
    }
}

/// Cancelling again through the same selector changes nothing: what the
/// first cancellation reached is cancelled and keeps its timestamp.
pub proof fn lemma_cancel_where_again(
    s: StoreView,
    sel: SelectorView,
    first_note: Option<Seq<char>>,
    first: int,
    second_note: Option<Seq<char>>,
    second: int,
)
    ensures
        s.cancelled_where(sel, first_note, first).cancelled_where(sel, second_note, second)
            == s.cancelled_where(sel, first_note, first),
{
    let v = s.cancelled_where(sel, first_note, first);
    let w = v.cancelled_where(sel, second_note, second);
    assert(w.rows =~= v.rows);
}

/// A sweep at `now` cancels exactly the rows that are stale at `now`, and
/// leaves every other row as it is.
pub proof fn lemma_sweep_is_exact(
    s: StoreView,
    timeout: int,
    note: Option<Seq<char>>,
    now: int,
    i: int,
)
    requires
        0 <= i < s.rows.len(),
    ensures
        s.cancelled_where(SelectorView::StaleHeartbeat { now, timeout }, note, now).rows[i] == if stale(
            s.rows[i],
            now,
            timeout,
        ) {
            cancelled_row(s.rows[i], note, now)
        } else {
            s.rows[i]
        },
        !stale(s.rows[i], now, timeout) ==> s.cancelled_where(
            SelectorView::StaleHeartbeat { now, timeout },
            note,
            now,
        ).rows[i] == s.rows[i],
        s.rows[i].state() == DeploymentState::Queued ==> !stale(s.rows[i], now, timeout),
{
}

/// Whether every timestamp that is set in the table `before` is still set
/// in the table `after`: start, finish and cancellation to the same point
/// in time, the heartbeat to some point in time.
pub open spec fn timestamps_kept(before: StoreView, after: StoreView) -> bool {
    &&& before.rows.len() <= after.rows.len()
    &&& forall|i: int|
        0 <= i < before.rows.len() ==> {
            let old_row = before.rows[i];
            let new_row = #[trigger] after.rows[i];
            &&& old_row.start_timestamp.is_some() ==> new_row.start_timestamp
                == old_row.start_timestamp
            &&& old_row.finish_timestamp.is_some() ==> new_row.finish_timestamp
                == old_row.finish_timestamp
            &&& old_row.cancellation_timestamp.is_some() ==> new_row.cancellation_timestamp
                == old_row.cancellation_timestamp
            &&& old_row.heartbeat_timestamp.is_some() ==> new_row.heartbeat_timestamp.is_some()
        }
}

/// No step clears a timestamp or moves a start, a finish or a
/// cancellation that is set, and every step leaves a sound table sound.
pub proof fn lemma_steps_keep_timestamps(
    s: StoreView,
    id: int,
    d: DeploymentView,
    sel: SelectorView,
    note: Option<Seq<char>>,
    now: int,
)
    requires
        s.wf(),
    ensures
        s.enqueued(d, now) matches Ok(v) ==> timestamps_kept(s, v) && v.wf(),
        s.started(id, now) matches Ok(v) ==> timestamps_kept(s, v) && v.wf(),
        s.finished(id, now) matches Ok(v) ==> timestamps_kept(s, v) && v.wf(),
        s.cancelled(id, note, now) matches Ok(v) ==> timestamps_kept(s, v) && v.wf(),
        timestamps_kept(s, s.heartbeat_written(id, now)) && s.heartbeat_written(id, now).wf(),
        timestamps_kept(s, s.cancelled_where(sel, note, now)),
        !s.cancellation_too_early(sel, now) ==> s.cancelled_where(sel, note, now).wf(),
{
    if !s.cancellation_too_early(sel, now) {
        lemma_cancelled_where_wf(s, sel, note, now);
    }
    match s.enqueued(d, now) {
        Ok(v) => {
            let row = v.rows.last();
            assert forall|i: int, j: int| 0 <= i < j < v.rows.len() implies (#[trigger] v.rows[i]).id
                < (#[trigger] v.rows[j]).id by {
                if j == s.rows.len() {
                    if i < s.rows.len() - 1 {
                        assert(s.rows[i].id < s.rows[s.rows.len() - 1].id);
                    }
                } else {
                    assert(s.rows[i].id < s.rows[j].id);
                }
            }
            assert forall|i: int| 0 <= i < v.rows.len() implies timestamps_in_order(
                #[trigger] v.rows[i],
            ) by {
                if i < s.rows.len() {
                    assert(timestamps_in_order(s.rows[i]));
                }
            }
            assert forall|i: int| 0 <= i < v.rows.len() implies v.buffer_of(
                (#[trigger] v.rows[i]).cell.environment,
            ) == Some(v.rows[i].buffer_time) by {
                if i < s.rows.len() {
                    assert(s.buffer_of(s.rows[i].cell.environment) == Some(s.rows[i].buffer_time));
                }
            }
        },
        Err(_) => {},
    }
}

/// A deployment that has finished or is cancelled stays as it is: it can
/// neither start nor finish, a finished one cannot be cancelled, and to
/// cancel a cancelled one changes nothing.
pub proof fn lemma_terminal_is_final(s: StoreView, i: int, note: Option<Seq<char>>, now: int)
    requires
        s.wf(),
        0 <= i < s.rows.len(),
        s.rows[i].state() == DeploymentState::Finished || s.rows[i].state()
            == DeploymentState::Cancelled,
    ensures
        s.started(s.rows[i].id, now) == Err::<StoreView, StoreError>(
            StoreError::InvalidTransition,
        ),
        s.finished(s.rows[i].id, now) == Err::<StoreView, StoreError>(
            StoreError::InvalidTransition,
        ),
        s.rows[i].state() == DeploymentState::Finished ==> s.cancelled(s.rows[i].id, note, now)
            == Err::<StoreView, StoreError>(StoreError::InvalidTransition),
        s.rows[i].state() == DeploymentState::Cancelled ==> s.cancelled(s.rows[i].id, note, now)
            == Ok::<StoreView, StoreError>(s),
{
    lemma_position(s, i);
}

} // verus!
