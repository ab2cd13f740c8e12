use deploy_queue::cli::{Environment, StartDeployment};
use deploy_queue::clock::Timestamp;
use deploy_queue::duration::Duration;
use deploy_queue::handler::cancel;
use deploy_queue::handler::fetch;
use deploy_queue::handler::{
    enqueue_deployment, finish_deployment, show_deployment_info, start_deployment,
};
use deploy_queue::model::{Cell, Deployment, DeploymentState};
use deploy_queue::store::{Store, StoreError};

const SECOND: i64 = 1_000_000;

fn t(seconds: i64) -> Timestamp {
    Timestamp::from_unix_micros((1_700_000_000 + seconds) * SECOND).unwrap()
}

fn request(environment: &str, provider: &str, region: &str, index: i32, component: &str) -> Deployment {
    Deployment {
        cell: Cell {
            environment: environment.to_string(),
            cloud_provider: provider.to_string(),
            region: region.to_string(),
            index,
        },
        component: component.to_string(),
        ..Default::default()
    }
}

fn create_test_deployment(store: &mut Store) -> i64 {
    let mut d = request("dev", "aws", "test-region", 1, "test-component");
    d.version = Some("v1.0.0".to_string());
    enqueue_deployment(store, d, t(0)).unwrap()
}

fn create_running_deployment(store: &mut Store) -> i64 {
    let id = create_test_deployment(store);
    start_deployment(store, id, t(1)).unwrap();
    id
}

fn create_finished_deployment(store: &mut Store) -> i64 {
    let id = create_running_deployment(store);
    finish_deployment(store, id, t(2)).unwrap();
    id
}

fn create_cancelled_deployment(store: &mut Store) -> i64 {
    let id = create_test_deployment(store);
    cancel::deployment(store, id, Some("fixture"), t(1)).unwrap();
    id
}

#[test]
fn test_insert_deployment_record() {
    let mut store = Store::new();
    let mut d = request("prod", "aws", "us-west-2", 3, "api-server");
    d.version = Some("v1.2.3".to_string());
    d.url = Some("https://github.com/example/run/1".to_string());
    d.note = Some("Test deployment".to_string());
    d.concurrency_key = Some("key-1".to_string());
    let id = enqueue_deployment(&mut store, d, t(0)).unwrap();
    assert_eq!(id, 1);
    let row = store.get(id).unwrap();
    assert_eq!(row.id, 1);
    assert_eq!(row.cell.environment, "prod");
    assert_eq!(row.cell.cloud_provider, "aws");
    assert_eq!(row.cell.region, "us-west-2");
    assert_eq!(row.cell.index, 3);
    assert_eq!(row.component, "api-server");
    assert_eq!(row.version.as_deref(), Some("v1.2.3"));
    assert_eq!(row.url.as_deref(), Some("https://github.com/example/run/1"));
    assert_eq!(row.note.as_deref(), Some("Test deployment"));
    assert_eq!(row.concurrency_key.as_deref(), Some("key-1"));
    assert_eq!(row.created_at, Some(t(0)));
    assert_eq!(row.state(), DeploymentState::Queued);
    let second = enqueue_deployment(&mut store, request("dev", "aws", "r", 1, "c"), t(1)).unwrap();
    assert_eq!(second, 2);
}

#[test]
fn test_insert_deployment_record_minimal_data() {
    let mut store = Store::new();
    let id = enqueue_deployment(&mut store, request("dev", "aws", "r", 1, "minimal"), t(0)).unwrap();
    let row = store.get(id).unwrap();
    assert!(row.version.is_none());
    assert!(row.url.is_none());
    assert!(row.note.is_none());
    assert!(row.concurrency_key.is_none());
    assert!(row.start_timestamp.is_none());
    assert!(row.finish_timestamp.is_none());
    assert!(row.cancellation_timestamp.is_none());
    assert!(row.cancellation_note.is_none());
    assert!(row.heartbeat_timestamp.is_none());
}

#[test]
fn enqueue_sets_aside_what_the_request_says_of_its_steps() {
    let mut store = Store::new();
    let mut d = request("dev", "aws", "r", 1, "c");
    d.id = 500;
    d.start_timestamp = Some(t(-5));
    d.cancellation_note = Some("x".to_string());
    d.buffer_time = Duration::seconds(77);
    let id = enqueue_deployment(&mut store, d, t(0)).unwrap();
    assert_eq!(id, 1);
    let row = store.get(1).unwrap();
    assert_eq!(row.state(), DeploymentState::Queued);
    assert!(row.cancellation_note.is_none());
    assert_eq!(row.buffer_time, Duration::zero());
    assert!(store.get(500).is_none());
}

#[test]
fn test_get_deployment_info() {
    let mut store = Store::new();
    let mut d = request("prod", "aws", "us-west-2", 1, "info-component");
    d.version = Some("v2.0.0".to_string());
    d.url = Some("https://example.com/job".to_string());
    d.note = Some("a note".to_string());
    let id = enqueue_deployment(&mut store, d, t(0)).unwrap();
    let row = fetch::deployment(&store, id).unwrap();
    assert_eq!(row.component, "info-component");
    assert_eq!(row.buffer_time, Duration::seconds(600));
    assert_eq!(
        show_deployment_info(&store, id).unwrap(),
        "1 queued info-component(@v2.0.0): (a note) (https://example.com/job)"
    );
    assert!(fetch::deployment(&store, 99).is_none());
    assert_eq!(show_deployment_info(&store, 99), Err(StoreError::NotFound));
}

#[test]
fn test_start_deployment_success() {
    let mut store = Store::new();
    let id = create_test_deployment(&mut store);
    start_deployment(&mut store, id, t(10)).unwrap();
    let row = store.get(id).unwrap();
    assert_eq!(row.start_timestamp, Some(t(10)));
    assert!(row.finish_timestamp.is_none());
    assert_eq!(row.state(), DeploymentState::Running);
}

#[test]
fn test_finish_deployment_success() {
    let mut store = Store::new();
    let id = create_running_deployment(&mut store);
    finish_deployment(&mut store, id, t(20)).unwrap();
    let row = store.get(id).unwrap();
    assert_eq!(row.start_timestamp, Some(t(1)));
    assert_eq!(row.finish_timestamp, Some(t(20)));
    assert_eq!(row.state(), DeploymentState::Finished);
}

#[test]
fn test_cancel_queued_deployment_with_note() {
    let mut store = Store::new();
    let id = create_test_deployment(&mut store);
    cancel::deployment(&mut store, id, Some("Cancelled for testing"), t(5)).unwrap();
    let row = store.get(id).unwrap();
    assert_eq!(row.cancellation_timestamp, Some(t(5)));
    assert_eq!(row.cancellation_note.as_deref(), Some("Cancelled for testing"));
    assert!(row.start_timestamp.is_none());
    assert_eq!(row.state(), DeploymentState::Cancelled);
}

#[test]
fn test_cancel_running_deployment_without_note() {
    let mut store = Store::new();
    let id = create_running_deployment(&mut store);
    cancel::deployment(&mut store, id, None, t(5)).unwrap();
    let row = store.get(id).unwrap();
    assert_eq!(row.cancellation_timestamp, Some(t(5)));
    assert!(row.cancellation_note.is_none());
    assert_eq!(row.start_timestamp, Some(t(1)));
    assert_eq!(row.state(), DeploymentState::Cancelled);
}

#[test]
fn test_deployment_state_transitions() {
    let mut store = Store::new();
    let id = create_test_deployment(&mut store);
    let row = store.get(id).unwrap();
    assert!(row.start_timestamp.is_none());
    assert!(row.finish_timestamp.is_none());
    assert!(row.cancellation_timestamp.is_none());

    start_deployment(&mut store, id, t(1)).unwrap();
    let row = store.get(id).unwrap();
    assert!(row.start_timestamp.is_some());
    assert!(row.finish_timestamp.is_none());
    assert!(row.cancellation_timestamp.is_none());

    finish_deployment(&mut store, id, t(2)).unwrap();
    let row = store.get(id).unwrap();
    assert!(row.start_timestamp.is_some());
    assert!(row.finish_timestamp.is_some());
    assert!(row.cancellation_timestamp.is_none());
}

#[test]
fn test_invalid_state_transitions() {
    let mut store = Store::new();
    let queued = create_test_deployment(&mut store);
    assert_eq!(finish_deployment(&mut store, queued, t(1)), Err(StoreError::InvalidTransition));
    assert_eq!(store.get(queued).unwrap().state(), DeploymentState::Queued);
    assert_eq!(finish_deployment(&mut store, 12345, t(1)), Err(StoreError::NotFound));
    assert_eq!(start_deployment(&mut store, 12345, t(1)), Err(StoreError::NotFound));
    let running = create_running_deployment(&mut store);
    assert_eq!(start_deployment(&mut store, running, t(3)), Err(StoreError::InvalidTransition));
    assert_eq!(finish_deployment(&mut store, running, t(0)), Err(StoreError::InvalidTransition));
    assert_eq!(
        cancel::deployment(&mut store, running, None, t(0)),
        Err(StoreError::InvalidTransition)
    );
    assert_eq!(store.get(running).unwrap().state(), DeploymentState::Running);
}

#[test]
fn test_operations_on_finished_deployment() {
    let mut store = Store::new();
    let id = create_finished_deployment(&mut store);
    assert!(start_deployment(&mut store, id, t(9)).is_err());
    assert!(finish_deployment(&mut store, id, t(9)).is_err());
    assert!(cancel::deployment(&mut store, id, Some("test"), t(9)).is_err());
    let row = store.get(id).unwrap();
    assert_eq!(row.state(), DeploymentState::Finished);
    assert_eq!(row.finish_timestamp, Some(t(2)));
}

#[test]
fn test_operations_on_cancelled_deployment() {
    let mut store = Store::new();
    let id = create_cancelled_deployment(&mut store);
    assert!(start_deployment(&mut store, id, t(9)).is_err());
    assert!(finish_deployment(&mut store, id, t(9)).is_err());
    let row = store.get(id).unwrap();
    assert_eq!(row.state(), DeploymentState::Cancelled);
    assert_eq!(row.cancellation_timestamp, Some(t(1)));
}

#[test]
fn cancelling_again_keeps_the_first_cancellation() {
    let mut store = Store::new();
    let id = create_cancelled_deployment(&mut store);
    assert_eq!(cancel::deployment(&mut store, id, Some("test again"), t(9)), Ok(()));
    let row = store.get(id).unwrap();
    assert_eq!(row.cancellation_timestamp, Some(t(1)));
    assert_eq!(row.cancellation_note.as_deref(), Some("fixture"));
    assert_eq!(cancel::deployment(&mut store, 4711, None, t(9)), Ok(()));
    assert_eq!(store.len(), 1);
}

#[test]
fn test_database_constraint_violations() {
    let mut store = Store::new();
    let bad = request("invalid-env", "aws", "test-region", 1, "test-component");
    assert_eq!(enqueue_deployment(&mut store, bad, t(0)), Err(StoreError::ConstraintViolation));
    assert_eq!(store.len(), 0);

    store.insert_row(Deployment { id: 10, ..request("dev", "aws", "r", 1, "c") }).unwrap();
    let same_id = Deployment { id: 10, ..request("dev", "aws", "r", 1, "c") };
    assert_eq!(store.insert_row(same_id), Err(StoreError::ConstraintViolation));
    let mut backwards = Deployment { id: 11, ..request("dev", "aws", "r", 1, "c") };
    backwards.start_timestamp = Some(t(5));
    backwards.finish_timestamp = Some(t(4));
    assert_eq!(store.insert_row(backwards), Err(StoreError::ConstraintViolation));
    let mut unstarted = Deployment { id: 11, ..request("dev", "aws", "r", 1, "c") };
    unstarted.finish_timestamp = Some(t(4));
    assert_eq!(store.insert_row(unstarted), Err(StoreError::ConstraintViolation));
    assert_eq!(store.len(), 1);
}

#[test]
fn test_immutable_fields_cannot_be_modified() {
    let mut store = Store::new();
    let mut d = request("prod", "aws", "us-west-2", 1, "immutable");
    d.version = Some("v1".to_string());
    d.url = Some("u".to_string());
    d.note = Some("n".to_string());
    d.concurrency_key = Some("k".to_string());
    let id = enqueue_deployment(&mut store, d, t(0)).unwrap();
    let before = store.get(id).unwrap();
    start_deployment(&mut store, id, t(1)).unwrap();
    deploy_queue::handler::update_heartbeat(&mut store, id, t(2));
    finish_deployment(&mut store, id, t(3)).unwrap();
    cancel::by_location(&mut store, "prod", "aws", "us-west-2", None, Some("x"), t(4)).unwrap();
    let after = store.get(id).unwrap();
    assert_eq!(after.id, before.id);
    assert_eq!(after.cell.environment, before.cell.environment);
    assert_eq!(after.cell.cloud_provider, before.cell.cloud_provider);
    assert_eq!(after.cell.region, before.cell.region);
    assert_eq!(after.cell.index, before.cell.index);
    assert_eq!(after.component, before.component);
    assert_eq!(after.version, before.version);
    assert_eq!(after.url, before.url);
    assert_eq!(after.note, before.note);
    assert_eq!(after.concurrency_key, before.concurrency_key);
    assert_eq!(after.created_at, before.created_at);
}

#[test]
fn test_cancel_deployments_by_component_version() {
    let mut store = Store::new();
    let component = "test-component-cancel-cv";
    let mut ids = Vec::new();
    for (provider, region, index, version) in [
        ("aws", "us-east-1", 1, "v1.0.0"),
        ("aws", "us-west-2", 2, "v1.0.0"),
        ("azure", "east-us", 1, "v1.0.0"),
        ("aws", "us-east-1", 1, "v2.0.0"),
    ] {
        let mut d = request("dev", provider, region, index, component);
        d.version = Some(version.to_string());
        ids.push(enqueue_deployment(&mut store, d, t(0)).unwrap());
    }
    let unversioned = enqueue_deployment(&mut store, request("dev", "aws", "r", 1, component), t(0)).unwrap();
    start_deployment(&mut store, ids[1], t(1)).unwrap();

    let note = "Cancelling test-component-cancel-cv v1.0.0";
    let cancelled = cancel::by_component_version(&mut store, component, "v1.0.0", Some(note), t(2)).unwrap();
    assert_eq!(cancelled, 3);
    for id in &ids[0..3] {
        let row = store.get(*id).unwrap();
        assert_eq!(row.cancellation_timestamp, Some(t(2)));
        assert_eq!(row.cancellation_note.as_deref(), Some(note));
    }
    assert!(store.get(ids[3]).unwrap().cancellation_timestamp.is_none());
    assert!(store.get(unversioned).unwrap().cancellation_timestamp.is_none());

    let again = cancel::by_component_version(&mut store, component, "v1.0.0", Some("later"), t(9)).unwrap();
    assert_eq!(again, 0);
    assert_eq!(store.get(ids[0]).unwrap().cancellation_timestamp, Some(t(2)));
    assert_eq!(store.get(ids[0]).unwrap().cancellation_note.as_deref(), Some(note));
}

#[test]
fn test_cancel_deployments_by_location() {
    let mut store = Store::new();
    let a = enqueue_deployment(&mut store, request("dev", "aws", "us-east-1", 1, "a"), t(0)).unwrap();
    let b = enqueue_deployment(&mut store, request("dev", "aws", "us-east-1", 1, "b"), t(0)).unwrap();
    let other_cell = enqueue_deployment(&mut store, request("dev", "aws", "us-east-1", 2, "c"), t(0)).unwrap();
    let other_region = enqueue_deployment(&mut store, request("dev", "aws", "us-west-2", 1, "d"), t(0)).unwrap();
    let other_env = enqueue_deployment(&mut store, request("prod", "aws", "us-east-1", 1, "e"), t(0)).unwrap();
    let other_provider = enqueue_deployment(&mut store, request("dev", "gcp", "us-east-1", 1, "f"), t(0)).unwrap();
    start_deployment(&mut store, b, t(1)).unwrap();

    let note = "Cancelling location";
    let n = cancel::by_location(&mut store, "dev", "aws", "us-east-1", Some(1), Some(note), t(2)).unwrap();
    assert_eq!(n, 2);
    for id in [a, b] {
        let row = store.get(id).unwrap();
        assert_eq!(row.state(), DeploymentState::Cancelled);
        assert_eq!(row.cancellation_note.as_deref(), Some(note));
    }
    for id in [other_cell, other_region, other_env, other_provider] {
        assert!(store.get(id).unwrap().cancellation_timestamp.is_none());
    }
}

#[test]
fn test_cancel_deployments_by_location_without_cell_index() {
    let mut store = Store::new();
    let a = enqueue_deployment(&mut store, request("dev", "aws", "us-east-1", 1, "a"), t(0)).unwrap();
    let b = enqueue_deployment(&mut store, request("dev", "aws", "us-east-1", 2, "b"), t(0)).unwrap();
    let done = enqueue_deployment(&mut store, request("dev", "aws", "us-east-1", 3, "c"), t(0)).unwrap();
    let elsewhere = enqueue_deployment(&mut store, request("dev", "aws", "eu-1", 1, "d"), t(0)).unwrap();
    start_deployment(&mut store, done, t(1)).unwrap();
    finish_deployment(&mut store, done, t(2)).unwrap();

    let n = cancel::by_location(&mut store, "dev", "aws", "us-east-1", None, None, t(3)).unwrap();
    assert_eq!(n, 2);
    assert_eq!(store.get(a).unwrap().state(), DeploymentState::Cancelled);
    assert_eq!(store.get(b).unwrap().state(), DeploymentState::Cancelled);
    assert!(store.get(a).unwrap().cancellation_note.is_none());
    assert_eq!(store.get(done).unwrap().state(), DeploymentState::Finished);
    assert_eq!(store.get(elsewhere).unwrap().state(), DeploymentState::Queued);
}

#[test]
fn batch_cancellation_before_a_start_changes_nothing() {
    let mut store = Store::new();
    let a = enqueue_deployment(&mut store, request("dev", "aws", "r", 1, "a"), t(0)).unwrap();
    let b = enqueue_deployment(&mut store, request("dev", "aws", "r", 1, "b"), t(0)).unwrap();
    start_deployment(&mut store, b, t(10)).unwrap();
    assert_eq!(
        cancel::by_location(&mut store, "dev", "aws", "r", None, None, t(5)),
        Err(StoreError::InvalidTransition)
    );
    assert_eq!(store.get(a).unwrap().state(), DeploymentState::Queued);
    assert_eq!(store.get(b).unwrap().state(), DeploymentState::Running);
}

#[test]
fn deployment_id_by_url_takes_the_most_recent() {
    let mut store = Store::new();
    for component in ["a", "b", "c"] {
        let mut d = request("dev", "aws", "r", 1, component);
        d.url = Some(if component == "c" { "other" } else { "https://job/1" }.to_string());
        enqueue_deployment(&mut store, d, t(0)).unwrap();
    }
    assert_eq!(fetch::deployment_id_by_url(&store, "https://job/1"), Some(2));
    assert_eq!(fetch::deployment_id_by_url(&store, "other"), Some(3));
    assert_eq!(fetch::deployment_id_by_url(&store, "none"), None);
}

#[test]
fn cells_lists_each_cell_of_the_environment_once() {
    let mut store = Store::new();
    for (env, provider, region, index) in [
        ("dev", "aws", "us-east-1", 2),
        ("prod", "aws", "us-east-1", 1),
        ("dev", "aws", "us-east-1", 2),
        ("dev", "aws", "eu-1", 1),
        ("dev", "azure", "eu-1", 1),
        ("dev", "aws", "us-east-1", 10),
        ("dev", "aws", "us-east-1", -1),
        ("dev", "aws", "us-east", 3),
    ] {
        enqueue_deployment(&mut store, request(env, provider, region, index, "c"), t(0)).unwrap();
    }
    let labels: Vec<String> =
        fetch::cells(&store, Environment::Dev).iter().map(|c| c.label()).collect();
    assert_eq!(
        labels,
        vec![
            "dev-aws-eu-1-1".to_string(),
            "dev-aws-us-east-3".to_string(),
            "dev-aws-us-east-1--1".to_string(),
            "dev-aws-us-east-1-2".to_string(),
            "dev-aws-us-east-1-10".to_string(),
            "dev-azure-eu-1-1".to_string(),
        ]
    );
    let prod: Vec<String> =
        fetch::cells(&store, Environment::Prod).iter().map(|c| c.label()).collect();
    assert_eq!(prod, vec!["prod-aws-us-east-1-1".to_string()]);
}

#[test]
fn a_request_becomes_a_queued_deployment() {
    let start = StartDeployment {
        environment: Environment::Prod,
        cloud_provider: "aws".to_string(),
        region: "us-west-2".to_string(),
        cell_index: 4,
        component: "api".to_string(),
        version: Some("v1".to_string()),
        url: None,
        note: Some("n".to_string()),
        concurrency_key: Some(String::new()),
    };
    let d = Deployment::from(start);
    assert_eq!(d.id, 0);
    assert_eq!(d.cell.environment, "prod");
    assert_eq!(d.cell.index, 4);
    assert_eq!(d.version.as_deref(), Some("v1"));
    assert_eq!(d.concurrency_key.as_deref(), Some(""));
    assert_eq!(d.state(), DeploymentState::Queued);
    assert_eq!(Environment::parse("dev"), Some(Environment::Dev));
    assert_eq!(Environment::parse("staging"), None);
    assert_eq!(Environment::Prod.as_ref(), "prod");
}

#[test]
fn the_listing_of_cells_has_a_heading_and_a_line_for_each_cell() {
    let mut store = Store::new();
    for (provider, index) in [("gcp", 2), ("aws", 1), ("gcp", 2)] {
        enqueue_deployment(&mut store, request("prod", provider, "eu", index, "c"), t(0)).unwrap();
    }
    let (cells, lines) = deploy_queue::handler::list::cells(&store, Environment::Prod);
    assert_eq!(cells.len(), 2);
    assert_eq!(
        lines,
        vec![
            "Known cells for environment prod:".to_string(),
            "  - prod-aws-eu-1".to_string(),
            "  - prod-gcp-eu-2".to_string(),
        ]
    );
    let (none, only_heading) = deploy_queue::handler::list::cells(&store, Environment::Dev);
    assert!(none.is_empty());
    assert_eq!(only_heading, vec!["Known cells for environment dev:".to_string()]);
}

#[test]
fn buffer_times_can_be_set_when_the_store_is_made() {
    let mut store = Store::with_buffer_times(Duration::seconds(30), Duration::seconds(90));
    let dev = enqueue_deployment(&mut store, request("dev", "aws", "r", 1, "c"), t(0)).unwrap();
    let prod = enqueue_deployment(&mut store, request("prod", "aws", "r", 1, "c"), t(0)).unwrap();
    assert_eq!(store.get(dev).unwrap().buffer_time, Duration::seconds(30));
    assert_eq!(store.get(prod).unwrap().buffer_time, Duration::seconds(90));
    assert_eq!(store.buffer_time("prod"), Some(Duration::seconds(90)));
    assert_eq!(store.buffer_time("staging"), None);
    start_deployment(&mut store, dev, t(1)).unwrap();
    finish_deployment(&mut store, dev, t(2)).unwrap();
    let waiter = enqueue_deployment(&mut store, request("dev", "aws", "r", 1, "d"), t(3)).unwrap();
    assert_eq!(fetch::blocking_deployments(&store, waiter, t(31)).unwrap().len(), 1);
    assert_eq!(fetch::blocking_deployments(&store, waiter, t(32)).unwrap().len(), 0);
}
