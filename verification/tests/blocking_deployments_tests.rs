use deploy_queue::clock::Timestamp;
use deploy_queue::handler::fetch::blocking_deployments;
use deploy_queue::model::{Cell, Deployment};
use deploy_queue::store::Store;

const MINUTE: i64 = 60_000_000;

fn now() -> Timestamp {
    Timestamp::from_unix_micros(1_700_000_000_000_000).unwrap()
}

fn minutes_ago(minutes: i64) -> Option<Timestamp> {
    Some(now().shifted_by_micros(-minutes * MINUTE).unwrap())
}

fn row(
    id: i64,
    environment: &str,
    cloud_provider: &str,
    region: &str,
    index: i32,
    component: &str,
    version: &str,
) -> Deployment {
    Deployment {
        id,
        cell: Cell {
            environment: environment.to_string(),
            cloud_provider: cloud_provider.to_string(),
            region: region.to_string(),
            index,
        },
        component: component.to_string(),
        version: Some(version.to_string()),
        ..Default::default()
    }
}

fn store_of(rows: Vec<Deployment>) -> Store {
    let mut store = Store::new();
    for r in rows {
        store.insert_row(r).unwrap();
    }
    store
}

fn assert_blocking_deployments(store: &Store, deployment_id: i64, expected_blockers: Vec<i64>) {
    let blockers = blocking_deployments(store, deployment_id, now()).unwrap();
    let actual: Vec<i64> = blockers.iter().map(|b| b.deployment.id).collect();
    assert_eq!(actual, expected_blockers);
}

#[test]
fn test_blocked_by_running_component_same_region() {
    let mut a = row(1001, "prod", "aws", "us-west-2", 1, "api-server", "v1.0.0");
    a.start_timestamp = minutes_ago(5);
    let b = row(1002, "prod", "aws", "us-west-2", 1, "web-frontend", "v2.1.0");
    let store = store_of(vec![a, b]);
    assert_blocking_deployments(&store, 1002, vec![1001]);
    assert_blocking_deployments(&store, 1001, vec![]);
}

#[test]
fn test_blocked_by_finished_component_within_buffer_time() {
    let mut a = row(2003, "prod", "aws", "us-east-1", 1, "database-service", "v1.2.0");
    a.start_timestamp = minutes_ago(15);
    a.finish_timestamp = minutes_ago(5);
    let b = row(2004, "prod", "aws", "us-east-1", 1, "auth-service", "v3.0.0");
    let store = store_of(vec![a, b]);
    assert_blocking_deployments(&store, 2004, vec![2003]);
}

#[test]
fn test_not_blocked_by_finished_component_outside_buffer_time() {
    let mut a = row(3005, "prod", "aws", "eu-west-1", 1, "notification-service", "v2.0.0");
    a.start_timestamp = minutes_ago(30);
    a.finish_timestamp = minutes_ago(15);
    let b = row(3006, "prod", "aws", "eu-west-1", 1, "payment-service", "v1.5.0");
    let store = store_of(vec![a, b]);
    assert_blocking_deployments(&store, 3006, vec![]);
}

#[test]
fn test_not_blocked_by_running_component_different_region() {
    let mut a = row(4007, "prod", "aws", "ap-southeast-1", 1, "cache-service", "v1.1.0");
    a.start_timestamp = minutes_ago(10);
    let b = row(4008, "prod", "aws", "us-central-1", 1, "cache-service", "v1.1.0");
    let store = store_of(vec![a, b]);
    assert_blocking_deployments(&store, 4008, vec![]);
}

#[test]
fn test_not_blocked_by_running_component_different_environment() {
    let mut a = row(4101, "prod", "aws", "us-west-2", 1, "api-service", "v1.0.0");
    a.start_timestamp = minutes_ago(5);
    let b = row(4102, "dev", "aws", "us-west-2", 1, "api-service", "v1.0.0");
    let store = store_of(vec![a, b]);
    assert_blocking_deployments(&store, 4102, vec![]);
}

#[test]
fn test_not_blocked_by_running_component_different_cell_index() {
    let mut a = row(4201, "prod", "aws", "us-west-2", 1, "worker-service", "v2.0.0");
    a.start_timestamp = minutes_ago(5);
    let b = row(4202, "prod", "aws", "us-west-2", 2, "worker-service", "v2.0.0");
    let store = store_of(vec![a, b]);
    assert_blocking_deployments(&store, 4202, vec![]);
}

#[test]
fn test_not_blocked_by_running_component_different_cloud_provider() {
    let mut a = row(4301, "prod", "aws", "us-west-2", 1, "database-service", "v3.0.0");
    a.start_timestamp = minutes_ago(5);
    let b = row(4302, "prod", "azure", "us-west-2", 1, "database-service", "v3.0.0");
    let store = store_of(vec![a, b]);
    assert_blocking_deployments(&store, 4302, vec![]);
}

#[test]
fn test_not_blocked_by_cancelled_deployment() {
    let mut a = row(5009, "prod", "aws", "us-west-1", 1, "monitoring-service", "v2.2.0");
    a.start_timestamp = minutes_ago(20);
    a.cancellation_timestamp = minutes_ago(18);
    a.cancellation_note = Some("Cancelled due to critical bug".to_string());
    let b = row(5010, "prod", "aws", "us-west-1", 1, "logging-service", "v1.8.0");
    let store = store_of(vec![a, b]);
    assert_blocking_deployments(&store, 5010, vec![]);
}

#[test]
fn test_not_blocked_in_dev_environment_no_buffer() {
    let mut a = row(6011, "dev", "aws", "dev-cluster", 1, "api-server", "v1.1.0-beta");
    a.start_timestamp = minutes_ago(10);
    a.finish_timestamp = minutes_ago(5);
    let b = row(6012, "dev", "aws", "dev-cluster", 1, "web-frontend", "v2.2.0-beta");
    let store = store_of(vec![a, b]);
    assert_blocking_deployments(&store, 6012, vec![]);
}

#[test]
fn test_not_blocked_by_same_concurrency_key() {
    let mut a = row(7013, "prod", "aws", "us-west-3", 1, "worker-service", "v1.0.0");
    a.start_timestamp = minutes_ago(8);
    a.concurrency_key = Some("hotfix-2024-001".to_string());
    let mut b = row(7014, "prod", "aws", "us-west-3", 1, "queue-processor", "v1.0.1");
    b.concurrency_key = Some("hotfix-2024-001".to_string());
    let store = store_of(vec![a, b]);
    assert_blocking_deployments(&store, 7014, vec![]);
}

#[test]
fn test_blocked_by_different_concurrency_keys() {
    let mut a = row(8015, "prod", "aws", "us-south-1", 1, "user-service", "v2.0.0");
    a.start_timestamp = minutes_ago(3);
    a.concurrency_key = Some("feature-2024-002".to_string());
    let mut b = row(8016, "prod", "aws", "us-south-1", 1, "profile-service", "v1.9.0");
    b.concurrency_key = Some("feature-2024-003".to_string());
    let store = store_of(vec![a, b]);
    assert_blocking_deployments(&store, 8016, vec![8015]);
}

#[test]
fn test_null_vs_nonnull_concurrency_key_blocking() {
    let mut a = row(9001, "prod", "aws", "ap-northeast-1", 1, "redis-service", "v1.3.0");
    a.start_timestamp = minutes_ago(5);
    let mut b = row(9002, "prod", "aws", "ap-northeast-1", 1, "cache-service", "v2.1.0");
    b.concurrency_key = Some("performance-2024-001".to_string());
    let store = store_of(vec![a, b]);
    assert_blocking_deployments(&store, 9002, vec![9001]);
}

#[test]
fn test_sequential_deployments_blocking_by_id_order() {
    let mut a = row(10001, "prod", "aws", "us-east-2", 1, "api-gateway", "v2.1.0");
    a.start_timestamp = minutes_ago(10);
    let b = row(10002, "prod", "aws", "us-east-2", 1, "auth-service", "v1.5.0");
    let c = row(10003, "prod", "aws", "us-east-2", 1, "user-service", "v3.2.0");
    let d = row(10004, "prod", "aws", "us-east-2", 1, "notification-service", "v1.8.0");
    let store = store_of(vec![a, b, c, d]);
    assert_blocking_deployments(&store, 10002, vec![10001]);
    assert_blocking_deployments(&store, 10003, vec![10001, 10002]);
    assert_blocking_deployments(&store, 10004, vec![10001, 10002, 10003]);
}

#[test]
fn concurrency_key_bypass_needs_the_same_key_on_both_sides() {
    let mut a = row(7013, "prod", "aws", "us-west-3", 1, "worker-service", "v1.0.0");
    a.start_timestamp = minutes_ago(8);
    a.concurrency_key = Some("h".to_string());
    let mut b = row(7014, "prod", "aws", "us-west-3", 1, "queue-processor", "v1.0.1");
    b.concurrency_key = Some("h2".to_string());
    let store = store_of(vec![a.clone(), b]);
    assert_blocking_deployments(&store, 7014, vec![7013]);

    a.concurrency_key = None;
    let mut b = row(7014, "prod", "aws", "us-west-3", 1, "queue-processor", "v1.0.1");
    b.concurrency_key = Some("h".to_string());
    let store = store_of(vec![a, b]);
    assert_blocking_deployments(&store, 7014, vec![7013]);
}

#[test]
fn empty_concurrency_key_is_a_key() {
    let mut a = row(1, "prod", "aws", "r", 1, "x", "v1");
    a.start_timestamp = minutes_ago(1);
    a.concurrency_key = Some(String::new());
    let mut b = row(2, "prod", "aws", "r", 1, "y", "v1");
    b.concurrency_key = Some(String::new());
    let c = row(3, "prod", "aws", "r", 1, "z", "v1");
    let store = store_of(vec![a, b, c]);
    assert_blocking_deployments(&store, 2, vec![]);
    assert_blocking_deployments(&store, 3, vec![1, 2]);
}

#[test]
fn finish_exactly_one_buffer_ago_does_not_block() {
    let mut a = row(1, "prod", "aws", "r", 1, "x", "v1");
    a.start_timestamp = minutes_ago(20);
    a.finish_timestamp = minutes_ago(10);
    let b = row(2, "prod", "aws", "r", 1, "y", "v1");
    let store = store_of(vec![a, b]);
    assert_blocking_deployments(&store, 2, vec![]);

    let mut a = row(1, "prod", "aws", "r", 1, "x", "v1");
    a.start_timestamp = minutes_ago(20);
    a.finish_timestamp = Some(now().shifted_by_micros(-10 * MINUTE + 1).unwrap());
    let b = row(2, "prod", "aws", "r", 1, "y", "v1");
    let store = store_of(vec![a, b]);
    assert_blocking_deployments(&store, 2, vec![1]);
}

#[test]
fn unknown_deployment_has_no_blockers() {
    let mut a = row(1, "prod", "aws", "r", 1, "x", "v1");
    a.start_timestamp = minutes_ago(1);
    let store = store_of(vec![a]);
    assert_blocking_deployments(&store, 99, vec![]);
}

#[test]
fn blockers_carry_the_buffer_time_of_their_environment() {
    let mut a = row(1, "prod", "aws", "r", 1, "x", "v1");
    a.start_timestamp = minutes_ago(1);
    let b = row(2, "prod", "aws", "r", 1, "y", "v1");
    let store = store_of(vec![a, b]);
    let blockers = blocking_deployments(&store, 2, now()).unwrap();
    assert_eq!(blockers.len(), 1);
    assert_eq!(blockers[0].deployment.buffer_time.whole_seconds(), 600);
    assert!(blockers[0].avg_duration.is_none());
    assert!(blockers[0].stddev_duration.is_none());
}
