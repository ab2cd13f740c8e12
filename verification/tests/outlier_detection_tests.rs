use deploy_queue::clock::Timestamp;
use deploy_queue::duration::Duration;
use deploy_queue::handler::fetch::outlier_deployments;
use deploy_queue::model::{Cell, Deployment};
use deploy_queue::store::Store;

const SECOND: i64 = 1_000_000;

fn outlier_now() -> Timestamp {
    Timestamp::from_unix_micros(1_700_000_000 * SECOND).unwrap()
}

fn seconds_ago(seconds: i64) -> Option<Timestamp> {
    Some(outlier_now().shifted_by_micros(-seconds * SECOND).unwrap())
}

fn target(region: &str) -> Cell {
    Cell {
        environment: "prod".to_string(),
        cloud_provider: "aws".to_string(),
        region: region.to_string(),
        index: 1,
    }
}

fn create_finished_deployment(id: i64, component: &str, region: &str, took: i64) -> Deployment {
    Deployment {
        id,
        cell: target(region),
        component: component.to_string(),
        start_timestamp: seconds_ago(3600 + took),
        finish_timestamp: seconds_ago(3600),
        ..Default::default()
    }
}

fn create_running_deployment(id: i64, component: &str, region: &str, running: i64) -> Deployment {
    Deployment {
        id,
        cell: target(region),
        component: component.to_string(),
        start_timestamp: seconds_ago(running),
        ..Default::default()
    }
}

fn seeded(component: &str, region: &str) -> Store {
    let mut store = Store::new();
    let mut id = 0;
    for took in [100, 110, 120, 130, 140] {
        id += 1;
        store.insert_row(create_finished_deployment(id, component, region, took)).unwrap();
    }
    store
}

#[test]
fn test_outlier_detection_basic() {
    let mut store = seeded("api", "us-east-1");
    let mut running = create_running_deployment(10, "api", "us-east-1", 200);
    running.url = Some("https://example.com/run/10".to_string());
    running.version = Some("v9".to_string());
    store.insert_row(running).unwrap();
    let outliers = outlier_deployments(&store, outlier_now()).unwrap();
    assert_eq!(outliers.len(), 1);
    let o = &outliers[0];
    assert_eq!(o.id, 10);
    assert_eq!(o.env, "prod");
    assert_eq!(o.cloud_provider, "aws");
    assert_eq!(o.region, "us-east-1");
    assert_eq!(o.cell_index, 1);
    assert_eq!(o.component, "api");
    assert_eq!(o.url.as_deref(), Some("https://example.com/run/10"));
    assert_eq!(o.version.as_deref(), Some("v9"));
    assert_eq!(o.note, None);
    assert_eq!(o.current_duration, Duration::seconds(200));
    assert_eq!(o.avg_duration, Duration::seconds(120));
    assert_eq!(o.stddev_duration, Duration::microseconds(15_811_388));
}

#[test]
fn test_no_outliers_when_all_within_range() {
    let mut store = seeded("api", "us-east-1");
    store.insert_row(create_running_deployment(10, "api", "us-east-1", 140)).unwrap();
    assert!(outlier_deployments(&store, outlier_now()).unwrap().is_empty());
}

#[test]
fn outlier_threshold_is_strict() {
    let mut store = Store::new();
    store.insert_row(create_finished_deployment(1, "api", "r", 100)).unwrap();
    store.insert_row(create_finished_deployment(2, "api", "r", 100)).unwrap();
    store.insert_row(create_running_deployment(3, "api", "r", 100)).unwrap();
    assert!(outlier_deployments(&store, outlier_now()).unwrap().is_empty());
    let later = outlier_now().shifted_by_micros(1).unwrap();
    let outliers = outlier_deployments(&store, later).unwrap();
    assert_eq!(outliers.len(), 1);
    assert_eq!(outliers[0].id, 3);
    assert_eq!(outliers[0].current_duration, Duration::microseconds(100_000_001));
}

#[test]
fn test_no_outliers_when_no_running_deployments() {
    let store = seeded("api", "us-east-1");
    assert!(outlier_deployments(&store, outlier_now()).unwrap().is_empty());
}

#[test]
fn test_no_outliers_when_no_analytics_data() {
    let mut store = Store::new();
    store.insert_row(create_running_deployment(1, "fresh", "us-east-1", 100_000)).unwrap();
    assert!(outlier_deployments(&store, outlier_now()).unwrap().is_empty());
}

#[test]
fn test_outliers_per_component_region_env() {
    let mut store = seeded("api", "us-east-1");
    store.insert_row(create_running_deployment(10, "api", "us-west-2", 500)).unwrap();
    store.insert_row(create_running_deployment(11, "web", "us-east-1", 500)).unwrap();
    store.insert_row(create_running_deployment(12, "api", "us-east-1", 500)).unwrap();
    let outliers = outlier_deployments(&store, outlier_now()).unwrap();
    assert_eq!(outliers.len(), 1);
    assert_eq!(outliers[0].id, 12);
}

#[test]
fn test_outliers_excludes_finished_deployments() {
    let mut store = seeded("api", "us-east-1");
    store.insert_row(create_finished_deployment(10, "api", "us-east-1", 5000)).unwrap();
    assert!(outlier_deployments(&store, outlier_now()).unwrap().is_empty());
}

#[test]
fn test_outliers_excludes_cancelled_deployments() {
    let mut store = seeded("api", "us-east-1");
    let mut cancelled = create_running_deployment(10, "api", "us-east-1", 500);
    cancelled.cancellation_timestamp = seconds_ago(10);
    store.insert_row(cancelled).unwrap();
    let queued = Deployment {
        id: 11,
        cell: target("us-east-1"),
        component: "api".to_string(),
        ..Default::default()
    };
    store.insert_row(queued).unwrap();
    assert!(outlier_deployments(&store, outlier_now()).unwrap().is_empty());
}

#[test]
fn test_outliers_optional_fields_omitted() {
    let mut store = seeded("api", "us-east-1");
    store.insert_row(create_running_deployment(10, "api", "us-east-1", 500)).unwrap();
    let outliers = outlier_deployments(&store, outlier_now()).unwrap();
    assert_eq!(outliers.len(), 1);
    assert!(outliers[0].url.is_none());
    assert!(outliers[0].note.is_none());
    assert!(outliers[0].version.is_none());
}

#[test]
fn test_multiple_outliers() {
    let mut store = seeded("api", "us-east-1");
    store.insert_row(create_running_deployment(10, "api", "us-east-1", 500)).unwrap();
    store.insert_row(create_running_deployment(11, "api", "us-east-1", 152)).unwrap();
    store.insert_row(create_running_deployment(12, "api", "us-east-1", 151)).unwrap();
    let outliers = outlier_deployments(&store, outlier_now()).unwrap();
    let ids: Vec<i64> = outliers.iter().map(|o| o.id).collect();
    assert_eq!(ids, vec![10, 11]);
}
