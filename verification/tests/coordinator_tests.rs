use deploy_queue::blocking::{BlockingDeployment, EtaError};
use deploy_queue::clock::Timestamp;
use deploy_queue::coordinator::{eta_lines, eta_report, wait_step, WaitStep};
use deploy_queue::duration::Duration;
use deploy_queue::model::{Cell, Deployment, DeploymentState};
use deploy_queue::store::Store;

const SECOND: i64 = 1_000_000;

fn eta_now() -> Timestamp {
    Timestamp::from_unix_micros(1_700_000_000 * SECOND).unwrap()
}

fn seconds_ago(seconds: i64) -> Option<Timestamp> {
    Some(eta_now().shifted_by_micros(-seconds * SECOND).unwrap())
}

fn blocker(id: i64, component: &str, avg: Option<i64>, buffer: i64) -> BlockingDeployment {
    BlockingDeployment {
        deployment: Deployment {
            id,
            cell: Cell {
                environment: "prod".to_string(),
                cloud_provider: "aws".to_string(),
                region: "r".to_string(),
                index: 1,
            },
            component: component.to_string(),
            version: Some("v1".to_string()),
            buffer_time: Duration::seconds(buffer),
            ..Default::default()
        },
        avg_duration: avg.map(Duration::seconds),
        stddev_duration: avg.map(|_| Duration::zero()),
    }
}

#[test]
fn state_comes_from_the_timestamps() {
    let some = seconds_ago(1);
    assert_eq!(DeploymentState::from_timestamps(None, None, None), DeploymentState::Queued);
    assert_eq!(DeploymentState::from_timestamps(some, None, None), DeploymentState::Running);
    assert_eq!(DeploymentState::from_timestamps(some, some, None), DeploymentState::Finished);
    assert_eq!(DeploymentState::from_timestamps(None, some, None), DeploymentState::Finished);
    assert_eq!(DeploymentState::from_timestamps(some, some, some), DeploymentState::Cancelled);
    assert_eq!(DeploymentState::from_timestamps(None, None, some), DeploymentState::Cancelled);
    assert_eq!(DeploymentState::Queued.state_verb(), "queued");
    assert_eq!(DeploymentState::Running.state_verb(), "deploying");
    assert_eq!(DeploymentState::Finished.state_verb(), "deployed");
    assert_eq!(DeploymentState::Cancelled.state_verb(), "cancelled");
    assert_eq!(DeploymentState::Running.to_string(), "running");
    assert_eq!(DeploymentState::Finished.to_string(), "finished");
}

#[test]
fn summary_of_a_deployment() {
    let mut d = blocker(12, "api", None, 0).deployment;
    assert_eq!(d.summary(), "12 queued api(@v1)");
    d.version = None;
    d.start_timestamp = seconds_ago(5);
    d.url = Some("https://job".to_string());
    assert_eq!(d.summary(), "12 deploying api(@unknown) (https://job)");
    d.note = Some("manual".to_string());
    d.finish_timestamp = seconds_ago(1);
    assert_eq!(d.summary(), "12 deployed api(@unknown): (manual) (https://job)");
    d.id = -3;
    d.url = None;
    d.cancellation_timestamp = seconds_ago(0);
    assert_eq!(d.summary(), "-3 cancelled api(@unknown): (manual)");
}

#[test]
fn remaining_time_of_a_queued_blocker() {
    let b = blocker(1, "api", Some(120), 600);
    assert_eq!(
        b.remaining_time_at(eta_now()),
        Ok((Some(Duration::seconds(120)), Duration::seconds(600)))
    );
    assert_eq!(b.remaining_time(), Ok((Some(Duration::seconds(120)), Duration::seconds(600))));
    let unknown = blocker(1, "api", None, 600);
    assert_eq!(unknown.remaining_time_at(eta_now()), Ok((None, Duration::seconds(600))));
    assert_eq!(
        b.summary_at(eta_now()).unwrap(),
        "1 queued api(@v1): ~12m remaining (includes ~10m buffer)"
    );
    assert_eq!(b.summary().unwrap(), "1 queued api(@v1): ~12m remaining (includes ~10m buffer)");
    assert_eq!(
        unknown.summary_at(eta_now()).unwrap(),
        "1 queued api(@v1): unknown deployment time, ~10m buffer"
    );
}

#[test]
fn remaining_time_of_a_running_blocker() {
    let mut b = blocker(2, "api", Some(120), 0);
    b.deployment.start_timestamp = seconds_ago(50);
    assert_eq!(
        b.remaining_time_at(eta_now()),
        Ok((Some(Duration::seconds(70)), Duration::zero()))
    );
    assert_eq!(b.summary_at(eta_now()).unwrap(), "2 deploying api(@v1): ~1m 10s remaining");
    b.deployment.start_timestamp = seconds_ago(500);
    assert_eq!(b.remaining_time_at(eta_now()), Ok((Some(Duration::zero()), Duration::zero())));
    assert_eq!(b.summary_at(eta_now()).unwrap(), "2 deploying api(@v1): overdue");
    b.deployment.buffer_time = Duration::seconds(600);
    b.deployment.note = Some("n".to_string());
    b.deployment.url = Some("u".to_string());
    assert_eq!(
        b.summary_at(eta_now()).unwrap(),
        "2 deploying api(@v1): ~10m remaining (includes ~10m buffer) (n) (u)"
    );
    b.avg_duration = None;
    b.deployment.buffer_time = Duration::zero();
    assert_eq!(
        b.summary_at(eta_now()).unwrap(),
        "2 deploying api(@v1): unknown deployment time (n) (u)"
    );
}

#[test]
fn remaining_time_of_a_finished_blocker() {
    let mut b = blocker(3, "api", Some(120), 600);
    b.deployment.start_timestamp = seconds_ago(400);
    b.deployment.finish_timestamp = seconds_ago(100);
    assert_eq!(b.remaining_time_at(eta_now()), Ok((None, Duration::seconds(500))));
    assert_eq!(b.summary_at(eta_now()).unwrap(), "3 deployed api(@v1): ~8m 20s buffer remaining");
    b.deployment.finish_timestamp = seconds_ago(700);
    b.deployment.start_timestamp = seconds_ago(800);
    assert_eq!(b.remaining_time_at(eta_now()), Ok((None, Duration::zero())));
    assert_eq!(b.summary_at(eta_now()).unwrap(), "3 deployed api(@v1)");
}

#[test]
fn a_cancelled_blocker_is_an_error() {
    let mut b = blocker(4, "api", Some(120), 600);
    b.deployment.cancellation_timestamp = seconds_ago(1);
    assert_eq!(b.remaining_time_at(eta_now()), Err(EtaError::CancelledBlocking));
    assert_eq!(b.remaining_time(), Err(EtaError::CancelledBlocking));
    assert_eq!(b.summary_at(eta_now()), Err(EtaError::CancelledBlocking));
    assert!(matches!(eta_report(&vec![b], eta_now()), Err(EtaError::CancelledBlocking)));
}

#[test]
fn eta_adds_up_by_component_in_the_order_of_their_names() {
    let mut web = blocker(1, "web", Some(100), 10);
    web.deployment.start_timestamp = seconds_ago(40);
    let api = blocker(2, "api", Some(30), 10);
    let web2 = blocker(3, "web", Some(100), 10);
    let mut done = blocker(4, "db", None, 600);
    done.deployment.start_timestamp = seconds_ago(300);
    done.deployment.finish_timestamp = seconds_ago(200);
    let report = eta_report(&vec![web, api, web2, done], eta_now()).unwrap();
    assert_eq!(report.total_remaining, Duration::seconds(70 + 40 + 110 + 400));
    assert!(!report.has_unknown_eta);
    let names: Vec<&str> = report.component_times.iter().map(|c| c.component.as_str()).collect();
    assert_eq!(names, vec!["api", "db", "web"]);
    assert_eq!(report.component_times[0].remaining, Duration::seconds(40));
    assert_eq!(report.component_times[1].remaining, Duration::seconds(400));
    assert_eq!(report.component_times[2].remaining, Duration::seconds(180));
    assert_eq!(
        eta_lines(&report),
        vec![
            "Total ETA: ~10m 20s".to_string(),
            "  api: ~40s".to_string(),
            "  db: ~6m 40s".to_string(),
            "  web: ~3m".to_string(),
        ]
    );
}

#[test]
fn eta_without_history_is_unknown() {
    let unknown = blocker(1, "api", None, 0);
    let report = eta_report(&vec![unknown], eta_now()).unwrap();
    assert_eq!(report.total_remaining, Duration::zero());
    assert!(report.has_unknown_eta);
    assert!(report.component_times.is_empty());
    assert_eq!(eta_lines(&report), vec!["Total ETA: unknown (missing analytics data)".to_string()]);
    let empty = eta_report(&Vec::new(), eta_now()).unwrap();
    assert!(!empty.has_unknown_eta);
    assert!(eta_lines(&empty).is_empty());
}

#[test]
fn a_blocked_deployment_learns_what_keeps_it_waiting() {
    let mut store = Store::new();
    let cell = Cell {
        environment: "prod".to_string(),
        cloud_provider: "aws".to_string(),
        region: "us-east-2".to_string(),
        index: 1,
    };
    for (id, took) in [(1, 100), (2, 140)] {
        store
            .insert_row(Deployment {
                id,
                cell: cell.clone(),
                component: "api".to_string(),
                start_timestamp: seconds_ago(5000 + took),
                finish_timestamp: seconds_ago(5000),
                ..Default::default()
            })
            .unwrap();
    }
    store
        .insert_row(Deployment {
            id: 10001,
            cell: cell.clone(),
            component: "api".to_string(),
            version: Some("v2".to_string()),
            start_timestamp: seconds_ago(60),
            heartbeat_timestamp: seconds_ago(10),
            ..Default::default()
        })
        .unwrap();
    store
        .insert_row(Deployment {
            id: 10002,
            cell: cell.clone(),
            component: "auth".to_string(),
            ..Default::default()
        })
        .unwrap();
    store
        .insert_row(Deployment { id: 10003, cell, component: "user".to_string(), ..Default::default() })
        .unwrap();

    let step = wait_step(&mut store, 10003, eta_now()).unwrap();
    let report = match step {
        WaitStep::Wait(report) => report,
        WaitStep::Proceed => panic!("10003 is blocked"),
    };
    assert_eq!(report.blocking_ids, vec![10001, 10002]);
    assert_eq!(report.eta.total_remaining, Duration::seconds(60 + 600 + 600));
    assert!(!report.eta.has_unknown_eta);
    assert_eq!(
        report.summaries,
        vec![
            "10001 deploying api(@v2): ~11m remaining (includes ~10m buffer)".to_string(),
            "10002 queued auth(@unknown): unknown deployment time, ~10m buffer".to_string(),
        ]
    );
    assert_eq!(
        eta_lines(&report.eta),
        vec![
            "Total ETA: ~21m".to_string(),
            "  api: ~11m".to_string(),
            "  auth: ~10m".to_string(),
        ]
    );
    assert!(matches!(wait_step(&mut store, 10001, eta_now()).unwrap(), WaitStep::Proceed));
}

#[test]
fn a_finished_deployment_is_in_its_buffer_for_its_buffer_time() {
    let mut d = blocker(1, "api", None, 600).deployment;
    assert!(!d.is_buffering(eta_now()));
    d.start_timestamp = seconds_ago(900);
    assert!(!d.is_buffering(eta_now()));
    d.finish_timestamp = seconds_ago(600);
    assert!(d.is_buffering(eta_now()));
    d.finish_timestamp = seconds_ago(601);
    assert!(!d.is_buffering(eta_now()));
    d.finish_timestamp = seconds_ago(10);
    assert!(d.is_buffering(eta_now()));
    d.cancellation_timestamp = seconds_ago(5);
    assert!(!d.is_buffering(eta_now()));
}
