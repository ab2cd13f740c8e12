use deploy_queue::clock::Timestamp;
use deploy_queue::coordinator::{wait_step, WaitStep};
use deploy_queue::duration::Duration;
use deploy_queue::handler::fetch::{blocking_deployments, stale_heartbeat_deployments};
use deploy_queue::handler::{
    cancel_stale_heartbeat_deployments, enqueue_deployment, stale_note, start_deployment,
    update_heartbeat,
};
use deploy_queue::heartbeat::{give_up_message, HeartbeatAction, HeartbeatOutcome, HeartbeatWriter};
use deploy_queue::model::{Cell, Deployment, DeploymentState};
use deploy_queue::store::Store;

const MINUTE: i64 = 60_000_000;

fn beat_now() -> Timestamp {
    Timestamp::from_unix_micros(1_700_000_000_000_000).unwrap()
}

fn ago(minutes: i64) -> Timestamp {
    beat_now().shifted_by_micros(-minutes * MINUTE).unwrap()
}

fn request(component: &str) -> Deployment {
    Deployment {
        cell: Cell {
            environment: "prod".to_string(),
            cloud_provider: "aws".to_string(),
            region: "hb-region".to_string(),
            index: 1,
        },
        component: component.to_string(),
        ..Default::default()
    }
}

#[test]
fn heartbeat_loop_sets_timestamp() {
    let mut store = Store::new();
    let id = enqueue_deployment(&mut store, request("hb"), ago(30)).unwrap();
    assert!(store.get(id).unwrap().heartbeat_timestamp.is_none());
    update_heartbeat(&mut store, id, ago(29));
    assert_eq!(store.get(id).unwrap().heartbeat_timestamp, Some(ago(29)));
    update_heartbeat(&mut store, id, ago(28));
    assert_eq!(store.get(id).unwrap().heartbeat_timestamp, Some(ago(28)));
    update_heartbeat(&mut store, 999, ago(27));
    assert_eq!(store.len(), 1);
}

#[test]
fn stale_heartbeat_detection_flags_old_running_deployments() {
    let mut store = Store::new();
    let stale = enqueue_deployment(&mut store, request("stale"), ago(60)).unwrap();
    let fresh = enqueue_deployment(&mut store, request("fresh"), ago(60)).unwrap();
    let queued = enqueue_deployment(&mut store, request("queued"), ago(60)).unwrap();
    let silent = enqueue_deployment(&mut store, request("silent"), ago(60)).unwrap();
    start_deployment(&mut store, stale, ago(50)).unwrap();
    start_deployment(&mut store, fresh, ago(50)).unwrap();
    start_deployment(&mut store, silent, ago(50)).unwrap();
    update_heartbeat(&mut store, stale, ago(16));
    update_heartbeat(&mut store, fresh, ago(15));
    update_heartbeat(&mut store, queued, ago(40));

    let found = stale_heartbeat_deployments(&store, Duration::seconds(900), beat_now());
    assert_eq!(found.len(), 1);
    assert_eq!(found[0].id, stale);
    assert_eq!(found[0].component, "stale");
    assert_eq!(found[0].heartbeat_timestamp, ago(16));
    assert_eq!(found[0].time_since_heartbeat, Duration::seconds(960));
}

#[test]
fn stale_blocker_gets_cancelled_when_waiting_for_blockers() {
    let mut store = Store::new();
    let a = enqueue_deployment(&mut store, request("blocker"), ago(60)).unwrap();
    start_deployment(&mut store, a, ago(50)).unwrap();
    update_heartbeat(&mut store, a, ago(16));
    let b = enqueue_deployment(&mut store, request("waiter"), ago(1)).unwrap();
    assert_eq!(blocking_deployments(&store, b, beat_now()).unwrap().len(), 1);

    let step = wait_step(&mut store, b, beat_now()).unwrap();
    assert!(matches!(step, WaitStep::Proceed));

    let cancelled = store.get(a).unwrap();
    assert_eq!(cancelled.state(), DeploymentState::Cancelled);
    assert_eq!(cancelled.cancellation_timestamp, Some(beat_now()));
    let note = cancelled.cancellation_note.unwrap();
    assert!(note.contains(&format!("Cancelled by deployment {}", b)));
    assert_eq!(note, format!("Cancelled by deployment {} due to stale heartbeat", b));
    start_deployment(&mut store, b, beat_now()).unwrap();
    assert_eq!(store.get(b).unwrap().state(), DeploymentState::Running);
}

#[test]
fn sweep_leaves_fresh_and_queued_deployments_alone() {
    let mut store = Store::new();
    let fresh = enqueue_deployment(&mut store, request("fresh"), ago(60)).unwrap();
    start_deployment(&mut store, fresh, ago(50)).unwrap();
    update_heartbeat(&mut store, fresh, ago(15));
    let queued = enqueue_deployment(&mut store, request("queued"), ago(60)).unwrap();
    update_heartbeat(&mut store, queued, ago(45));
    let waiter = enqueue_deployment(&mut store, request("waiter"), ago(1)).unwrap();

    let swept = cancel_stale_heartbeat_deployments(&mut store, waiter, beat_now()).unwrap();
    assert_eq!(swept, 0);
    assert_eq!(store.get(fresh).unwrap().state(), DeploymentState::Running);
    assert_eq!(store.get(queued).unwrap().state(), DeploymentState::Queued);

    let later = beat_now().shifted_by_micros(1).unwrap();
    let swept = cancel_stale_heartbeat_deployments(&mut store, waiter, later).unwrap();
    assert_eq!(swept, 1);
    assert_eq!(store.get(fresh).unwrap().state(), DeploymentState::Cancelled);
    assert_eq!(cancel_stale_heartbeat_deployments(&mut store, waiter, later).unwrap(), 0);
}

#[test]
fn stale_note_names_the_canceller() {
    assert_eq!(stale_note(42), "Cancelled by deployment 42 due to stale heartbeat");
    assert_eq!(stale_note(-7), "Cancelled by deployment -7 due to stale heartbeat");
}

#[test]
fn writer_gives_up_after_three_failures_in_a_row() {
    let mut writer = HeartbeatWriter::new();
    assert_eq!(writer.record(HeartbeatOutcome::Failed), HeartbeatAction::Continue);
    assert_eq!(writer.record(HeartbeatOutcome::TimedOut), HeartbeatAction::Continue);
    assert_eq!(writer.consecutive_failures(), 2);
    assert_eq!(writer.record(HeartbeatOutcome::Written), HeartbeatAction::Continue);
    assert_eq!(writer.consecutive_failures(), 0);
    assert_eq!(writer.record(HeartbeatOutcome::Failed), HeartbeatAction::Continue);
    assert_eq!(writer.record(HeartbeatOutcome::Failed), HeartbeatAction::Continue);
    assert_eq!(writer.record(HeartbeatOutcome::TimedOut), HeartbeatAction::GiveUp);
    assert_eq!(writer.consecutive_failures(), 3);
    assert_eq!(
        give_up_message(17, writer.consecutive_failures()),
        "Heartbeat loop failed 3 times consecutively for deployment 17"
    );
}
