use deploy_queue::duration::StdDuration;
use deploy_queue::mutexbot::cli::Mode;
use deploy_queue::mutexbot::{
    calculate_wait_time, fallback_wait_time, find_resource, has_active_reservation,
    has_active_reservation_at, log_reservation_info, parse_expiration_time, reservation_message,
    wait_time_at, BotError, HttpEvent, ReservationResult, ReservationStep, ResourceListItem, State,
};
use deploy_queue::text::{contains_text, last_word};

fn resource(name: &str) -> ResourceListItem {
    ResourceListItem {
        name: name.to_string(),
        description: String::new(),
        isolated: false,
        isolation_channel_name: None,
        active_reservation: None,
        active_reservation_user_name: None,
        active_reservation_reason: None,
    }
}

fn reserved(until: &str, user: &str, reason: &str) -> ResourceListItem {
    ResourceListItem {
        active_reservation: Some(until.to_string()),
        active_reservation_user_name: Some(user.to_string()),
        active_reservation_reason: Some(reason.to_string()),
        ..resource("r")
    }
}

#[test]
fn endpoints_of_the_verbs() {
    let reserve = Mode::Reserve {
        resource_name: "db".to_string(),
        notes: "n".to_string(),
        duration: None,
    };
    assert_eq!(reserve.api_endpoint(), "https://mutexbot.com/api/resources/global/db/reserve");
    let exclusive = Mode::ReserveExclusive {
        resource_name: "db".to_string(),
        notes: "n".to_string(),
        duration: Some("1h".to_string()),
    };
    assert_eq!(exclusive.api_endpoint(), "https://mutexbot.com/api/resources/global/db/reserve");
    let release = Mode::Release { resource_name: "a b".to_string() };
    assert_eq!(release.api_endpoint(), "https://mutexbot.com/api/resources/global/a b/release");
    let force = Mode::ForceRelease { resource_name: String::new() };
    assert_eq!(force.api_endpoint(), "https://mutexbot.com/api/resources/global//force-release");
}

#[test]
fn fifteen_failures_are_borne() {
    let mut state = State::new();
    for n in 1..=15 {
        assert_eq!(state.request_failure(), Ok(()));
        assert_eq!(state.failure_count(), n);
    }
    assert_eq!(state.request_failure(), Err(BotError::RequestFailed));
    assert_eq!(state.status_code(503), Err(BotError::UnexpectedStatus(503)));
    assert_eq!(state.failure_count(), 15);
}

#[test]
fn only_server_errors_are_retried() {
    let mut state = State::new();
    assert_eq!(state.status_code(500), Ok(()));
    assert_eq!(state.status_code(599), Ok(()));
    assert_eq!(state.failure_count(), 2);
    assert_eq!(state.status_code(600), Err(BotError::UnexpectedStatus(600)));
    assert_eq!(state.status_code(499), Err(BotError::UnexpectedStatus(499)));
    assert_eq!(state.status_code(302), Err(BotError::UnexpectedStatus(302)));
    assert_eq!(state.failure_count(), 2);
}

#[test]
fn answers_to_an_attempt_to_reserve() {
    let mut state = State::new();
    assert_eq!(
        state.attempt_reservation(HttpEvent::Status(201)),
        Ok(ReservationStep::Done(ReservationResult::Success))
    );
    assert_eq!(
        state.attempt_reservation(HttpEvent::Status(409)),
        Ok(ReservationStep::Done(ReservationResult::Conflict))
    );
    assert_eq!(state.attempt_reservation(HttpEvent::Status(404)), Ok(ReservationStep::CreateMissing));
    assert_eq!(state.attempt_reservation(HttpEvent::Status(400)), Err(BotError::BadRequest));
    assert_eq!(state.attempt_reservation(HttpEvent::Status(401)), Err(BotError::Unauthorized));
    assert_eq!(state.failure_count(), 0);
    assert_eq!(
        state.attempt_reservation(HttpEvent::Status(502)),
        Ok(ReservationStep::Done(ReservationResult::Retry))
    );
    assert_eq!(
        state.attempt_reservation(HttpEvent::Failed),
        Ok(ReservationStep::Done(ReservationResult::Retry))
    );
    assert_eq!(state.failure_count(), 2);
    assert_eq!(
        state.attempt_reservation(HttpEvent::Status(418)),
        Err(BotError::UnexpectedStatus(418))
    );
}

#[test]
fn answers_to_the_other_requests() {
    let mut state = State::new();
    assert_eq!(state.fetch_resource_data(HttpEvent::Status(200)), Ok(()));
    assert_eq!(state.fetch_resource_data(HttpEvent::Status(400)), Err(BotError::BadRequest));
    assert_eq!(state.fetch_resource_data(HttpEvent::Status(401)), Err(BotError::Unauthorized));
    assert_eq!(state.fetch_resource_data(HttpEvent::Status(500)), Err(BotError::RetryNeeded));
    assert_eq!(state.fetch_resource_data(HttpEvent::Failed), Err(BotError::RetryNeeded));
    assert_eq!(state.fetch_resource_data(HttpEvent::Status(404)), Err(BotError::UnexpectedStatus(404)));
    assert_eq!(state.failure_count(), 2);

    assert_eq!(state.create_resource_if_missing(HttpEvent::Status(201)), Ok(()));
    assert_eq!(state.create_resource_if_missing(HttpEvent::Status(409)), Ok(()));
    assert_eq!(state.create_resource_if_missing(HttpEvent::Status(400)), Err(BotError::BadRequest));
    assert_eq!(state.create_resource_if_missing(HttpEvent::Status(503)), Err(BotError::RetryNeeded));
    assert_eq!(state.failure_count(), 3);

    assert_eq!(state.release(HttpEvent::Status(200)), Ok(true));
    assert_eq!(state.release(HttpEvent::Status(208)), Err(BotError::NotReserved));
    assert_eq!(state.release(HttpEvent::Status(409)), Err(BotError::ReservedBySomeoneElse));
    assert_eq!(state.release(HttpEvent::Status(404)), Err(BotError::ResourceNotFound));
    assert_eq!(state.release(HttpEvent::Status(401)), Err(BotError::Unauthorized));
    assert_eq!(state.release(HttpEvent::Status(500)), Ok(false));
    assert_eq!(state.release(HttpEvent::Failed), Ok(false));
    assert_eq!(state.failure_count(), 5);
}

#[test]
fn the_wanted_resource_is_the_first_that_fits() {
    let mut isolated = resource("db");
    isolated.isolated = true;
    isolated.isolation_channel_name = Some("team-a".to_string());
    let mut unflagged = resource("db");
    unflagged.isolation_channel_name = Some("team-b".to_string());
    let list = vec![resource("cache"), unflagged, isolated, resource("db")];
    assert_eq!(find_resource(&list, "db", &None), Some(1));
    assert_eq!(find_resource(&list, "db", &Some("team-a".to_string())), Some(2));
    assert_eq!(find_resource(&list, "db", &Some("team-b".to_string())), None);
    assert_eq!(find_resource(&list, "queue", &None), None);
}

#[test]
fn words_and_parts_of_texts() {
    assert_eq!(last_word("deploy  https://x/actions/runs/1 \t\n"), Some("https://x/actions/runs/1"));
    assert_eq!(last_word("single"), Some("single"));
    assert_eq!(last_word("a\u{3000}b\u{a0}"), Some("b"));
    assert_eq!(last_word(" \t "), None);
    assert_eq!(last_word(""), None);
    assert!(contains_text("https://x/actions/runs/1", "/actions/runs/"));
    assert!(!contains_text("https://x/actions/run/1", "/actions/runs/"));
    assert!(contains_text("abc", ""));
    assert!(contains_text("abc", "c"));
    assert!(!contains_text("ab", "abc"));
}

#[test]
fn what_is_said_of_a_reservation() {
    assert_eq!(log_reservation_info(&resource("r")).unwrap(), "No active reservation.");
    let by_run = reserved(
        "2030-01-02T03:04:05+01:00",
        "deployer",
        "Deploying in https://github.com/o/r/actions/runs/123",
    );
    assert_eq!(
        log_reservation_info(&by_run).unwrap(),
        "Existing reservation by component deployer in https://github.com/o/r/actions/runs/123. Expires at: 2030-01-02 02:04:05 UTC."
    );
    let by_hand = reserved("soon", "alice", "debugging the database");
    assert_eq!(
        log_reservation_info(&by_hand).unwrap(),
        "Existing reservation by user alice with reason \"debugging the database\"."
    );
    assert_eq!(
        reservation_message(&by_hand, Some("noon")).unwrap(),
        "Existing reservation by user alice with reason \"debugging the database\". Expires at: noon."
    );
    let blank = reserved("soon", "bob", "   ");
    assert_eq!(
        log_reservation_info(&blank).unwrap(),
        "Existing reservation by user bob with reason \"   \"."
    );
    let mut nameless = reserved("soon", "x", "y");
    nameless.active_reservation_user_name = None;
    nameless.active_reservation_reason = None;
    assert_eq!(log_reservation_info(&nameless), Err(BotError::MissingUserName));
    let mut reasonless = reserved("soon", "x", "y");
    reasonless.active_reservation_reason = None;
    assert_eq!(log_reservation_info(&reasonless), Err(BotError::MissingReason));
}

#[test]
fn the_end_of_a_reservation() {
    assert_eq!(
        parse_expiration_time(&Some("1970-01-01T00:00:10.5Z".to_string())),
        Some((10, 500_000_000))
    );
    assert_eq!(
        parse_expiration_time(&Some("2001-09-09T03:46:40+02:00".to_string())),
        Some((1_000_000_000, 0))
    );
    assert_eq!(parse_expiration_time(&Some("tomorrow".to_string())), None);
    assert_eq!(parse_expiration_time(&None), None);

    let r = reserved("1970-01-01T00:00:10Z", "u", "r");
    assert!(has_active_reservation_at(&r, 9_999_999_999));
    assert!(!has_active_reservation_at(&r, 10_000_000_000));
    assert!(!has_active_reservation(&r));
    assert!(has_active_reservation(&reserved("2999-01-01T00:00:00Z", "u", "r")));
    assert!(has_active_reservation(&reserved("not a time", "u", "r")));
    assert!(!has_active_reservation(&resource("r")));
}

#[test]
fn how_long_to_wait() {
    let second = 1_000_000_000i128;
    assert_eq!(wait_time_at(None, 0, 0), StdDuration::from_millis(1000));
    assert_eq!(wait_time_at(None, 5 * second, 333), StdDuration::from_millis(1333));
    assert_eq!(wait_time_at(Some((100, 0)), 100 * second, 7), StdDuration::from_secs(1));
    assert_eq!(wait_time_at(Some((100, 0)), 200 * second, 0), StdDuration::from_secs(1));
    assert_eq!(wait_time_at(Some((100, 5)), 40 * second, 0), StdDuration::new(60, 5).unwrap());
    assert_eq!(wait_time_at(Some((400, 0)), 100 * second, 0), StdDuration::from_secs(300));
    assert_eq!(wait_time_at(Some((400, 1)), 100 * second, 0), StdDuration::from_secs(300));
    assert_eq!(wait_time_at(Some((i64::MAX, 0)), -second, 0), StdDuration::from_secs(300));

    let unknown = calculate_wait_time(&resource("r"));
    assert_eq!(unknown.as_secs(), 1);
    assert!(unknown.subsec_nanos() <= 333_000_000);
    assert_eq!(unknown.subsec_nanos() % 1_000_000, 0);
    assert_eq!(
        calculate_wait_time(&reserved("1970-01-01T00:00:10Z", "u", "r")),
        StdDuration::from_secs(1)
    );
    assert_eq!(
        calculate_wait_time(&reserved("2999-01-01T00:00:00Z", "u", "r")),
        StdDuration::from_secs(300)
    );
    let fallback = fallback_wait_time();
    assert!(fallback.as_micros() >= 1_000_000 && fallback.as_micros() <= 5_000_000);
}
