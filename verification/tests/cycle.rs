use chrono::TimeZone;
use pomodoro_notifier::config::Config;
use pomodoro_notifier::cycle::{Action, Controller, Event, Fault, Phase};
use pomodoro_notifier::message_log::read_all;
use pomodoro_notifier::schedule::{CycleState, LocalInstant};
use pomodoro_notifier::transport::{SendRequest, TransportError};

fn config() -> Config {
    Config::from_settings(Some("secret".to_string()), Some("42".to_string()), None, None, None, None).unwrap()
}

fn local_time(hour: u32, minute: u32, second: u32, nanos: u32, offset: i32) -> LocalInstant {
    let zone = chrono::FixedOffset::east_opt(offset).unwrap();
    let secs = zone.with_ymd_and_hms(2024, 1, 15, hour, minute, second).unwrap().timestamp();
    LocalInstant::new(secs, nanos, offset).unwrap()
}

fn wake(hour: u32, minute: u32, second: u32, offset: i32) -> Event {
    Event::Wake { now: local_time(hour, minute, second, 0, offset), deadline_offset: offset }
}

fn sent(action: Action) -> SendRequest {
    match action {
        Action::Send(request) => request,
        other => panic!("{:?}", other),
    }
}

fn body(request: &SendRequest) -> &str {
    assert_eq!(request.form[0].0, "body");
    &request.form[0].1
}

#[test]
fn a_new_controller_rests_and_waits() {
    let controller = Controller::new();
    assert_eq!(controller.mode, CycleState::Resting);
    assert_eq!(controller.phase, Phase::Idle);
}

#[test]
fn the_first_transition_is_into_work() {
    for (working, resting) in [("25", "5"), ("1", "1"), ("4294967295", "7"), ("90", "4294967295")] {
        let config = Config::from_settings(
            Some("t".to_string()),
            Some("r".to_string()),
            Some(working.to_string()),
            Some(resting.to_string()),
            None,
            None,
        )
        .unwrap();
        let mut controller = Controller::new();
        let action = controller.step(&config, wake(10, 0, 7, 0));
        assert_eq!(controller.mode, CycleState::Working);
        assert_eq!(controller.phase, Phase::Sending);
        assert!(body(&sent(action)).starts_with("[toall]\nWorking time! ~"));
    }
}

#[test]
fn work_begun_at_seven_seconds_past_ten_ends_at_twenty_five_past() {
    let mut controller = Controller::new();
    let request = sent(controller.step(&config(), wake(10, 0, 7, 0)));
    let expected = chrono::Utc.with_ymd_and_hms(2024, 1, 15, 10, 25, 0).unwrap().timestamp();
    assert_eq!(controller.deadline, expected);
    assert!(body(&request).ends_with("~10:25"));
    assert_eq!(body(&request), "[toall]\nWorking time! ~10:25");
    assert_eq!(request.url, "https://api.chatwork.com/v2/rooms/42/messages");
    assert_eq!(request.headers[0], ("X-ChatWorkToken".to_string(), "secret".to_string()));
}

#[test]
fn the_time_in_the_message_is_local_time() {
    let mut controller = Controller::new();
    let request = sent(controller.step(&config(), wake(10, 0, 7, 32_400)));
    let expected = chrono::Utc.with_ymd_and_hms(2024, 1, 15, 1, 25, 0).unwrap().timestamp();
    assert_eq!(controller.deadline, expected);
    assert_eq!(body(&request), "[toall]\nWorking time! ~10:25");
}

#[test]
fn the_time_in_the_message_goes_by_the_offset_at_the_transition() {
    // The clock is put forward by an hour between now and the transition.
    let mut controller = Controller::new();
    let event = Event::Wake { now: local_time(1, 50, 0, 0, 3_600), deadline_offset: 7_200 };
    let request = sent(controller.step(&config(), event));
    assert_eq!(body(&request), "[toall]\nWorking time! ~03:15");
}

#[test]
fn one_turn_of_the_cycle() {
    let config = config();
    let mut controller = Controller::new();
    let request = sent(controller.step(&config, wake(10, 0, 7, 0)));
    assert_eq!(body(&request), "[toall]\nWorking time! ~10:25");
    assert_eq!(controller.phase, Phase::Sending);

    let action = controller.step(&config, Event::SendFinished(Ok("111".to_string())));
    assert!(matches!(&action, Action::AppendToLog(text) if text == "111\n"));
    assert_eq!(controller.phase, Phase::Recording);
    assert_eq!(controller.mode, CycleState::Working);

    let now = local_time(10, 0, 8, 250_000_000, 0);
    let action = controller.step(&config, Event::LogAppended { ok: true, now });
    assert!(matches!(action, Action::Sleep(1_491)));
    assert_eq!(controller.phase, Phase::Idle);
    assert_eq!(controller.mode, CycleState::Working);
}

#[test]
fn rest_follows_work_and_work_follows_rest() {
    let config = config();
    let mut controller = Controller::new();
    let mut log = String::new();
    let turns = [
        ((10, 0, 7), CycleState::Working, "[toall]\nWorking time! ~10:25", (10, 0, 9), 1_491),
        ((10, 25, 0), CycleState::Resting, "[toall]\nResting time! ~10:30", (10, 25, 1), 299),
        ((10, 30, 0), CycleState::Working, "[toall]\nWorking time! ~10:55", (10, 30, 2), 1_498),
        ((10, 55, 31), CycleState::Resting, "[toall]\nResting time! ~11:01", (10, 55, 40), 320),
    ];
    for (index, (start, mode, message, later, sleep)) in turns.into_iter().enumerate() {
        let request = sent(controller.step(&config, wake(start.0, start.1, start.2, 0)));
        assert_eq!(controller.mode, mode);
        assert_eq!(body(&request), message);
        let id = format!("id-{}", index);
        match controller.step(&config, Event::SendFinished(Ok(id))) {
            Action::AppendToLog(text) => log.push_str(&text),
            other => panic!("{:?}", other),
        }
        let now = local_time(later.0, later.1, later.2, 0, 0);
        match controller.step(&config, Event::LogAppended { ok: true, now }) {
            Action::Sleep(seconds) => assert_eq!(seconds, sleep),
            other => panic!("{:?}", other),
        }
    }
    assert_eq!(read_all(&log), vec!["id-0", "id-1", "id-2", "id-3"]);
}

#[test]
fn a_failed_send_ends_the_cycle() {
    let config = config();
    let mut controller = Controller::new();
    sent(controller.step(&config, wake(10, 0, 7, 0)));
    let error = TransportError::Failure("connection refused".to_string());
    let action = controller.step(&config, Event::SendFinished(Err(error)));
    assert!(matches!(
        &action,
        Action::Abort(Fault::SendFailed(TransportError::Failure(cause))) if cause == "connection refused"
    ));
    assert_eq!(controller.phase, Phase::Halted);
}

#[test]
fn a_failed_append_ends_the_cycle() {
    let config = config();
    let mut controller = Controller::new();
    sent(controller.step(&config, wake(10, 0, 7, 0)));
    controller.step(&config, Event::SendFinished(Ok("111".to_string())));
    let now = local_time(10, 0, 8, 0, 0);
    let action = controller.step(&config, Event::LogAppended { ok: false, now });
    assert!(matches!(action, Action::Abort(Fault::LogNotWritten)));
    assert_eq!(controller.phase, Phase::Halted);
}

#[test]
fn a_deadline_in_the_past_ends_the_cycle() {
    let config = config();
    let mut controller = Controller::new();
    sent(controller.step(&config, wake(10, 0, 7, 0)));
    controller.step(&config, Event::SendFinished(Ok("111".to_string())));
    let now = local_time(10, 25, 0, 1, 0);
    let action = controller.step(&config, Event::LogAppended { ok: true, now });
    assert!(matches!(action, Action::Abort(Fault::DeadlinePassed)));
    assert_eq!(controller.phase, Phase::Halted);
}

#[test]
fn a_deadline_that_is_just_reached_means_no_sleep() {
    let config = config();
    let mut controller = Controller::new();
    sent(controller.step(&config, wake(10, 0, 7, 0)));
    controller.step(&config, Event::SendFinished(Ok("111".to_string())));
    let now = local_time(10, 25, 0, 0, 0);
    let action = controller.step(&config, Event::LogAppended { ok: true, now });
    assert!(matches!(action, Action::Sleep(0)));
}

#[test]
fn an_event_out_of_turn_ends_the_cycle() {
    let config = config();

    let mut controller = Controller::new();
    let action = controller.step(&config, Event::SendFinished(Ok("111".to_string())));
    assert!(matches!(action, Action::Abort(Fault::OutOfTurn)));
    assert_eq!(controller.phase, Phase::Halted);
    assert_eq!(controller.mode, CycleState::Resting);

    let mut controller = Controller::new();
    let now = local_time(10, 0, 8, 0, 0);
    let action = controller.step(&config, Event::LogAppended { ok: true, now });
    assert!(matches!(action, Action::Abort(Fault::OutOfTurn)));

    let mut controller = Controller::new();
    sent(controller.step(&config, wake(10, 0, 7, 0)));
    let action = controller.step(&config, wake(10, 0, 8, 0));
    assert!(matches!(action, Action::Abort(Fault::OutOfTurn)));
    assert_eq!(controller.mode, CycleState::Working);
}

#[test]
fn a_halted_controller_stays_halted() {
    let config = config();
    let mut controller = Controller::new();
    controller.step(&config, Event::SendFinished(Ok("111".to_string())));
    for _ in 0..3 {
        let action = controller.step(&config, wake(10, 0, 7, 0));
        assert!(matches!(action, Action::Abort(Fault::OutOfTurn)));
        assert_eq!(controller.phase, Phase::Halted);
    }
}

#[test]
fn the_templates_of_the_configuration_are_used() {
    let config = Config::from_settings(
        Some("t".to_string()),
        Some("r".to_string()),
        Some("50".to_string()),
        Some("10".to_string()),
        Some("%time% まで作業 (%time%)".to_string()),
        Some("休憩".to_string()),
    )
    .unwrap();
    let mut controller = Controller::new();
    let request = sent(controller.step(&config, wake(23, 30, 29, 0)));
    assert_eq!(body(&request), "[toall]\n00:20 まで作業 (00:20)");
    controller.step(&config, Event::SendFinished(Ok("1".to_string())));
    controller.step(&config, Event::LogAppended { ok: true, now: local_time(23, 30, 30, 0, 0) });
    let request = sent(controller.step(&config, wake(23, 30, 30, 0)));
    assert_eq!(body(&request), "[toall]\n休憩");
    assert_eq!(controller.mode, CycleState::Resting);
}

#[test]
fn waking_by_the_clock_of_the_machine() {
    let config = config();
    let mut controller = Controller::new();
    let before = chrono::Utc::now().timestamp();
    let event = controller.wake_event(&config).expect("a transition within the calendar");
    let after = chrono::Utc::now().timestamp();
    let (now, deadline_offset) = match &event {
        Event::Wake { now, deadline_offset } => (*now, *deadline_offset),
        other => panic!("{:?}", other),
    };
    assert!(before <= now.seconds() && now.seconds() <= after);
    let deadline = now.transition_time(25);
    let zoned = chrono::Local.timestamp_opt(deadline, 0).unwrap();
    assert_eq!(deadline_offset, zoned.offset().local_minus_utc());

    let request = sent(controller.step(&config, event));
    assert_eq!(controller.deadline, deadline);
    let expected = format!("[toall]\nWorking time! ~{}", zoned.format("%H:%M"));
    assert_eq!(body(&request), expected);
}

#[test]
fn waking_looks_at_the_interval_that_begins() {
    let config = Config::from_settings(
        Some("t".to_string()),
        Some("r".to_string()),
        Some("4294967295".to_string()),
        Some("1".to_string()),
        None,
        None,
    )
    .unwrap();
    // The first interval is a working one of some 8000 years: still within the calendar.
    let controller = Controller::new();
    match controller.wake_event(&config) {
        Ok(Event::Wake { now, deadline_offset }) => {
            let deadline = now.transition_time(u32::MAX);
            let zoned = chrono::Local.timestamp_opt(deadline, 0).unwrap();
            assert_eq!(deadline_offset, zoned.offset().local_minus_utc());
        }
        other => panic!("{:?}", other),
    }
}

#[test]
fn reporting_an_append_reads_the_clock() {
    let before = chrono::Utc::now().timestamp();
    let event = Controller::appended_event(true);
    let after = chrono::Utc::now().timestamp();
    match event {
        Event::LogAppended { ok, now } => {
            assert!(ok);
            assert!(before <= now.seconds() && now.seconds() <= after);
        }
        other => panic!("{:?}", other),
    }
    assert!(matches!(Controller::appended_event(false), Event::LogAppended { ok: false, .. }));
}
