use horus::domain::{Container, Sample, State, Timestamp};

#[test]
fn known_states_parse_case_insensitively() {
    assert_eq!(State::from("Running"), State::Running);
    assert_eq!(State::from("EXITED"), State::Exited);
}

#[test]
fn unknown_states_are_preserved_verbatim() {
    assert_eq!(State::from("stopping"), State::Other("stopping".into()));
    assert_eq!(State::from("stopping").to_string(), "stopping");
}

#[test]
fn only_running_counts_as_running() {
    assert!(State::Running.is_running());
    assert!(!State::Restarting.is_running());
    assert!(!State::Other("running-ish".into()).is_running());
}

#[test]
fn every_modelled_state_parses_from_its_name() {
    let all = [
        State::Created,
        State::Running,
        State::Paused,
        State::Restarting,
        State::Exited,
        State::Dead,
    ];
    for s in all {
        assert_eq!(State::from(s.as_str()), s);
    }
}

#[test]
fn unknown_states_are_lower_cased() {
    let s = State::from("Stopping");
    assert_eq!(s, State::Other("stopping".into()));
    assert_eq!(s.as_str(), "stopping");
    assert_eq!(State::from("DeAd"), State::Dead);
    assert_eq!(State::from(""), State::Other(String::new()));
}

#[test]
fn parsing_ignores_case_on_a_mixed_text() {
    assert_eq!(State::from("PaUsEd"), State::from("paused"));
    assert_eq!(State::from("ReStArTiNg"), State::Restarting);
}

#[test]
fn non_ascii_letters_are_kept_as_they_are() {
    assert_eq!(State::from("ÉTAT"), State::Other("État".into()));
}

#[test]
fn sample_copies_the_container() {
    let c = Container {
        id: "abc".into(),
        name: "memos".into(),
        image: "img".into(),
        state: State::Paused,
        status: "Paused".into(),
    };
    let at = Timestamp { year: 2024, month: 5, day: 1, hour: 2, minute: 3, second: 4, nanosecond: 5 };
    let s = Sample::new(at, &c);
    assert_eq!(s.at, at);
    assert_eq!(s.container_id, "abc");
    assert_eq!(s.state, State::Paused);
}

#[test]
fn timestamps_order_chronologically() {
    let a = Timestamp { year: 2023, month: 12, day: 31, hour: 23, minute: 59, second: 59, nanosecond: 999 };
    let b = Timestamp { year: 2024, month: 1, day: 1, hour: 0, minute: 0, second: 0, nanosecond: 0 };
    assert!(a < b);
}
