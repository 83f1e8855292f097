use horus::domain::{Container, Sample, State, Timestamp};
use horus::poller::samples_at;
use horus::web::{history_strip, Bar, Page, Row, BAR_PITCH, HISTORY_BARS};

fn sample(year: i32, second: u8, state: State) -> Sample {
    Sample {
        at: Timestamp { year, month: 3, day: 9, hour: 7, minute: 5, second, nanosecond: 123 },
        container_id: "c".into(),
        state,
    }
}

#[test]
fn a_bar_shows_the_instant_and_the_state() {
    let b = Bar::new(&sample(2024, 4, State::Running));
    assert!(b.up);
    assert_eq!(b.label, "2024-03-09 07:05:04 UTC — running");
    let b = Bar::new(&sample(2024, 4, State::Other("stopping".into())));
    assert!(!b.up);
    assert_eq!(b.label, "2024-03-09 07:05:04 UTC — stopping");
}

#[test]
fn years_are_zero_padded_to_four_places_sign_included() {
    assert_eq!(Bar::new(&sample(7, 0, State::Dead)).label, "0007-03-09 07:05:00 UTC — dead");
    assert_eq!(Bar::new(&sample(-5, 0, State::Dead)).label, "-005-03-09 07:05:00 UTC — dead");
    assert_eq!(Bar::new(&sample(12345, 0, State::Dead)).label, "12345-03-09 07:05:00 UTC — dead");
    assert_eq!(
        Bar::new(&sample(-5, 0, State::Dead)).label,
        format!("{:04}-03-09 07:05:00 UTC — dead", -5)
    );
}

#[test]
fn the_strip_reads_oldest_first() {
    let newest_first = vec![sample(2024, 3, State::Exited), sample(2024, 2, State::Running), sample(2024, 1, State::Running)];
    let bars = history_strip(&newest_first);
    let ups: Vec<bool> = bars.iter().map(|b| b.up).collect();
    assert_eq!(ups, vec![true, true, false]);
    assert!(bars[0].label.starts_with("2024-03-09 07:05:01"));
    assert!(bars[2].label.starts_with("2024-03-09 07:05:03"));
}

#[test]
fn the_page_has_a_fixed_strip_width() {
    let c = Container { id: "c".into(), name: "n".into(), image: "i".into(), state: State::Running, status: "Up".into() };
    let row = Row::new(c, &vec![sample(2024, 1, State::Running)]);
    assert_eq!(row.history.len(), 1);
    let page = Page::new(vec![row]);
    assert_eq!(page.strip_width, HISTORY_BARS * BAR_PITCH);
    assert_eq!(page.strip_width, 420);
    assert_eq!(page.bar_width, 5);
    assert_eq!(page.bar_gap, 2);
}

#[test]
fn a_round_samples_every_container_at_one_instant() {
    let at = Timestamp { year: 2024, month: 1, day: 2, hour: 3, minute: 4, second: 5, nanosecond: 6 };
    let cs = vec![
        Container { id: "a".into(), name: "a".into(), image: "i".into(), state: State::Running, status: "".into() },
        Container { id: "b".into(), name: "b".into(), image: "i".into(), state: State::Dead, status: "".into() },
    ];
    let samples = samples_at(at, &cs);
    assert_eq!(samples.len(), 2);
    assert_eq!(samples[0].container_id, "a");
    assert_eq!(samples[1].state, State::Dead);
    assert!(samples.iter().all(|s| s.at == at));
}
