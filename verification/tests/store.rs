use horus::domain::{Container, Sample, State, Timestamp};
use horus::poller::samples_at;
use horus::store::InMemoryStore;

fn at(second: u8) -> Timestamp {
    Timestamp { year: 2024, month: 6, day: 1, hour: 12, minute: 0, second, nanosecond: 0 }
}

fn sample(id: &str, second: u8, state: State) -> Sample {
    Sample { at: at(second), container_id: id.to_string(), state }
}

#[test]
fn basics() {
    let mut store = InMemoryStore::new(5);
    assert!(store.recent("nope", 5).is_empty());
    let mut samples = Vec::new();
    for _ in 0..20 {
        samples.push(sample("nope", 7, State::Running));
    }
    store.record(&samples);
    let samples = store.recent("nope", 10);
    assert!(samples.len() == 5);
    assert!(samples.iter().map(|s| s.at).is_sorted());
}

#[test]
fn recent_returns_the_newest_first() {
    let mut store = InMemoryStore::new(3);
    let samples: Vec<Sample> = (0..5).map(|i| sample("a", i, State::Running)).collect();
    store.record(&samples);
    let got: Vec<u8> = store.recent("a", 10).iter().map(|s| s.at.second).collect();
    assert_eq!(got, vec![4, 3, 2]);
    let got: Vec<u8> = store.recent("a", 2).iter().map(|s| s.at.second).collect();
    assert_eq!(got, vec![4, 3]);
    assert!(store.recent("a", 0).is_empty());
}

#[test]
fn containers_keep_separate_histories() {
    let mut store = InMemoryStore::new(2);
    store.record(&[
        sample("a", 1, State::Running),
        sample("b", 2, State::Exited),
        sample("a", 3, State::Dead),
        sample("a", 4, State::Paused),
    ]);
    let a: Vec<u8> = store.recent("a", 10).iter().map(|s| s.at.second).collect();
    assert_eq!(a, vec![4, 3]);
    let b = store.recent("b", 10);
    assert_eq!(b.len(), 1);
    assert_eq!(b[0].state, State::Exited);
    assert_eq!(store.registered_containers(), vec!["a".to_string(), "b".to_string()]);
}

#[test]
fn a_zero_limit_still_keeps_the_newest_sample() {
    let mut store = InMemoryStore::new(0);
    store.record(&[sample("a", 1, State::Running), sample("a", 2, State::Exited)]);
    let got = store.recent("a", 5);
    assert_eq!(got.len(), 1);
    assert_eq!(got[0].at.second, 2);
}

#[test]
fn later_records_append_to_earlier_ones() {
    let mut store = InMemoryStore::new(4);
    store.record(&[sample("a", 1, State::Running), sample("a", 2, State::Running)]);
    store.record(&[sample("a", 3, State::Exited)]);
    let got: Vec<u8> = store.recent("a", 10).iter().map(|s| s.at.second).collect();
    assert_eq!(got, vec![3, 2, 1]);
    assert_eq!(store.registered_containers(), vec!["a".to_string()]);
}

#[test]
fn an_empty_store_lists_no_containers() {
    let mut store = InMemoryStore::new(3);
    assert!(store.registered_containers().is_empty());
    store.record(&[]);
    assert!(store.registered_containers().is_empty());
}

#[test]
fn after_a_round_each_container_shows_its_fresh_sample() {
    let mut store = InMemoryStore::new(3);
    store.record(&[sample("a", 1, State::Running), sample("b", 1, State::Running)]);
    let cs = vec![
        Container { id: "a".into(), name: "a".into(), image: "i".into(), state: State::Exited, status: "".into() },
        Container { id: "b".into(), name: "b".into(), image: "i".into(), state: State::Running, status: "".into() },
    ];
    let round = samples_at(at(9), &cs);
    store.record(&round);
    let a = store.recent("a", 1);
    assert_eq!(a, vec![Sample { at: at(9), container_id: "a".into(), state: State::Exited }]);
    let b = store.recent("b", 1);
    assert_eq!(b[0].at, at(9));
    assert_eq!(store.recent("a", 5).len(), 2);
}
