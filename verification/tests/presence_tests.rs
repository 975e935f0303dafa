use akane::presence::{heartbeat, Presence, PRESENCE_WINDOW_MS};

fn sorted(mut v: Vec<(String, usize)>) -> Vec<(String, usize)> {
    v.sort();
    v
}

#[test]
fn heartbeat_presence_scenario() {
    let mut p = Presence::new();
    p.heartbeat_at("V", "A", "X", 0);
    assert_eq!(p.snapshot_and_evict(20_000), vec![("V".to_string(), 1)]);
    assert_eq!(p.snapshot_and_evict(31_000), Vec::<(String, usize)>::new());
    assert_eq!(p.live_count("V", 31_000), 0);
}

#[test]
fn a_heartbeat_of_exactly_thirty_seconds_is_still_reported() {
    let mut p = Presence::new();
    p.heartbeat_at("V", "A", "X", 0);
    assert_eq!(p.snapshot_and_evict(30_000), vec![("V".to_string(), 1)]);
    assert_eq!(p.live_count("V", 30_000), 1);
    assert_eq!(p.snapshot_and_evict(30_001), Vec::<(String, usize)>::new());
    assert_eq!(p.live_count("V", 30_001), 0);
}

#[test]
fn a_viewer_is_live_until_its_heartbeat_is_older_than_thirty_seconds() {
    assert_eq!(PRESENCE_WINDOW_MS, 30_000);
    let mut p = Presence::new();
    p.heartbeat_at("V", "A", "X", 1_000);
    assert_eq!(p.live_count("V", 1_000), 1);
    assert_eq!(p.live_count("V", 30_999), 1);
    assert_eq!(p.live_count("V", 31_000), 1);
    assert_eq!(p.live_count("V", 31_001), 0);
    assert_eq!(p.live_count("V", 500), 1);
    assert_eq!(p.live_count("other", 1_000), 0);
}

#[test]
fn viewers_are_counted_by_address_and_user_agent() {
    let mut p = Presence::new();
    p.heartbeat_at("V", "A", "X", 0);
    p.heartbeat_at("V", "A", "X", 5_000);
    p.heartbeat_at("V", "A", "Y", 6_000);
    p.heartbeat_at("V", "B", "X", 7_000);
    p.heartbeat_at("W", "A", "X", 8_000);
    assert_eq!(
        sorted(p.snapshot_and_evict(10_000)),
        vec![("V".to_string(), 3), ("W".to_string(), 1)]
    );
    assert_eq!(sorted(p.snapshot_and_evict(35_500)), vec![
        ("V".to_string(), 2),
        ("W".to_string(), 1)
    ]);
    assert_eq!(sorted(p.snapshot_and_evict(36_000)), vec![
        ("V".to_string(), 2),
        ("W".to_string(), 1)
    ]);
    assert_eq!(sorted(p.snapshot_and_evict(36_500)), vec![
        ("V".to_string(), 1),
        ("W".to_string(), 1)
    ]);
    assert_eq!(sorted(p.snapshot_and_evict(38_000)), vec![("W".to_string(), 1)]);
    assert!(p.snapshot_and_evict(38_001).is_empty());
}

#[test]
fn a_heartbeat_brings_an_evicted_viewer_back() {
    let mut p = Presence::new();
    p.heartbeat_at("V", "A", "X", 0);
    assert!(p.snapshot_and_evict(40_000).is_empty());
    p.heartbeat_at("V", "A", "X", 41_000);
    assert_eq!(p.snapshot_and_evict(42_000), vec![("V".to_string(), 1)]);
}

#[test]
fn heartbeat_with_the_clock_is_live_now() {
    let mut p = Presence::new();
    heartbeat(&mut p, "V", "1.2.3.4", "UA");
    let now = akane::clock::now_millis();
    assert_eq!(p.live_count("V", now), 1);
    assert_eq!(p.snapshot_and_evict(now + 60_000).len(), 0);
}
