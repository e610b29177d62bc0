use remo_e_exporter::gate::CacheGate;

#[test]
fn first_scrape_always_refreshes() {
    for now in [0u64, 1, 29, 30, 31, u64::MAX] {
        let gate = CacheGate::new(30);
        assert_eq!(gate.last, None);
        assert_eq!(gate.window, 30);
        assert!(gate.should_refresh(now));
        let mut gate = gate;
        assert!(gate.poll(now));
        assert_eq!(gate.last, Some(now));
    }
}

#[test]
fn scrape_within_the_window_does_not_refresh() {
    let mut gate = CacheGate::new(30);
    assert!(gate.poll(1000));
    for later in 0..30u64 {
        assert!(!gate.should_refresh(1000 + later));
        assert!(!gate.poll(1000 + later));
        assert_eq!(gate.last, Some(1000));
    }
}

#[test]
fn scrape_after_the_window_refreshes_once() {
    for later in [30u64, 31, 59, 60, 1_000_000] {
        let mut gate = CacheGate::new(30);
        assert!(gate.poll(1000));
        assert!(gate.should_refresh(1000 + later));
        assert!(gate.poll(1000 + later));
        assert_eq!(gate.last, Some(1000 + later));
        assert!(!gate.poll(1000 + later));
        assert_eq!(gate.last, Some(1000 + later));
    }
}

#[test]
fn simultaneous_scrapes_fetch_once() {
    let mut gate = CacheGate::new(30);
    let fetches = (0..100).filter(|_| gate.poll(5000)).count();
    assert_eq!(fetches, 1);
    let fetches = (0..100).filter(|_| gate.poll(5030)).count();
    assert_eq!(fetches, 1);
    assert_eq!(gate.last, Some(5030));
}

#[test]
fn should_refresh_changes_nothing() {
    let gate = CacheGate::new(30);
    assert!(gate.should_refresh(10));
    assert!(gate.should_refresh(10));
    assert_eq!(gate, CacheGate { last: None, window: 30 });
}

#[test]
fn mark_refreshed_stamps_the_time() {
    let mut gate = CacheGate::new(30);
    gate.mark_refreshed(77);
    assert_eq!(gate, CacheGate { last: Some(77), window: 30 });
    assert!(!gate.should_refresh(106));
    assert!(gate.should_refresh(107));
    gate.mark_refreshed(107);
    assert_eq!(gate.last, Some(107));
}

#[test]
fn clock_that_went_back_counts_as_no_time_passed() {
    let mut gate = CacheGate::new(30);
    gate.mark_refreshed(1000);
    assert!(!gate.should_refresh(999));
    assert!(!gate.should_refresh(0));
    assert!(!gate.poll(0));
    assert_eq!(gate.last, Some(1000));
}

#[test]
fn empty_window_refreshes_every_scrape() {
    let mut gate = CacheGate::new(0);
    assert!(gate.poll(5));
    assert!(gate.poll(5));
    assert!(gate.poll(4));
    assert!(gate.should_refresh(4));
}

#[test]
fn widest_window_and_latest_time() {
    let mut gate = CacheGate::new(u64::MAX);
    assert!(gate.poll(0));
    assert!(!gate.poll(u64::MAX - 1));
    assert!(gate.poll(u64::MAX));
    assert!(!gate.poll(u64::MAX));
}
