use std::sync::Arc;

use market_pulse::error::DataError;
use market_pulse::scheduler::{
    HeartbeatScheduler, Phase, SchedulerAction, SchedulerEvent, HEARTBEAT_INTERVAL_SECS,
};
use market_pulse::snapshot::MarketSnapshot;
use market_pulse::store::{get_latest, get_latest_snapshot, SnapshotStore};

fn snap(price: f64, ts: i64) -> MarketSnapshot {
    MarketSnapshot::new(
        "AAPL".to_string(),
        price.to_bits(),
        (price / 10.0).to_bits(),
        (price / 20.0).to_bits(),
        (price / 20.0).to_bits(),
        ts,
    )
}

#[test]
fn store_starts_absent() {
    let store = SnapshotStore::new();
    assert!(store.read().is_none());
    assert!(get_latest(&store).is_none());
    assert!(matches!(get_latest_snapshot(&store), Ok(None)));
}

#[test]
fn store_returns_last_write_whole() {
    let mut store = SnapshotStore::new();
    store.write(snap(100.0, 1));
    store.write(snap(200.0, 2));
    let s = get_latest(&store).unwrap();
    assert_eq!(s.price, 200.0f64.to_bits());
    assert_eq!(s.macd, 20.0f64.to_bits());
    assert_eq!(s.signal, 10.0f64.to_bits());
    assert_eq!(s.ts, 2);
    match get_latest_snapshot(&store) {
        Ok(Some(s)) => assert_eq!(s.ts, 2),
        other => panic!("unexpected {:?}", other),
    }
}

#[test]
fn heartbeat_stores_and_publishes_success() {
    let mut store = SnapshotStore::new();
    let mut hb = HeartbeatScheduler::new("AAPL".to_string(), HEARTBEAT_INTERVAL_SECS);
    assert_eq!(hb.phase, Phase::Idle);
    match hb.handle(&mut store, SchedulerEvent::TimerElapsed) {
        SchedulerAction::Fetch(sym) => assert_eq!(sym, "AAPL"),
        other => panic!("unexpected {:?}", other),
    }
    assert_eq!(hb.phase, Phase::Fetching);
    assert!(get_latest(&store).is_none());
    match hb.handle(&mut store, SchedulerEvent::FetchFinished(Ok(snap(150.0, 5)))) {
        SchedulerAction::PublishAndWait(s, secs) => {
            assert_eq!(s.ts, 5);
            assert_eq!(secs, 10);
        }
        other => panic!("unexpected {:?}", other),
    }
    assert_eq!(hb.phase, Phase::Idle);
    assert_eq!(get_latest(&store).unwrap().ts, 5);
}

#[test]
fn heartbeat_failure_keeps_stale_value() {
    let mut store = SnapshotStore::new();
    let mut hb = HeartbeatScheduler::new("MSFT".to_string(), 10);
    hb.handle(&mut store, SchedulerEvent::TimerElapsed);
    hb.handle(&mut store, SchedulerEvent::FetchFinished(Ok(snap(1.0, 1))));
    hb.handle(&mut store, SchedulerEvent::TimerElapsed);
    match hb.handle(
        &mut store,
        SchedulerEvent::FetchFinished(Err(DataError::Network("down".to_string()))),
    ) {
        SchedulerAction::Wait(secs) => assert_eq!(secs, 10),
        other => panic!("unexpected {:?}", other),
    }
    assert_eq!(get_latest(&store).unwrap().ts, 1);
}

#[test]
fn heartbeat_failure_before_any_success_stays_absent() {
    let mut store = SnapshotStore::new();
    let mut hb = HeartbeatScheduler::new("AAPL".to_string(), 10);
    hb.handle(&mut store, SchedulerEvent::TimerElapsed);
    hb.handle(
        &mut store,
        SchedulerEvent::FetchFinished(Err(DataError::Unknown("x".to_string()))),
    );
    assert!(get_latest(&store).is_none());
}

#[test]
fn heartbeat_ignores_out_of_phase_events() {
    let mut store = SnapshotStore::new();
    let mut hb = HeartbeatScheduler::new("AAPL".to_string(), 10);
    assert!(matches!(
        hb.handle(&mut store, SchedulerEvent::FetchFinished(Ok(snap(1.0, 1)))),
        SchedulerAction::Ignore
    ));
    assert!(get_latest(&store).is_none());
    hb.handle(&mut store, SchedulerEvent::TimerElapsed);
    assert!(matches!(
        hb.handle(&mut store, SchedulerEvent::TimerElapsed),
        SchedulerAction::Ignore
    ));
    assert_eq!(hb.phase, Phase::Fetching);
}

#[test]
fn heartbeat_stops_on_shutdown() {
    let mut store = SnapshotStore::new();
    let mut hb = HeartbeatScheduler::new("AAPL".to_string(), 10);
    hb.handle(&mut store, SchedulerEvent::TimerElapsed);
    assert!(matches!(
        hb.handle(&mut store, SchedulerEvent::ShutdownRequested),
        SchedulerAction::Stop
    ));
    assert_eq!(hb.phase, Phase::Stopped);
    assert!(matches!(
        hb.handle(&mut store, SchedulerEvent::FetchFinished(Ok(snap(1.0, 1)))),
        SchedulerAction::Stop
    ));
    assert!(get_latest(&store).is_none());
    assert!(matches!(hb.handle(&mut store, SchedulerEvent::TimerElapsed), SchedulerAction::Stop));
}

#[test]
fn concurrent_readers_during_write_see_whole_values() {
    let rt = tokio::runtime::Builder::new_multi_thread()
        .worker_threads(2)
        .enable_all()
        .build()
        .unwrap();
    rt.block_on(async {
        let shared = Arc::new(tokio::sync::RwLock::new(SnapshotStore::new()));
        let mut guard = shared.write().await;
        let mut readers = Vec::new();
        for _ in 0..2 {
            let s = Arc::clone(&shared);
            readers.push(tokio::spawn(async move {
                let store = s.read().await;
                get_latest_snapshot(&store)
            }));
        }
        tokio::task::yield_now().await;
        guard.write(snap(123.0, 42));
        drop(guard);
        for r in readers {
            match r.await.unwrap() {
                Ok(Some(s)) => {
                    assert_eq!(s.price, 123.0f64.to_bits());
                    assert_eq!(s.macd, 12.3f64.to_bits());
                    assert_eq!(s.signal, 6.15f64.to_bits());
                    assert_eq!(s.hist, 6.15f64.to_bits());
                    assert_eq!(s.ts, 42);
                }
                Ok(None) => {}
                Err(e) => panic!("read failed: {}", e),
            }
        }
    });
}
