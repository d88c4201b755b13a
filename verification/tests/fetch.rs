use merco::decimal::Decimal;
use merco::models::Candle;
use merco::services::CandleStore;
use merco::tasks::fetch_candles::{
    progress_pct, resume_since, run_fetch, FetchError, FetchRun,
};
use merco::timeframe::Timeframe;

fn bar(ts: i64) -> Candle {
    Candle {
        timestamp: ts,
        exchange: "X".to_string(),
        symbol: "Y/Z".to_string(),
        timeframe: Timeframe::M1,
        open: Decimal::from_int(100),
        high: Decimal::from_int(100),
        low: Decimal::from_int(100),
        close: Decimal::from_int(100),
        volume: Decimal::from_int(1),
    }
}

const M: i64 = 60_000;

#[test]
fn fetch_from_empty_store() {
    // source offers bars at t0, t0+1m, t0+2m; now is t0+2m30s
    let t0: i64 = 1_700_000_000_000;
    let source = vec![bar(t0), bar(t0 + M), bar(t0 + 2 * M)];
    let mut store = CandleStore::new();
    let records = run_fetch(&mut store, &source, Timeframe::M1, t0 + 2 * M + 30_000, 500)
        .unwrap();
    assert_eq!(records, 3);
    assert_eq!(store.len(), 3);
    let ts: Vec<i64> = store.all().iter().map(|c| c.timestamp).collect();
    assert_eq!(ts, vec![t0, t0 + M, t0 + 2 * M]);
}

#[test]
fn fetch_resumes_past_latest_stored_bar() {
    // the store already holds bars up to t0+4m; the source offers two
    // more; the resumed fetch inserts exactly those two
    let t0: i64 = 1_700_000_000_000;
    let mut store = CandleStore::new();
    store.insert_many((0..5).map(|i| bar(t0 + i * M)).collect());
    assert_eq!(store.len(), 5);
    let source: Vec<Candle> = (0..7).map(|i| bar(t0 + i * M)).collect();
    let records = run_fetch(&mut store, &source, Timeframe::M1, t0 + 7 * M, 500).unwrap();
    assert_eq!(records, 2);
    assert_eq!(store.len(), 7);
    let ts: Vec<i64> = store.all().iter().map(|c| c.timestamp).collect();
    let expect: Vec<i64> = (0..7).map(|i| t0 + i * M).collect();
    assert_eq!(ts, expect);
}

#[test]
fn fetch_twice_stores_the_same_set() {
    let t0: i64 = 1_700_000_000_000;
    let source: Vec<Candle> = (0..4).map(|i| bar(t0 + i * M)).collect();
    let mut store = CandleStore::new();
    run_fetch(&mut store, &source, Timeframe::M1, t0 + 10 * M, 2).unwrap();
    let after_one: Vec<i64> = store.all().iter().map(|c| c.timestamp).collect();
    run_fetch(&mut store, &source, Timeframe::M1, t0 + 10 * M, 2).unwrap();
    let after_two: Vec<i64> = store.all().iter().map(|c| c.timestamp).collect();
    assert_eq!(after_one, after_two);
    assert_eq!(after_one.len(), 4);
}

#[test]
fn fetch_makes_progress_on_single_bar_pages() {
    let t0: i64 = 1_700_000_000_000;
    let source: Vec<Candle> = (0..3).map(|i| bar(t0 + i * M)).collect();
    let mut store = CandleStore::new();
    run_fetch(&mut store, &source, Timeframe::M1, t0 + 3 * M, 1).unwrap();
    assert_eq!(store.len(), 3);
}

#[test]
fn fetch_with_no_data_fails() {
    let mut store = CandleStore::new();
    let e = run_fetch(&mut store, &Vec::new(), Timeframe::M1, 0, 500).unwrap_err();
    assert_eq!(e, FetchError::NoData);
    assert_eq!(e.message(), "No candles data available");
}

#[test]
fn fetch_caught_up_store_inserts_nothing() {
    // the newest stored bar is the newest the source has: resumption
    // lands in the future and nothing is fetched
    let t0: i64 = 1_700_000_000_000;
    let mut store = CandleStore::new();
    store.insert_many(vec![bar(t0)]);
    let source = vec![bar(t0)];
    let records = run_fetch(&mut store, &source, Timeframe::M1, t0 + 30_000, 500).unwrap();
    assert_eq!(records, 0);
    assert_eq!(store.len(), 1);
}

#[test]
fn resume_since_prefers_stored_bars() {
    assert_eq!(resume_since(Some(1000), Some(0), 60_000), Ok(61_000));
    assert_eq!(resume_since(None, Some(500), 60_000), Ok(500));
    assert_eq!(resume_since(None, None, 60_000), Err(FetchError::NoData));
    assert_eq!(resume_since(Some(i64::MAX), None, 60_000), Err(FetchError::Overflow));
}

#[test]
fn progress_is_monotone_and_bounded() {
    let mut last = 0u8;
    for count in 0..=12u64 {
        let p = progress_pct(count, 10);
        assert!(p >= last);
        assert!(p <= 100);
        last = p;
    }
    assert_eq!(progress_pct(0, 10), 0);
    assert_eq!(progress_pct(5, 10), 50);
    assert_eq!(progress_pct(10, 10), 100);
    // more pieces than estimated still reads 100, never beyond
    assert_eq!(progress_pct(12, 10), 100);
    // a zero denominator means there was nothing to do
    assert_eq!(progress_pct(0, 0), 100);
}

#[test]
fn fetch_run_stops_when_the_source_does_not_advance() {
    let mut run = FetchRun::start(1_000_000, 2_000_000, 60_000);
    assert!(!run.done);
    // a page whose last bar does not move the resumption point
    // forward ends the run without storing
    let insert = run.on_page(3, 1_000_000 - 60_000);
    assert!(!insert);
    assert!(run.done);
}

#[test]
fn store_deduplicates_on_timestamp() {
    let t0: i64 = 1_700_000_000_000;
    let mut store = CandleStore::new();
    store.insert_many(vec![bar(t0), bar(t0 + M)]);
    store.insert_many(vec![bar(t0 + M), bar(t0 + 2 * M)]);
    assert_eq!(store.len(), 3);
    let ts: Vec<i64> = store.all().iter().map(|c| c.timestamp).collect();
    assert_eq!(ts, vec![t0, t0 + M, t0 + 2 * M]);
}

#[test]
fn store_range_filters_inclusively() {
    let t0: i64 = 1_700_000_000_000;
    let mut store = CandleStore::new();
    store.insert_many((0..5).map(|i| bar(t0 + i * M)).collect());
    let mid = store.range(Some(t0 + M), Some(t0 + 3 * M));
    let ts: Vec<i64> = mid.iter().map(|c| c.timestamp).collect();
    assert_eq!(ts, vec![t0 + M, t0 + 2 * M, t0 + 3 * M]);
    assert_eq!(store.range(None, None).len(), 5);
}

#[test]
fn store_latest_is_the_newest_bar() {
    let t0: i64 = 1_700_000_000_000;
    let mut store = CandleStore::new();
    assert!(store.latest().is_none());
    store.insert_many(vec![bar(t0 + M), bar(t0)]);
    assert_eq!(store.latest().unwrap().timestamp, t0 + M);
}
