use market_ingest::client::{
    check_status, decode_depth, decode_ticker, decode_trades, DepthSnapshot, PricePoint,
    RawOrderBook, RawTicker, RawTrade, Side, Trade, UpstreamError,
};
use market_ingest::clock::{capture_now, from_clock_reading, Timestamp, MAX_EPOCH_SECS};
use market_ingest::cycle::{decimal_into, IngestionCycle};
use market_ingest::scheduler::{CycleReport, Scheduler, SchedulerAction};
use market_ingest::sink::{escape_into, insert_command_of, insert_outcome, InsertError, Row, Table};

fn s(x: &str) -> String {
    x.to_string()
}

fn pair(p: &str, q: &str) -> Vec<String> {
    vec![s(p), s(q)]
}

fn raw_trade(id: u64, price: &str, qty: &str, time: u64) -> RawTrade {
    RawTrade { id, price: s(price), qty: s(qty), time }
}

fn at(secs: i64) -> Timestamp {
    Timestamp::from_epoch_secs(secs).unwrap()
}

/// Reads the quoted values of an insert command back the way the sink does.
fn read_back(command: &[u8]) -> Vec<Vec<u8>> {
    let start = command.iter().position(|&b| b == b'(').unwrap();
    let start = start + 1 + command[start + 1..].iter().position(|&b| b == b'(').unwrap();
    let mut i = start + 1;
    let mut values = Vec::new();
    loop {
        assert_eq!(command[i], b'\'');
        i += 1;
        let mut v = Vec::new();
        loop {
            let b = command[i];
            if b == b'\'' {
                i += 1;
                break;
            }
            if b == b'\\' {
                let c = command[i + 1];
                v.push(match c {
                    b'n' => b'\n',
                    b'r' => b'\r',
                    b't' => b'\t',
                    b'0' => 0,
                    other => other,
                });
                i += 2;
            } else {
                v.push(b);
                i += 1;
            }
        }
        values.push(v);
        if command[i] == b')' {
            assert_eq!(i + 1, command.len());
            return values;
        }
        assert_eq!(&command[i..i + 2], b", ");
        i += 2;
    }
}

#[test]
fn renders_timestamp_as_utc_datetime() {
    assert_eq!(at(1_700_000_000).render(), b"2023-11-14 22:13:20".to_vec());
    assert_eq!(at(0).render(), b"1970-01-01 00:00:00".to_vec());
    assert_eq!(at(MAX_EPOCH_SECS).render(), b"9999-12-31 23:59:59".to_vec());
}

#[test]
fn epoch_millis_truncate_to_whole_seconds() {
    let t = Timestamp::from_epoch_millis(1_700_000_000_500).unwrap();
    assert_eq!(t.secs, 1_700_000_000);
    assert_eq!(t.render(), b"2023-11-14 22:13:20".to_vec());
    assert_eq!(Timestamp::from_epoch_millis(999).unwrap().secs, 0);
    assert!(Timestamp::from_epoch_millis(u64::MAX).is_none());
}

#[test]
fn epoch_secs_out_of_range() {
    assert!(Timestamp::from_epoch_secs(-1).is_none());
    assert!(Timestamp::from_epoch_secs(MAX_EPOCH_SECS + 1).is_none());
    assert!(Timestamp::from_epoch_secs(MAX_EPOCH_SECS).is_some());
}

#[test]
fn clock_reading_to_instant() {
    assert_eq!(from_clock_reading(Some(1_700_000_000)), Some(at(1_700_000_000)));
    assert_eq!(from_clock_reading(Some(0)), Some(at(0)));
    assert_eq!(from_clock_reading(Some(MAX_EPOCH_SECS as u64)), Some(at(MAX_EPOCH_SECS)));
    assert_eq!(from_clock_reading(Some(MAX_EPOCH_SECS as u64 + 1)), None);
    assert_eq!(from_clock_reading(Some(u64::MAX)), None);
    assert_eq!(from_clock_reading(None), None);
}

#[test]
fn clock_reads_a_recent_instant() {
    let now = capture_now().unwrap();
    assert!(now.secs > 1_700_000_000);
    let cycle = IngestionCycle::begin().unwrap();
    assert!(cycle.captured_at.secs >= now.secs);
}

#[test]
fn status_must_be_2xx() {
    assert_eq!(check_status(200), Ok(()));
    assert_eq!(check_status(299), Ok(()));
    assert_eq!(check_status(199), Err(UpstreamError::Status(199)));
    assert_eq!(check_status(404), Err(UpstreamError::Status(404)));
    assert_eq!(check_status(503), Err(UpstreamError::Status(503)));
}

#[test]
fn ticker_keeps_strings_byte_for_byte() {
    let c = at(1_700_000_000);
    let body = RawTicker { symbol: s("BTCUSDT"), price: s("37000.01000000") };
    let p = decode_ticker(c, 200, Some(body)).unwrap();
    assert_eq!(p.symbol, "BTCUSDT");
    assert_eq!(p.price, "37000.01000000");
    assert_eq!(p.captured_at, c);
}

#[test]
fn ticker_failures_are_upstream_errors() {
    let c = at(1_700_000_000);
    let body = RawTicker { symbol: s("BTCUSDT"), price: s("1") };
    assert_eq!(decode_ticker(c, 500, Some(body)).unwrap_err(), UpstreamError::Status(500));
    assert_eq!(decode_ticker(c, 200, None).unwrap_err(), UpstreamError::Decode);
}

#[test]
fn depth_keeps_both_ladders_in_order() {
    let c = at(1_700_000_000);
    let body = RawOrderBook {
        last_update_id: 42,
        bids: vec![pair("100.5", "2"), pair("100.4", "3")],
        asks: vec![pair("100.6", "0.00100000")],
    };
    let d = decode_depth(c, 200, Some(body)).unwrap();
    assert_eq!(d.last_update_id, 42);
    assert_eq!(d.bids.len(), 2);
    assert_eq!(d.bids[0].price, "100.5");
    assert_eq!(d.bids[0].quantity, "2");
    assert_eq!(d.bids[1].price, "100.4");
    assert_eq!(d.bids[1].quantity, "3");
    assert_eq!(d.bids[1].side, Side::Bid);
    assert_eq!(d.asks.len(), 1);
    assert_eq!(d.asks[0].quantity, "0.00100000");
    assert_eq!(d.asks[0].side, Side::Ask);
    assert_eq!(d.asks[0].captured_at, c);
}

#[test]
fn depth_with_malformed_level_is_decode_error() {
    let c = at(1_700_000_000);
    let short = RawOrderBook { last_update_id: 1, bids: vec![vec![s("100.5")]], asks: vec![] };
    assert_eq!(decode_depth(c, 200, Some(short)).unwrap_err(), UpstreamError::Decode);
    let long = RawOrderBook {
        last_update_id: 1,
        bids: vec![],
        asks: vec![pair("1", "2"), vec![s("1"), s("2"), s("3")]],
    };
    assert_eq!(decode_depth(c, 200, Some(long)).unwrap_err(), UpstreamError::Decode);
    assert_eq!(decode_depth(c, 200, None).unwrap_err(), UpstreamError::Decode);
    let fine = RawOrderBook { last_update_id: 1, bids: vec![], asks: vec![] };
    assert_eq!(decode_depth(c, 418, Some(fine)).unwrap_err(), UpstreamError::Status(418));
}

#[test]
fn empty_ladders_decode_to_empty_snapshot() {
    let c = at(1_700_000_000);
    let body = RawOrderBook { last_update_id: 7, bids: vec![], asks: vec![] };
    let d = decode_depth(c, 200, Some(body)).unwrap();
    assert!(d.bids.is_empty() && d.asks.is_empty());
}

#[test]
fn trades_keep_order_and_truncate_time() {
    let body = vec![
        raw_trade(9, "100.1", "0.5", 1_700_000_000_500),
        raw_trade(7, "100.2", "1.25", 1_700_000_001_999),
    ];
    let ts = decode_trades(200, Some(body)).unwrap();
    assert_eq!(ts.len(), 2);
    assert_eq!(ts[0].trade_id, 9);
    assert_eq!(ts[0].price, "100.1");
    assert_eq!(ts[0].quantity, "0.5");
    assert_eq!(ts[0].traded_at.secs, 1_700_000_000);
    assert_eq!(ts[1].trade_id, 7);
    assert_eq!(ts[1].traded_at.secs, 1_700_000_001);
}

#[test]
fn trades_failures_are_upstream_errors() {
    let far = vec![raw_trade(1, "1", "1", u64::MAX)];
    assert_eq!(decode_trades(200, Some(far)).unwrap_err(), UpstreamError::Decode);
    assert_eq!(decode_trades(200, None).unwrap_err(), UpstreamError::Decode);
    assert_eq!(decode_trades(302, Some(vec![])).unwrap_err(), UpstreamError::Status(302));
    assert!(decode_trades(200, Some(vec![])).unwrap().is_empty());
}

#[test]
fn decimal_digits() {
    let mut out = Vec::new();
    decimal_into(&mut out, 0);
    assert_eq!(out, b"0".to_vec());
    let mut out = b"id=".to_vec();
    decimal_into(&mut out, 3_141_592_653);
    assert_eq!(out, b"id=3141592653".to_vec());
    let mut out = Vec::new();
    decimal_into(&mut out, u64::MAX);
    assert_eq!(out, b"18446744073709551615".to_vec());
}

#[test]
fn escapes_quote_backslash_and_control_bytes() {
    let mut out = Vec::new();
    escape_into(&mut out, b"a'b\\c\nd\re\tf\0g");
    assert_eq!(out, b"a\\'b\\\\c\\nd\\re\\tf\\0g".to_vec());
    let mut out = Vec::new();
    escape_into(&mut out, b"");
    assert!(out.is_empty());
}

#[test]
fn plain_insert_command() {
    let row = Row::new(Table::Bids, vec![b"2023-11-14 22:13:20".to_vec(), b"100.5".to_vec(), b"2".to_vec()])
        .unwrap();
    assert_eq!(
        insert_command_of(&row),
        b"INSERT INTO btc_bids (timestamp, price, quantity) VALUES ('2023-11-14 22:13:20', '100.5', '2')"
            .to_vec()
    );
}

#[test]
fn hostile_value_cannot_alter_the_statement() {
    let hostile = b"1'), ('x'); DROP TABLE btc_price; --\\".to_vec();
    let row = Row::new(Table::Price, vec![b"2023-11-14 22:13:20".to_vec(), hostile.clone()]).unwrap();
    let command = insert_command_of(&row);
    assert_eq!(
        command,
        b"INSERT INTO btc_price (timestamp, price) VALUES ('2023-11-14 22:13:20', '1\\'), (\\'x\\'); DROP TABLE btc_price; --\\\\')"
            .to_vec()
    );
    assert_eq!(read_back(&command), vec![b"2023-11-14 22:13:20".to_vec(), hostile]);
}

#[test]
fn every_byte_value_reads_back() {
    let all: Vec<u8> = (0..=255u8).collect();
    let row = Row::new(Table::Asks, vec![all.clone(), b"'".to_vec(), b"\\".to_vec()]).unwrap();
    let command = insert_command_of(&row);
    assert_eq!(read_back(&command), vec![all, b"'".to_vec(), b"\\".to_vec()]);
}

#[test]
fn row_arity_must_match_table() {
    assert!(Row::new(Table::Price, vec![b"a".to_vec()]).is_none());
    assert!(Row::new(Table::Trades, vec![b"a".to_vec(); 3]).is_none());
    assert!(Row::new(Table::Trades, vec![b"a".to_vec(); 4]).is_some());
}

#[test]
fn insert_outcome_follows_status() {
    assert_eq!(insert_outcome(200, s("")), Ok(()));
    assert_eq!(
        insert_outcome(500, s("Code: 62. Syntax error")),
        Err(InsertError::Rejected { status: 500, message: s("Code: 62. Syntax error") })
    );
    assert!(matches!(insert_outcome(404, s("")), Err(InsertError::Rejected { status: 404, .. })));
}

fn ticker(c: Timestamp) -> Result<PricePoint, UpstreamError> {
    decode_ticker(c, 200, Some(RawTicker { symbol: s("BTCUSDT"), price: s("100.55") }))
}

fn depth(c: Timestamp) -> Result<DepthSnapshot, UpstreamError> {
    decode_depth(
        c,
        200,
        Some(RawOrderBook {
            last_update_id: 1,
            bids: vec![pair("100.5", "2"), pair("100.4", "3")],
            asks: vec![pair("100.6", "1")],
        }),
    )
}

fn trades(n: u64) -> Result<Vec<Trade>, UpstreamError> {
    let raw = (0..n).map(|i| raw_trade(1000 + i, "100.5", "0.1", 1_700_000_000_500 + i * 1000)).collect();
    decode_trades(200, Some(raw))
}

#[test]
fn failed_depth_still_writes_price_and_trades() {
    let cycle = IngestionCycle { captured_at: at(1_700_000_100) };
    let rows = cycle.rows(&ticker(cycle.captured_at), &Err(UpstreamError::Transport), &trades(3));
    assert_eq!(rows.len(), 4);
    assert_eq!(rows[0].table, Table::Price);
    assert!(rows[1..].iter().all(|r| r.table == Table::Trades));
    assert!(!rows.iter().any(|r| r.table == Table::Bids || r.table == Table::Asks));
}

#[test]
fn n_trades_give_n_rows_in_source_order() {
    let cycle = IngestionCycle { captured_at: at(1_700_000_100) };
    let rows = cycle.rows(&Err(UpstreamError::Decode), &Err(UpstreamError::Status(500)), &trades(5));
    assert_eq!(rows.len(), 5);
    for (i, r) in rows.iter().enumerate() {
        assert_eq!(r.table, Table::Trades);
        assert_eq!(r.values[1], format!("{}", 1000 + i).into_bytes());
    }
    assert_eq!(rows[0].values[0], b"2023-11-14 22:13:20".to_vec());
    assert_eq!(
        insert_command_of(&rows[0]),
        b"INSERT INTO btc_trades (timestamp, id, price, amount) VALUES ('2023-11-14 22:13:20', '1000', '100.5', '0.1')"
            .to_vec()
    );
}

#[test]
fn all_fetches_failing_write_nothing() {
    let cycle = IngestionCycle { captured_at: at(1_700_000_100) };
    let rows = cycle.rows(&Err(UpstreamError::Transport), &Err(UpstreamError::Transport), &Err(UpstreamError::Transport));
    assert!(rows.is_empty());
}

#[test]
fn bid_rows_share_the_price_rows_instant() {
    let cycle = IngestionCycle { captured_at: at(1_700_000_123) };
    let rows = cycle.rows(&ticker(cycle.captured_at), &depth(cycle.captured_at), &trades(0));
    assert_eq!(rows.len(), 4);
    let bids: Vec<&Row> = rows.iter().filter(|r| r.table == Table::Bids).collect();
    assert_eq!(bids.len(), 2);
    assert_eq!(bids[0].values[1], b"100.5".to_vec());
    assert_eq!(bids[1].values[1], b"100.4".to_vec());
    assert_eq!(bids[0].values[0], rows[0].values[0]);
    assert_eq!(bids[1].values[0], rows[0].values[0]);
    assert_eq!(rows[0].values[0], b"2023-11-14 22:15:23".to_vec());
    assert_eq!(
        insert_command_of(bids[0]),
        b"INSERT INTO btc_bids (timestamp, price, quantity) VALUES ('2023-11-14 22:15:23', '100.5', '2')".to_vec()
    );
    assert_eq!(
        insert_command_of(bids[1]),
        b"INSERT INTO btc_bids (timestamp, price, quantity) VALUES ('2023-11-14 22:15:23', '100.4', '3')".to_vec()
    );
    assert_eq!(rows[3].table, Table::Asks);
    assert_eq!(
        insert_command_of(&rows[3]),
        b"INSERT INTO btc_asks (timestamp, price, quantity) VALUES ('2023-11-14 22:15:23', '100.6', '1')".to_vec()
    );
}

#[test]
fn scheduler_survives_differently_failing_cycles() {
    let mut sched = Scheduler::new(500);
    let outcomes = [(false, true, true), (true, false, true), (true, true, true)];
    for (k, (t, d, tr)) in outcomes.iter().enumerate() {
        assert_eq!(sched.next_action(), SchedulerAction::RunCycle);
        let mut report = CycleReport::new();
        report.record_fetch(*t);
        report.record_fetch(*d);
        report.record_fetch(*tr);
        report.record_write(true);
        sched.cycle_finished(report);
        assert_eq!(sched.cycles_completed, k as u64 + 1);
        assert_eq!(sched.next_action(), SchedulerAction::Sleep { millis: 500 });
        sched.slept();
    }
    assert_eq!(sched.cycles_completed, 3);
    assert_eq!(sched.cycles_with_failures, 2);
    assert_eq!(sched.next_action(), SchedulerAction::RunCycle);
}

#[test]
fn cycle_report_counts() {
    let mut r = CycleReport::new();
    r.record_fetch(true);
    r.record_fetch(false);
    r.record_write(true);
    r.record_write(true);
    r.record_write(false);
    assert_eq!(r, CycleReport { fetch_failures: 1, rows_written: 2, rows_failed: 1 });
    let mut full = CycleReport { fetch_failures: u64::MAX, rows_written: u64::MAX, rows_failed: 0 };
    full.record_fetch(false);
    full.record_write(true);
    assert_eq!(full.fetch_failures, u64::MAX);
    assert_eq!(full.rows_written, u64::MAX);
}
