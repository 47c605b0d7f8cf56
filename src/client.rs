use vstd::prelude::*;
use crate::clock::{Timestamp, MAX_EPOCH_SECS};

verus! {

/// Why an observation could not be had from the market-data API.
#[derive(Clone, Copy, Debug, PartialEq, Eq, Structural)]
pub enum UpstreamError {
    /// The request did not complete (connection, timeout).
    Transport,
    /// The API answered with a status outside 2xx.
    Status(u16),
    /// The body does not have the documented shape.
    Decode,
}

/// The ticker body `{symbol, price}`, as read from JSON.
#[derive(Clone, Debug)]
pub struct RawTicker {
    pub symbol: String,
    pub price: String,
}

/// The depth body `{lastUpdateId, bids, asks}`, as read from JSON; each level
/// should be a `[price, quantity]` pair.
#[derive(Clone, Debug)]
pub struct RawOrderBook {
    pub last_update_id: u64,
    pub bids: Vec<Vec<String>>,
    pub asks: Vec<Vec<String>>,
}

/// One element `{id, price, qty, time}` of the trades body, as read from JSON.
#[derive(Clone, Debug)]
pub struct RawTrade {
    pub id: u64,
    pub price: String,
    pub qty: String,
    pub time: u64,
}

/// The current price of the pair.
#[derive(Clone, Debug)]
pub struct PricePoint {
    pub captured_at: Timestamp,
    pub symbol: String,
    pub price: String,
}

#[derive(Clone, Copy, Debug, PartialEq, Eq, Structural)]
pub enum Side {
    Bid,
    Ask,
}

/// One level of the order book ladder.
#[derive(Clone, Debug)]
pub struct DepthLevel {
    pub captured_at: Timestamp,
    pub side: Side,
    pub price: String,
    pub quantity: String,
}

/// Both ladders of one depth fetch, each ordered best to worst price.
#[derive(Clone, Debug)]
pub struct DepthSnapshot {
    pub last_update_id: u64,
    pub bids: Vec<DepthLevel>,
    pub asks: Vec<DepthLevel>,
}

/// One executed trade.
#[derive(Clone, Debug)]
pub struct Trade {
    pub trade_id: u64,
    pub price: String,
    pub quantity: String,
    pub traded_at: Timestamp,
}

pub open spec fn is_success(status: u16) -> bool {
    200 <= status < 300
}

/// Every level of a raw ladder is a pair.
pub open spec fn ladder_well_shaped(raw: Seq<Vec<String>>) -> bool {
    forall|i: int| 0 <= i < raw.len() ==> (#[trigger] raw[i])@.len() == 2
}

pub open spec fn level_of(captured_at: Timestamp, side: Side, pair: Vec<String>) -> DepthLevel {
    DepthLevel { captured_at, side, price: pair@[0], quantity: pair@[1] }
}

/// The decoded ladder holds one level per raw pair, in the same order, strings unchanged.
pub open spec fn ladder_of(
    levels: Seq<DepthLevel>,
    captured_at: Timestamp,
    side: Side,
    raw: Seq<Vec<String>>,
) -> bool {
    &&& levels.len() == raw.len()
    &&& forall|i: int| 0 <= i < raw.len() ==> #[trigger] levels[i] == level_of(captured_at, side, raw[i])
}

/// Every trade time, truncated to the second, is a well-formed instant.
pub open spec fn trade_times_in_range(raw: Seq<RawTrade>) -> bool {
    forall|i: int| 0 <= i < raw.len() ==> (#[trigger] raw[i]).time / 1000 <= MAX_EPOCH_SECS
}

pub open spec fn trade_of(raw: RawTrade) -> Trade {
    Trade {
        trade_id: raw.id,
        price: raw.price,
        quantity: raw.qty,
        traded_at: Timestamp { secs: (raw.time / 1000) as i64 },
    }
}

pub open spec fn trades_of(trades: Seq<Trade>, raw: Seq<RawTrade>) -> bool {
    &&& trades.len() == raw.len()
    &&& forall|i: int| 0 <= i < raw.len() ==> #[trigger] trades[i] == trade_of(raw[i])
}

/// Success iff the status is 2xx.
pub fn check_status(status: u16) -> (r: Result<(), UpstreamError>)
    ensures
        is_success(status) ==> r is Ok,
        !is_success(status) ==> r == Err::<(), UpstreamError>(UpstreamError::Status(status)),
{
    if 200 <= status && status < 300 {
        Ok(())
    } else {
        Err(UpstreamError::Status(status))
    }
}

/// The price point of a ticker response: its status and its body, `None` where
/// the body is not JSON of the ticker's shape.
pub fn decode_ticker(
    captured_at: Timestamp,
    status: u16,
    body: Option<RawTicker>,
) -> (r: Result<PricePoint, UpstreamError>)
    ensures
        !is_success(status) ==> r == Err::<PricePoint, UpstreamError>(UpstreamError::Status(status)),
        is_success(status) && body is None ==> r == Err::<PricePoint, UpstreamError>(
            UpstreamError::Decode,
        ),
        is_success(status) && body is Some ==> r == Ok::<PricePoint, UpstreamError>(
            PricePoint { captured_at, symbol: body->0.symbol, price: body->0.price },
        ),
{
    match check_status(status) {
        Err(e) => Err(e),
        Ok(()) => match body {
            None => Err(UpstreamError::Decode),
            Some(b) => Ok(PricePoint { captured_at, symbol: b.symbol, price: b.price }),
        },
    }
}

fn ladder_from(
    captured_at: Timestamp,
    side: Side,
    raw: &Vec<Vec<String>>,
) -> (r: Option<Vec<DepthLevel>>)
    ensures
        r is Some <==> ladder_well_shaped(raw@),
        r matches Some(levels) ==> ladder_of(levels@, captured_at, side, raw@),
{
    let mut levels: Vec<DepthLevel> = Vec::new();
    let mut i: usize = 0;
    while i < raw.len()
        invariant
            0 <= i <= raw@.len(),
            ladder_well_shaped(raw@.take(i as int)),
            ladder_of(levels@, captured_at, side, raw@.take(i as int)),
        decreases raw@.len() - i,
    {
        let pair = &raw[i];
        if pair.len() != 2 {
            assert(!ladder_well_shaped(raw@)) by {
                assert(raw@[i as int]@.len() != 2);
            }
            return None;
        }
        levels.push(
            DepthLevel {
                captured_at,
                side,
                price: pair[0].clone(),
                quantity: pair[1].clone(),
            },
        );
        i = i + 1;
        assert(ladder_well_shaped(raw@.take(i as int))) by {
            assert forall|k: int| 0 <= k < i implies (#[trigger] raw@.take(i as int)[k])@.len()
                == 2 by {
                if k < i - 1 {
                    assert(raw@.take(i - 1)[k] == raw@.take(i as int)[k]);
                }
            }
        }
        assert(ladder_of(levels@, captured_at, side, raw@.take(i as int))) by {
            assert forall|k: int| 0 <= k < i implies #[trigger] levels@[k] == level_of(
                captured_at,
                side,
                raw@.take(i as int)[k],
            ) by {
                if k < i - 1 {
                    assert(raw@.take(i - 1)[k] == raw@.take(i as int)[k]);
                }
            }
        }
    }
    assert(raw@.take(raw@.len() as int) =~= raw@);
    Some(levels)
}

/// The snapshot of a depth response: both ladders in the body's order, every
/// level stamped with `captured_at`; a level that is not a pair is a decode failure.
pub fn decode_depth(
    captured_at: Timestamp,
    status: u16,
    body: Option<RawOrderBook>,
) -> (r: Result<DepthSnapshot, UpstreamError>)
    ensures
        !is_success(status) ==> r == Err::<DepthSnapshot, UpstreamError>(
            UpstreamError::Status(status),
        ),
        is_success(status) && body is None ==> r == Err::<DepthSnapshot, UpstreamError>(
            UpstreamError::Decode,
        ),
        is_success(status) && body is Some ==> {
            let b = body->0;
            if ladder_well_shaped(b.bids@) && ladder_well_shaped(b.asks@) {
                &&& r is Ok
                &&& r->Ok_0.last_update_id == b.last_update_id
                &&& ladder_of(r->Ok_0.bids@, captured_at, Side::Bid, b.bids@)
                &&& ladder_of(r->Ok_0.asks@, captured_at, Side::Ask, b.asks@)
            } else {
                r == Err::<DepthSnapshot, UpstreamError>(UpstreamError::Decode)
            }
        },
{
    match check_status(status) {
        Err(e) => Err(e),
        Ok(()) => match body {
            None => Err(UpstreamError::Decode),
            Some(b) => {
                let bids = ladder_from(captured_at, Side::Bid, &b.bids);
                let asks = ladder_from(captured_at, Side::Ask, &b.asks);
                match (bids, asks) {
                    (Some(bids), Some(asks)) => Ok(
                        DepthSnapshot { last_update_id: b.last_update_id, bids, asks },
                    ),
                    _ => Err(UpstreamError::Decode),
                }
            },
        },
    }
}

fn trades_from(raw: &Vec<RawTrade>) -> (r: Option<Vec<Trade>>)
    ensures
        r is Some <==> trade_times_in_range(raw@),
        r matches Some(trades) ==> trades_of(trades@, raw@),
{
    let mut trades: Vec<Trade> = Vec::new();
    let mut i: usize = 0;
    while i < raw.len()
        invariant
            0 <= i <= raw@.len(),
            trade_times_in_range(raw@.take(i as int)),
            trades_of(trades@, raw@.take(i as int)),
        decreases raw@.len() - i,
    {
        let t = &raw[i];
        let traded_at = match Timestamp::from_epoch_millis(t.time) {
            Some(ts) => ts,
            None => {
                assert(!trade_times_in_range(raw@)) by {
                    assert(raw@[i as int].time / 1000 > MAX_EPOCH_SECS);
                }
                return None;
            },
        };
        trades.push(
            Trade {
                trade_id: t.id,
                price: t.price.clone(),
                quantity: t.qty.clone(),
                traded_at,
            },
        );
        i = i + 1;
        assert(trade_times_in_range(raw@.take(i as int))) by {
            assert forall|k: int| 0 <= k < i implies (#[trigger] raw@.take(
                i as int,
            )[k]).time / 1000 <= MAX_EPOCH_SECS by {
                if k < i - 1 {
                    assert(raw@.take(i - 1)[k] == raw@.take(i as int)[k]);
                }
            }
        }
        assert(trades_of(trades@, raw@.take(i as int))) by {
            assert forall|k: int| 0 <= k < i implies #[trigger] trades@[k] == trade_of(
                raw@.take(i as int)[k],
            ) by {
                if k < i - 1 {
                    assert(raw@.take(i - 1)[k] == raw@.take(i as int)[k]);
                }
            }
        }
    }
    assert(raw@.take(raw@.len() as int) =~= raw@);
    Some(trades)
}

/// The trades of a trades response, in the body's order, each time truncated
/// to the whole second; a time past the year 9999 is a decode failure.
pub fn decode_trades(status: u16, body: Option<Vec<RawTrade>>) -> (r: Result<Vec<Trade>, UpstreamError>)
    ensures
        !is_success(status) ==> r == Err::<Vec<Trade>, UpstreamError>(UpstreamError::Status(status)),
        is_success(status) && body is None ==> r == Err::<Vec<Trade>, UpstreamError>(
            UpstreamError::Decode,
        ),
        is_success(status) && body is Some ==> {
            let raw = body->0@;
            if trade_times_in_range(raw) {
                r is Ok && trades_of(r->Ok_0@, raw)
            } else {
                r == Err::<Vec<Trade>, UpstreamError>(UpstreamError::Decode)
            }
        },
{
    match check_status(status) {
        Err(e) => Err(e),
        Ok(()) => match body {
            None => Err(UpstreamError::Decode),
            Some(raw) => match trades_from(&raw) {
                Some(trades) => Ok(trades),
                None => Err(UpstreamError::Decode),
            },
        },
    }
}

} // verus!
