use vstd::prelude::*;
use vstd::utf8::encode_utf8;
use crate::clock::{capture_now, utc_datetime_text, Timestamp};
use crate::client::{DepthLevel, DepthSnapshot, PricePoint, Trade, UpstreamError};
use crate::sink::{append_bytes, Row, RowView, Table};

verus! {

/// The decimal digits of `n`, in ASCII.
pub open spec fn decimal(n: nat) -> Seq<u8>
    decreases n,
{
    if n < 10 {
        seq![(48 + n) as u8]
    } else {
        decimal(n / 10) + seq![(48 + n % 10) as u8]
    }
}

/// The UTF-8 bytes of a string.
pub open spec fn text(s: String) -> Seq<u8> {
    encode_utf8(s@)
}

pub open spec fn price_row(captured_at: Timestamp, p: PricePoint) -> RowView {
    RowView { table: Table::Price, values: seq![utc_datetime_text(captured_at.secs), text(p.price)] }
}

pub open spec fn level_row(table: Table, captured_at: Timestamp, l: DepthLevel) -> RowView {
    RowView {
        table,
        values: seq![utc_datetime_text(captured_at.secs), text(l.price), text(l.quantity)],
    }
}

pub open spec fn trade_row(t: Trade) -> RowView {
    RowView {
        table: Table::Trades,
        values: seq![
            utc_datetime_text(t.traded_at.secs),
            decimal(t.trade_id as nat),
            text(t.price),
            text(t.quantity),
        ],
    }
}

pub open spec fn price_rows(
    captured_at: Timestamp,
    ticker: Result<PricePoint, UpstreamError>,
) -> Seq<RowView> {
    match ticker {
        Ok(p) => seq![price_row(captured_at, p)],
        Err(_) => seq![],
    }
}

pub open spec fn level_rows(
    table: Table,
    captured_at: Timestamp,
    ls: Seq<DepthLevel>,
) -> Seq<RowView> {
    Seq::new(ls.len(), |i: int| level_row(table, captured_at, ls[i]))
}

pub open spec fn depth_rows(
    captured_at: Timestamp,
    depth: Result<DepthSnapshot, UpstreamError>,
) -> Seq<RowView> {
    match depth {
        Ok(d) => level_rows(Table::Bids, captured_at, d.bids@) + level_rows(
            Table::Asks,
            captured_at,
            d.asks@,
        ),
        Err(_) => seq![],
    }
}

pub open spec fn trade_rows(trades: Result<Vec<Trade>, UpstreamError>) -> Seq<RowView> {
    match trades {
        Ok(ts) => Seq::new(ts@.len(), |i: int| trade_row(ts@[i])),
        Err(_) => seq![],
    }
}

/// The rows of one cycle, in the order they are written: the price row, the
/// bid rows, the ask rows, the trade rows. A failed fetch gives no rows.
pub open spec fn cycle_rows(
    captured_at: Timestamp,
    ticker: Result<PricePoint, UpstreamError>,
    depth: Result<DepthSnapshot, UpstreamError>,
    trades: Result<Vec<Trade>, UpstreamError>,
) -> Seq<RowView> {
    price_rows(captured_at, ticker) + depth_rows(captured_at, depth) + trade_rows(trades)
}

/// Every trade of a successful fetch carries a well-formed instant.
pub open spec fn trades_wf(trades: Result<Vec<Trade>, UpstreamError>) -> bool {
    trades matches Ok(ts) ==> forall|i: int|
        0 <= i < ts@.len() ==> (#[trigger] ts@[i]).traded_at.wf()
}

/// Appends the decimal digits of `n`.
pub fn decimal_into(out: &mut Vec<u8>, n: u64)
    ensures
        final(out)@ == old(out)@ + decimal(n as nat),
    decreases n,
{
    if n >= 10 {
        decimal_into(out, n / 10);
    }
    out.push((48 + n % 10) as u8);
    proof {
        if n < 10 {
            assert(n % 10 == n);
        }
    }
    assert(final(out)@ =~= old(out)@ + decimal(n as nat));
}

fn bytes_of(s: &String) -> (r: Vec<u8>)
    ensures
        r@ == text(*s),
{
    let mut out: Vec<u8> = Vec::new();
    append_bytes(&mut out, s.as_str().as_bytes());
    assert(out@ =~= text(*s));
    out
}

/// One pass of ingestion: every price and depth row that it writes carries its
/// single capture instant.
#[derive(Clone, Copy, Debug)]
pub struct IngestionCycle {
    pub captured_at: Timestamp,
}

impl IngestionCycle {
    pub open spec fn wf(&self) -> bool {
        self.captured_at.wf()
    }

    /// A cycle at the current instant, read once from the wall clock; `None`
    /// where the clock reads outside the years 1970 through 9999.
    pub fn begin() -> (r: Option<IngestionCycle>)
        ensures
            r matches Some(c) ==> c.wf(),
    {
        match capture_now() {
            Some(t) => Some(IngestionCycle { captured_at: t }),
            None => None,
        }
    }

    fn push_level_rows(&self, rows: &mut Vec<Row>, table: Table, levels: &Vec<DepthLevel>)
        requires
            self.wf(),
            table == Table::Bids || table == Table::Asks,
            forall|i: int| 0 <= i < old(rows)@.len() ==> (#[trigger] old(rows)@[i]).wf(),
        ensures
            forall|i: int| 0 <= i < final(rows)@.len() ==> (#[trigger] final(rows)@[i]).wf(),
            final(rows)@.map_values(|r: Row| r@) == old(rows)@.map_values(|r: Row| r@)
                + level_rows(table, self.captured_at, levels@),
    {
        let mut i: usize = 0;
        while i < levels.len()
            invariant
                self.wf(),
                table == Table::Bids || table == Table::Asks,
                0 <= i <= levels@.len(),
                forall|k: int| 0 <= k < rows@.len() ==> (#[trigger] rows@[k]).wf(),
                rows@.map_values(|r: Row| r@) == old(rows)@.map_values(|r: Row| r@) + level_rows(
                    table,
                    self.captured_at,
                    levels@.take(i as int),
                ),
            decreases levels@.len() - i,
        {
            let l = &levels[i];
            let values = vec![self.captured_at.render(), bytes_of(&l.price), bytes_of(&l.quantity)];
            let row = Row { table, values };
            proof {
                assert(row@.values =~~= level_row(table, self.captured_at, *l).values);
            }
            assert(row.wf());
            let ghost before = rows@;
            rows.push(row);
            i = i + 1;
            proof {
                assert forall|k: int| 0 <= k < rows@.len() implies (#[trigger] rows@[k]).wf() by {
                    if k < before.len() {
                        assert(rows@[k] == before[k]);
                    }
                }
                assert(rows@.map_values(|r: Row| r@) =~= before.map_values(|r: Row| r@) + seq![
                    row@,
                ]);
                assert(level_rows(table, self.captured_at, levels@.take(i as int)) =~= level_rows(
                    table,
                    self.captured_at,
                    levels@.take(i - 1),
                ) + seq![level_row(table, self.captured_at, levels@[i - 1])]);
                assert(rows@.map_values(|r: Row| r@) =~= old(rows)@.map_values(|r: Row| r@)
                    + level_rows(table, self.captured_at, levels@.take(i as int)));
            }
        }
        assert(levels@.take(levels@.len() as int) =~= levels@);
    }

    /// The rows that this cycle writes, given the outcome of its three fetches:
    /// exactly `cycle_rows`, each with one value per column of its table.
    pub fn rows(
        &self,
        ticker: &Result<PricePoint, UpstreamError>,
        depth: &Result<DepthSnapshot, UpstreamError>,
        trades: &Result<Vec<Trade>, UpstreamError>,
    ) -> (r: Vec<Row>)
        requires
            self.wf(),
            trades_wf(*trades),
        ensures
            r@.len() == cycle_rows(self.captured_at, *ticker, *depth, *trades).len(),
            forall|i: int|
                0 <= i < r@.len() ==> (#[trigger] r@[i]).wf() && r@[i]@ == cycle_rows(
                    self.captured_at,
                    *ticker,
                    *depth,
                    *trades,
                )[i],
    {
        let mut rows: Vec<Row> = Vec::new();
        if let Ok(p) = ticker {
            let values = vec![self.captured_at.render(), bytes_of(&p.price)];
            let row = Row { table: Table::Price, values };
            assert(row@.values =~~= price_row(self.captured_at, *p).values);
            rows.push(row);
        }
        assert(rows@.map_values(|row: Row| row@) =~= price_rows(self.captured_at, *ticker));
        if let Ok(d) = depth {
            self.push_level_rows(&mut rows, Table::Bids, &d.bids);
            self.push_level_rows(&mut rows, Table::Asks, &d.asks);
        }
        assert(rows@.map_values(|row: Row| row@) =~= price_rows(self.captured_at, *ticker)
            + depth_rows(self.captured_at, *depth));
        if let Ok(ts) = trades {
            let ghost start = rows@.map_values(|row: Row| row@);
            let mut i: usize = 0;
            while i < ts.len()
                invariant
                    trades_wf(*trades),
                    *trades == Ok::<Vec<Trade>, UpstreamError>(*ts),
                    0 <= i <= ts@.len(),
                    forall|k: int| 0 <= k < rows@.len() ==> (#[trigger] rows@[k]).wf(),
                    rows@.map_values(|row: Row| row@) == start + Seq::new(
                        i as nat,
                        |k: int| trade_row(ts@[k]),
                    ),
                decreases ts@.len() - i,
            {
                let t = &ts[i];
                assert(trades->Ok_0 == *ts);
                assert(ts@[i as int].traded_at.wf());
                let mut id: Vec<u8> = Vec::new();
                decimal_into(&mut id, t.trade_id);
                let values = vec![t.traded_at.render(), id, bytes_of(&t.price), bytes_of(&t.quantity)];
                let row = Row { table: Table::Trades, values };
                assert(row@.values =~~= trade_row(*t).values);
                assert(row.wf());
                let ghost before = rows@;
                rows.push(row);
                i = i + 1;
                assert forall|k: int| 0 <= k < rows@.len() implies (#[trigger] rows@[k]).wf() by {
                    if k < before.len() {
                        assert(rows@[k] == before[k]);
                    }
                }
                assert(rows@.map_values(|row: Row| row@) =~= before.map_values(|row: Row| row@)
                    + seq![row@]);
                assert(rows@.map_values(|row: Row| row@) =~= start + Seq::new(
                    i as nat,
                    |k: int| trade_row(ts@[k]),
                ));
            }
        }
        assert(rows@.map_values(|row: Row| row@) =~= cycle_rows(
            self.captured_at,
            *ticker,
            *depth,
            *trades,
        ));
        assert forall|i: int| 0 <= i < rows@.len() implies rows@[i]@ == cycle_rows(
            self.captured_at,
            *ticker,
            *depth,
            *trades,
        )[i] by {
            assert(rows@.map_values(|row: Row| row@)[i] == rows@[i]@);
        }
        rows
    }
}

/// A failed depth fetch costs only the depth rows: the cycle still writes its
/// price row and every trade row, and no bid or ask row.
pub proof fn lemma_failed_depth_keeps_siblings(
    captured_at: Timestamp,
    p: PricePoint,
    e: UpstreamError,
    ts: Vec<Trade>,
)
    ensures
        ({
            let rows = cycle_rows(captured_at, Ok(p), Err(e), Ok(ts));
            &&& rows.len() == 1 + ts@.len()
            &&& rows[0] == price_row(captured_at, p)
            &&& forall|i: int| 0 <= i < ts@.len() ==> rows[1 + i] == trade_row(#[trigger] ts@[i])
            &&& forall|i: int|
                0 <= i < rows.len() ==> (#[trigger] rows[i]).table != Table::Bids && rows[i].table
                    != Table::Asks
        }),
{
    let rows = cycle_rows(captured_at, Ok(p), Err(e), Ok(ts));
    let tr = trade_rows(Ok::<Vec<Trade>, UpstreamError>(ts));
    assert(rows =~= seq![price_row(captured_at, p)] + tr);
    assert forall|i: int| 0 <= i < rows.len() implies (#[trigger] rows[i]).table != Table::Bids
        && rows[i].table != Table::Asks by {
        if i > 0 {
            assert(rows[i] == tr[i - 1]);
        }
    }
}

/// A cycle given `n` trades writes exactly `n` trade rows, last, in the order
/// of the source; no other row of the cycle goes to the trade table.
pub proof fn lemma_trade_rows_in_order(
    captured_at: Timestamp,
    ticker: Result<PricePoint, UpstreamError>,
    depth: Result<DepthSnapshot, UpstreamError>,
    ts: Vec<Trade>,
)
    ensures
        ({
            let rows = cycle_rows(captured_at, ticker, depth, Ok(ts));
            let k = rows.len() - ts@.len();
            &&& k >= 0
            &&& forall|i: int| 0 <= i < ts@.len() ==> rows[k + i] == trade_row(#[trigger] ts@[i])
            &&& forall|j: int| 0 <= j < k ==> (#[trigger] rows[j]).table != Table::Trades
        }),
{
    let head = price_rows(captured_at, ticker) + depth_rows(captured_at, depth);
    let rows = cycle_rows(captured_at, ticker, depth, Ok(ts));
    assert(rows == head + trade_rows(Ok::<Vec<Trade>, UpstreamError>(ts)));
    assert forall|j: int| 0 <= j < head.len() implies (#[trigger] head[j]).table
        != Table::Trades by {
        let pr = price_rows(captured_at, ticker);
        if j >= pr.len() {
            let d = depth->Ok_0;
            let bids = level_rows(Table::Bids, captured_at, d.bids@);
            let j2 = j - pr.len();
            if j2 >= bids.len() {
                assert(head[j] == level_rows(Table::Asks, captured_at, d.asks@)[j2 - bids.len()]);
            } else {
                assert(head[j] == bids[j2]);
            }
        }
    }
    assert forall|j: int| 0 <= j < head.len() implies (#[trigger] rows[j]).table
        != Table::Trades by {
        assert(rows[j] == head[j]);
    }
}

/// Every row of a cycle but the trade rows carries the cycle's one capture
/// instant as its timestamp; after the price row come the bid rows, one per
/// level and in the order of the ladder.
pub proof fn lemma_one_capture_instant(
    captured_at: Timestamp,
    ticker: Result<PricePoint, UpstreamError>,
    depth: Result<DepthSnapshot, UpstreamError>,
    trades: Result<Vec<Trade>, UpstreamError>,
)
    ensures
        ({
            let rows = cycle_rows(captured_at, ticker, depth, trades);
            &&& forall|i: int|
                0 <= i < rows.len() && (#[trigger] rows[i]).table != Table::Trades
                    ==> rows[i].values[0] == utc_datetime_text(captured_at.secs)
            &&& (ticker is Ok && depth is Ok) ==> {
                let bids = depth->Ok_0.bids@;
                &&& rows[0] == price_row(captured_at, ticker->Ok_0)
                &&& forall|i: int|
                    0 <= i < bids.len() ==> rows[1 + i] == level_row(
                        Table::Bids,
                        captured_at,
                        #[trigger] bids[i],
                    )
            }
        }),
{
    let pr = price_rows(captured_at, ticker);
    let dr = depth_rows(captured_at, depth);
    let tr = trade_rows(trades);
    let rows = cycle_rows(captured_at, ticker, depth, trades);
    assert forall|i: int|
        0 <= i < rows.len() && (#[trigger] rows[i]).table != Table::Trades implies rows[i].values[0]
        == utc_datetime_text(captured_at.secs) by {
        if i < pr.len() {
            assert(rows[i] == pr[i]);
        } else if i < pr.len() + dr.len() {
            assert(rows[i] == dr[i - pr.len()]);
            let d = depth->Ok_0;
            let bids = level_rows(Table::Bids, captured_at, d.bids@);
            let j = i - pr.len();
            if j >= bids.len() {
                assert(dr[j] == level_rows(Table::Asks, captured_at, d.asks@)[j - bids.len()]);
            } else {
                assert(dr[j] == bids[j]);
            }
        } else {
            assert(rows[i] == tr[i - pr.len() - dr.len()]);
        }
    }
    if ticker is Ok && depth is Ok {
        let d = depth->Ok_0;
        let bids = level_rows(Table::Bids, captured_at, d.bids@);
        assert forall|i: int| 0 <= i < d.bids@.len() implies rows[1 + i] == level_row(
            Table::Bids,
            captured_at,
            #[trigger] d.bids@[i],
        ) by {
            assert(rows[1 + i] == dr[i]);
            assert(dr[i] == bids[i]);
        }
    }
}

} // verus!
