//! Replay sources over rows read from CSV files: FX quotes (`timestamp,bid,ask`), Yahoo daily
//! exports and futures files in either layout. The program reads the files and the timestamps;
//! a source turns the rows into market events, one per row, in file order.

use crate::bar::BarSeriesSource;
use crate::config::InstrumentId;
use crate::decimal::Dec;
use crate::error::Error;
use crate::events::{Event, MarketEvent};
use crate::export::OhlcvBar;
use crate::merge::HistoricalSource;
use crate::yahoo::YahooRow;
use vstd::prelude::*;

verus! {

/// One FX quote row; `ts` in Unix nanoseconds.
#[derive(Clone, Copy, Debug)]
pub struct FxRow {
    pub ts: i128,
    pub bid: Dec,
    pub ask: Dec,
}

/// One row of a futures file, in whichever layout the file has; timestamps in Unix nanoseconds.
#[derive(Clone, Debug)]
pub enum FutureRow {
    /// A Yahoo-layout row and its date as an instant.
    Yahoo(i128, YahooRow),
    /// A standard OHLCV row.
    Ohlcv(OhlcvBar),
}

/// The quote event of an FX row.
pub open spec fn fx_event(instrument: InstrumentId, row: FxRow) -> Event {
    Event::Market(
        MarketEvent::BookL1 {
            instrument,
            ts: row.ts,
            bid: row.bid,
            ask: row.ask,
            provenance: None,
        },
    )
}

/// The close a Yahoo row replays with: the adjusted close when present.
pub open spec fn yahoo_close(row: YahooRow) -> Dec {
    match row.adj_close {
        Some(a) => a,
        None => row.close,
    }
}

/// The bar event of a Yahoo row dated `ts`.
pub open spec fn yahoo_event(instrument: InstrumentId, ts: i128, row: YahooRow) -> Event {
    Event::Market(
        MarketEvent::Bar {
            instrument,
            ts,
            open: row.open,
            high: row.high,
            low: row.low,
            close: yahoo_close(row),
            volume: row.volume,
        },
    )
}

/// The bar event of a standard OHLCV row.
pub open spec fn ohlcv_event(instrument: InstrumentId, row: OhlcvBar) -> Event {
    Event::Market(
        MarketEvent::Bar {
            instrument,
            ts: row.ts,
            open: row.open,
            high: row.high,
            low: row.low,
            close: row.close,
            volume: row.volume,
        },
    )
}

/// The bar event of a futures row.
pub open spec fn future_event(instrument: InstrumentId, row: FutureRow) -> Event {
    match row {
        FutureRow::Yahoo(ts, r) => yahoo_event(instrument, ts, r),
        FutureRow::Ohlcv(r) => ohlcv_event(instrument, r),
    }
}

/// A file without data rows.
pub open spec fn empty_file() -> Seq<char> {
    "empty csv"@
}

/// The number of rows left after the first `idx`.
pub open spec fn rows_left(len: int, idx: int) -> nat {
    if len > idx {
        (len - idx) as nat
    } else {
        0
    }
}

/// FX quote file.
pub struct FxCsvSource {
    rows: Vec<FxRow>,
    idx: usize,
    instrument: InstrumentId,
}

impl FxCsvSource {
    /// The rows the source replays, in file order.
    pub closed spec fn rows(&self) -> Seq<FxRow> {
        self.rows@
    }

    /// The instrument the quotes are for.
    pub closed spec fn instrument(&self) -> InstrumentId {
        self.instrument
    }

    /// How many rows have been replayed.
    pub closed spec fn position(&self) -> int {
        self.idx as int
    }

    /// A source over the rows of one file; a file without rows is refused.
    pub fn from_rows(rows: Vec<FxRow>, exchange: &str, symbol: &str) -> (r: Result<
        FxCsvSource,
        Error,
    >)
        ensures
            match r {
                Ok(s) => rows@.len() > 0 && s.rows() == rows@ && s.position() == 0
                    && s.instrument().exchange@ == exchange@ && s.instrument().symbol@ == symbol@
                    && s.ready(),
                Err(e) => rows@.len() == 0 && (e matches Error::Invalid(m) && m@ == empty_file()),
            },
    {
        if rows.len() == 0 {
            return Err(Error::Invalid("empty csv".to_owned()));
        }
        let instrument = InstrumentId::new(exchange, symbol);
        Ok(FxCsvSource { rows, idx: 0, instrument })
    }
}

impl HistoricalSource for FxCsvSource {
    /// The quotes from the current row on.
    open spec fn pending(&self) -> Seq<Event> {
        Seq::new(
            rows_left(self.rows().len() as int, self.position()),
            |k: int| fx_event(self.instrument(), self.rows()[self.position() + k]),
        )
    }

    open spec fn ready(&self) -> bool {
        0 <= self.position() <= self.rows().len()
    }

    fn next_event(&mut self) -> (r: Option<Event>) {
        if self.idx >= self.rows.len() {
            return None;
        }
        let ghost before = self.pending();
        let row = self.rows[self.idx];
        self.idx = self.idx + 1;
        let e = Event::Market(
            MarketEvent::BookL1 {
                instrument: self.instrument.clone(),
                ts: row.ts,
                bid: row.bid,
                ask: row.ask,
                provenance: None,
            },
        );
        proof {
            assert(self.pending() =~= before.drop_first());
        }
        Some(e)
    }
}

/// Yahoo-format OHLCV file.
pub struct YahooCsvSource {
    rows: Vec<(i128, YahooRow)>,
    idx: usize,
    instrument: InstrumentId,
}

impl YahooCsvSource {
    /// The rows the source replays with their dates as instants, in file order.
    pub closed spec fn rows(&self) -> Seq<(i128, YahooRow)> {
        self.rows@
    }

    /// The instrument the bars are for.
    pub closed spec fn instrument(&self) -> InstrumentId {
        self.instrument
    }

    /// How many rows have been replayed.
    pub closed spec fn position(&self) -> int {
        self.idx as int
    }

    /// A source over the rows of one file; a file without rows is refused.
    pub fn from_rows(rows: Vec<(i128, YahooRow)>, exchange: &str, symbol: &str) -> (r: Result<
        YahooCsvSource,
        Error,
    >)
        ensures
            match r {
                Ok(s) => rows@.len() > 0 && s.rows() == rows@ && s.position() == 0
                    && s.instrument().exchange@ == exchange@ && s.instrument().symbol@ == symbol@
                    && s.ready(),
                Err(e) => rows@.len() == 0 && (e matches Error::Invalid(m) && m@ == empty_file()),
            },
    {
        if rows.len() == 0 {
            return Err(Error::Invalid("empty csv".to_owned()));
        }
        let instrument = InstrumentId::new(exchange, symbol);
        Ok(YahooCsvSource { rows, idx: 0, instrument })
    }
}

impl HistoricalSource for YahooCsvSource {
    /// The bars from the current row on, closing at the adjusted close when present.
    open spec fn pending(&self) -> Seq<Event> {
        Seq::new(
            rows_left(self.rows().len() as int, self.position()),
            |k: int|
                yahoo_event(
                    self.instrument(),
                    self.rows()[self.position() + k].0,
                    self.rows()[self.position() + k].1,
                ),
        )
    }

    open spec fn ready(&self) -> bool {
        0 <= self.position() <= self.rows().len()
    }

    fn next_event(&mut self) -> (r: Option<Event>) {
        if self.idx >= self.rows.len() {
            return None;
        }
        let ghost before = self.pending();
        let (ts, row) = (&self.rows[self.idx].0, &self.rows[self.idx].1);
        let e = Event::Market(
            MarketEvent::Bar {
                instrument: self.instrument.clone(),
                ts: *ts,
                open: row.open,
                high: row.high,
                low: row.low,
                close: row.effective_close(),
                volume: row.volume,
            },
        );
        self.idx = self.idx + 1;
        proof {
            assert(self.pending() =~= before.drop_first());
        }
        Some(e)
    }
}

/// Futures bar file (Yahoo or standard OHLCV columns).
pub struct FutureCsvSource {
    rows: Vec<FutureRow>,
    idx: usize,
    instrument: InstrumentId,
}

impl FutureCsvSource {
    /// The rows the source replays, in file order.
    pub closed spec fn rows(&self) -> Seq<FutureRow> {
        self.rows@
    }

    /// The instrument the bars are for.
    pub closed spec fn instrument(&self) -> InstrumentId {
        self.instrument
    }

    /// How many rows have been replayed.
    pub closed spec fn position(&self) -> int {
        self.idx as int
    }

    /// A source over the rows of one file; a file without rows is refused.
    pub fn from_rows(rows: Vec<FutureRow>, exchange: &str, symbol: &str) -> (r: Result<
        FutureCsvSource,
        Error,
    >)
        ensures
            match r {
                Ok(s) => rows@.len() > 0 && s.rows() == rows@ && s.position() == 0
                    && s.instrument().exchange@ == exchange@ && s.instrument().symbol@ == symbol@
                    && s.ready(),
                Err(e) => rows@.len() == 0 && (e matches Error::Invalid(m) && m@ == empty_file()),
            },
    {
        if rows.len() == 0 {
            return Err(Error::Invalid("empty csv".to_owned()));
        }
        let instrument = InstrumentId::new(exchange, symbol);
        Ok(FutureCsvSource { rows, idx: 0, instrument })
    }
}

impl HistoricalSource for FutureCsvSource {
    /// The bars from the current row on.
    open spec fn pending(&self) -> Seq<Event> {
        Seq::new(
            rows_left(self.rows().len() as int, self.position()),
            |k: int| future_event(self.instrument(), self.rows()[self.position() + k]),
        )
    }

    open spec fn ready(&self) -> bool {
        0 <= self.position() <= self.rows().len()
    }

    fn next_event(&mut self) -> (r: Option<Event>) {
        if self.idx >= self.rows.len() {
            return None;
        }
        let ghost before = self.pending();
        let e = match &self.rows[self.idx] {
            FutureRow::Yahoo(ts, row) => Event::Market(
                MarketEvent::Bar {
                    instrument: self.instrument.clone(),
                    ts: *ts,
                    open: row.open,
                    high: row.high,
                    low: row.low,
                    close: row.effective_close(),
                    volume: row.volume,
                },
            ),
            FutureRow::Ohlcv(row) => Event::Market(
                MarketEvent::Bar {
                    instrument: self.instrument.clone(),
                    ts: row.ts,
                    open: row.open,
                    high: row.high,
                    low: row.low,
                    close: row.close,
                    volume: row.volume,
                },
            ),
        };
        self.idx = self.idx + 1;
        proof {
            assert(self.pending() =~= before.drop_first());
        }
        Some(e)
    }
}


/// Each quote an FX source replays carries its own row's fields: the `k`-th pending event is the
/// best bid and ask of row `position + k`, with that row's timestamp, bid and ask, for the
/// source's instrument.
pub proof fn law_fx_quotes_keep_row_fields(s: FxCsvSource, k: int)
    requires
        s.ready(),
        0 <= k < s.pending().len(),
    ensures
        s.pending()[k] matches Event::Market(
            MarketEvent::BookL1 { instrument, ts, bid, ask, provenance },
        ) && instrument == s.instrument() && ts == s.rows()[s.position() + k].ts && bid == s.rows()[
        s.position() + k].bid && ask == s.rows()[s.position() + k].ask && provenance is None,
{
}

/// Each bar a Yahoo source replays carries its own row's prices: the `k`-th pending event is
/// the bar of row `position + k`, at that row's instant, with its open, high, low and volume,
/// closing at the adjusted close when the row has one and at the close otherwise.
pub proof fn law_yahoo_bars_keep_row_fields(s: YahooCsvSource, k: int)
    requires
        s.ready(),
        0 <= k < s.pending().len(),
    ensures
        s.pending()[k] matches Event::Market(
            MarketEvent::Bar { instrument, ts, open, high, low, close, volume },
        ) && instrument == s.instrument() && ts == s.rows()[s.position() + k].0 && open == s.rows()[
        s.position() + k].1.open && high == s.rows()[s.position() + k].1.high && low == s.rows()[
        s.position() + k].1.low && volume == s.rows()[s.position() + k].1.volume && (
        s.rows()[s.position() + k].1.adj_close matches Some(a) ==> close == a) && (s.rows()[
        s.position() + k].1.adj_close is None ==> close == s.rows()[s.position() + k].1.close),
{
}

/// Each bar a futures source replays carries its own row's prices, whichever layout the row
/// has; a standard OHLCV row keeps its timestamp and all five columns.
pub proof fn law_future_bars_keep_row_fields(s: FutureCsvSource, k: int)
    requires
        s.ready(),
        0 <= k < s.pending().len(),
    ensures
        s.rows()[s.position() + k] matches FutureRow::Ohlcv(row) ==> (s.pending()[k] matches
            Event::Market(MarketEvent::Bar { instrument, ts, open, high, low, close, volume })
            && instrument == s.instrument() && ts == row.ts && open == row.open && high == row.high
            && low == row.low && close == row.close && volume == row.volume),
        s.rows()[s.position() + k] matches FutureRow::Yahoo(t, row) ==> (s.pending()[k] matches
            Event::Market(MarketEvent::Bar { instrument, ts, open, high, low, close, volume })
            && instrument == s.instrument() && ts == t && open == row.open && high == row.high
            && low == row.low && volume == row.volume && (row.adj_close matches Some(a) ==> close
            == a) && (row.adj_close is None ==> close == row.close)),
{
}

/// Any of the replay sources, so that sources of different layouts merge into one stream.
pub enum AnySource {
    /// Bars of an OHLCV file.
    Bars(BarSeriesSource),
    /// A Yahoo daily export.
    Yahoo(YahooCsvSource),
    /// FX quotes.
    Fx(FxCsvSource),
    /// A futures file.
    Future(FutureCsvSource),
}

impl HistoricalSource for AnySource {
    /// The events of the wrapped source.
    open spec fn pending(&self) -> Seq<Event> {
        match self {
            AnySource::Bars(s) => s.pending(),
            AnySource::Yahoo(s) => s.pending(),
            AnySource::Fx(s) => s.pending(),
            AnySource::Future(s) => s.pending(),
        }
    }

    open spec fn ready(&self) -> bool {
        match self {
            AnySource::Bars(s) => s.ready(),
            AnySource::Yahoo(s) => s.ready(),
            AnySource::Fx(s) => s.ready(),
            AnySource::Future(s) => s.ready(),
        }
    }

    fn next_event(&mut self) -> (r: Option<Event>) {
        match self {
            AnySource::Bars(s) => s.next_event(),
            AnySource::Yahoo(s) => s.next_event(),
            AnySource::Fx(s) => s.next_event(),
            AnySource::Future(s) => s.next_event(),
        }
    }
}

} // verus!
