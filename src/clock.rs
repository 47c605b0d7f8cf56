use vstd::prelude::*;

verus! {

/// The last second of the year 9999 (`9999-12-31 23:59:59`), in seconds since the Unix epoch.
pub const MAX_EPOCH_SECS: i64 = 253_402_300_799;

/// An instant in whole seconds since the Unix epoch.
///
/// A well-formed instant lies between 1970 and the end of 9999, so that it
/// renders as `YYYY-MM-DD HH:MM:SS` with a four-digit year.
#[derive(Clone, Copy, Debug, PartialEq, Eq, Structural)]
pub struct Timestamp {
    pub secs: i64,
}

/// The `YYYY-MM-DD HH:MM:SS` rendering, in UTC, of an instant given in epoch seconds.
pub uninterp spec fn utc_datetime_text(secs: i64) -> Seq<u8>;

/// Relies on chrono's `DateTime::from_timestamp`, which is `Some` for every second
/// of the years 1970 through 9999, and on its `format` with `%Y-%m-%d %H:%M:%S`.
#[verifier::external_body]
fn format_utc_datetime(secs: i64) -> (r: Vec<u8>)
    requires
        0 <= secs <= MAX_EPOCH_SECS,
    ensures
        r@ == utc_datetime_text(secs),
{
    let instant = chrono::DateTime::from_timestamp(secs, 0).unwrap();
    instant.format("%Y-%m-%d %H:%M:%S").to_string().into_bytes()
}

/// Relies on std's `SystemTime::elapsed` of `UNIX_EPOCH`: the current wall-clock
/// time in whole epoch seconds, `None` where the clock reads before 1970. Nothing
/// else is known of the value.
#[verifier::external_body]
fn wall_clock_secs() -> (r: Option<u64>) {
    match std::time::UNIX_EPOCH.elapsed() {
        Ok(since_epoch) => Some(since_epoch.as_secs()),
        Err(_) => None,
    }
}

impl Timestamp {
    pub open spec fn wf(&self) -> bool {
        0 <= self.secs <= MAX_EPOCH_SECS
    }

    /// The instant `secs` seconds after the epoch, if it is well-formed.
    pub fn from_epoch_secs(secs: i64) -> (r: Option<Timestamp>)
        ensures
            r == (if 0 <= secs <= MAX_EPOCH_SECS {
                Some(Timestamp { secs })
            } else {
                None
            }),
    {
        if 0 <= secs && secs <= MAX_EPOCH_SECS {
            Some(Timestamp { secs })
        } else {
            None
        }
    }

    /// The instant of an epoch-milliseconds value, truncated to the whole second.
    pub fn from_epoch_millis(millis: u64) -> (r: Option<Timestamp>)
        ensures
            r == (if millis / 1000 <= MAX_EPOCH_SECS {
                Some(Timestamp { secs: (millis / 1000) as i64 })
            } else {
                None
            }),
    {
        let secs: u64 = millis / 1000;
        if secs <= MAX_EPOCH_SECS as u64 {
            Some(Timestamp { secs: secs as i64 })
        } else {
            None
        }
    }

    /// The `YYYY-MM-DD HH:MM:SS` text of this instant, as bytes.
    pub fn render(&self) -> (r: Vec<u8>)
        requires
            self.wf(),
        ensures
            r@ == utc_datetime_text(self.secs),
    {
        format_utc_datetime(self.secs)
    }
}

/// The instant of a wall-clock reading in whole epoch seconds; `None` where
/// there is no reading (the clock is before 1970) or it lies past 9999.
pub fn from_clock_reading(reading: Option<u64>) -> (r: Option<Timestamp>)
    ensures
        r == (match reading {
            Some(s) => if s <= MAX_EPOCH_SECS {
                Some(Timestamp { secs: s as i64 })
            } else {
                None
            },
            None => None,
        }),
{
    match reading {
        Some(secs) => {
            if secs <= MAX_EPOCH_SECS as u64 {
                Some(Timestamp { secs: secs as i64 })
            } else {
                None
            }
        },
        None => None,
    }
}

/// The current instant, read once from the wall clock; `None` where the clock
/// reads a time before 1970 or after 9999.
pub fn capture_now() -> (r: Option<Timestamp>)
    ensures
        r matches Some(t) ==> t.wf(),
{
    from_clock_reading(wall_clock_secs())
}

} // verus!
