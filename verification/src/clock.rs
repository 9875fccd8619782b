//! Points in time, as seconds and nanoseconds since the Unix epoch, and
//! their RFC 3339 text.

use vstd::prelude::*;

verus! {

/// A point in time: whole seconds since 1970-01-01T00:00:00Z and the
/// nanoseconds that follow them.
#[derive(Clone, Copy, Debug, PartialEq, Eq, Structural)]
pub struct Timestamp {
    pub secs: i64,
    pub nanos: u32,
}

/// The RFC 3339 text of the UTC time `secs` seconds and `nanos` nanoseconds
/// after the epoch, as `chrono` writes it; `None` where `chrono` cannot
/// represent that time.
pub uninterp spec fn rfc3339_text(secs: i64, nanos: u32) -> Option<Seq<char>>;

/// Reads the wall clock through `chrono::Utc::now`. Trusted: the parts of
/// the time read describe a time that `chrono` can represent again, as its
/// documentation of `DateTime::from_timestamp` promises. Nothing is claimed
/// of the time itself. `Utc::now` panics if the system clock is set before
/// the epoch.
#[verifier::external_body]
fn read_clock() -> (t: Timestamp)
    ensures
        rfc3339_text(t.secs, t.nanos) is Some,
{
    let now = chrono::Utc::now();
    Timestamp { secs: now.timestamp(), nanos: now.timestamp_subsec_nanos() }
}

/// Builds the time with `chrono::DateTime::from_timestamp` and formats it
/// with `DateTime::to_rfc3339`. Trusted to return [`rfc3339_text`].
#[verifier::external_body]
fn format_rfc3339(secs: i64, nanos: u32) -> (r: Option<String>)
    ensures
        r is Some <==> rfc3339_text(secs, nanos) is Some,
        r matches Some(s) ==> rfc3339_text(secs, nanos) == Some(s@),
{
    match chrono::DateTime::from_timestamp(secs, nanos) {
        Some(t) => Some(t.to_rfc3339()),
        None => None,
    }
}

impl Timestamp {
    /// Nanoseconds since the epoch.
    pub open spec fn total_nanos(self) -> int {
        self.secs * 1_000_000_000 + self.nanos
    }

    /// The RFC 3339 text of this time, if it has one.
    pub open spec fn text(self) -> Option<Seq<char>> {
        rfc3339_text(self.secs, self.nanos)
    }

    /// The current time. It always has an RFC 3339 text.
    ///
    /// Panics if the system clock is set before 1970.
    pub fn now() -> (t: Self)
        ensures
            t.text() is Some,
    {
        read_clock()
    }

    /// The RFC 3339 text of this time, or `None` if the time is out of the
    /// representable range.
    pub fn to_rfc3339(&self) -> (r: Option<String>)
        ensures
            r is Some <==> self.text() is Some,
            r matches Some(s) ==> self.text() == Some(s@),
    {
        format_rfc3339(self.secs, self.nanos)
    }
}

/// Whole milliseconds from `start` to `end`, rounded toward zero; negative
/// if `end` lies before `start`.
pub open spec fn millis_between(start: Timestamp, end: Timestamp) -> int {
    let d = end.total_nanos() - start.total_nanos();
    if d >= 0 {
        d / 1_000_000
    } else {
        -((-d) / 1_000_000)
    }
}

/// Whole milliseconds from `start` to `end` as an unsigned number: the
/// value of [`millis_between`] where `end` is not before `start`, and that
/// value counted down from 2^64 where it is.
pub fn elapsed_millis(start: Timestamp, end: Timestamp) -> (r: u64)
    ensures
        r == millis_between(start, end) % 0x1_0000_0000_0000_0000,
{
    let d: i128 = (end.secs as i128 - start.secs as i128) * 1_000_000_000 + (end.nanos as i128
        - start.nanos as i128);
    let modulus: i128 = 0x1_0000_0000_0000_0000;
    if d >= 0 {
        let ms: i128 = d / 1_000_000;
        (ms % modulus) as u64
    } else {
        let ms: i128 = (-d) / 1_000_000;
        let rest: i128 = ms % modulus;
        if rest == 0 {
            0
        } else {
            (modulus - rest) as u64
        }
    }
}

/// The RFC 3339 text of the current time.
///
/// Panics if the system clock is set before 1970.
pub fn now_rfc3339() -> (s: String)
    ensures
        exists|t: Timestamp| t.text() == Some(s@),
{
    let t = Timestamp::now();
    match t.to_rfc3339() {
        Some(s) => s,
        None => String::new(),
    }
}

} // verus!
