use vstd::prelude::*;

verus! {

/// Seconds from 1970-01-01T00:00:00 to 0000-01-01T00:00:00.
pub const MIN_LOCAL_SECS: i64 = -62167219200;

/// Seconds from 1970-01-01T00:00:00 to 9999-12-31T23:59:59.
pub const MAX_LOCAL_SECS: i64 = 253402300799;

/// The RFC 2822 text of the instant `secs` (seconds since the Unix epoch)
/// seen at an offset of `offset` seconds east of UTC.
pub uninterp spec fn rfc2822_text(secs: int, offset: int) -> Seq<char>;

/// What an RFC 2822 reader makes of a text: the instant and the offset, if
/// the text is a date-time in that format.
pub uninterp spec fn rfc2822_reading(s: Seq<char>) -> Option<(int, int)>;

/// `s[i..i + 3]` is `" - "`, the separator between a note's date and its text.
pub open spec fn sep_at(s: Seq<char>, i: int) -> bool {
    0 <= i && i + 3 <= s.len() && s[i] == ' ' && s[i + 1] == '-' && s[i + 2] == ' '
}

pub open spec fn has_separator(s: Seq<char>) -> bool {
    exists|i: int| sep_at(s, i)
}

pub open spec fn is_ascii_digit(c: char) -> bool {
    '0' <= c && c <= '9'
}

/// A point in time at second precision, with the offset from UTC at which it
/// was seen.
#[derive(Clone, Copy, Debug, PartialEq, Eq, Structural)]
pub struct Timestamp {
    /// Seconds since 1970-01-01T00:00:00 UTC.
    pub secs: i64,
    /// Seconds east of UTC.
    pub offset: i32,
}

/// An offset in whole minutes under a day, and a local date in the years 0 to
/// 9999: what the RFC 2822 form can hold exactly.
pub open spec fn timestamp_valid(secs: int, offset: int) -> bool {
    &&& -86400 < offset < 86400
    &&& offset % 60 == 0
    &&& MIN_LOCAL_SECS <= secs + offset <= MAX_LOCAL_SECS
}

impl View for Timestamp {
    type V = (int, int);

    open spec fn view(&self) -> (int, int) {
        (self.secs as int, self.offset as int)
    }
}

impl Timestamp {
    pub open spec fn wf(&self) -> bool {
        timestamp_valid(self.secs as int, self.offset as int)
    }

    /// The timestamp for `secs` seen at `offset`, if the RFC 2822 form can
    /// hold it.
    pub fn from_parts(secs: i64, offset: i32) -> (r: Option<Timestamp>)
        ensures
            timestamp_valid(secs as int, offset as int) <==> r.is_some(),
            r matches Some(t) ==> t.secs == secs && t.offset == offset,
    {
        let local: i128 = secs as i128 + offset as i128;
        if -86400 < offset && offset < 86400 && offset % 60 == 0 && MIN_LOCAL_SECS as i128
            <= local && local <= MAX_LOCAL_SECS as i128 {
            Some(Timestamp { secs, offset })
        } else {
            None
        }
    }

    /// The current instant at the machine's local offset, where the RFC 2822
    /// form can hold it.
    pub fn now() -> (r: Option<Timestamp>)
        ensures
            r matches Some(t) ==> t.wf(),
    {
        let (secs, offset) = local_now();
        Timestamp::from_parts(secs, offset)
    }

    /// The RFC 2822 text of this timestamp, which reads back as the same
    /// instant and offset.
    pub fn to_rfc2822(&self) -> (r: String)
        requires
            self.wf(),
        ensures
            r@ == rfc2822_text(self.secs as int, self.offset as int),
            rfc2822_reading(r@) == Some(self@),
            !has_separator(r@),
            r@.len() > 0 && is_ascii_digit(r@.last()),
    {
        format_rfc2822(self.secs, self.offset)
    }

    /// Reads an RFC 2822 date-time; `None` where the text is not one, or
    /// where the date lies outside what a `Timestamp` holds.
    pub fn parse_rfc2822(s: &str) -> (r: Option<Timestamp>)
        ensures
            r.is_some() <==> (rfc2822_reading(s@) matches Some(p) && timestamp_valid(p.0, p.1)),
            r matches Some(t) ==> rfc2822_reading(s@) == Some(t@) && t.wf(),
    {
        match read_rfc2822(s) {
            Some((secs, offset)) => Timestamp::from_parts(secs, offset),
            None => None,
        }
    }
}

/// Relies on chrono's `DateTime::to_rfc2822`, applied to the instant `secs`
/// seen at the fixed offset `offset`. Its text depends on those two values
/// alone. `DateTime::parse_from_rfc2822` reads it back as the same instant and
/// offset (the layout `Tue, 1 Jul 2003 10:52:37 +0200` has four year digits and
/// the offset in whole minutes). The layout holds no `" - "` and ends in a
/// digit of the offset. chrono panics for years outside 0 to 9999, which
/// `requires` leaves out.
#[verifier::external_body]
fn format_rfc2822(secs: i64, offset: i32) -> (r: String)
    requires
        timestamp_valid(secs as int, offset as int),
    ensures
        r@ == rfc2822_text(secs as int, offset as int),
        rfc2822_reading(r@) == Some((secs as int, offset as int)),
        !has_separator(r@),
        r@.len() > 0 && is_ascii_digit(r@.last()),
{
    let zone = chrono::FixedOffset::east_opt(offset).unwrap();
    chrono::DateTime::from_timestamp(secs, 0).unwrap().with_timezone(&zone).to_rfc2822()
}

/// Relies on chrono's `Local::now`: the current instant in seconds since the
/// epoch and the local offset in seconds east of UTC. Nothing is promised of
/// either.
#[verifier::external_body]
fn local_now() -> (r: (i64, i32)) {
    let now = chrono::Local::now();
    (now.timestamp(), now.offset().local_minus_utc())
}

/// Relies on chrono's `DateTime::parse_from_rfc2822`: the instant (seconds
/// since the epoch) and the offset (seconds east of UTC) that it reads depend on
/// the text alone.
#[verifier::external_body]
fn read_rfc2822(s: &str) -> (r: Option<(i64, i32)>)
    ensures
        r matches Some(p) ==> rfc2822_reading(s@) == Some((p.0 as int, p.1 as int)),
        r is None ==> rfc2822_reading(s@) is None,
{
    chrono::DateTime::parse_from_rfc2822(s).ok().map(|d| (d.timestamp(), d.offset().local_minus_utc()))
}

} // verus!
