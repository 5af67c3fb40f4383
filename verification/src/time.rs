//! Instants, the day-offset time axis and the text of timestamps.
//!
//! An instant is a number of milliseconds since 1970-01-01T00:00:00Z, leap
//! seconds not counted. The instants that have a text are those of the years
//! 0000 to 9999.

use vstd::prelude::*;

verus! {

/// Milliseconds in a day.
pub const MILLIS_PER_DAY: i64 = 86_400_000;

/// Day 0 of the time axis: 1800-01-01T00:00:00Z.
pub const EPOCH: i64 = -5_364_662_400_000;

/// The first instant that has a text: 0000-01-01T00:00:00Z.
pub const FIRST_INSTANT: i64 = -62_167_219_200_000;

/// The last instant that has a text: 9999-12-31T23:59:59.999Z.
pub const LAST_INSTANT: i64 = 253_402_300_799_999;

/// The first reading of a clock, in whole seconds, that has a text:
/// 0000-01-01T00:00:00Z.
pub const FIRST_SECOND: i64 = -62_167_219_200;

/// The last reading of a clock, in whole seconds, that has a text:
/// 9999-12-31T23:59:59Z.
pub const LAST_SECOND: i64 = 253_402_300_799;

/// The instant lies in the years 0000 to 9999.
pub open spec fn representable(instant: int) -> bool {
    FIRST_INSTANT <= instant <= LAST_INSTANT
}

/// The instant `day_offset` days after `epoch`.
pub open spec fn day_instant(epoch: int, day_offset: int) -> int {
    epoch + day_offset * MILLIS_PER_DAY
}

/// The text that `chrono` gives the instant by RFC 3339, in UTC with the
/// offset written as `+00:00`.
pub uninterp spec fn rfc3339_utc(instant: int) -> Seq<char>;

/// The instant that `bson` reads from a text by RFC 3339, cut to whole
/// milliseconds; `None` for a text that it does not accept.
pub uninterp spec fn rfc3339_millis(text: Seq<char>) -> Option<int>;

/// `chrono::DateTime::checked_add_signed` on the instant, with the
/// `chrono::TimeDelta::try_days` of the day count. Where it gives an instant,
/// that is the sum; it gives one wherever both the instant and the sum lie in
/// the years 0000 to 9999, which are well inside the years that `chrono`
/// holds.
#[verifier::external_body]
fn add_days(instant: i64, days: i64) -> (sum: Option<i64>)
    ensures
        sum matches Some(s) ==> s == day_instant(instant as int, days as int),
        representable(instant as int) && representable(day_instant(instant as int, days as int))
            ==> sum is Some,
{
    let start = chrono::DateTime::from_timestamp_millis(instant)?;
    let span = chrono::TimeDelta::try_days(days)?;
    Some(start.checked_add_signed(span)?.timestamp_millis())
}

/// The offset that marks the time zone of a text as UTC.
pub open spec fn utc_offset() -> Seq<char> {
    seq!['+', '0', '0', ':', '0', '0']
}

/// The text closes with the offset `+00:00`.
pub open spec fn closes_with_offset(text: Seq<char>) -> bool {
    &&& text.len() >= 6
    &&& text[text.len() - 6] == '+'
    &&& text[text.len() - 5] == '0'
    &&& text[text.len() - 4] == '0'
    &&& text[text.len() - 3] == ':'
    &&& text[text.len() - 2] == '0'
    &&& text[text.len() - 1] == '0'
}

/// `chrono::DateTime::to_rfc3339` on the instant, as
/// `chrono::DateTime::from_timestamp_millis` holds it. The latter gives
/// nothing for an instant out of the range of `chrono`; the years 0000 to
/// 9999 are inside that range. The text of an instant in UTC closes with the
/// offset, written as `+00:00`.
#[verifier::external_body]
fn utc_rfc3339(instant: i64) -> (text: Option<String>)
    ensures
        text matches Some(t) ==> t@ == rfc3339_utc(instant as int) && closes_with_offset(t@),
        representable(instant as int) ==> text is Some,
{
    match chrono::DateTime::from_timestamp_millis(instant) {
        Some(t) => Some(t.to_rfc3339()),
        None => None,
    }
}

/// `bson::DateTime::parse_rfc3339_str` on the text, and
/// `bson::DateTime::timestamp_millis` on what it gives.
#[verifier::external_body]
fn rfc3339_instant(text: &str) -> (instant: Option<i64>)
    ensures
        instant matches Some(i) ==> rfc3339_millis(text@) == Some(i as int),
        instant is None ==> rfc3339_millis(text@) is None,
{
    match bson::DateTime::parse_rfc3339_str(text) {
        Ok(t) => Some(t.timestamp_millis()),
        Err(_) => None,
    }
}

/// The instant `day_offset` days after `epoch`, where both lie in the years
/// 0000 to 9999.
pub open spec fn decoded_time(epoch: int, day_offset: int) -> Option<int> {
    if representable(epoch) && representable(day_instant(epoch, day_offset)) {
        Some(day_instant(epoch, day_offset))
    } else {
        None
    }
}

/// The instant itself, if it lies in the years 0000 to 9999.
pub fn in_wire_range(instant: i64) -> (kept: Option<i64>)
    ensures
        kept == (if representable(instant as int) {
            Some(instant)
        } else {
            None
        }),
{
    if FIRST_INSTANT <= instant && instant <= LAST_INSTANT {
        Some(instant)
    } else {
        None
    }
}

/// The instant `day_offset` days after `epoch`, where both lie in the years
/// 0000 to 9999.
pub fn decode_time(epoch: i64, day_offset: i64) -> (instant: Option<i64>)
    ensures
        instant matches Some(t) ==> decoded_time(epoch as int, day_offset as int) == Some(t as int),
        instant is None ==> decoded_time(epoch as int, day_offset as int) is None,
{
    if in_wire_range(epoch).is_none() {
        return None;
    }
    match add_days(epoch, day_offset) {
        Some(sum) => in_wire_range(sum),
        None => None,
    }
}

/// A day offset of the axis does not decode.
#[derive(Debug, Clone, Copy, PartialEq, Eq, Structural)]
pub struct TimeOutOfRange {
    /// The place of the first such offset on the axis.
    pub index: usize,
}

/// `instants` holds, for each day offset and in the same order, the instant
/// that many days after `epoch`.
pub open spec fn is_time_axis(instants: Seq<i64>, epoch: int, days: Seq<i64>) -> bool {
    &&& instants.len() == days.len()
    &&& forall|i: int|
        0 <= i < days.len() ==> #[trigger] instants[i] == day_instant(epoch, days[i] as int)
}

/// Every day offset of the axis before `end` decodes.
pub open spec fn axis_decodes(epoch: int, days: Seq<i64>, end: int) -> bool {
    forall|i: int| 0 <= i < end ==> (#[trigger] decoded_time(epoch, days[i] as int)) is Some
}

/// The instants of a day-offset axis, one for each offset and in the same
/// order; fails at the first offset that does not decode.
pub fn decode_time_axis(epoch: i64, days: &Vec<i64>) -> (axis: Result<Vec<i64>, TimeOutOfRange>)
    ensures
        axis is Ok <==> axis_decodes(epoch as int, days@, days@.len() as int),
        axis matches Ok(instants) ==> is_time_axis(instants@, epoch as int, days@),
        axis matches Err(e) ==> {
            &&& e.index < days@.len()
            &&& axis_decodes(epoch as int, days@, e.index as int)
            &&& decoded_time(epoch as int, days@[e.index as int] as int) is None
        },
{
    let mut instants: Vec<i64> = Vec::new();
    let mut i: usize = 0;
    while i < days.len()
        invariant
            i <= days.len(),
            axis_decodes(epoch as int, days@, i as int),
            is_time_axis(instants@, epoch as int, days@.take(i as int)),
        decreases days.len() - i,
    {
        match decode_time(epoch, days[i]) {
            Some(instant) => {
                instants.push(instant);
            },
            None => {
                return Err(TimeOutOfRange { index: i });
            },
        }
        i += 1;
    }
    assert(days@.take(i as int) =~= days@);
    Ok(instants)
}

/// Offset 0 decodes to the epoch, and one day more in the offset to one day
/// more in the instant, as long as the later instant still lies in the years
/// 0000 to 9999.
pub proof fn lemma_day_steps(epoch: int, day_offset: int)
    requires
        0 <= day_offset,
        representable(epoch),
        representable(day_instant(epoch, day_offset + 1)),
    ensures
        decoded_time(epoch, 0) == Some(epoch),
        decoded_time(epoch, day_offset) is Some,
        decoded_time(epoch, day_offset + 1) == Some(
            decoded_time(epoch, day_offset)->Some_0 + MILLIS_PER_DAY,
        ),
{
    assert(day_offset * MILLIS_PER_DAY >= 0) by (nonlinear_arith)
        requires
            day_offset >= 0,
    ;
}

/// The text with a closing `+00:00` replaced by `Z`; any other text as it is.
pub open spec fn zulu(text: Seq<char>) -> Seq<char> {
    if closes_with_offset(text) {
        text.subrange(0, text.len() - 6).push('Z')
    } else {
        text
    }
}

/// The text with a closing `+00:00` replaced by `Z`; any other text as it is.
pub fn zulu_text(text: &str) -> (wire: String)
    ensures
        wire@ == zulu(text@),
{
    let n = text.unicode_len();
    if n >= 6 && text.get_char(n - 6) == '+' && text.get_char(n - 5) == '0' && text.get_char(n - 4)
        == '0' && text.get_char(n - 3) == ':' && text.get_char(n - 2) == '0' && text.get_char(n - 1)
        == '0' {
        let mut wire = String::from_str(text.substring_char(0, n - 6));
        wire.append("Z");
        proof {
            reveal_strlit("Z");
            assert(wire@ =~= zulu(text@));
        }
        wire
    } else {
        String::from_str(text)
    }
}

/// A text that closes with `+00:00` closes with `Z` instead afterwards, and
/// is the same before that.
pub proof fn lemma_zulu_closes(start: Seq<char>)
    ensures
        zulu(start + utc_offset()) == start.push('Z'),
{
    let text = start + utc_offset();
    assert(text[text.len() - 6] == utc_offset()[0]);
    assert(text[text.len() - 5] == utc_offset()[1]);
    assert(text[text.len() - 4] == utc_offset()[2]);
    assert(text[text.len() - 3] == utc_offset()[3]);
    assert(text[text.len() - 2] == utc_offset()[4]);
    assert(text[text.len() - 1] == utc_offset()[5]);
    assert(text.subrange(0, text.len() - 6) =~= start);
}

/// The wire text of an instant: RFC 3339 in UTC, closed by `Z`, as in
/// `1990-01-02T00:00:00Z`. The instants of the years 0000 to 9999 have one,
/// and no others.
pub fn wire_text(instant: i64) -> (text: Option<String>)
    ensures
        text is Some <==> representable(instant as int),
        text matches Some(t) ==> t@ == zulu(rfc3339_utc(instant as int)) && t@.last() == 'Z',
{
    if in_wire_range(instant).is_none() {
        return None;
    }
    match utc_rfc3339(instant) {
        Some(text) => Some(zulu_text(text.as_str())),
        None => None,
    }
}

/// The instant that a wire text stands for, if the text is a timestamp and
/// the instant lies in the years 0000 to 9999.
pub open spec fn parsed_wire(text: Seq<char>) -> Option<int> {
    match rfc3339_millis(text) {
        Some(instant) => if representable(instant) {
            Some(instant)
        } else {
            None
        },
        None => None,
    }
}

/// The instant that a wire text stands for, if the text is a timestamp and
/// the instant lies in the years 0000 to 9999.
pub fn parse_wire(text: &str) -> (instant: Option<i64>)
    ensures
        instant matches Some(i) ==> parsed_wire(text@) == Some(i as int),
        instant is None ==> parsed_wire(text@) is None,
{
    match rfc3339_instant(text) {
        Some(instant) => in_wire_range(instant),
        None => None,
    }
}

/// A date and a time of day in UTC.
#[derive(Debug, Clone, Copy, PartialEq, Eq, Structural)]
pub struct CivilTime {
    pub year: i32,
    pub month: u32,
    pub day: u32,
    pub hour: u32,
    pub minute: u32,
    pub second: u32,
}

impl CivilTime {
    /// The month, the day and the time of day are in the range of a clock
    /// and a calendar.
    pub open spec fn in_range(self) -> bool {
        &&& 1 <= self.month <= 12
        &&& 1 <= self.day <= 31
        &&& self.hour <= 23
        &&& self.minute <= 59
        &&& self.second <= 59
    }
}

/// The date and the time of day in UTC that `chrono` gives the instant that
/// many whole seconds after 1970-01-01T00:00:00Z; `None` for an instant that
/// `chrono` cannot hold.
pub uninterp spec fn utc_civil(seconds: int) -> Option<CivilTime>;

/// `chrono::DateTime::from_timestamp` on the seconds, with no nanoseconds,
/// taken apart by `year`, `month` and `day` of `chrono::Datelike` and `hour`,
/// `minute` and `second` of `chrono::Timelike`, which keep to the ranges of a
/// clock and a calendar. It gives nothing for an instant out of the range of
/// `chrono`; the years 0000 to 9999 are inside that range.
#[verifier::external_body]
fn utc_civil_time(seconds: i64) -> (civil: Option<CivilTime>)
    ensures
        civil matches Some(t) ==> utc_civil(seconds as int) == Some(t) && t.in_range(),
        civil is None ==> utc_civil(seconds as int) is None,
        representable(seconds * 1000) ==> civil is Some,
{
    match chrono::DateTime::from_timestamp(seconds, 0) {
        Some(t) => Some(CivilTime {
            year: chrono::Datelike::year(&t),
            month: chrono::Datelike::month(&t),
            day: chrono::Datelike::day(&t),
            hour: chrono::Timelike::hour(&t),
            minute: chrono::Timelike::minute(&t),
            second: chrono::Timelike::second(&t),
        }),
        None => None,
    }
}

/// The text of a date and time: the year, then month, day, hour, minute and
/// second with two digits each, as in `1990-01-02T00:00:00Z`.
pub open spec fn civil_text(t: CivilTime) -> Seq<char> {
    crate::text::signed_decimal(t.year as int) + seq!['-'] + crate::text::padded(t.month as nat)
        + seq!['-'] + crate::text::padded(t.day as nat) + seq!['T'] + crate::text::padded(
        t.hour as nat,
    ) + seq![':'] + crate::text::padded(t.minute as nat) + seq![':'] + crate::text::padded(
        t.second as nat,
    ) + seq!['Z']
}

/// The text of a date and time: the year, then month, day, hour, minute and
/// second with two digits each, as in `1990-01-02T00:00:00Z`.
pub fn civil_string(t: &CivilTime) -> (text: String)
    ensures
        text@ == civil_text(*t),
{
    let mut text = String::new();
    crate::text::push_signed_decimal(&mut text, t.year as i64);
    text.append("-");
    crate::text::push_padded(&mut text, t.month as u64);
    text.append("-");
    crate::text::push_padded(&mut text, t.day as u64);
    text.append("T");
    crate::text::push_padded(&mut text, t.hour as u64);
    text.append(":");
    crate::text::push_padded(&mut text, t.minute as u64);
    text.append(":");
    crate::text::push_padded(&mut text, t.second as u64);
    text.append("Z");
    proof {
        reveal_strlit("-");
        reveal_strlit("T");
        reveal_strlit(":");
        reveal_strlit("Z");
        assert(text@ =~= civil_text(*t));
    }
    text
}

/// The text of the date and time in UTC at which a clock stands that reads
/// `now` whole seconds since 1970-01-01T00:00:00Z. The readings of the years
/// 0000 to 9999 have one, and no others.
pub fn nowstring(now: i64) -> (text: Option<String>)
    ensures
        text is Some <==> representable(now * 1000),
        text matches Some(t) ==> utc_civil(now as int) is Some && utc_civil(
            now as int,
        )->Some_0.in_range() && t@ == civil_text(utc_civil(now as int)->Some_0),
{
    if now < FIRST_SECOND || now > LAST_SECOND {
        return None;
    }
    match utc_civil_time(now) {
        Some(civil) => Some(civil_string(&civil)),
        None => None,
    }
}

} // verus!
