//! Whole-day dates, Unix timestamps, and the fixed-width decimal forms the
//! document format uses for both.
use vstd::prelude::*;

verus! {

// ---------------------------------------------------------------------------
// Decimal formatting
// ---------------------------------------------------------------------------

/// The ASCII digit for one decimal place.
pub open spec fn spec_digit(n: int) -> u8 {
    (48 + n) as u8
}

/// The decimal digits of a non-negative number, most significant first.
pub open spec fn spec_dec(n: int) -> Seq<u8>
    decreases n,
{
    if n < 0 {
        Seq::empty()
    } else if n < 10 {
        seq![spec_digit(n)]
    } else {
        spec_dec(n / 10) + seq![spec_digit(n % 10)]
    }
}

/// The decimal digits of `n`.
pub fn u64_dec(n: u64) -> (r: Vec<u8>)
    ensures
        r@ == spec_dec(n as int),
    decreases n,
{
    if n < 10 {
        let mut v: Vec<u8> = Vec::new();
        v.push(48 + n as u8);
        proof {
            assert(v@ =~= spec_dec(n as int));
        }
        v
    } else {
        let mut v = u64_dec(n / 10);
        v.push(48 + (n % 10) as u8);
        proof {
            assert(v@ =~= spec_dec(n as int));
        }
        v
    }
}

/// The decimal form of a signed number: a minus sign before the digits of its
/// magnitude when it is negative.
pub open spec fn spec_dec_signed(n: int) -> Seq<u8> {
    if n < 0 {
        seq![45u8] + spec_dec(-n)
    } else {
        spec_dec(n)
    }
}

/// The decimal form of `n`, with a minus sign when negative.
pub fn i64_dec(n: i64) -> (r: Vec<u8>)
    ensures
        r@ == spec_dec_signed(n as int),
{
    if n >= 0 {
        u64_dec(n as u64)
    } else {
        let mag: u64 = ((-(n + 1)) as u64) + 1;
        let mut v: Vec<u8> = Vec::new();
        v.push(45);
        let digits = u64_dec(mag);
        crate::encode::append_bytes(&mut v, digits.as_slice());
        proof {
            assert(v@ =~= spec_dec_signed(n as int));
        }
        v
    }
}

/// A number below 100 zero-padded to two digits.
pub open spec fn spec_pad2(n: int) -> Seq<u8> {
    if n < 10 {
        seq![48u8] + spec_dec(n)
    } else {
        spec_dec(n)
    }
}

/// Zero-pad a number below 100 to two digits.
pub fn pad2(n: u64) -> (r: Vec<u8>)
    requires
        n < 100,
    ensures
        r@ == spec_pad2(n as int),
{
    let mut v: Vec<u8> = Vec::new();
    if n < 10 {
        v.push(48);
    }
    let digits = u64_dec(n);
    crate::encode::append_bytes(&mut v, digits.as_slice());
    proof {
        assert(v@ =~= spec_pad2(n as int));
    }
    v
}

/// A year zero-padded to four digits; years past 9999 keep all their digits
/// behind a plus sign, as the date formats of the surrounding ecosystem do.
pub open spec fn spec_year4(y: int) -> Seq<u8> {
    if y < 10 {
        seq![48u8, 48u8, 48u8] + spec_dec(y)
    } else if y < 100 {
        seq![48u8, 48u8] + spec_dec(y)
    } else if y < 1000 {
        seq![48u8] + spec_dec(y)
    } else if y < 10000 {
        spec_dec(y)
    } else {
        seq![43u8] + spec_dec(y)
    }
}

/// Format a year for the date forms of the document.
pub fn year4(y: u64) -> (r: Vec<u8>)
    ensures
        r@ == spec_year4(y as int),
{
    let mut v: Vec<u8> = Vec::new();
    if y < 10 {
        v.push(48);
        v.push(48);
        v.push(48);
    } else if y < 100 {
        v.push(48);
        v.push(48);
    } else if y < 1000 {
        v.push(48);
    } else if y >= 10000 {
        v.push(43);
    }
    let digits = u64_dec(y);
    crate::encode::append_bytes(&mut v, digits.as_slice());
    proof {
        assert(v@ =~= spec_year4(y as int));
    }
    v
}

// ---------------------------------------------------------------------------
// Dates
// ---------------------------------------------------------------------------

/// A whole-day date of the proleptic Gregorian calendar.
#[derive(Clone, Copy, Debug, PartialEq, Eq, Structural)]
pub struct Date {
    pub year: u64,
    pub month: u8,
    pub day: u8,
}

/// Gregorian leap-year rule.
pub open spec fn spec_is_leap_year(y: int) -> bool {
    y % 4 == 0 && (y % 100 != 0 || y % 400 == 0)
}

/// Days in one month.
pub open spec fn spec_days_in_month(y: int, m: int) -> int {
    if m == 2 {
        if spec_is_leap_year(y) {
            29
        } else {
            28
        }
    } else if m == 4 || m == 6 || m == 9 || m == 11 {
        30
    } else {
        31
    }
}

/// Days in one year.
pub open spec fn spec_days_in_year(y: int) -> int {
    if spec_is_leap_year(y) {
        366
    } else {
        365
    }
}

impl Date {
    /// A month between 1 and 12 and a day the month has.
    pub open spec fn wf(self) -> bool {
        1 <= self.month <= 12 && 1 <= self.day <= spec_days_in_month(
            self.year as int,
            self.month as int,
        )
    }
}

/// Whether `y` is a leap year.
pub fn is_leap_year(y: u64) -> (r: bool)
    ensures
        r == spec_is_leap_year(y as int),
{
    y % 4 == 0 && (y % 100 != 0 || y % 400 == 0)
}

/// How many days month `m` of year `y` has.
pub fn days_in_month(y: u64, m: u8) -> (r: u8)
    ensures
        r as int == spec_days_in_month(y as int, m as int),
{
    if m == 2 {
        if is_leap_year(y) {
            29
        } else {
            28
        }
    } else if m == 4 || m == 6 || m == 9 || m == 11 {
        30
    } else {
        31
    }
}

/// The month and day-of-month reached by walking `d` remaining days (zero
/// based) forward from the start of month `m`.
pub open spec fn spec_month_day(y: int, m: int, d: int) -> (int, int)
    decreases 12 - m,
{
    if m >= 12 || d < spec_days_in_month(y, m) {
        (m, d + 1)
    } else {
        spec_month_day(y, m + 1, d - spec_days_in_month(y, m))
    }
}

/// The date reached by walking `d` days (zero based) forward from the first
/// day of year `y`.
pub open spec fn spec_date_from_days(y: int, d: int) -> Date
    decreases d,
{
    if d < spec_days_in_year(y) {
        Date {
            year: y as u64,
            month: spec_month_day(y, 1, d).0 as u8,
            day: spec_month_day(y, 1, d).1 as u8,
        }
    } else {
        spec_date_from_days(y + 1, d - spec_days_in_year(y))
    }
}

/// Days in months `m..=12` of year `y`.
pub open spec fn spec_days_from_month(y: int, m: int) -> int
    decreases 13 - m,
{
    if m > 12 {
        0
    } else {
        spec_days_in_month(y, m) + spec_days_from_month(y, m + 1)
    }
}

proof fn lemma_days_from_month_is_year(y: int)
    ensures
        spec_days_from_month(y, 1) == spec_days_in_year(y),
{
    reveal_with_fuel(spec_days_from_month, 13);
}

proof fn lemma_month_day_valid(y: int, m: int, d: int)
    requires
        1 <= m <= 12,
        0 <= d < spec_days_from_month(y, m),
    ensures
        m <= spec_month_day(y, m, d).0 <= 12,
        1 <= spec_month_day(y, m, d).1 <= spec_days_in_month(y, spec_month_day(y, m, d).0),
    decreases 12 - m,
{
    if m >= 12 || d < spec_days_in_month(y, m) {
        if m >= 12 {
            reveal_with_fuel(spec_days_from_month, 2);
            assert(spec_days_from_month(y, 12) == spec_days_in_month(y, 12));
        }
    } else {
        lemma_month_day_valid(y, m + 1, d - spec_days_in_month(y, m));
    }
}

/// Any day count names a well-formed date.
pub proof fn lemma_date_from_days_valid(y: int, d: int)
    requires
        0 <= d,
        0 <= y,
        y + d <= 0xFFFF_FFFF_FFFF_FFFF,
    ensures
        spec_date_from_days(y, d).wf(),
        spec_date_from_days(y, d).year >= y,
    decreases d,
{
    if d < spec_days_in_year(y) {
        lemma_days_from_month_is_year(y);
        lemma_month_day_valid(y, 1, d);
        assert(spec_date_from_days(y, d).year == y);
        assert(spec_date_from_days(y, d).month == spec_month_day(y, 1, d).0);
        assert(spec_date_from_days(y, d).day == spec_month_day(y, 1, d).1);
    } else {
        lemma_date_from_days_valid(y + 1, d - spec_days_in_year(y));
    }
}

/// How many days year `y` has.
pub fn days_in_year(y: u64) -> (r: u64)
    ensures
        r as int == spec_days_in_year(y as int),
{
    if is_leap_year(y) {
        366
    } else {
        365
    }
}

/// The date `days` whole days after 1970-01-01. The bound on `days` keeps
/// every intermediate count a machine word; it covers far more days than any
/// timestamp of the model can reach.
pub fn date_from_epoch_days(days: u64) -> (r: Date)
    requires
        days < 0x1_0000_0000_0000,
    ensures
        r == spec_date_from_days(1970, days as int),
        r.wf(),
{
    proof {
        lemma_date_from_days_valid(1970, days as int);
    }
    let mut y: u64 = 1970;
    let mut d: u64 = days;
    while days_in_year(y) <= d
        invariant
            spec_date_from_days(1970, days as int) == spec_date_from_days(y as int, d as int),
            y >= 1970,
            d <= days,
            365 * (y as int - 1970) <= days as int - d as int,
        decreases d,
    {
        let len: u64 = days_in_year(y);
        d = d - len;
        y = y + 1;
    }
    proof {
        lemma_days_from_month_is_year(y as int);
        lemma_month_day_valid(y as int, 1, d as int);
    }
    let ghost dy = d as int;
    let mut m: u8 = 1;
    while m < 12 && days_in_month(y, m) as u64 <= d
        invariant
            1 <= m <= 12,
            d <= days,
            spec_month_day(y as int, 1, dy) == spec_month_day(y as int, m as int, d as int),
        decreases 12 - m,
    {
        d = d - days_in_month(y, m) as u64;
        m = m + 1;
    }
    proof {
        assert(spec_month_day(y as int, m as int, d as int) == (m as int, d as int + 1));
    }
    Date { year: y, month: m, day: (d + 1) as u8 }
}

/// The day after `d`.
pub open spec fn spec_next_date(d: Date) -> Date {
    if d.day < spec_days_in_month(d.year as int, d.month as int) {
        Date { year: d.year, month: d.month, day: (d.day + 1) as u8 }
    } else if d.month < 12 {
        Date { year: d.year, month: (d.month + 1) as u8, day: 1 }
    } else {
        Date { year: (d.year + 1) as u64, month: 1, day: 1 }
    }
}

/// The date `n` days after `d`.
pub open spec fn spec_add_days(d: Date, n: int) -> Date
    decreases n,
{
    if n <= 0 {
        d
    } else {
        spec_add_days(spec_next_date(d), n - 1)
    }
}

proof fn lemma_next_date_wf(d: Date)
    requires
        d.wf(),
        d.year < 0xFFFF_FFFF_FFFF_FFFF,
    ensures
        spec_next_date(d).wf(),
        spec_next_date(d).year <= d.year + 1,
{
}

/// Walk `n` days forward from `d`.
pub fn add_days(d: Date, n: u64) -> (r: Date)
    requires
        d.wf(),
        d.year + n < 0xFFFF_FFFF_FFFF_FFFF,
    ensures
        r == spec_add_days(d, n as int),
        r.wf(),
{
    let mut cur = d;
    let mut left: u64 = n;
    while left > 0
        invariant
            cur.wf(),
            spec_add_days(d, n as int) == spec_add_days(cur, left as int),
            cur.year + left <= d.year + n,
            d.year + n < 0xFFFF_FFFF_FFFF_FFFF,
        decreases left,
    {
        proof {
            lemma_next_date_wf(cur);
        }
        let dim = days_in_month(cur.year, cur.month);
        if cur.day < dim {
            cur = Date { year: cur.year, month: cur.month, day: cur.day + 1 };
        } else if cur.month < 12 {
            cur = Date { year: cur.year, month: cur.month + 1, day: 1 };
        } else {
            cur = Date { year: cur.year + 1, month: 1, day: 1 };
        }
        left = left - 1;
    }
    cur
}

// ---------------------------------------------------------------------------
// Day counts and weekdays
// ---------------------------------------------------------------------------

/// Days from the first day of year 0 to the first day of year `y`.
pub open spec fn spec_days_before_year(y: int) -> int
    decreases y,
    when y >= 0
{
    if y <= 0 {
        0
    } else {
        spec_days_before_year(y - 1) + spec_days_in_year(y - 1)
    }
}

/// Days from the first day of year `y` to the first day of its month `m`.
pub open spec fn spec_days_before_month(y: int, m: int) -> int
    decreases m,
    when m >= 1
{
    if m <= 1 {
        0
    } else {
        spec_days_before_month(y, m - 1) + spec_days_in_month(y, m - 1)
    }
}

/// Whole days from 0000-01-01 to `d`.
pub open spec fn spec_civil_days(d: Date) -> int {
    spec_days_before_year(d.year as int) + spec_days_before_month(d.year as int, d.month as int)
        + d.day - 1
}

/// Whole days from 1970-01-01 to `d`.
pub open spec fn spec_epoch_days(d: Date) -> int {
    spec_civil_days(d) - spec_days_before_year(1970)
}

/// Count the whole days from 0000-01-01 to `d`. The year bound keeps the
/// count inside a machine word.
pub fn civil_days(d: &Date) -> (r: u64)
    requires
        d.wf(),
        d.year < 0x1_0000_0000,
    ensures
        r as int == spec_civil_days(*d),
        r < 0x200_0000_0000,
{
    let mut acc: u64 = 0;
    let mut y: u64 = 0;
    while y < d.year
        invariant
            y <= d.year,
            d.year < 0x1_0000_0000,
            acc as int == spec_days_before_year(y as int),
            acc <= 366 * y,
        decreases d.year - y,
    {
        acc = acc + days_in_year(y);
        y = y + 1;
    }
    let mut m: u8 = 1;
    while m < d.month
        invariant
            1 <= m <= d.month,
            d.wf(),
            d.year < 0x1_0000_0000,
            acc as int == spec_days_before_year(d.year as int) + spec_days_before_month(
                d.year as int,
                m as int,
            ),
            acc <= 366 * d.year + 31 * m,
        decreases d.month - m,
    {
        acc = acc + days_in_month(d.year, m) as u64;
        m = m + 1;
    }
    acc + (d.day - 1) as u64
}

/// Count the whole days from 1970-01-01 to `d`; such a count exists only
/// for dates from 1970 on.
pub fn epoch_days(d: &Date) -> (r: u64)
    requires
        d.wf(),
        1970 <= d.year < 0x1_0000_0000,
    ensures
        r as int == spec_epoch_days(*d),
        r < 0x200_0000_0000,
{
    let mut acc: u64 = 0;
    let mut y: u64 = 1970;
    while y < d.year
        invariant
            1970 <= y <= d.year,
            d.year < 0x1_0000_0000,
            acc as int == spec_days_before_year(y as int) - spec_days_before_year(1970),
            acc <= 366 * (y - 1970),
        decreases d.year - y,
    {
        acc = acc + days_in_year(y);
        y = y + 1;
    }
    let mut m: u8 = 1;
    while m < d.month
        invariant
            1 <= m <= d.month,
            d.wf(),
            1970 <= d.year < 0x1_0000_0000,
            acc as int == spec_days_before_year(d.year as int) - spec_days_before_year(1970)
                + spec_days_before_month(d.year as int, m as int),
            acc <= 366 * (d.year - 1970) + 31 * m,
        decreases d.month - m,
    {
        acc = acc + days_in_month(d.year, m) as u64;
        m = m + 1;
    }
    acc + (d.day - 1) as u64
}

/// The weekday of `d`, counted with Monday as 0; 0000-01-01 is a Saturday
/// and 1970-01-01 a Thursday.
pub open spec fn spec_weekday(d: Date) -> int {
    (5 + spec_civil_days(d)) % 7
}

/// The Norwegian name of weekday `w` (Monday is 0).
pub open spec fn spec_weekday_name(w: int) -> Seq<char> {
    if w == 0 {
        "mandag"@
    } else if w == 1 {
        "tirsdag"@
    } else if w == 2 {
        "onsdag"@
    } else if w == 3 {
        "torsdag"@
    } else if w == 4 {
        "fredag"@
    } else if w == 5 {
        "lørdag"@
    } else {
        "søndag"@
    }
}

/// The weekday of `d`, Monday as 0.
pub fn weekday_number(d: &Date) -> (r: u8)
    requires
        d.wf(),
        d.year < 0x1_0000_0000,
    ensures
        r as int == spec_weekday(*d),
{
    let days = civil_days(d);
    ((5 + days) % 7) as u8
}

/// The Norwegian name of the weekday of `d`.
pub fn weekday(d: &Date) -> (r: &'static str)
    requires
        d.wf(),
        d.year < 0x1_0000_0000,
    ensures
        r@ == spec_weekday_name(spec_weekday(*d)),
{
    let w = weekday_number(d);
    if w == 0 {
        "mandag"
    } else if w == 1 {
        "tirsdag"
    } else if w == 2 {
        "onsdag"
    } else if w == 3 {
        "torsdag"
    } else if w == 4 {
        "fredag"
    } else if w == 5 {
        "lørdag"
    } else {
        "søndag"
    }
}

// ---------------------------------------------------------------------------
// Date and timestamp formatting
// ---------------------------------------------------------------------------

/// The compact date form `YYYYMMDD`.
pub open spec fn spec_date_compact(d: Date) -> Seq<u8> {
    spec_year4(d.year as int) + spec_pad2(d.month as int) + spec_pad2(d.day as int)
}

/// The dashed date form `YYYY-MM-DD`.
pub open spec fn spec_date_dashed(d: Date) -> Seq<u8> {
    spec_year4(d.year as int) + seq![45u8] + spec_pad2(d.month as int) + seq![45u8] + spec_pad2(
        d.day as int,
    )
}

/// Format `d` as `YYYYMMDD`.
pub fn date_compact(d: &Date) -> (r: Vec<u8>)
    requires
        d.wf(),
    ensures
        r@ == spec_date_compact(*d),
{
    let mut v = year4(d.year);
    let mo = pad2(d.month as u64);
    crate::encode::append_bytes(&mut v, mo.as_slice());
    let da = pad2(d.day as u64);
    crate::encode::append_bytes(&mut v, da.as_slice());
    v
}

/// Format `d` as `YYYY-MM-DD`.
pub fn date_dashed(d: &Date) -> (r: Vec<u8>)
    requires
        d.wf(),
    ensures
        r@ == spec_date_dashed(*d),
{
    let mut v = year4(d.year);
    v.push(45);
    let mo = pad2(d.month as u64);
    crate::encode::append_bytes(&mut v, mo.as_slice());
    v.push(45);
    let da = pad2(d.day as u64);
    crate::encode::append_bytes(&mut v, da.as_slice());
    proof {
        assert(v@ =~= spec_date_dashed(*d));
    }
    v
}

// ---------------------------------------------------------------------------
// Timestamps
// ---------------------------------------------------------------------------

/// Seconds since the Unix epoch; only instants at or after the epoch exist.
#[derive(Clone, Copy, Debug, PartialEq, Eq, Structural)]
pub struct UnixTimestamp(pub u64);

/// The timestamp form `YYYYMMDDTHHMMSSZ` of `ts` seconds past the epoch.
pub open spec fn spec_utc_stamp(ts: int) -> Seq<u8> {
    spec_date_compact(spec_date_from_days(1970, ts / 86400)) + seq![84u8] + spec_pad2(
        (ts % 86400) / 3600,
    ) + spec_pad2(((ts % 86400) % 3600) / 60) + spec_pad2((ts % 86400) % 60) + seq![90u8]
}

/// The RFC 3339 form `YYYY-MM-DDTHH:MM:SSZ` of `ts` seconds past the epoch.
pub open spec fn spec_iso8601(ts: int) -> Seq<u8> {
    spec_date_dashed(spec_date_from_days(1970, ts / 86400)) + seq![84u8] + spec_pad2(
        (ts % 86400) / 3600,
    ) + seq![58u8] + spec_pad2(((ts % 86400) % 3600) / 60) + seq![58u8] + spec_pad2(
        (ts % 86400) % 60,
    ) + seq![90u8]
}

/// Relies on std::time::SystemTime::now and duration_since: the seconds of
/// the current instant past the Unix epoch. A clock set before the epoch
/// makes duration_since return its error, which reads as 0 here, so the call
/// never panics; nothing more is assumed of the value.
#[verifier::external_body]
fn now_seconds() -> u64 {
    match std::time::SystemTime::now().duration_since(std::time::UNIX_EPOCH) {
        Ok(elapsed) => elapsed.as_secs(),
        Err(_) => 0,
    }
}

/// The current instant; a clock before the epoch reads as the epoch itself.
pub fn now_timestamp() -> UnixTimestamp {
    UnixTimestamp(now_seconds())
}

impl UnixTimestamp {
    /// Format this instant as `YYYYMMDDTHHMMSSZ`.
    pub fn format_utc(&self) -> (r: Vec<u8>)
        ensures
            r@ == spec_utc_stamp(self.0 as int),
    {
        let days: u64 = self.0 / 86400;
        let rem: u64 = self.0 % 86400;
        let date = date_from_epoch_days(days);
        let mut v = date_compact(&date);
        v.push(84);
        let hh = pad2(rem / 3600);
        crate::encode::append_bytes(&mut v, hh.as_slice());
        let mi = pad2((rem % 3600) / 60);
        crate::encode::append_bytes(&mut v, mi.as_slice());
        let ss = pad2(rem % 60);
        crate::encode::append_bytes(&mut v, ss.as_slice());
        v.push(90);
        proof {
            assert(v@ =~= spec_utc_stamp(self.0 as int));
        }
        v
    }

    /// Format this instant in the RFC 3339 form `YYYY-MM-DDTHH:MM:SSZ`.
    /// Instants past the signed 64-bit second range, or falling after year
    /// 262142 — where the renderable datetime range ends — yield nothing.
    pub fn iso8601(self) -> (r: Option<Vec<u8>>)
        ensures
            ({
                let renderable = self.0 <= i64::MAX as u64 && spec_date_from_days(
                    1970,
                    self.0 as int / 86400,
                ).year <= 262142;
                if renderable {
                    r matches Some(b) && b@ == spec_iso8601(self.0 as int)
                } else {
                    r is None
                }
            }),
    {
        if self.0 > 0x7FFF_FFFF_FFFF_FFFF {
            return None;
        }
        let days: u64 = self.0 / 86400;
        let rem: u64 = self.0 % 86400;
        let date = date_from_epoch_days(days);
        if date.year > 262142 {
            return None;
        }
        let mut v = date_dashed(&date);
        v.push(84);
        let hh = pad2(rem / 3600);
        crate::encode::append_bytes(&mut v, hh.as_slice());
        v.push(58);
        let mi = pad2((rem % 3600) / 60);
        crate::encode::append_bytes(&mut v, mi.as_slice());
        v.push(58);
        let ss = pad2(rem % 60);
        crate::encode::append_bytes(&mut v, ss.as_slice());
        v.push(90);
        proof {
            assert(v@ =~= spec_iso8601(self.0 as int));
        }
        Some(v)
    }
}

} // verus!
