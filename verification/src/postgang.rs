//! The mailbox-delivery calendar: Norwegian postal codes, delivery dates,
//! and the calendar document generated from them.
use vstd::prelude::*;

verus! {

use vstd::string::StringSliceAdditionalSpecFns;
use vstd::string::StrSliceExecFns;

use crate::date::Date;
use crate::date::UnixTimestamp;
use crate::date::add_days;
use crate::date::date_compact;
use crate::date::date_dashed;
use crate::date::now_timestamp;
use crate::date::spec_add_days;
use crate::date::spec_date_compact;
use crate::date::spec_date_dashed;
use crate::date::spec_dec;
use crate::date::spec_utc_stamp;
use crate::date::spec_weekday;
use crate::date::spec_weekday_name;
use crate::date::u64_dec;
use crate::date::spec_year4;
use crate::date::weekday;
use crate::date::year4;
use crate::encode::append_bytes;
use crate::encode::render_spec;
use crate::serialize::emit_prefixed;
use crate::serialize::emit_text;
use vstd::utf8::encode_utf8;

// ---------------------------------------------------------------------------
// Postal codes
// ---------------------------------------------------------------------------

/// A possible error when reading a postal code.
#[derive(Debug)]
pub struct InvalidPostalCode(&'static str);

impl View for InvalidPostalCode {
    type V = Seq<char>;

    closed spec fn view(&self) -> Seq<char> {
        self.0@
    }
}

impl InvalidPostalCode {
    /// The stored message.
    pub fn message(&self) -> (r: &'static str)
        ensures
            r@ == self@,
    {
        self.0
    }
}

/// A Norwegian postal code: exactly four decimal digits.
#[derive(Debug, Clone, Copy, PartialEq, Eq, Structural)]
pub struct NorwegianPostalCode(u16);

impl View for NorwegianPostalCode {
    type V = u16;

    closed spec fn view(&self) -> u16 {
        self.0
    }
}

/// Whether the text is exactly four ASCII digits.
pub open spec fn spec_postal_ok(b: Seq<u8>) -> bool {
    b.len() == 4 && forall|i: int| 0 <= i < 4 ==> 48 <= #[trigger] b[i] <= 57
}

/// The numeric value of four ASCII digits.
pub open spec fn spec_postal_value(b: Seq<u8>) -> int {
    (b[0] - 48) * 1000 + (b[1] - 48) * 100 + (b[2] - 48) * 10 + (b[3] - 48)
}

impl NorwegianPostalCode {
    /// Read a postal code: accepted exactly when the text is four ASCII
    /// digits, whose value the code then carries.
    pub fn try_from(value: &str) -> (r: Result<NorwegianPostalCode, InvalidPostalCode>)
        ensures
            (r is Ok) == spec_postal_ok(value.spec_bytes()),
            r matches Ok(c) ==> c@ == spec_postal_value(value.spec_bytes()),
            r matches Err(e) ==> e@
                == "Invalid postal code format for Norway. Postal code must be numeric and consist of 4 digits"@,
    {
        let b = value.as_bytes();
        if b.len() != 4 {
            return Err(
                InvalidPostalCode(
                    "Invalid postal code format for Norway. Postal code must be numeric and consist of 4 digits",
                ),
            );
        }
        let d0 = b[0];
        let d1 = b[1];
        let d2 = b[2];
        let d3 = b[3];
        if d0 < 48 || d0 > 57 || d1 < 48 || d1 > 57 || d2 < 48 || d2 > 57 || d3 < 48 || d3 > 57 {
            return Err(
                InvalidPostalCode(
                    "Invalid postal code format for Norway. Postal code must be numeric and consist of 4 digits",
                ),
            );
        }
        let v: u16 = (d0 - 48) as u16 * 1000 + (d1 - 48) as u16 * 100 + (d2 - 48) as u16 * 10 + (d3
            - 48) as u16;
        Ok(NorwegianPostalCode(v))
    }

    /// The four zero-padded digits of this code.
    pub fn digits(&self) -> (r: Vec<u8>)
        ensures
            r@ == spec_year4(self@ as int),
    {
        year4(self.0 as u64)
    }
}

// ---------------------------------------------------------------------------
// Delivery dates
// ---------------------------------------------------------------------------

/// One mailbox delivery: the postal code it applies to and the date.
#[derive(Debug, Clone, Copy, PartialEq, Eq, Structural)]
pub struct DeliveryDate {
    pub postal_code: NorwegianPostalCode,
    pub date: Date,
}

impl DeliveryDate {
    /// Pair a postal code with a delivery date.
    pub fn new(postal_code: NorwegianPostalCode, date: Date) -> (r: Self)
        ensures
            r.postal_code == postal_code,
            r.date == date,
    {
        DeliveryDate { postal_code, date }
    }
}

// ---------------------------------------------------------------------------
// The calendar
// ---------------------------------------------------------------------------

/// A mailbox-delivery calendar: the delivery dates and the optional creation
/// instant.
#[derive(Debug)]
pub struct Calendar {
    delivery_dates: Vec<DeliveryDate>,
    created: Option<UnixTimestamp>,
}

/// The abstract value of a mailbox-delivery calendar.
#[verifier::ext_equal]
pub ghost struct PostgangCalendarV {
    pub delivery_dates: Seq<DeliveryDate>,
    pub created: Option<u64>,
}

impl View for Calendar {
    type V = PostgangCalendarV;

    closed spec fn view(&self) -> PostgangCalendarV {
        PostgangCalendarV {
            delivery_dates: self.delivery_dates@,
            created: match self.created {
                Some(t) => Some(t.0),
                None => None,
            },
        }
    }
}

impl PostgangCalendarV {
    /// Every delivery date valid, with a year small enough for date
    /// arithmetic.
    pub open spec fn wf(self) -> bool {
        forall|i: int|
            0 <= i < self.delivery_dates.len() ==> {
                let d = (#[trigger] self.delivery_dates[i]).date;
                d.wf() && d.year < 0x1_0000_0000
            }
    }
}

/// The summary text of one delivery: the postal code, the fixed phrase, the
/// Norwegian weekday and the day of month.
pub open spec fn spec_delivery_summary(code: u16, d: Date) -> Seq<u8> {
    spec_year4(code as int) + (": Posten kommer ").spec_bytes() + encode_utf8(
        spec_weekday_name(spec_weekday(d)),
    ) + seq![32u8] + spec_dec(d.day as int) + seq![46u8]
}

/// The identity text of one delivery: the fixed prefix, the postal code and
/// the dashed date.
pub open spec fn spec_delivery_uid(code: u16, d: Date) -> Seq<u8> {
    ("postgang-").spec_bytes() + spec_year4(code as int) + seq![45u8] + spec_date_dashed(d)
}

/// The wire bytes of one delivery event.
pub open spec fn spec_delivery_entry(code: u16, d: Date, ts: int) -> Seq<u8> {
    render_spec(("BEGIN:VEVENT").spec_bytes()) + render_spec(
        ("DTEND;VALUE=DATE:").spec_bytes() + spec_date_compact(spec_add_days(d, 1)),
    ) + render_spec(("DTSTAMP:").spec_bytes() + spec_utc_stamp(ts)) + render_spec(
        ("DTSTART;VALUE=DATE:").spec_bytes() + spec_date_compact(d),
    ) + render_spec(("SUMMARY:").spec_bytes() + spec_delivery_summary(code, d)) + render_spec(
        ("TRANSP:TRANSPARENT").spec_bytes(),
    ) + render_spec(("UID:").spec_bytes() + spec_delivery_uid(code, d)) + render_spec(
        ("URL:https://www.posten.no/levering-av-post/").spec_bytes(),
    ) + render_spec(("END:VEVENT").spec_bytes())
}

/// The wire bytes of a run of deliveries, in order.
pub open spec fn spec_delivery_entries(ds: Seq<DeliveryDate>, ts: int) -> Seq<u8>
    decreases ds.len(),
{
    if ds.len() == 0 {
        Seq::empty()
    } else {
        spec_delivery_entry(ds[0].postal_code@, ds[0].date, ts) + spec_delivery_entries(
            ds.skip(1),
            ts,
        )
    }
}

/// The whole mailbox-delivery document for one run stamped at `ts`.
pub open spec fn spec_postgang_doc(c: PostgangCalendarV, ts: int) -> Seq<u8> {
    render_spec(("BEGIN:VCALENDAR").spec_bytes()) + render_spec(("VERSION:2.0").spec_bytes())
        + render_spec(("PRODID:-//Aasan//Aasan Postgang//EN").spec_bytes()) + render_spec(
        ("CALSCALE:GREGORIAN").spec_bytes(),
    ) + render_spec(("METHOD:PUBLISH").spec_bytes()) + spec_delivery_entries(
        c.delivery_dates,
        ts,
    ) + render_spec(("END:VCALENDAR").spec_bytes())
}

fn emit_delivery_front(out: &mut Vec<u8>, code: &NorwegianPostalCode, d: Date, stamp: &Vec<u8>, Ghost(
    ts,
): Ghost<int>)
    requires
        d.wf(),
        d.year < 0x1_0000_0000,
        stamp@ == spec_utc_stamp(ts),
    ensures
        final(out)@ == old(out)@ + (render_spec(("BEGIN:VEVENT").spec_bytes()) + render_spec(
            ("DTEND;VALUE=DATE:").spec_bytes() + spec_date_compact(spec_add_days(d, 1)),
        ) + render_spec(("DTSTAMP:").spec_bytes() + spec_utc_stamp(ts)) + render_spec(
            ("DTSTART;VALUE=DATE:").spec_bytes() + spec_date_compact(d),
        ) + render_spec(("SUMMARY:").spec_bytes() + spec_delivery_summary(code@, d))),
{
    let ghost orig = out@;
    emit_text(out, "BEGIN:VEVENT");
    let dend = date_compact(&add_days(d, 1));
    emit_prefixed(out, "DTEND;VALUE=DATE:", dend.as_slice());
    emit_prefixed(out, "DTSTAMP:", stamp.as_slice());
    let dstart = date_compact(&d);
    emit_prefixed(out, "DTSTART;VALUE=DATE:", dstart.as_slice());
    let mut summary = code.digits();
    let phrase = ": Posten kommer ";
    append_bytes(&mut summary, phrase.as_bytes());
    let wd = weekday(&d);
    append_bytes(&mut summary, wd.as_bytes());
    summary.push(32);
    let day_digits = u64_dec(d.day as u64);
    append_bytes(&mut summary, day_digits.as_slice());
    summary.push(46);
    proof {
        assert(summary@ =~= spec_delivery_summary(code@, d));
    }
    emit_prefixed(out, "SUMMARY:", summary.as_slice());
    proof {
        assert(out@ =~= orig + (render_spec(("BEGIN:VEVENT").spec_bytes()) + render_spec(
            ("DTEND;VALUE=DATE:").spec_bytes() + spec_date_compact(spec_add_days(d, 1)),
        ) + render_spec(("DTSTAMP:").spec_bytes() + spec_utc_stamp(ts)) + render_spec(
            ("DTSTART;VALUE=DATE:").spec_bytes() + spec_date_compact(d),
        ) + render_spec(("SUMMARY:").spec_bytes() + spec_delivery_summary(code@, d))));
    }
}

fn emit_delivery(out: &mut Vec<u8>, dd: &DeliveryDate, stamp: &Vec<u8>, Ghost(ts): Ghost<int>)
    requires
        dd.date.wf(),
        dd.date.year < 0x1_0000_0000,
        stamp@ == spec_utc_stamp(ts),
    ensures
        final(out)@ == old(out)@ + spec_delivery_entry(dd.postal_code@, dd.date, ts),
{
    let ghost orig = out@;
    emit_delivery_front(out, &dd.postal_code, dd.date, stamp, Ghost(ts));
    emit_text(out, "TRANSP:TRANSPARENT");
    let mut uid: Vec<u8> = "postgang-".as_bytes_vec();
    let code_digits = dd.postal_code.digits();
    append_bytes(&mut uid, code_digits.as_slice());
    uid.push(45);
    let dashed = date_dashed(&dd.date);
    append_bytes(&mut uid, dashed.as_slice());
    proof {
        assert(uid@ =~= spec_delivery_uid(dd.postal_code@, dd.date));
    }
    emit_prefixed(out, "UID:", uid.as_slice());
    emit_text(out, "URL:https://www.posten.no/levering-av-post/");
    emit_text(out, "END:VEVENT");
    proof {
        assert(out@ =~= orig + spec_delivery_entry(dd.postal_code@, dd.date, ts));
    }
}

impl Calendar {
    /// A calendar over the given deliveries, stamped with the given creation
    /// instant where one is known.
    pub fn new(delivery_dates: Vec<DeliveryDate>, created: Option<UnixTimestamp>) -> (r: Self)
        ensures
            r@.delivery_dates == delivery_dates@,
            r@.created == (match created {
                Some(t) => Some(t.0),
                None => None::<u64>,
            }),
    {
        Calendar { delivery_dates, created }
    }

    /// Serialize this calendar to its byte-exact text document. With a known
    /// creation instant the document is a function of the calendar alone;
    /// without one, the current instant stamps it.
    pub fn to_bytes(&self) -> (r: Vec<u8>)
        requires
            self@.wf(),
        ensures
            self@.created matches Some(t) ==> r@ == spec_postgang_doc(self@, t as int),
            self@.created is None ==> exists|t: u64| r@ == spec_postgang_doc(self@, t as int),
    {
        let ts: UnixTimestamp = match &self.created {
            Some(t) => *t,
            None => now_timestamp(),
        };
        let stamp = ts.format_utc();
        let ghost ds = self@.delivery_dates;
        let mut out: Vec<u8> = Vec::new();
        emit_text(&mut out, "BEGIN:VCALENDAR");
        emit_text(&mut out, "VERSION:2.0");
        emit_text(&mut out, "PRODID:-//Aasan//Aasan Postgang//EN");
        emit_text(&mut out, "CALSCALE:GREGORIAN");
        emit_text(&mut out, "METHOD:PUBLISH");
        let ghost header = out@;
        proof {
            assert(ds.skip(0) =~= ds);
        }
        let mut i: usize = 0;
        while i < self.delivery_dates.len()
            invariant
                i <= ds.len(),
                self.delivery_dates@.len() == ds.len(),
                ds == self@.delivery_dates,
                self@.wf(),
                stamp@ == spec_utc_stamp(ts.0 as int),
                header + spec_delivery_entries(ds, ts.0 as int) == out@ + spec_delivery_entries(
                    ds.skip(i as int),
                    ts.0 as int,
                ),
            decreases ds.len() - i,
        {
            proof {
                assert(ds.skip(i as int)[0] == ds[i as int]);
            }
            let dd: DeliveryDate = self.delivery_dates[i];
            emit_delivery(&mut out, &dd, &stamp, Ghost(ts.0 as int));
            proof {
                assert(ds.skip(i as int).skip(1) =~= ds.skip(i as int + 1));
            }
            i = i + 1;
        }
        proof {
            assert(ds.skip(ds.len() as int) =~= Seq::<DeliveryDate>::empty());
        }
        emit_text(&mut out, "END:VCALENDAR");
        proof {
            assert(out@ =~= spec_postgang_doc(self@, ts.0 as int));
            if self@.created is None {
                assert(exists|t: u64| out@ == spec_postgang_doc(self@, t as int)) by {
                    assert(out@ == spec_postgang_doc(self@, ts.0 as int));
                }
            }
        }
        out
    }
}

} // verus!
