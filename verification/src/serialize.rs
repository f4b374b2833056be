//! The document serializer: maps a renderable calendar into the ordered
//! property lines of its text document, every line escaped where it is free
//! text and folded to the octet budget.
use vstd::prelude::*;

verus! {

use vstd::string::StringSliceAdditionalSpecFns;
use vstd::string::StrSliceExecFns;

use crate::date::Date;
use crate::date::add_days;
use crate::date::date_compact;
use crate::date::i64_dec;
use crate::date::spec_add_days;
use crate::date::spec_date_compact;
use crate::date::spec_dec_signed;
use crate::date::spec_utc_stamp;
use crate::encode::append_bytes;
use crate::encode::escape_text;
use crate::encode::escape_spec;
use crate::encode::render_line;
use crate::encode::render_spec;
use crate::ical::Calendar;
use crate::ical::CalendarV;
use crate::ical::Event;
use crate::ical::EventV;
use crate::uid::spec_uuid_text;
use crate::uid::uuid_text;

/// Append the wire form of one logical line.
pub(crate) fn emit_line(out: &mut Vec<u8>, line: &[u8])
    ensures
        final(out)@ == old(out)@ + render_spec(line@),
{
    let rendered = render_line(line);
    append_bytes(out, rendered.as_slice());
}

/// Append the wire form of one fixed text line.
pub(crate) fn emit_text(out: &mut Vec<u8>, line: &str)
    ensures
        final(out)@ == old(out)@ + render_spec(line.spec_bytes()),
{
    emit_line(out, line.as_bytes());
}

/// Append the wire form of one property line: a fixed prefix and a payload.
pub(crate) fn emit_prefixed(out: &mut Vec<u8>, prefix: &str, payload: &[u8])
    ensures
        final(out)@ == old(out)@ + render_spec(prefix.spec_bytes() + payload@),
{
    let mut line: Vec<u8> = prefix.as_bytes_vec();
    append_bytes(&mut line, payload);
    emit_line(out, line.as_slice());
}

/// One date-valued property line per date, in order.
pub open spec fn spec_date_list(prefix: Seq<u8>, ds: Seq<Date>) -> Seq<u8>
    decreases ds.len(),
{
    if ds.len() == 0 {
        Seq::empty()
    } else {
        render_spec(prefix + spec_date_compact(ds[0])) + spec_date_list(prefix, ds.skip(1))
    }
}

fn emit_date_list(out: &mut Vec<u8>, prefix: &str, ds: &Vec<Date>)
    requires
        forall|i: int| 0 <= i < ds@.len() ==> (#[trigger] ds@[i]).wf(),
    ensures
        final(out)@ == old(out)@ + spec_date_list(prefix.spec_bytes(), ds@),
{
    let ghost orig = out@;
    let ghost p = prefix.spec_bytes();
    proof {
        assert(ds@.skip(0) =~= ds@);
    }
    let mut i: usize = 0;
    while i < ds.len()
        invariant
            i <= ds@.len(),
            forall|j: int| 0 <= j < ds@.len() ==> (#[trigger] ds@[j]).wf(),
            p == prefix.spec_bytes(),
            orig + spec_date_list(p, ds@) == out@ + spec_date_list(p, ds@.skip(i as int)),
        decreases ds@.len() - i,
    {
        let di: Date = ds[i];
        let b = date_compact(&di);
        emit_prefixed(out, prefix, b.as_slice());
        proof {
            assert(ds@.skip(i as int)[0] == ds@[i as int]);
            assert(ds@.skip(i as int).skip(1) =~= ds@.skip(i as int + 1));
        }
        i = i + 1;
    }
    proof {
        assert(ds@.skip(ds@.len() as int) =~= Seq::<Date>::empty());
    }
}

/// The fixed opening lines of one event: markers, identity, timestamp,
/// revision counter, start and end date.
pub open spec fn spec_event_front(e: EventV) -> Seq<u8> {
    render_spec(("BEGIN:VEVENT").spec_bytes()) + render_spec(
        ("UID:").spec_bytes() + spec_uuid_text(e.uid),
    ) + render_spec(("DTSTAMP:").spec_bytes() + spec_utc_stamp(e.dtstamp as int)) + render_spec(
        ("SEQUENCE:").spec_bytes() + spec_dec_signed(e.sequence as int),
    ) + render_spec(("DTSTART;VALUE=DATE:").spec_bytes() + spec_date_compact(e.date))
        + render_spec(
        ("DTEND;VALUE=DATE:").spec_bytes() + spec_date_compact(
            spec_add_days(e.date, e.duration as int),
        ),
    )
}

/// The recurrence lines of one event: recurrence identifier, rule, exclusion
/// dates and explicit dates, each only where present.
pub open spec fn spec_event_mid(e: EventV) -> Seq<u8> {
    (match e.recurrence_id {
        Some(d) => render_spec(("RECURRENCE-ID;VALUE=DATE:").spec_bytes() + spec_date_compact(d)),
        None => Seq::empty(),
    }) + (match e.rrule {
        Some(rule) => render_spec(("RRULE:").spec_bytes() + rule),
        None => Seq::empty(),
    }) + spec_date_list(("EXDATE;VALUE=DATE:").spec_bytes(), e.exdates) + spec_date_list(
        ("RDATE;VALUE=DATE:").spec_bytes(),
        e.rdates,
    )
}

/// The closing lines of one event: escaped summary, transparency marker,
/// URL and escaped description where present, end marker.
pub open spec fn spec_event_back(e: EventV) -> Seq<u8> {
    render_spec(("SUMMARY:").spec_bytes() + escape_spec(e.summary)) + render_spec(
        ("TRANSP:TRANSPARENT").spec_bytes(),
    ) + (match e.url {
        Some(u) => render_spec(("URL:").spec_bytes() + u),
        None => Seq::empty(),
    }) + (match e.description {
        Some(d) => render_spec(("DESCRIPTION:").spec_bytes() + escape_spec(d)),
        None => Seq::empty(),
    }) + render_spec(("END:VEVENT").spec_bytes())
}

/// The wire bytes of one renderable event: its property lines in the fixed
/// order, each escaped where free text and folded.
pub open spec fn spec_event_bytes(e: EventV) -> Seq<u8> {
    spec_event_front(e) + spec_event_mid(e) + spec_event_back(e)
}

/// The wire bytes of a run of events, in order.
pub open spec fn spec_events_bytes(es: Seq<EventV>) -> Seq<u8>
    decreases es.len(),
{
    if es.len() == 0 {
        Seq::empty()
    } else {
        spec_event_bytes(es[0]) + spec_events_bytes(es.skip(1))
    }
}

/// Calendar metadata emitted twice: on a standard property and on a vendor
/// extension property, both escaped.
pub open spec fn spec_meta_bytes(std_prefix: Seq<u8>, vendor_prefix: Seq<u8>, v: Option<
    Seq<u8>,
>) -> Seq<u8> {
    match v {
        Some(t) => render_spec(std_prefix + escape_spec(t)) + render_spec(
            vendor_prefix + escape_spec(t),
        ),
        None => Seq::empty(),
    }
}

/// The wire bytes of the document preamble: fixed marker lines, the product
/// identifier, and the duplicated name and description metadata.
pub open spec fn spec_header_bytes(c: CalendarV) -> Seq<u8> {
    render_spec(("BEGIN:VCALENDAR").spec_bytes()) + render_spec(("VERSION:2.0").spec_bytes())
        + render_spec(("PRODID:").spec_bytes() + c.prodid) + render_spec(
        ("CALSCALE:GREGORIAN").spec_bytes(),
    ) + render_spec(("METHOD:PUBLISH").spec_bytes()) + spec_meta_bytes(
        ("NAME:").spec_bytes(),
        ("X-WR-CALNAME:").spec_bytes(),
        c.name,
    ) + spec_meta_bytes(("DESCRIPTION:").spec_bytes(), ("X-WR-CALDESC:").spec_bytes(), c.description)
}

/// The whole document: preamble, every event, closing marker.
pub open spec fn spec_document(c: CalendarV) -> Seq<u8> {
    spec_header_bytes(c) + spec_events_bytes(c.events) + render_spec(("END:VCALENDAR").spec_bytes())
}

fn emit_event_front(out: &mut Vec<u8>, e: &Event)
    requires
        e@.wf(),
    ensures
        final(out)@ == old(out)@ + spec_event_front(e@),
{
    let ghost orig = out@;
    emit_text(out, "BEGIN:VEVENT");
    let uid = uuid_text(e.uid);
    emit_prefixed(out, "UID:", uid.as_slice());
    let stamp = e.dtstamp.format_utc();
    emit_prefixed(out, "DTSTAMP:", stamp.as_slice());
    let seqno = i64_dec(e.sequence);
    emit_prefixed(out, "SEQUENCE:", seqno.as_slice());
    let ds = date_compact(&e.date);
    emit_prefixed(out, "DTSTART;VALUE=DATE:", ds.as_slice());
    let end_date = add_days(e.date, e.duration as u64);
    let de = date_compact(&end_date);
    emit_prefixed(out, "DTEND;VALUE=DATE:", de.as_slice());
    proof {
        assert(out@ =~= orig + spec_event_front(e@));
    }
}

fn emit_event_mid(out: &mut Vec<u8>, e: &Event)
    requires
        e@.wf(),
    ensures
        final(out)@ == old(out)@ + spec_event_mid(e@),
{
    let ghost orig = out@;
    proof {
        assert forall|j: int| 0 <= j < e.exdates@.len() implies (#[trigger] e.exdates@[j]).wf() by {
            assert(e@.exdates[j].wf());
        }
        assert forall|j: int| 0 <= j < e.rdates@.len() implies (#[trigger] e.rdates@[j]).wf() by {
            assert(e@.rdates[j].wf());
        }
    }
    match &e.recurrence_id {
        Some(d) => {
            let rb = date_compact(d);
            emit_prefixed(out, "RECURRENCE-ID;VALUE=DATE:", rb.as_slice());
        },
        None => {},
    }
    match &e.rrule {
        Some(rule) => {
            proof {
                assert(rule.deep_view() =~= rule@);
            }
            emit_prefixed(out, "RRULE:", rule.as_slice());
        },
        None => {},
    }
    emit_date_list(out, "EXDATE;VALUE=DATE:", &e.exdates);
    emit_date_list(out, "RDATE;VALUE=DATE:", &e.rdates);
    proof {
        assert(out@ =~= orig + spec_event_mid(e@));
    }
}

fn emit_event_back(out: &mut Vec<u8>, e: &Event)
    requires
        e@.wf(),
    ensures
        final(out)@ == old(out)@ + spec_event_back(e@),
{
    let ghost orig = out@;
    let esc = escape_text(e.summary.as_slice());
    emit_prefixed(out, "SUMMARY:", esc.as_slice());
    emit_text(out, "TRANSP:TRANSPARENT");
    match &e.url {
        Some(u) => {
            proof {
                assert(u.deep_view() =~= u@);
            }
            emit_prefixed(out, "URL:", u.as_slice());
        },
        None => {},
    }
    match &e.description {
        Some(d) => {
            proof {
                assert(d.deep_view() =~= d@);
            }
            let escd = escape_text(d.as_slice());
            emit_prefixed(out, "DESCRIPTION:", escd.as_slice());
        },
        None => {},
    }
    emit_text(out, "END:VEVENT");
    proof {
        assert(out@ =~= orig + spec_event_back(e@));
    }
}

fn emit_event(out: &mut Vec<u8>, e: &Event)
    requires
        e@.wf(),
    ensures
        final(out)@ == old(out)@ + spec_event_bytes(e@),
{
    let ghost orig = out@;
    emit_event_front(out, e);
    emit_event_mid(out, e);
    emit_event_back(out, e);
    proof {
        assert(out@ =~= orig + spec_event_bytes(e@));
    }
}

impl Calendar {
    /// Serialize this calendar to its byte-exact text document.
    #[verifier::rlimit(60)]
    pub fn to_bytes(&self) -> (r: Vec<u8>)
        requires
            self@.wf(),
        ensures
            r@ == spec_document(self@),
    {
        let mut out: Vec<u8> = Vec::new();
        emit_text(&mut out, "BEGIN:VCALENDAR");
        emit_text(&mut out, "VERSION:2.0");
        emit_prefixed(&mut out, "PRODID:", self.prodid.as_slice());
        emit_text(&mut out, "CALSCALE:GREGORIAN");
        emit_text(&mut out, "METHOD:PUBLISH");
        match &self.name {
            Some(n) => {
                proof {
                    assert(n.deep_view() =~= n@);
                }
                let esc = escape_text(n.as_slice());
                emit_prefixed(&mut out, "NAME:", esc.as_slice());
                emit_prefixed(&mut out, "X-WR-CALNAME:", esc.as_slice());
            },
            None => {},
        }
        match &self.description {
            Some(d) => {
                proof {
                    assert(d.deep_view() =~= d@);
                }
                let esc = escape_text(d.as_slice());
                emit_prefixed(&mut out, "DESCRIPTION:", esc.as_slice());
                emit_prefixed(&mut out, "X-WR-CALDESC:", esc.as_slice());
            },
            None => {},
        }
        proof {
            assert(out@ =~= spec_header_bytes(self@));
            assert(self@.events.skip(0) =~= self@.events);
        }
        let ghost ev = self@.events;
        let mut i: usize = 0;
        while i < self.events.len()
            invariant
                i <= ev.len(),
                ev == self@.events,
                self@.wf(),
                self.events@.len() == ev.len(),
                spec_header_bytes(self@) + spec_events_bytes(ev) == out@ + spec_events_bytes(
                    ev.skip(i as int),
                ),
            decreases ev.len() - i,
        {
            proof {
                assert(self.events.deep_view()[i as int] == self.events@[i as int].deep_view());
                assert(ev.skip(i as int)[0] == ev[i as int]);
            }
            emit_event(&mut out, &self.events[i]);
            proof {
                assert(ev.skip(i as int).skip(1) =~= ev.skip(i as int + 1));
            }
            i = i + 1;
        }
        proof {
            assert(ev.skip(ev.len() as int) =~= Seq::<EventV>::empty());
        }
        emit_text(&mut out, "END:VCALENDAR");
        proof {
            assert(out@ =~= spec_document(self@));
        }
        out
    }
}

} // verus!
