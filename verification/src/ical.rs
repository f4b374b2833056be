//! The renderable calendar model: the flattened events a calendar client
//! must see, and the calendar document wrapper around them.
use vstd::prelude::*;

verus! {

use crate::date::Date;
use crate::date::UnixTimestamp;
use crate::encode::copy_vec;
use crate::encode::copy_bytes;

/// Duplicate an optional byte vector.
pub fn copy_opt_bytes(o: &Option<Vec<u8>>) -> (r: Option<Vec<u8>>)
    ensures
        r.deep_view() == o.deep_view(),
{
    match o {
        Some(v) => Some(copy_bytes(v)),
        None => None,
    }
}

/// One renderable event: a master with its exclusion dates, or an override
/// linked to its master through a recurrence identifier.
#[derive(Debug)]
pub struct Event {
    pub uid: u128,
    pub dtstamp: UnixTimestamp,
    pub duration: u8,
    pub rrule: Option<Vec<u8>>,
    pub rdates: Vec<Date>,
    pub exdates: Vec<Date>,
    pub sequence: i64,
    pub date: Date,
    pub summary: Vec<u8>,
    pub description: Option<Vec<u8>>,
    pub url: Option<Vec<u8>>,
    pub recurrence_id: Option<Date>,
}

/// The abstract value of one renderable event.
#[verifier::ext_equal]
pub ghost struct EventV {
    pub uid: u128,
    pub dtstamp: u64,
    pub duration: u8,
    pub rrule: Option<Seq<u8>>,
    pub rdates: Seq<Date>,
    pub exdates: Seq<Date>,
    pub sequence: i64,
    pub date: Date,
    pub summary: Seq<u8>,
    pub description: Option<Seq<u8>>,
    pub url: Option<Seq<u8>>,
    pub recurrence_id: Option<Date>,
}

impl View for Event {
    type V = EventV;

    open spec fn view(&self) -> EventV {
        EventV {
            uid: self.uid,
            dtstamp: self.dtstamp.0,
            duration: self.duration,
            rrule: self.rrule.deep_view(),
            rdates: self.rdates@,
            exdates: self.exdates@,
            sequence: self.sequence,
            date: self.date,
            summary: self.summary@,
            description: self.description.deep_view(),
            url: self.url.deep_view(),
            recurrence_id: self.recurrence_id,
        }
    }
}

impl DeepView for Event {
    type V = EventV;

    open spec fn deep_view(&self) -> EventV {
        self.view()
    }
}

impl EventV {
    /// Dates valid, a positive whole-day duration, and a year small enough
    /// that date arithmetic stays inside a machine word.
    pub open spec fn wf(self) -> bool {
        &&& self.date.wf()
        &&& self.date.year < 0x1_0000_0000
        &&& self.duration >= 1
        &&& match self.recurrence_id {
            Some(d) => d.wf(),
            None => true,
        }
        &&& forall|i: int| 0 <= i < self.exdates.len() ==> (#[trigger] self.exdates[i]).wf()
        &&& forall|i: int| 0 <= i < self.rdates.len() ==> (#[trigger] self.rdates[i]).wf()
    }
}

impl Event {
    /// An exact copy.
    pub fn duplicate(&self) -> (r: Event)
        ensures
            r@ == self@,
    {
        Event {
            uid: self.uid,
            dtstamp: self.dtstamp,
            duration: self.duration,
            rrule: copy_opt_bytes(&self.rrule),
            rdates: copy_vec(&self.rdates),
            exdates: copy_vec(&self.exdates),
            sequence: self.sequence,
            date: self.date,
            summary: copy_bytes(&self.summary),
            description: copy_opt_bytes(&self.description),
            url: copy_opt_bytes(&self.url),
            recurrence_id: self.recurrence_id,
        }
    }
}

/// A renderable calendar document: its product identifier, optional display
/// name and description, and its flattened events.
#[derive(Debug)]
pub struct Calendar {
    pub prodid: Vec<u8>,
    pub name: Option<Vec<u8>>,
    pub description: Option<Vec<u8>>,
    pub events: Vec<Event>,
}

/// The abstract value of a renderable calendar.
#[verifier::ext_equal]
pub ghost struct CalendarV {
    pub prodid: Seq<u8>,
    pub name: Option<Seq<u8>>,
    pub description: Option<Seq<u8>>,
    pub events: Seq<EventV>,
}

impl View for Calendar {
    type V = CalendarV;

    open spec fn view(&self) -> CalendarV {
        CalendarV {
            prodid: self.prodid@,
            name: self.name.deep_view(),
            description: self.description.deep_view(),
            events: self.events.deep_view(),
        }
    }
}

impl CalendarV {
    /// Every event well formed.
    pub open spec fn wf(self) -> bool {
        forall|i: int| 0 <= i < self.events.len() ==> (#[trigger] self.events[i]).wf()
    }
}

} // verus!
