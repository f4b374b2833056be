//! The recurrence materializer: collapses master event records and their
//! per-occurrence exception records into the flattened set of renderable
//! events, and the laws that hold of that collapse.
use vstd::prelude::*;

verus! {

use vstd::string::StrSliceExecFns;
use vstd::string::StringSliceAdditionalSpecFns;

use crate::ical;
use crate::ical::EventV;
use crate::ical::copy_opt_bytes;
use crate::store;
use crate::store::EventExceptionV;
use crate::encode::copy_bytes;

/// The abstract state of one materialization run: the masters seen so far,
/// keyed by identity, and the override events produced so far, in order.
#[verifier::ext_equal]
pub ghost struct CollectorV {
    pub masters: Seq<EventV>,
    pub exceptions: Seq<EventV>,
}

/// The renderable master a stored event row becomes: exclusion and explicit
/// date lists start empty, the timestamp is the row's modification instant.
pub open spec fn spec_master_of(db: store::EventV) -> EventV {
    EventV {
        uid: db.id,
        dtstamp: db.last_modified,
        duration: db.duration_days,
        rrule: db.rrule,
        rdates: Seq::empty(),
        exdates: Seq::empty(),
        sequence: db.sequence as i64,
        date: db.dtstart_initial,
        summary: db.summary,
        description: db.description,
        url: db.url,
        recurrence_id: None,
    }
}

/// Whether an exception carries replacement content that must render as an
/// override event of its own.
pub open spec fn spec_has_replacement(ex: EventExceptionV) -> bool {
    ex.new_date is Some || ex.new_summary is Some
}

/// The override event an exception produces from the current state of its
/// master: linked back through the original date, started on the replacement
/// date (or the original one), replacement summary and description laid over
/// the master's, and never carrying a rule or date lists of its own.
pub open spec fn spec_override_of(m: EventV, ex: EventExceptionV) -> EventV {
    EventV {
        uid: m.uid,
        dtstamp: m.dtstamp,
        duration: m.duration,
        rrule: None,
        rdates: Seq::empty(),
        exdates: Seq::empty(),
        sequence: m.sequence,
        date: match ex.new_date {
            Some(d) => d,
            None => ex.original_date,
        },
        summary: match ex.new_summary {
            Some(s) => s,
            None => m.summary,
        },
        description: match ex.new_description {
            Some(d) => Some(d),
            None => m.description,
        },
        url: m.url,
        recurrence_id: Some(ex.original_date),
    }
}

/// Whether some master in `s` carries identity `id`.
pub open spec fn spec_has_uid(s: Seq<EventV>, id: u128) -> bool {
    exists|i: int| 0 <= i < s.len() && s[i].uid == id
}

/// The index of the master carrying identity `id`; meaningful only where
/// `spec_has_uid` holds and identities are unique.
pub open spec fn spec_uid_index(s: Seq<EventV>, id: u128) -> int {
    choose|i: int| 0 <= i < s.len() && s[i].uid == id
}

/// One master record arriving: it becomes a renderable master; a record with
/// an identity already seen replaces that one, any other is appended.
pub open spec fn spec_process_event(c: CollectorV, db: store::EventV) -> CollectorV {
    if spec_has_uid(c.masters, db.id) {
        CollectorV {
            masters: c.masters.update(spec_uid_index(c.masters, db.id), spec_master_of(db)),
            exceptions: c.exceptions,
        }
    } else {
        CollectorV { masters: c.masters.push(spec_master_of(db)), exceptions: c.exceptions }
    }
}

/// One exception record arriving: without a known master it is discarded;
/// otherwise the original date always joins the master's exclusion list, and
/// an override event is appended exactly when replacement content is present.
pub open spec fn spec_process_exception(c: CollectorV, ex: EventExceptionV) -> CollectorV {
    if spec_has_uid(c.masters, ex.event_id) {
        let i = spec_uid_index(c.masters, ex.event_id);
        let m = c.masters[i];
        let m2 = EventV {
            uid: m.uid,
            dtstamp: m.dtstamp,
            duration: m.duration,
            rrule: m.rrule,
            rdates: m.rdates,
            exdates: m.exdates.push(ex.original_date),
            sequence: m.sequence,
            date: m.date,
            summary: m.summary,
            description: m.description,
            url: m.url,
            recurrence_id: m.recurrence_id,
        };
        CollectorV {
            masters: c.masters.update(i, m2),
            exceptions: if spec_has_replacement(ex) {
                c.exceptions.push(spec_override_of(m, ex))
            } else {
                c.exceptions
            },
        }
    } else {
        c
    }
}

/// Collects master and exception records for one calendar into the final
/// event set: masters in a keyed list, overrides in arrival order.
#[derive(Debug)]
pub struct EventCollector {
    masters: Vec<ical::Event>,
    exceptions: Vec<ical::Event>,
}

impl View for EventCollector {
    type V = CollectorV;

    closed spec fn view(&self) -> CollectorV {
        CollectorV { masters: self.masters.deep_view(), exceptions: self.exceptions.deep_view() }
    }
}

impl EventCollector {
    /// Master identities are unique.
    pub open spec fn wf(self) -> bool {
        forall|i: int, j: int|
            0 <= i < j < self@.masters.len() ==> (#[trigger] self@.masters[i]).uid != (
            #[trigger] self@.masters[j]).uid
    }

    /// An empty run: no masters, no overrides.
    pub fn new() -> (r: Self)
        ensures
            r.wf(),
            r@.masters == Seq::<EventV>::empty(),
            r@.exceptions == Seq::<EventV>::empty(),
    {
        let r = EventCollector { masters: Vec::new(), exceptions: Vec::new() };
        proof {
            assert(r@.masters =~= Seq::<EventV>::empty());
            assert(r@.exceptions =~= Seq::<EventV>::empty());
        }
        r
    }

    fn find_index(&self, id: u128) -> (r: Option<usize>)
        ensures
            r matches Some(i) ==> i < self@.masters.len() && self@.masters[i as int].uid == id,
            r is None ==> forall|j: int|
                0 <= j < self@.masters.len() ==> (#[trigger] self@.masters[j]).uid != id,
    {
        let mut i: usize = 0;
        while i < self.masters.len()
            invariant
                i <= self@.masters.len(),
                self@.masters.len() == self.masters.len(),
                forall|j: int| 0 <= j < i ==> (#[trigger] self@.masters[j]).uid != id,
            decreases self.masters.len() - i,
        {
            if self.masters[i].uid == id {
                return Some(i);
            }
            i = i + 1;
        }
        None
    }

    /// Take one stored master record into the run.
    pub fn process_event(&mut self, db_event: store::Event)
        requires
            old(self).wf(),
        ensures
            final(self).wf(),
            final(self)@ == spec_process_event(old(self)@, db_event@),
    {
        let ghost dbv = db_event@;
        let event = ical::Event {
            uid: db_event.id,
            dtstamp: db_event.last_modified,
            date: db_event.dtstart_initial,
            summary: db_event.summary,
            description: db_event.description,
            rrule: db_event.rrule,
            sequence: db_event.sequence as i64,
            duration: db_event.duration_days,
            rdates: Vec::new(),
            exdates: Vec::new(),
            url: match db_event.url {
                Some(u) => Some(u.to_bytes()),
                None => None,
            },
            recurrence_id: None,
        };
        proof {
            assert(event@ =~= spec_master_of(dbv));
        }
        match self.find_index(event.uid) {
            Some(i) => {
                self.masters.remove(i);
                self.masters.insert(i, event);
                proof {
                    let c = old(self)@;
                    let k = spec_uid_index(c.masters, dbv.id);
                    assert(c.masters[i as int].uid == dbv.id);
                    assert(spec_has_uid(c.masters, dbv.id));
                    assert(k == i) by {
                        assert(0 <= k < c.masters.len() && c.masters[k].uid == dbv.id);
                    }
                    assert(self@.masters =~= c.masters.update(k, spec_master_of(dbv)));
                }
            },
            None => {
                self.masters.push(event);
                proof {
                    assert(self@.masters =~= old(self)@.masters.push(spec_master_of(dbv)));
                }
            },
        }
    }

    /// Take one stored exception record into the run.
    pub fn process_exception(&mut self, ex: store::EventException)
        requires
            old(self).wf(),
        ensures
            final(self).wf(),
            final(self)@ == spec_process_exception(old(self)@, ex@),
    {
        let ghost exv = ex@;
        match self.find_index(ex.event_id) {
            None => {
                proof {
                    assert(!spec_has_uid(old(self)@.masters, exv.event_id));
                }
            },
            Some(i) => {
                let mut m = self.masters.remove(i);
                let ghost mv = m@;
                if ex.new_date.is_some() || ex.new_summary.is_some() {
                    let ov = ical::Event {
                        uid: m.uid,
                        dtstamp: m.dtstamp,
                        duration: m.duration,
                        rrule: None,
                        rdates: Vec::new(),
                        exdates: Vec::new(),
                        sequence: m.sequence,
                        date: match ex.new_date {
                            Some(d) => d,
                            None => ex.original_date,
                        },
                        summary: match ex.new_summary {
                            Some(s) => s,
                            None => copy_bytes(&m.summary),
                        },
                        description: match ex.new_description {
                            Some(d) => Some(d),
                            None => copy_opt_bytes(&m.description),
                        },
                        url: copy_opt_bytes(&m.url),
                        recurrence_id: Some(ex.original_date),
                    };
                    proof {
                        assert(ov@ =~= spec_override_of(mv, exv));
                    }
                    self.exceptions.push(ov);
                }
                m.exdates.push(ex.original_date);
                self.masters.insert(i, m);
                proof {
                    let c = old(self)@;
                    let k = spec_uid_index(c.masters, exv.event_id);
                    assert(c.masters[i as int].uid == exv.event_id);
                    assert(spec_has_uid(c.masters, exv.event_id));
                    assert(k == i) by {
                        assert(0 <= k < c.masters.len() && c.masters[k].uid == exv.event_id);
                    }
                    assert(self@.masters =~= spec_process_exception(c, exv).masters);
                    assert(self@.exceptions =~= spec_process_exception(c, exv).exceptions);
                }
            },
        }
    }

    /// Close the run: the final event set is every master followed by every
    /// override, under the product identifier of this exporter.
    pub fn finalize(self) -> (r: ical::Calendar)
        ensures
            r@.prodid == "-//Rizwold//Calendar//NO".spec_bytes(),
            r@.name is None,
            r@.description is None,
            r@.events == self@.masters + self@.exceptions,
    {
        let ghost cv = self@;
        let EventCollector { mut masters, mut exceptions } = self;
        masters.append(&mut exceptions);
        let r = ical::Calendar {
            prodid: "-//Rizwold//Calendar//NO".as_bytes_vec(),
            name: None,
            description: None,
            events: masters,
        };
        proof {
            assert(r@.events =~= cv.masters + cv.exceptions);
        }
        r
    }
}

// ---------------------------------------------------------------------------
// Laws of materialization
// ---------------------------------------------------------------------------

/// The result of taking a whole run of exception records, first to last.
pub open spec fn spec_process_exceptions(c: CollectorV, exs: Seq<EventExceptionV>) -> CollectorV
    decreases exs.len(),
{
    if exs.len() == 0 {
        c
    } else {
        spec_process_exceptions(spec_process_exception(c, exs[0]), exs.skip(1))
    }
}

/// Identity `id` occurs in `s` at index `i` and nowhere else.
pub open spec fn spec_unique_at(s: Seq<EventV>, id: u128, i: int) -> bool {
    &&& 0 <= i < s.len()
    &&& s[i].uid == id
    &&& forall|k: int| 0 <= k < s.len() && k != i ==> (#[trigger] s[k]).uid != id
}

/// Law: an exception that carries a replacement date or summary produces
/// exactly one override event, whose recurrence identifier is the
/// exception's original date, and its original date still joins the master's
/// exclusion list.
pub proof fn lemma_replacement_yields_override(c: CollectorV, ex: EventExceptionV, i: int)
    requires
        spec_unique_at(c.masters, ex.event_id, i),
        spec_has_replacement(ex),
    ensures
        spec_process_exception(c, ex).exceptions == c.exceptions.push(
            spec_override_of(c.masters[i], ex),
        ),
        spec_override_of(c.masters[i], ex).recurrence_id == Some(ex.original_date),
        spec_process_exception(c, ex).masters[i].exdates == c.masters[i].exdates.push(
            ex.original_date,
        ),
{
    assert(spec_has_uid(c.masters, ex.event_id));
    let k = spec_uid_index(c.masters, ex.event_id);
    assert(0 <= k < c.masters.len() && c.masters[k].uid == ex.event_id);
    assert(k == i);
}

/// Law: an exception without replacement content produces no override event,
/// yet its original date still joins the master's exclusion list, so the
/// occurrence vanishes silently.
pub proof fn lemma_suppression_without_override(c: CollectorV, ex: EventExceptionV, i: int)
    requires
        spec_unique_at(c.masters, ex.event_id, i),
        !spec_has_replacement(ex),
    ensures
        spec_process_exception(c, ex).exceptions == c.exceptions,
        spec_process_exception(c, ex).masters[i].exdates == c.masters[i].exdates.push(
            ex.original_date,
        ),
{
    assert(spec_has_uid(c.masters, ex.event_id));
    let k = spec_uid_index(c.masters, ex.event_id);
    assert(0 <= k < c.masters.len() && c.masters[k].uid == ex.event_id);
    assert(k == i);
}

/// Law: a master visited by N exceptions gains exactly their N original
/// dates as exclusion dates, one per exception and in order, whether or not
/// any of them produced an override.
pub proof fn lemma_exclusions_accumulate(c: CollectorV, exs: Seq<EventExceptionV>, i: int)
    requires
        spec_unique_at(c.masters, c.masters[i].uid, i),
        forall|k: int| 0 <= k < exs.len() ==> (#[trigger] exs[k]).event_id == c.masters[i].uid,
    ensures
        spec_process_exceptions(c, exs).masters.len() == c.masters.len(),
        spec_process_exceptions(c, exs).masters[i].uid == c.masters[i].uid,
        spec_process_exceptions(c, exs).masters[i].exdates == c.masters[i].exdates
            + exs.map_values(|e: EventExceptionV| e.original_date),
        spec_process_exceptions(c, exs).masters[i].exdates.len() == c.masters[i].exdates.len()
            + exs.len(),
    decreases exs.len(),
{
    let originals = exs.map_values(|e: EventExceptionV| e.original_date);
    if exs.len() == 0 {
        assert(c.masters[i].exdates + originals =~= c.masters[i].exdates);
    } else {
        let ex = exs[0];
        let c2 = spec_process_exception(c, ex);
        assert(spec_has_uid(c.masters, ex.event_id));
        let k = spec_uid_index(c.masters, ex.event_id);
        assert(0 <= k < c.masters.len() && c.masters[k].uid == ex.event_id);
        assert(k == i);
        assert(c2.masters.len() == c.masters.len());
        assert(c2.masters[i].exdates == c.masters[i].exdates.push(ex.original_date));
        assert(c2.masters[i].uid == c.masters[i].uid);
        assert(spec_unique_at(c2.masters, c2.masters[i].uid, i));
        assert(forall|k2: int|
            0 <= k2 < exs.skip(1).len() ==> (#[trigger] exs.skip(1)[k2]).event_id
                == c2.masters[i].uid);
        lemma_exclusions_accumulate(c2, exs.skip(1), i);
        let rest = exs.skip(1).map_values(|e: EventExceptionV| e.original_date);
        assert(spec_process_exceptions(c, exs).masters[i].exdates == c.masters[i].exdates.push(
            ex.original_date,
        ) + rest);
        assert(c.masters[i].exdates.push(ex.original_date) + rest =~= c.masters[i].exdates
            + originals);
    }
}

} // verus!
