use rizwold::collect::EventCollector;
use rizwold::date::Date;
use rizwold::date::UnixTimestamp;
use rizwold::store::Event;
use rizwold::store::EventException;

fn bytes(s: &str) -> Vec<u8> {
    s.as_bytes().to_vec()
}

fn master(id: u128) -> Event {
    Event {
        id,
        calendar_id: 7,
        summary: bytes("Standup"),
        description: Some(bytes("daily sync")),
        url: None,
        dtstart_initial: Date { year: 2024, month: 1, day: 8 },
        duration_days: 1,
        rrule: Some(bytes("FREQ=WEEKLY")),
        sequence: 3,
        created_at: UnixTimestamp(100),
        last_modified: UnixTimestamp(200),
    }
}

fn exception(
    event_id: u128,
    original: Date,
    new_date: Option<Date>,
    new_summary: Option<&str>,
    new_description: Option<&str>,
) -> EventException {
    EventException {
        id: 99,
        event_id,
        original_date: original,
        new_date,
        new_summary: new_summary.map(bytes),
        new_description: new_description.map(bytes),
    }
}

#[test]
fn replacement_date_produces_one_override() {
    let mut c = EventCollector::new();
    c.process_event(master(1));
    let original = Date { year: 2024, month: 1, day: 15 };
    let moved = Date { year: 2024, month: 1, day: 16 };
    c.process_exception(exception(1, original, Some(moved), None, None));
    let cal = c.finalize();
    assert_eq!(cal.events.len(), 2);
    assert_eq!(cal.events[0].exdates, vec![original]);
    assert_eq!(cal.events[1].recurrence_id, Some(original));
    assert_eq!(cal.events[1].date, moved);
    assert_eq!(cal.events[1].rrule, None);
    assert_eq!(cal.events[1].exdates, Vec::<Date>::new());
    assert_eq!(cal.events[1].summary, bytes("Standup"));
}

#[test]
fn replacement_summary_produces_override_on_original_date() {
    let mut c = EventCollector::new();
    c.process_event(master(1));
    let original = Date { year: 2024, month: 1, day: 15 };
    c.process_exception(exception(1, original, None, Some("Retro"), Some("longer")));
    let cal = c.finalize();
    assert_eq!(cal.events.len(), 2);
    assert_eq!(cal.events[1].date, original);
    assert_eq!(cal.events[1].summary, bytes("Retro"));
    assert_eq!(cal.events[1].description, Some(bytes("longer")));
    assert_eq!(cal.events[1].recurrence_id, Some(original));
}

#[test]
fn description_only_exception_suppresses_silently() {
    let mut c = EventCollector::new();
    c.process_event(master(1));
    let original = Date { year: 2024, month: 1, day: 15 };
    c.process_exception(exception(1, original, None, None, Some("gone")));
    let cal = c.finalize();
    assert_eq!(cal.events.len(), 1);
    assert_eq!(cal.events[0].exdates, vec![original]);
}

#[test]
fn exclusion_dates_accumulate_one_per_exception() {
    let mut c = EventCollector::new();
    c.process_event(master(1));
    let d1 = Date { year: 2024, month: 1, day: 15 };
    let d2 = Date { year: 2024, month: 1, day: 22 };
    let d3 = Date { year: 2024, month: 1, day: 29 };
    c.process_exception(exception(1, d1, Some(Date { year: 2024, month: 1, day: 16 }), None, None));
    c.process_exception(exception(1, d2, None, None, None));
    c.process_exception(exception(1, d3, None, Some("Other"), None));
    let cal = c.finalize();
    // One master, two overrides; three exclusion dates on the master.
    assert_eq!(cal.events.len(), 3);
    assert_eq!(cal.events[0].exdates, vec![d1, d2, d3]);
}

#[test]
fn exception_for_unknown_master_is_discarded() {
    let mut c = EventCollector::new();
    c.process_event(master(1));
    c.process_exception(exception(
        2,
        Date { year: 2024, month: 1, day: 15 },
        Some(Date { year: 2024, month: 1, day: 16 }),
        None,
        None,
    ));
    let cal = c.finalize();
    assert_eq!(cal.events.len(), 1);
    assert_eq!(cal.events[0].exdates, Vec::<Date>::new());
}

#[test]
fn later_master_with_same_identity_replaces_earlier() {
    let mut c = EventCollector::new();
    c.process_event(master(1));
    let mut again = master(1);
    again.summary = bytes("Standup v2");
    c.process_event(again);
    let cal = c.finalize();
    assert_eq!(cal.events.len(), 1);
    assert_eq!(cal.events[0].summary, bytes("Standup v2"));
}

#[test]
fn finalize_orders_masters_before_overrides() {
    let mut c = EventCollector::new();
    c.process_event(master(1));
    c.process_event(master(2));
    let original = Date { year: 2024, month: 1, day: 15 };
    c.process_exception(exception(1, original, Some(Date { year: 2024, month: 1, day: 17 }), None, None));
    let cal = c.finalize();
    assert_eq!(cal.prodid, bytes("-//Rizwold//Calendar//NO"));
    assert_eq!(cal.events.len(), 3);
    assert_eq!(cal.events[0].uid, 1);
    assert_eq!(cal.events[1].uid, 2);
    assert_eq!(cal.events[2].recurrence_id, Some(original));
}

#[test]
fn master_fields_carry_over() {
    let mut c = EventCollector::new();
    c.process_event(master(5));
    let cal = c.finalize();
    let e = &cal.events[0];
    assert_eq!(e.uid, 5);
    assert_eq!(e.dtstamp, UnixTimestamp(200));
    assert_eq!(e.sequence, 3);
    assert_eq!(e.duration, 1);
    assert_eq!(e.date, Date { year: 2024, month: 1, day: 8 });
    assert_eq!(e.rrule, Some(bytes("FREQ=WEEKLY")));
    assert_eq!(e.recurrence_id, None);
}
