use rizwold::date::Date;
use rizwold::date::UnixTimestamp;
use rizwold::ical::Calendar;
use rizwold::ical::Event;
use rizwold::store::Url;

fn bytes(s: &str) -> Vec<u8> {
    s.as_bytes().to_vec()
}

fn event(uid: u128, summary: &str, url: Option<Vec<u8>>) -> Event {
    Event {
        uid,
        dtstamp: UnixTimestamp(0),
        date: Date { year: 2000, month: 2, day: 3 },
        summary: bytes(summary),
        url,
        duration: 1,
        rrule: None,
        rdates: Vec::new(),
        exdates: Vec::new(),
        sequence: 0,
        description: None,
        recurrence_id: None,
    }
}

#[test]
fn test_calendar_to_string() {
    let url = Url::try_from("http://example.com").ok().map(|u| u.to_bytes());
    let cal = Calendar {
        prodid: bytes("-// Cal test //"),
        name: Some(bytes("Name")),
        description: Some(bytes("Description")),
        events: vec![event(
            0,
            "Summa summarum, hei; altså A☣️☣️☣️☣️☣️☣️☣️☣️☣️☣️☣️☣️☣️☣️☣️☣️☣️☣️",
            url,
        )],
    };
    assert_eq!(
        String::from_utf8(cal.to_bytes()).unwrap(),
        "BEGIN:VCALENDAR\r\nVERSION:2.0\r\nPRODID:-// Cal test //\r\nCALSCALE:GREGORIAN\r\nMETHOD:PUBLISH\r\nNAME:Name\r\nX-WR-CALNAME:Name\r\nDESCRIPTION:Description\r\nX-WR-CALDESC:Description\r\nBEGIN:VEVENT\r\nUID:00000000-0000-0000-0000-000000000000\r\nDTSTAMP:19700101T000000Z\r\nSEQUENCE:0\r\nDTSTART;VALUE=DATE:20000203\r\nDTEND;VALUE=DATE:20000204\r\nSUMMARY:Summa summarum\\, hei\\; altså A☣\u{fe0f}☣\u{fe0f}☣\u{fe0f}☣\u{fe0f}☣\u{fe0f}☣\u{fe0f}\r\n ☣\u{fe0f}☣\u{fe0f}☣\u{fe0f}☣\u{fe0f}☣\u{fe0f}☣\u{fe0f}☣\u{fe0f}☣\u{fe0f}☣\u{fe0f}☣\u{fe0f}☣\u{fe0f}☣\u{fe0f}\r\nTRANSP:TRANSPARENT\r\nURL:http://example.com/\r\nEND:VEVENT\r\nEND:VCALENDAR\r\n"
    );
}

#[test]
fn end_to_end_single_master() {
    let url = Url::try_from("http://example.com").ok().map(|u| u.to_bytes());
    let mut e = event(0, "Lunch, soup; bread", url);
    e.sequence = 1;
    let cal = Calendar { prodid: bytes("-//Rizwold//Calendar//NO"), name: None, description: None, events: vec![e] };
    assert_eq!(
        String::from_utf8(cal.to_bytes()).unwrap(),
        "BEGIN:VCALENDAR\r\nVERSION:2.0\r\nPRODID:-//Rizwold//Calendar//NO\r\nCALSCALE:GREGORIAN\r\nMETHOD:PUBLISH\r\nBEGIN:VEVENT\r\nUID:00000000-0000-0000-0000-000000000000\r\nDTSTAMP:19700101T000000Z\r\nSEQUENCE:1\r\nDTSTART;VALUE=DATE:20000203\r\nDTEND;VALUE=DATE:20000204\r\nSUMMARY:Lunch\\, soup\\; bread\r\nTRANSP:TRANSPARENT\r\nURL:http://example.com/\r\nEND:VEVENT\r\nEND:VCALENDAR\r\n"
    );
}

#[test]
fn recurring_event_lines_in_order() {
    let mut e = event(0x00010203_0405_0607_0809_0a0b0c0d0e0f_u128, "Weekly", None);
    e.rrule = Some(bytes("FREQ=WEEKLY"));
    e.exdates = vec![Date { year: 2000, month: 2, day: 10 }, Date { year: 2000, month: 2, day: 17 }];
    e.recurrence_id = None;
    let cal = Calendar { prodid: bytes("-//Rizwold//Calendar//NO"), name: None, description: None, events: vec![e] };
    let doc = String::from_utf8(cal.to_bytes()).unwrap();
    assert!(doc.contains("UID:00010203-0405-0607-0809-0A0B0C0D0E0F\r\n"));
    assert!(doc.contains("RRULE:FREQ=WEEKLY\r\nEXDATE;VALUE=DATE:20000210\r\nEXDATE;VALUE=DATE:20000217\r\nSUMMARY:Weekly\r\n"));
}

#[test]
fn duplicate_copies_every_field() {
    let mut e = event(9, "Once", None);
    e.rrule = Some(bytes("FREQ=DAILY"));
    e.exdates = vec![Date { year: 2000, month: 2, day: 10 }];
    let copy = e.duplicate();
    assert_eq!(copy.uid, e.uid);
    assert_eq!(copy.rrule, e.rrule);
    assert_eq!(copy.exdates, e.exdates);
    assert_eq!(copy.summary, e.summary);
    assert_eq!(copy.date, e.date);
}

#[test]
fn override_event_carries_recurrence_id() {
    let mut e = event(0, "Moved", None);
    e.recurrence_id = Some(Date { year: 2000, month: 2, day: 10 });
    e.description = Some(bytes("new; place"));
    let cal = Calendar { prodid: bytes("p"), name: None, description: None, events: vec![e] };
    let doc = String::from_utf8(cal.to_bytes()).unwrap();
    assert!(doc.contains("DTEND;VALUE=DATE:20000204\r\nRECURRENCE-ID;VALUE=DATE:20000210\r\nSUMMARY:Moved\r\n"));
    assert!(doc.contains("DESCRIPTION:new\\; place\r\nEND:VEVENT\r\n"));
}
