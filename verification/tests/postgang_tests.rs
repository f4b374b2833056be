use rizwold::date::Date;
use rizwold::date::UnixTimestamp;
use rizwold::postgang::Calendar;
use rizwold::postgang::DeliveryDate;
use rizwold::postgang::NorwegianPostalCode;

#[test]
fn postal_code_valid() {
    let code = NorwegianPostalCode::try_from("0001").unwrap();
    assert_eq!(code.digits(), b"0001".to_vec());
    let code = NorwegianPostalCode::try_from("7800").unwrap();
    assert_eq!(code.digits(), b"7800".to_vec());
}

#[test]
fn postal_code_invalid() {
    assert!(NorwegianPostalCode::try_from("999").is_err());
    assert!(NorwegianPostalCode::try_from("10000").is_err());
    assert!(NorwegianPostalCode::try_from("12a4").is_err());
    assert!(NorwegianPostalCode::try_from("").is_err());
    let err = NorwegianPostalCode::try_from("abcd").unwrap_err();
    assert!(err.message().contains("4 digits"));
}

#[test]
fn delivery_calendar_document() {
    let postal_code = NorwegianPostalCode::try_from("7800").unwrap();
    let date = Date { year: 1970, month: 8, day: 13 };
    // 1970-08-13T00:00:00Z is 224 days past the epoch.
    let created = Some(UnixTimestamp(224 * 86400));
    let delivery_dates = vec![DeliveryDate::new(postal_code, date)];
    let calendar = Calendar::new(delivery_dates, created);
    assert_eq!(
        String::from_utf8(calendar.to_bytes()).unwrap(),
        "BEGIN:VCALENDAR\r\n\
         VERSION:2.0\r\n\
         PRODID:-//Aasan//Aasan Postgang//EN\r\n\
         CALSCALE:GREGORIAN\r\n\
         METHOD:PUBLISH\r\n\
         BEGIN:VEVENT\r\n\
         DTEND;VALUE=DATE:19700814\r\n\
         DTSTAMP:19700813T000000Z\r\n\
         DTSTART;VALUE=DATE:19700813\r\n\
         SUMMARY:7800: Posten kommer torsdag 13.\r\n\
         TRANSP:TRANSPARENT\r\n\
         UID:postgang-7800-1970-08-13\r\n\
         URL:https://www.posten.no/levering-av-post/\r\n\
         END:VEVENT\r\n\
         END:VCALENDAR\r\n"
    );
}

#[test]
fn delivery_calendar_accepts_dates_before_the_epoch() {
    let postal_code = NorwegianPostalCode::try_from("7800").unwrap();
    // 1960-02-03 was a Wednesday.
    let date = Date { year: 1960, month: 2, day: 3 };
    let calendar = Calendar::new(vec![DeliveryDate::new(postal_code, date)], Some(UnixTimestamp(0)));
    let doc = String::from_utf8(calendar.to_bytes()).unwrap();
    assert!(doc.contains("DTSTART;VALUE=DATE:19600203\r\n"));
    assert!(doc.contains("DTEND;VALUE=DATE:19600204\r\n"));
    assert!(doc.contains("SUMMARY:7800: Posten kommer onsdag 3.\r\n"));
    assert!(doc.contains("UID:postgang-7800-1960-02-03\r\n"));
}

#[test]
fn empty_delivery_calendar() {
    let created = Some(UnixTimestamp(224 * 86400));
    let calendar = Calendar::new(vec![], created);
    assert_eq!(
        String::from_utf8(calendar.to_bytes()).unwrap(),
        "BEGIN:VCALENDAR\r\n\
         VERSION:2.0\r\n\
         PRODID:-//Aasan//Aasan Postgang//EN\r\n\
         CALSCALE:GREGORIAN\r\n\
         METHOD:PUBLISH\r\n\
         END:VCALENDAR\r\n"
    );
}
