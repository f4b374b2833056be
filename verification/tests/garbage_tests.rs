use rizwold::date::Date;
use rizwold::date::UnixTimestamp;
use rizwold::garbage::Calendar;
use rizwold::garbage::DisposalAddress;
use rizwold::garbage::GarbageFraction;
use rizwold::garbage::WasteFraction;

fn fraction(id: &str, name: &str, dates: Vec<Date>) -> GarbageFraction {
    GarbageFraction {
        fraction_id: id.to_string(),
        fraction_name: name.to_string(),
        frequency: 2,
        dates,
    }
}

#[test]
fn fraction_classification() {
    assert_eq!(WasteFraction::from_api("1111", "x"), WasteFraction::FoodWaste);
    assert_eq!(WasteFraction::from_api("4", "x"), WasteFraction::PlasticPackaging);
    assert_eq!(WasteFraction::from_api("5", "x"), WasteFraction::GlassMetal);
    assert_eq!(WasteFraction::from_api("1222", "x"), WasteFraction::PaperCardboard);
    assert_eq!(WasteFraction::from_api("9992", "x"), WasteFraction::ResidualWaste);
    assert_eq!(
        WasteFraction::from_api("77", "Hageavfall"),
        WasteFraction::Unknown("77".to_string(), "Hageavfall".to_string())
    );
}

#[test]
fn fraction_ids_round_trip() {
    assert_eq!(WasteFraction::from_api("1111", "x").get_id(), "1111");
    assert_eq!(WasteFraction::from_api("9992", "x").get_id(), "9992");
    assert_eq!(WasteFraction::from_api("77", "y").get_id(), "77");
}

#[test]
fn fraction_names_and_icons() {
    let food = WasteFraction::from_api("1111", "x");
    assert_eq!(food.name(), "Matavfall");
    assert_eq!(food.icon(), "🍌");
    let rest = WasteFraction::from_api("9992", "x");
    assert_eq!(rest.name(), "Restavfall");
    assert_eq!(rest.icon(), "🗑️");
    let unknown = WasteFraction::from_api("77", "Hageavfall");
    assert_eq!(unknown.name(), "77");
    assert_eq!(unknown.icon(), "❓");
}

#[test]
fn count_sums_all_pickup_dates() {
    let cal = Calendar::new(
        vec![
            fraction("1111", "Matavfall", vec![
                Date { year: 2024, month: 1, day: 11 },
                Date { year: 2024, month: 1, day: 25 },
            ]),
            fraction("9992", "Restavfall", vec![Date { year: 2024, month: 1, day: 18 }]),
        ],
        DisposalAddress::from_text("Blåveislia 12"),
        Some(UnixTimestamp(0)),
    );
    assert_eq!(cal.count(), 3);
}

#[test]
fn garbage_document_shape() {
    let cal = Calendar::new(
        vec![fraction("1111", "Matavfall", vec![Date { year: 2024, month: 1, day: 11 }])],
        DisposalAddress::from_text("Blåveislia 12"),
        Some(UnixTimestamp(1_700_000_000)),
    );
    let doc = String::from_utf8(cal.to_bytes()).unwrap();
    assert!(doc.starts_with(
        "BEGIN:VCALENDAR\r\nVERSION:2.0\r\nPRODID:-//Aasan//Aasan Innherred Renovasjon//EN\r\nCALSCALE:GREGORIAN\r\nMETHOD:PUBLISH\r\nBEGIN:VEVENT\r\n"
    ));
    assert!(doc.ends_with("END:VEVENT\r\nEND:VCALENDAR\r\n"));
    // 2024-01-11 is a Thursday.
    assert!(doc.contains("SUMMARY:🍌 Matavfall torsdag 11.\r\n"));
    assert!(doc.contains("DTSTART;VALUE=DATE:20240111\r\n"));
    assert!(doc.contains("DTEND;VALUE=DATE:20240112\r\n"));
    assert!(doc.contains("DTSTAMP:20231114T221320Z\r\n"));
    assert!(doc.contains("SEQUENCE:1700000000\r\n"));
    assert!(doc.contains("URL:https://innherredrenovasjon.no/tommeplan/\r\n"));
    assert!(doc.contains("BEGIN:VALARM\r\nACTION:DISPLAY\r\nDESCRIPTION:3 dager til søppel\r\nTRIGGER:-P3D\r\nEND:VALARM\r\n"));
}

#[test]
fn garbage_uid_is_a_version_5_identifier() {
    let cal = Calendar::new(
        vec![fraction("1111", "Matavfall", vec![Date { year: 2024, month: 1, day: 11 }])],
        DisposalAddress::from_text("Blåveislia 12"),
        Some(UnixTimestamp(0)),
    );
    let doc = String::from_utf8(cal.to_bytes()).unwrap();
    let uid_line = doc
        .lines()
        .find(|l| l.starts_with("UID:"))
        .expect("an identity line");
    let uid = &uid_line[4..];
    assert_eq!(uid.len(), 36);
    assert_eq!(uid.as_bytes()[14], b'5');
    assert!(uid.chars().all(|c| c == '-' || c.is_ascii_hexdigit()));
    assert!(!uid.chars().any(|c| c.is_ascii_lowercase()));
}

#[test]
fn garbage_uids_differ_between_dates() {
    let cal = Calendar::new(
        vec![fraction("1111", "Matavfall", vec![
            Date { year: 2024, month: 1, day: 11 },
            Date { year: 2024, month: 1, day: 25 },
        ])],
        DisposalAddress::from_text("Blåveislia 12"),
        Some(UnixTimestamp(0)),
    );
    let doc = String::from_utf8(cal.to_bytes()).unwrap();
    let uids: Vec<&str> = doc.lines().filter(|l| l.starts_with("UID:")).collect();
    assert_eq!(uids.len(), 2);
    assert_ne!(uids[0], uids[1]);
}

#[test]
fn garbage_without_created_has_no_sequence_line() {
    let cal = Calendar::new(
        vec![fraction("1111", "Matavfall", vec![Date { year: 2024, month: 1, day: 11 }])],
        DisposalAddress::from_text("Blåveislia 12"),
        None,
    );
    let doc = String::from_utf8(cal.to_bytes()).unwrap();
    assert!(!doc.contains("SEQUENCE:"));
}
