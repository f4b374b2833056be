use rizwold::encode::ContentLine;
use rizwold::encode::escape_text;
use rizwold::encode::next_boundary;

fn escape_str(s: &str) -> String {
    String::from_utf8(escape_text(s.as_bytes())).unwrap()
}

fn render_str(s: &str) -> String {
    String::from_utf8(ContentLine::from_text(s).render()).unwrap()
}

#[test]
fn escaped_chars() {
    let s = ",\r\n;:\\ \r\n\rö\r";
    let expected = "\\,\\n\\;:\\\\ \\n\\nö\\n";
    assert_eq!(expected, escape_str(s));
}

#[test]
fn no_escaped_chars() {
    let s = "This is a simple sentence.";
    let expected = s;
    assert_eq!(expected, escape_str(s));
}

#[test]
fn test_output_line_display_over_75() {
    let line =
        "123456789 123456789 123456789 123456789 123456789 123456789 123456789 123456789 ";
    assert_eq!(
        render_str(line),
        String::from(
            "123456789 123456789 123456789 123456789 123456789 123456789 123456789 12345\r\n 6789 \r\n"
        )
    );
}

#[test]
fn calendar_test_output_line_display_over_75() {
    let line =
        "123456789 123456789 123456789 123456789 123456789 123456789 123456789 123456789 ";
    assert_eq!(
        render_str(line),
        String::from(
            "123456789 123456789 123456789 123456789 123456789 123456789 123456789 12345\r\n 6789 \r\n"
        )
    );
}

#[test]
fn test_output_line_display_75() {
    let line = "123456789 123456789 123456789 123456789 123456789 123456789 123456789 12345";
    assert_eq!(
        render_str(line),
        String::from(
            "123456789 123456789 123456789 123456789 123456789 123456789 123456789 12345\r\n"
        )
    );
}

#[test]
fn calendar_test_output_line_display_75() {
    let line = "123456789 123456789 123456789 123456789 123456789 123456789 123456789 12345";
    assert_eq!(
        render_str(line),
        String::from(
            "123456789 123456789 123456789 123456789 123456789 123456789 123456789 12345\r\n"
        )
    );
}

#[test]
fn test_output_line_display_wide_chars() {
    let line = "A☣️☣️☣️☣️☣️☣️☣️☣️☣️☣️☣️☣️☣️☣️☣️☣️☣️☣️";
    assert_eq!(
        render_str(line),
        String::from("A☣️☣️☣️☣️☣️☣️☣️☣️☣️☣️☣️☣️\r\n ☣️☣️☣️☣️☣️☣️\r\n")
    );
}

#[test]
fn calendar_test_output_line_display_wide_chars() {
    let line = "A☣️☣️☣️☣️☣️☣️☣️☣️☣️☣️☣️☣️☣️☣️☣️☣️☣️☣️";
    assert_eq!(
        render_str(line),
        String::from("A☣️☣️☣️☣️☣️☣️☣️☣️☣️☣️☣️☣️\r\n ☣️☣️☣️☣️☣️☣️\r\n")
    );
}

#[test]
fn test_output_line_display_newline() {
    assert_eq!(render_str("A\nnna"), "A\\nnna\r\n");
}

#[test]
fn calendar_test_output_line_display_newline() {
    assert_eq!(render_str("A\nnna"), "A\\nnna\r\n");
}

#[test]
fn test_output_line_display_empty() {
    assert_eq!(render_str(""), "");
}

#[test]
fn calendar_test_output_line_display_empty() {
    assert_eq!(render_str(""), "");
}

#[test]
fn escape_is_idempotent_on_clean_text() {
    let s = "no special bytes here at all";
    let once = escape_str(s);
    assert_eq!(once, s);
    let twice = escape_str(&once);
    assert_eq!(twice, once);
}

#[test]
fn fold_never_splits_a_four_byte_character() {
    // 19 four-byte characters are 76 bytes: the budget of 75 forces a break,
    // which must land exactly between the 18th and 19th character.
    let line: String = "😀".repeat(19);
    assert_eq!(line.len(), 76);
    let rendered = render_str(&line);
    let expected = format!("{}\r\n {}\r\n", "😀".repeat(18), "😀");
    assert_eq!(rendered, expected);
}

#[test]
fn boundary_of_a_short_line_is_its_length() {
    assert_eq!(next_boundary(b"abc", 75), 3);
    assert_eq!(next_boundary(b"", 75), 0);
}

#[test]
fn boundary_backs_up_to_a_character_start() {
    let mut line: Vec<u8> = Vec::new();
    line.extend_from_slice("x".repeat(74).as_bytes());
    line.extend_from_slice("é".as_bytes());
    line.extend_from_slice("abc".as_bytes());
    // Byte 75 falls inside the two-byte character starting at byte 74.
    assert_eq!(next_boundary(&line, 75), 74);
}
