use wtmm::email::Email;

#[test]
fn test_extract_body() {
    assert_eq!(
        Email::extract_html_body("<html><head></head><body>TEST</body></html>"),
        Some("<body>TEST</body>")
    );

    // test html body with attributes
    assert_eq!(
        Email::extract_html_body("<html><head></head><body class=\"hello\">TEST</body></html>"),
        Some("<body class=\"hello\">TEST</body>")
    );

    assert_eq!(Email::extract_html_body("hello"), None);
}

#[test]
fn test_strip_tags() {
    // simple
    assert_eq!(Email::strip_tags("<html><head><link /></head>TEST</html>"), "TEST\n");

    // test trailing newlines
    assert_eq!(
        Email::strip_tags(
            "<html><head></head><body><div>SOME TEXT</div><div>OTHER TEXT</div></body></html>"
        ),
        "SOME TEXT\nOTHER TEXT\n"
    );

    // test angle brackets within content
    assert_eq!(
        Email::strip_tags("<html><script>if true > false { test }</script></html>"),
        "if true > false { test }\n",
    );
}

#[test]
fn test_try_convert_string_to_email() {
    let mime = "MIME-Version: 1.0\nDate: Tue, 31 May 2022 15:23:12 -0400\nFrom: Some One<someone@example.org>\nTo: Person One<person1@example.org>\nContent-Type: multipart/mixed; boundary=frontier\n\nMSG1\n--frontier\nContent-Type: text/plain\n\nMSG2\n--frontier\nContent-Type: text/html\n\n<html><head><link /></head><body>MSG3</body></html>\n--frontier--";

    let email = Email::try_from(mime).unwrap();

    assert_eq!(email.get_to(), "person1@example.org");
    assert_eq!(email.get_from(), "someone@example.org");
    assert_eq!(email.get_timestamp().unwrap(), 1654024992);
    assert_eq!(email.get_body(), Some("MSG3\n"));
}

#[test]
fn test_try_convert_email_no_html_subpart() {
    let mime = "MIME-Version: 1.0\nDate: Tue, 31 May 2022 15:23:12 -0400\nFrom: Some One<someone@example.org>\nTo: Person One<person1@example.org>\nContent-Type: multipart/mixed; boundary=frontier\n\nMSG1\n--frontier\nContent-Type: text/plain\n\nMSG2\n--frontier--";

    let email = Email::try_from(mime).unwrap();
    assert_eq!(email.get_to(), "person1@example.org");
    assert_eq!(email.get_from(), "someone@example.org");
    assert_eq!(email.get_timestamp().unwrap(), 1654024992);
    assert_eq!(email.get_body(), Some("MSG2\n"));
}

#[test]
fn test_try_convert_no_html_or_plain_subpart() {
    let mime = "MIME-Version: 1.0\nDate: Tue, 31 May 2022 15:23:12 -0400\nFrom: Some One<someone@example.org>\nTo: Person One<person1@example.org>\nContent-Type: multipart/mixed; boundary=frontier\n\nMSG1\n--frontier--";

    let email = Email::try_from(mime).unwrap();
    assert_eq!(email.get_to(), "person1@example.org");
    assert_eq!(email.get_from(), "someone@example.org");
    assert_eq!(email.get_timestamp().unwrap(), 1654024992);
    assert_eq!(email.get_body(), None);
}

#[test]
fn test_try_convert_address_is_lowercased() {
    let mime = "MIME-Version: 1.0\nDate: Tue, 31 May 2022 15:23:12 -0400\nFrom: Some One<SOMEONE@example.org>\nTo: Person One<PERSON1@example.org>\nContent-Type: text/plain\n\nMSG1\n";

    let email = Email::try_from(mime).unwrap();
    assert_eq!(email.get_to(), "person1@example.org");
    assert_eq!(email.get_from(), "someone@example.org");
}

#[test]
fn test_try_convert_slightly_obsolete_date_is_normalized() {
    let mime = "MIME-Version: 1.0\nDate: Tue, 31 May 2022 15:23:12 -0400 (EST)\nFrom: Some One<someone@example.org>\nTo: Person One<person1@example.org>\nContent-Type: text/plain\n\nMSG1\n";

    let email = Email::try_from(mime).unwrap();
    assert_eq!(email.get_rfc2822_date(), "Tue, 31 May 2022 15:23:12 -0400")
}

#[test]
fn test_try_convert_invalid_date_causes_error() {
    let mime = "MIME-Version: 1.0\nDate: Tue, 31 May 2022 15:23:12\nFrom: Some One<someone@example.org>\nTo: Person One<person1@example.org>\nContent-Type: text/plain\n\nMSG1\n";

    let email = Email::try_from(mime);

    assert!(email.is_err())
}

#[test]
fn test_new_email_keeps_tz_offset() {
    let email =
        Email::new("a@example.com", "b@example.com", "Wed, 8 Jun 2022 12:23:38 -0400 (EDT)", "")
            .unwrap();
    assert_eq!(email.get_tz_offset(), -14_400);
    assert_eq!(email.get_rfc2822_date(), "Wed, 8 Jun 2022 12:23:38 -0400");
    assert_eq!(email.get_message_id(), None);
}

#[test]
fn test_new_email_rejects_invalid_date() {
    let email = Email::new("a@example.com", "b@example.com", "not a date", "");
    assert!(email.is_err());
}

#[test]
fn test_try_convert_keeps_message_id() {
    let mime = "MIME-Version: 1.0\nMessage-ID: <abc@example.org>\nDate: Tue, 31 May 2022 15:23:12 -0400\nFrom: Some One<someone@example.org>\nTo: Person One<person1@example.org>\nContent-Type: text/plain\n\nMSG1\n";
    let email = Email::try_from(mime).unwrap();
    assert_eq!(email.get_message_id(), Some("<abc@example.org>"));
}

#[test]
fn test_try_convert_missing_date_causes_error() {
    let mime = "MIME-Version: 1.0\nFrom: Some One<someone@example.org>\nTo: Person One<person1@example.org>\nContent-Type: text/plain\n\nMSG1\n";
    assert!(Email::try_from(mime).is_err());
}

#[test]
fn test_badly_formatted_html_body() {
    // A text/html part without body tags fails the whole conversion.
    let mime = "MIME-Version: 1.0\nDate: Tue, 31 May 2022 15:23:12 -0400\nFrom: <a@example.org>\nTo: <b@example.org>\nContent-Type: text/html\n\n<p>no body tags</p>\n";
    assert!(Email::try_from(mime).is_err());
}

#[test]
fn test_date_annotation_matches_bare_date() {
    let with = Email::new(
        "a@example.com",
        "b@example.com",
        "Wed, 8 Jun 2022 12:23:38 -0400 (EDT)",
        "",
    )
    .unwrap();
    let without =
        Email::new("a@example.com", "b@example.com", "Wed, 8 Jun 2022 12:23:38 -0400", "")
            .unwrap();
    assert_eq!(with.get_rfc2822_date(), without.get_rfc2822_date());
    assert_eq!(with.get_tz_offset(), without.get_tz_offset());
}
