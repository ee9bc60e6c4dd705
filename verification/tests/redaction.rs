use sanitize_db_dump::mock::mock_email;
use sanitize_db_dump::mock::MOCK_DOMAIN;
use sanitize_db_dump::redact::Redactor;
use rand::rngs::StdRng;
use rand::SeedableRng;

const MOCK: &str = "Ab3dEf6hIj@test.com";

fn redactor() -> Redactor {
    Redactor::new().unwrap()
}

fn is_mock_email(text: &str) -> bool {
    text.len() == 19
        && text[..10].bytes().all(|b| b.is_ascii_alphanumeric())
        && &text[10..] == MOCK_DOMAIN
}

#[test]
fn line_without_match_is_unchanged() {
    let r = redactor();
    for line in [
        "no pii here",
        "",
        "INSERT INTO users VALUES (1, 'bob', 42);",
        "john.doe@example.com",
        "john.doe@example.com 1234567890",
        "{\"email\": \"not an address\"}",
        "{\"phone_number\": \"12345\"}",
        "{\"phone_number\": 9876543210}",
        "caf\u{e9} \u{1f600} tab\there",
    ] {
        assert_eq!(r.redact_with(line, MOCK), line);
        let mut rng = StdRng::from_entropy();
        assert_eq!(r.redact_line(line, &mut rng), line);
    }
}

#[test]
fn email_before_tab_is_replaced() {
    let r = redactor();
    assert_eq!(
        r.redact_with("7\tjohn.doe@example.com\tJohn", MOCK),
        "7\tAb3dEf6hIj@test.com\tJohn"
    );
}

#[test]
fn email_before_tab_leaves_one_mock_email() {
    let r = redactor();
    let mut rng = StdRng::from_entropy();
    let out = r.redact_line("7\tjohn.doe@example.com\tJohn", &mut rng);
    assert!(!out.contains("john.doe@example.com"));
    assert!(!out.contains("example.com"));
    assert_eq!(out.matches(MOCK_DOMAIN).count(), 1);
    let fields: Vec<&str> = out.split('\t').collect();
    assert_eq!(fields.len(), 3);
    assert_eq!(fields[0], "7");
    assert!(is_mock_email(fields[1]));
    assert_eq!(fields[2], "John");
}

#[test]
fn email_and_phone_before_tab() {
    let r = redactor();
    assert_eq!(
        r.redact_with("john.doe@example.com\t1234567890\textra", MOCK),
        "Ab3dEf6hIj@test.com\t5555555555\t\textra"
    );
}

#[test]
fn email_and_phone_with_fresh_mock() {
    let r = redactor();
    let mut rng = StdRng::from_entropy();
    let out = r.redact_line("john.doe@example.com\t1234567890\textra", &mut rng);
    assert!(is_mock_email(&out[..19]));
    assert_eq!(&out[19..], "\t5555555555\t\textra");
}

#[test]
fn json_email_field() {
    let r = redactor();
    assert_eq!(
        r.redact_with("{\"email\": \"a@b.com\", \"other\": 1}", MOCK),
        "{\"email\": \"Ab3dEf6hIj@test.com\", \"other\": 1}"
    );
    let mut rng = StdRng::from_entropy();
    let out = r.redact_line("{\"email\": \"a@b.com\", \"other\": 1}", &mut rng);
    assert_eq!(&out[..11], "{\"email\": \"");
    assert!(is_mock_email(&out[11..30]));
    assert_eq!(&out[30..], "\", \"other\": 1}");
}

#[test]
fn json_subscriber_email_field() {
    let r = redactor();
    assert_eq!(
        r.redact_with("{\"subscriber_email\": \"x@y.org\"}", MOCK),
        "{\"subscriber_email\": \"Ab3dEf6hIj@test.com\"}"
    );
    let mut rng = StdRng::from_entropy();
    let out = r.redact_line("{\"subscriber_email\": \"x@y.org\"}", &mut rng);
    assert_eq!(&out[..22], "{\"subscriber_email\": \"");
    assert!(is_mock_email(&out[22..41]));
    assert_eq!(&out[41..], "\"}");
}

#[test]
fn json_phone_number_field() {
    let r = redactor();
    assert_eq!(
        r.redact_with("{\"phone_number\": \"9876543210\"}", MOCK),
        "{\"phone_number\": \"5555555555\"}"
    );
    let mut rng = StdRng::from_entropy();
    assert_eq!(
        r.redact_line("{\"phone_number\": \"9876543210\"}", &mut rng),
        "{\"phone_number\": \"5555555555\"}"
    );
}

#[test]
fn phone_number_field_whatever_the_digits() {
    let r = redactor();
    for digits in ["0000000000", "1234567890", "5555555555", "9999999999"] {
        let line = format!("{{\"id\": 3, \"phone_number\": \"{}\", \"x\": \"y\"}}", digits);
        assert_eq!(
            r.redact_with(&line, MOCK),
            "{\"id\": 3, \"phone_number\": \"5555555555\", \"x\": \"y\"}"
        );
    }
}

#[test]
fn every_address_in_a_line_gets_the_same_mock() {
    let r = redactor();
    let line = "a@b.com\tc.d@e.org\t{\"email\": \"f@g.net\", \"subscriber_email\": \"h@i.io\"}";
    assert_eq!(
        r.redact_with(line, MOCK),
        "Ab3dEf6hIj@test.com\tAb3dEf6hIj@test.com\t{\"email\": \"Ab3dEf6hIj@test.com\", \"subscriber_email\": \"Ab3dEf6hIj@test.com\"}"
    );
    let mut rng = StdRng::from_entropy();
    let out = r.redact_line(line, &mut rng);
    let mock = out[..19].to_string();
    assert!(is_mock_email(&mock));
    assert_eq!(
        out,
        format!(
            "{}\t{}\t{{\"email\": \"{}\", \"subscriber_email\": \"{}\"}}",
            mock, mock, mock, mock
        )
    );
}

#[test]
fn lines_get_mock_emails_of_their_own() {
    let r = redactor();
    let mut rng = StdRng::from_entropy();
    let first = r.redact_line("a@b.com\t", &mut rng);
    let mut differs = false;
    for _ in 0..8 {
        if r.redact_line("a@b.com\t", &mut rng) != first {
            differs = true;
        }
    }
    assert!(differs);
}

#[test]
fn redacting_again_rewrites_the_mock_email() {
    let r = redactor();
    let once = r.redact_with("john.doe@example.com\tJohn", MOCK);
    assert_eq!(once, "Ab3dEf6hIj@test.com\tJohn");
    let twice = r.redact_with(&once, "zYx9wVu8tS@test.com");
    assert_eq!(twice, "zYx9wVu8tS@test.com\tJohn");
    assert_ne!(once, twice);
}

#[test]
fn redacting_again_with_a_fresh_mock_changes_the_line() {
    let r = redactor();
    let mut rng = StdRng::from_entropy();
    let once = r.redact_line("{\"email\": \"a@b.com\"}", &mut rng);
    let mut changed = false;
    for _ in 0..8 {
        if r.redact_line(&once, &mut rng) != once {
            changed = true;
        }
    }
    assert!(changed);
}

#[test]
fn mock_email_followed_by_phone_is_matched_by_the_second_pass() {
    let r = redactor();
    assert_eq!(
        r.redact_with("1\ta@b.com\t0123456789", MOCK),
        "1\tAb3dEf6hIj@test.com\t5555555555\t"
    );
}

#[test]
fn eleven_digits_are_no_phone_number() {
    let r = redactor();
    assert_eq!(
        r.redact_with("a@b.com\t12345678901\tx", MOCK),
        "Ab3dEf6hIj@test.com\t12345678901\tx"
    );
    assert_eq!(
        r.redact_with("{\"phone_number\": \"12345678901\"}", MOCK),
        "{\"phone_number\": \"12345678901\"}"
    );
}

#[test]
fn text_around_matches_is_kept() {
    let r = redactor();
    assert_eq!(
        r.redact_with("caf\u{e9}\ta@b.com\t\u{1f600} {\"phone_number\": \"1112223334\"} end", MOCK),
        "caf\u{e9}\tAb3dEf6hIj@test.com\t\u{1f600} {\"phone_number\": \"5555555555\"} end"
    );
}

#[test]
fn replacement_is_taken_literally() {
    let r = redactor();
    assert_eq!(r.redact_with("a@b.com\tz", "$0${x}$$"), "$0${x}$$\tz");
    assert_eq!(
        r.redact_with("{\"email\": \"a@b.com\"}", "$0"),
        "{\"email\": \"$0\"}"
    );
}

#[test]
fn seeded_line_is_redacted_with_the_next_mock_email() {
    let r = redactor();
    let mut rng = StdRng::seed_from_u64(2024);
    let mut twin = StdRng::seed_from_u64(2024);
    for line in [
        "john.doe@example.com\t1234567890\textra",
        "{\"email\": \"a@b.com\", \"subscriber_email\": \"c@d.org\"}",
        "no pii here",
        "a@b.com\tc@d.org\t",
    ] {
        let email = mock_email(&mut twin);
        assert_eq!(r.redact_line(line, &mut rng), r.redact_with(line, &email));
    }
    assert_eq!(rng, twin);
}

#[test]
fn line_without_match_still_takes_a_mock_email() {
    let r = redactor();
    let mut rng = StdRng::seed_from_u64(5);
    let mut twin = StdRng::seed_from_u64(5);
    assert_eq!(r.redact_line("no pii here", &mut rng), "no pii here");
    assert_ne!(rng, twin);
    mock_email(&mut twin);
    assert_eq!(rng, twin);
}

#[test]
fn one_address_and_a_rest_become_mock_tab_rest() {
    let r = redactor();
    for (address, rest) in [
        ("john.doe@example.com", "John"),
        ("a@b.co", ""),
        ("x_y%z+w-1@sub.domain-1.org", "rest of the row\twith tabs\tand 42"),
        ("UPPER@CASE.NET", " 1234567890 behind a blank"),
    ] {
        let line = format!("{}\t{}", address, rest);
        let out = r.redact_with(&line, MOCK);
        assert_eq!(out, format!("{}\t{}", MOCK, rest));
        assert!(out.starts_with("Ab3dEf6hIj@test.com\t"));
        assert!(!out.contains(address));
    }
}

#[test]
fn two_addresses_and_a_rest_carry_one_mock() {
    let r = redactor();
    for (first, second, rest) in [
        ("a@b.com", "c.d@e.org", "rest"),
        ("same@one.com", "same@one.com", ""),
        ("x@y.io", "z@w.de", "no more\taddresses"),
    ] {
        let line = format!("{}\t{}\t{}", first, second, rest);
        assert_eq!(
            r.redact_with(&line, MOCK),
            format!("{}\t{}\t{}", MOCK, MOCK, rest)
        );
        let mut rng = StdRng::seed_from_u64(11);
        let mut twin = StdRng::seed_from_u64(11);
        let mock = mock_email(&mut twin);
        assert_eq!(
            r.redact_line(&line, &mut rng),
            format!("{}\t{}\t{}", mock, mock, rest)
        );
    }
}

#[test]
fn phone_fields_are_rewritten_in_place() {
    let r = redactor();
    let line = "[{\"phone_number\": \"0123456789\", \"n\": 1}, {\"phone_number\": \"9998887776\"}] caf\u{e9}";
    let out = r.redact_with(line, MOCK);
    assert_eq!(
        out,
        "[{\"phone_number\": \"5555555555\", \"n\": 1}, {\"phone_number\": \"5555555555\"}] caf\u{e9}"
    );
    assert_eq!(out.len(), line.len());
    assert!(!out.contains(MOCK));
    let field = "\"phone_number\": \"5555555555\"";
    let starts: Vec<usize> = line
        .match_indices("\"phone_number\": \"")
        .map(|(at, _)| at)
        .collect();
    assert_eq!(starts, vec![2, 42]);
    for (at, (was, is)) in line.bytes().zip(out.bytes()).enumerate() {
        match starts.iter().find(|&&start| (start..start + field.len()).contains(&at)) {
            Some(&start) => assert_eq!(is, field.as_bytes()[at - start]),
            None => assert_eq!(is, was),
        }
    }
}
