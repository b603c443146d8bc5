use patchbay_server::clock::{rfc3339_text_of, utc_now};
use time::OffsetDateTime;

#[test]
fn current_time_is_rfc3339_utc_text() {
    let now = utc_now();
    let b = now.as_bytes();
    assert!(b.len() >= 20);
    for (i, c) in b.iter().take(19).enumerate() {
        match i {
            4 | 7 => assert_eq!(*c, b'-'),
            10 => assert_eq!(*c, b'T'),
            13 | 16 => assert_eq!(*c, b':'),
            _ => assert!(c.is_ascii_digit()),
        }
    }
    assert!(now.ends_with('Z'));
}

#[test]
fn a_date_time_is_written_as_rfc3339() {
    assert_eq!(rfc3339_text_of(&OffsetDateTime::UNIX_EPOCH), "1970-01-01T00:00:00Z");
    let later = OffsetDateTime::from_unix_timestamp(1_700_000_000).unwrap();
    assert_eq!(rfc3339_text_of(&later), "2023-11-14T22:13:20Z");
}
