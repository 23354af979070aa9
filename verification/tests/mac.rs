use std::str::FromStr;

use pwmp::mac::{Mac, MacParseError};

#[test]
fn mac_nth_octet() {
    let mac = Mac::new(1, 2, 3, 4, 5, 6);

    assert_eq!(mac.nth_octet(0), 1);
    assert_eq!(mac.nth_octet(1), 2);
    assert_eq!(mac.nth_octet(2), 3);
    assert_eq!(mac.nth_octet(3), 4);
    assert_eq!(mac.nth_octet(4), 5);
    assert_eq!(mac.nth_octet(5), 6);
}

#[test]
fn mac_to_string() {
    assert_eq!(&Mac::new(1, 2, 3, 4, 5, 6).to_text(), "01:02:03:04:05:06");
    assert_eq!(
        &Mac::new(42, 96, 88, 120, 255, 0).to_text(),
        "2A:60:58:78:FF:00"
    );
}

#[test]
fn mac_from_string() {
    assert_eq!(
        Mac::from_str("01:02:03:04:05:06").unwrap(),
        Mac::new(1, 2, 3, 4, 5, 6)
    );
    assert_eq!(
        Mac::from_str("2A:60:58:78:FF:00").unwrap(),
        Mac::new(42, 96, 88, 120, 255, 0)
    );
}

#[test]
fn mac_from_string_too_long() {
    assert_eq!(Mac::from_str("01:02:03:04:05:06x"), Err(MacParseError));
    assert_eq!(Mac::from_str("hello, : : world!"), Err(MacParseError));
}

#[test]
fn mac_parse_lower_and_round_trip() {
    assert_eq!(
        Mac::parse("2a:60:58:78:ff:00").unwrap(),
        Mac::new(42, 96, 88, 120, 255, 0)
    );
    let mac = Mac::new(0xAA, 0xBB, 0xCC, 0xDD, 0xEE, 0xFF);
    let text = mac.to_text();
    assert_eq!(text, "AA:BB:CC:DD:EE:FF".to_string());
    assert_eq!(Mac::parse(&text).unwrap(), mac);
}

#[test]
fn mac_parse_rejects_misplaced_colons() {
    assert_eq!(Mac::parse(""), Err(MacParseError));
    assert_eq!(Mac::parse("01:02:03:04:05"), Err(MacParseError));
    assert_eq!(Mac::parse("0102:03:04:05:066"), Err(MacParseError));
    assert_eq!(Mac::parse("01:02:03:04:05:0G"), Err(MacParseError));
}
