use roboscapesim::util::{bytes_to_hex_string, get_timestamp, timestamp_from_secs};

#[test]
fn test_bytes_to_hex_string() {
    assert_eq!(bytes_to_hex_string(&[0]), "00".to_owned());
    assert_eq!(bytes_to_hex_string(&[1]), "01".to_owned());
    assert_eq!(bytes_to_hex_string(&[255]), "ff".to_owned());
    assert_eq!(bytes_to_hex_string(&[0, 1]), "0001".to_owned());
    assert_eq!(bytes_to_hex_string(&[0, 1, 0, 255, 15]), "000100ff0f".to_owned());
    assert_eq!(bytes_to_hex_string(&[1, 2, 3, 4, 5]), "0102030405".to_owned());
}

#[test]
fn hex_string_of_nothing_is_empty() {
    assert_eq!(bytes_to_hex_string(&[]), "".to_owned());
}

#[test]
fn hex_string_has_two_lower_case_digits_per_byte() {
    let s = bytes_to_hex_string(&[0xab, 0xcd, 0x0e]);
    assert_eq!(s, "abcd0e");
    assert_eq!(s.len(), 6);
}

#[test]
fn different_bytes_give_different_hex_strings() {
    assert_ne!(bytes_to_hex_string(&[1, 16]), bytes_to_hex_string(&[16, 1]));
}

#[test]
fn timestamp_of_a_clock_reading() {
    assert_eq!(timestamp_from_secs(Some(1_700_000_000)), Some(1_700_000_000));
    assert_eq!(timestamp_from_secs(None), None);
    assert_eq!(timestamp_from_secs(Some(u64::MAX)), Some(-1));
}

#[test]
fn timestamp_is_after_2020() {
    assert!(get_timestamp().unwrap() > 1_577_836_800);
}
