use shi::link::from_base32;
use shi::link::to_base32;

#[test]
fn test_to_base32() {
    assert_eq!(to_base32(3), "3".to_string());
    assert_eq!(to_base32(35), "13".to_string());
    assert_eq!(to_base32(1024), "100".to_string());
    assert_eq!(to_base32(5032), "4x8".to_string());
    assert_eq!(to_base32(30000), "x9g".to_string());
}

#[test]
fn test_from_base32() {
    assert_eq!(from_base32("3"), Some(3));
    assert_eq!(from_base32("13"), Some(35));
    assert_eq!(from_base32("100"), Some(1024));
    assert_eq!(from_base32("4x8"), Some(5032));
    assert_eq!(from_base32("x9g"), Some(30000));
}

#[test]
fn encode_smallest_and_largest_in_range() {
    assert_eq!(to_base32(0), "0".to_string());
    assert_eq!(to_base32(31), "z".to_string());
    assert_eq!(to_base32(32), "10".to_string());
    assert_eq!(to_base32(1023), "zz".to_string());
    assert_eq!(to_base32(32767), "zzz".to_string());
}

#[test]
fn encode_out_of_range_is_empty() {
    assert_eq!(to_base32(32768), "".to_string());
    assert_eq!(to_base32(32769), "".to_string());
    assert_eq!(to_base32(usize::MAX), "".to_string());
}

#[test]
fn decode_rejects_empty_and_overlong() {
    assert_eq!(from_base32(""), None);
    assert_eq!(from_base32("1234"), None);
    assert_eq!(from_base32("zzzz"), None);
}

#[test]
fn decode_rejects_characters_outside_the_alphabet() {
    assert_eq!(from_base32("i"), None);
    assert_eq!(from_base32("l"), None);
    assert_eq!(from_base32("o"), None);
    assert_eq!(from_base32("u"), None);
    assert_eq!(from_base32("1!"), None);
    assert_eq!(from_base32("A"), None);
    assert_eq!(from_base32("1 2"), None);
}

#[test]
fn every_value_in_range_round_trips() {
    for v in 0..32768usize {
        let token = to_base32(v);
        assert!(!token.is_empty());
        assert!(token.len() <= 3);
        assert_eq!(from_base32(&token), Some(v));
    }
}
