use vmadm::text::{parse_u64, split, trim, u64_to_string};
use vmadm::uuid::Uuid;

#[test]
fn decimal_rendering() {
    assert_eq!(u64_to_string(0), "0");
    assert_eq!(u64_to_string(7), "7");
    assert_eq!(u64_to_string(2000), "2000");
    assert_eq!(u64_to_string(u64::MAX), "18446744073709551615");
}

#[test]
fn decimal_reading() {
    assert_eq!(parse_u64("0"), Some(0));
    assert_eq!(parse_u64("42"), Some(42));
    assert_eq!(parse_u64("+42"), Some(42));
    assert_eq!(parse_u64("18446744073709551615"), Some(u64::MAX));
    assert_eq!(parse_u64("18446744073709551616"), None);
    assert_eq!(parse_u64(""), None);
    assert_eq!(parse_u64("+"), None);
    assert_eq!(parse_u64("-1"), None);
    assert_eq!(parse_u64(" 1"), None);
    assert_eq!(parse_u64("1 "), None);
    assert_eq!(parse_u64("12a"), None);
}

#[test]
fn splitting() {
    assert_eq!(split("a b", ' '), vec!["a".to_string(), "b".to_string()]);
    assert_eq!(split("", ' '), vec!["".to_string()]);
    assert_eq!(split("a\t\tb\t", '\t'), vec!["a", "", "b", ""]);
}

#[test]
fn trimming() {
    assert_eq!(trim("  epair0a\n"), "epair0a");
    assert_eq!(trim("\t \r\n"), "");
    assert_eq!(trim("a b"), "a b");
}

#[test]
fn uuid_hyphenated() {
    assert_eq!(Uuid::nil().hyphenated(), "00000000-0000-0000-0000-000000000000");
    let bytes = [1, 2, 3, 4, 5, 6, 7, 8, 9, 10, 11, 12, 13, 14, 15, 16];
    assert_eq!(
        Uuid::from_bytes(bytes).hyphenated(),
        "01020304-0506-0708-090a-0b0c0d0e0f10"
    );
}

#[test]
fn uuid_fresh_is_version_four() {
    let u = Uuid::new_v4();
    assert_eq!(u.bytes[6] >> 4, 4);
    assert_eq!(u.bytes[8] >> 6, 2);
    assert!(!u.same(&Uuid::nil()));
}
