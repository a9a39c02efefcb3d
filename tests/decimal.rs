use doxle_annotations::decimal::{parse_i32, parse_u32};

const SAMPLES: [&str; 22] = [
    "0", "7", "007", "+5", "-0", "-5", "+", "-", "", " 5", "5 ", "12a", "+-1", "-+1",
    "4294967295", "4294967296", "2147483647", "2147483648", "-2147483648", "-2147483649",
    "99999999999999999999", "٣",
];

#[test]
fn unsigned_reads_as_std_does() {
    for s in SAMPLES {
        assert_eq!(parse_u32(s), s.parse::<u32>().ok(), "text {:?}", s);
    }
    assert_eq!(parse_u32("4294967295"), Some(u32::MAX));
    assert_eq!(parse_u32("+5"), Some(5));
    assert_eq!(parse_u32("-5"), None);
}

#[test]
fn signed_reads_as_std_does() {
    for s in SAMPLES {
        assert_eq!(parse_i32(s), s.parse::<i32>().ok(), "text {:?}", s);
    }
    assert_eq!(parse_i32("-2147483648"), Some(i32::MIN));
    assert_eq!(parse_i32("-0"), Some(0));
    assert_eq!(parse_i32("2147483648"), None);
}
