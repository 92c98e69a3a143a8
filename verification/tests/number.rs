use dr_metrix::number::{decimal_string, parse_i64, parse_u32};

#[test]
fn parse_i64_matches_std() {
    let cases = [
        "", "+", "-", "0", "-0", "+0", "42", "+42", "-42", "007", "9223372036854775807",
        "9223372036854775808", "-9223372036854775808", "-9223372036854775809", " 1", "1 ",
        "1.5", "--1", "+-1", "1e3", "１",
    ];
    for c in cases {
        assert_eq!(parse_i64(c), c.parse::<i64>().ok(), "input {c:?}");
    }
}

#[test]
fn parse_u32_matches_std() {
    let cases = [
        "", "+", "-", "0", "-0", "+7", "4294967295", "4294967296", "00000000000000000001", "a1",
        "-1",
    ];
    for c in cases {
        assert_eq!(parse_u32(c), c.parse::<u32>().ok(), "input {c:?}");
    }
}

#[test]
fn decimal_matches_to_string() {
    for n in [0u64, 9, 10, 99, 100, 12345, u64::MAX] {
        assert_eq!(decimal_string(n), n.to_string());
    }
}

#[test]
fn decimal_reads_back() {
    for n in [0u32, 1, 10, 65535, u32::MAX] {
        assert_eq!(parse_u32(&decimal_string(n as u64)), Some(n));
    }
    for n in [0i64, 5, i64::MAX] {
        assert_eq!(parse_i64(&decimal_string(n as u64)), Some(n));
    }
}
