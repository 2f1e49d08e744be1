use resp_kv::text::{parse_isize, parse_u64, parse_unsigned, parse_usize, str_eq};

const SAMPLES: [&str; 32] = [
    "",
    "0",
    "7",
    "42",
    "007",
    "+5",
    "-5",
    "+0",
    "-0",
    "+",
    "-",
    "++1",
    "+-1",
    "-+1",
    "--1",
    " 1",
    "1 ",
    "1_000",
    "1.5",
    "0x10",
    "a",
    "12a",
    "\u{663}",
    "\u{ff11}",
    "4294967295",
    "4294967296",
    "9223372036854775807",
    "9223372036854775808",
    "-9223372036854775808",
    "-9223372036854775809",
    "18446744073709551615",
    "18446744073709551616",
];

#[test]
fn parse_usize_reads_as_the_standard_library_does() {
    for sample in SAMPLES {
        assert_eq!(parse_usize(sample), sample.parse::<usize>().ok(), "{:?}", sample);
    }
}

#[test]
fn parse_isize_reads_as_the_standard_library_does() {
    for sample in SAMPLES {
        assert_eq!(parse_isize(sample), sample.parse::<isize>().ok(), "{:?}", sample);
    }
}

#[test]
fn parse_u64_reads_as_the_standard_library_does() {
    for sample in SAMPLES {
        assert_eq!(parse_u64(sample), sample.parse::<u64>().ok(), "{:?}", sample);
    }
}

#[test]
fn parse_unsigned_holds_the_value_to_the_limit() {
    assert_eq!(parse_unsigned("255", 255), Some(255));
    assert_eq!(parse_unsigned("256", 255), None);
    assert_eq!(parse_unsigned("0000000000000000000255", 255), Some(255));
    assert_eq!(parse_unsigned("0", 0), Some(0));
    assert_eq!(parse_unsigned("1", 0), None);
    assert_eq!(parse_unsigned("9", 5), None);
    assert_eq!(parse_unsigned("10", 5), None);
    assert_eq!(
        parse_unsigned("340282366920938463463374607431768211455", u128::MAX),
        Some(u128::MAX)
    );
    assert_eq!(
        parse_unsigned("340282366920938463463374607431768211456", u128::MAX),
        None
    );
    assert_eq!(
        parse_unsigned("3402823669209384634633746074317682114550", u128::MAX),
        None
    );
}

#[test]
fn parse_exact_values() {
    assert_eq!(parse_usize("1024"), Some(1024));
    assert_eq!(parse_isize("-1"), Some(-1));
    assert_eq!(parse_isize("-0012"), Some(-12));
    assert_eq!(parse_u64("+18446744073709551615"), Some(u64::MAX));
}

#[test]
fn str_eq_compares_characters() {
    assert!(str_eq("", ""));
    assert!(str_eq("SET", "SET"));
    assert!(!str_eq("SET", "set"));
    assert!(!str_eq("SET", "SE"));
    assert!(!str_eq("SE", "SET"));
    assert!(!str_eq("SET", "GET"));
    assert!(str_eq("\u{65e5}\u{672c}", "\u{65e5}\u{672c}"));
    assert!(!str_eq("\u{65e5}\u{672c}", "\u{65e5}\u{672d}"));
}
