use tally::decimal::{parse, render};

#[test]
fn render_writes_zero_as_one_digit() {
    assert_eq!(render(0), b"0".to_vec());
}

#[test]
fn render_writes_minus_one() {
    assert_eq!(render(-1), b"-1".to_vec());
}

#[test]
fn render_writes_the_bounds() {
    assert_eq!(render(i64::MAX), b"9223372036854775807".to_vec());
    assert_eq!(render(i64::MIN), b"-9223372036854775808".to_vec());
}

#[test]
fn render_agrees_with_to_string() {
    let samples: [i64; 12] = [
        0,
        1,
        -1,
        9,
        10,
        -10,
        99,
        100,
        1234567890,
        -987654321,
        i64::MAX,
        i64::MIN,
    ];
    for v in samples {
        assert_eq!(render(v), v.to_string().into_bytes());
    }
}

#[test]
fn parse_reads_plain_numbers() {
    assert_eq!(parse(b"42"), Some(42));
    assert_eq!(parse(b"-42"), Some(-42));
    assert_eq!(parse(b"0"), Some(0));
}

#[test]
fn parse_accepts_a_plus_sign_and_leading_zeros() {
    assert_eq!(parse(b"+7"), Some(7));
    assert_eq!(parse(b"007"), Some(7));
    assert_eq!(parse(b"-0"), Some(0));
    assert_eq!(parse(b"0000000000000000000000000000000000001"), Some(1));
}

#[test]
fn parse_reads_the_bounds() {
    assert_eq!(parse(b"9223372036854775807"), Some(i64::MAX));
    assert_eq!(parse(b"-9223372036854775808"), Some(i64::MIN));
}

#[test]
fn parse_refuses_what_does_not_fit() {
    assert_eq!(parse(b"9223372036854775808"), None);
    assert_eq!(parse(b"-9223372036854775809"), None);
    assert_eq!(parse(b"99999999999999999999999999"), None);
}

#[test]
fn parse_refuses_what_is_no_number() {
    assert_eq!(parse(b""), None);
    assert_eq!(parse(b"-"), None);
    assert_eq!(parse(b"+"), None);
    assert_eq!(parse(b"+-1"), None);
    assert_eq!(parse(b"1 "), None);
    assert_eq!(parse(b" 1"), None);
    assert_eq!(parse(b"1_000"), None);
    assert_eq!(parse(b"12a"), None);
    assert_eq!(parse(b"not-a-number"), None);
    assert_eq!(parse(b"99999999999999999999999999x"), None);
}

#[test]
fn parse_agrees_with_the_standard_parser() {
    let samples: [&str; 16] = [
        "", "0", "-0", "+0", "-", "+", "12", "-12", "+12", "1.5", "0x10", "१२", "9223372036854775807",
        "9223372036854775808", "-9223372036854775808", "-9223372036854775809",
    ];
    for s in samples {
        assert_eq!(parse(s.as_bytes()), s.parse::<i64>().ok(), "{:?}", s);
    }
}

#[test]
fn parse_reads_back_what_render_wrote() {
    let mut v: i64 = i64::MIN;
    let mut n: u32 = 0;
    while n < 2000 {
        assert_eq!(parse(&render(v)), Some(v));
        v = v.wrapping_mul(31).wrapping_add(17);
        n += 1;
    }
    let mut small: i64 = -1000;
    while small <= 1000 {
        assert_eq!(parse(&render(small)), Some(small));
        small += 1;
    }
}
