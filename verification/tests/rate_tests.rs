use frame_interp::rate::{FrameRate, MAX_SCALE, POINT};

fn rate(mantissa: u64, scale: u8) -> FrameRate {
    FrameRate::new(mantissa, scale).unwrap()
}

#[test]
fn new_keeps_mantissa_and_scale() {
    let r = rate(2398, 2);
    assert_eq!(r.mantissa(), 2398);
    assert_eq!(r.scale(), 2);
}

#[test]
fn new_refuses_a_scale_above_the_limit() {
    assert_eq!(MAX_SCALE, 9);
    assert!(FrameRate::new(1, 9).is_some());
    assert_eq!(FrameRate::new(1, 10), None);
    assert_eq!(FrameRate::new(0, 255), None);
}

#[test]
fn zero_and_default_target() {
    assert_eq!(FrameRate::zero(), rate(0, 0));
    assert!(FrameRate::zero().is_zero());
    assert_eq!(FrameRate::default_target(), rate(600, 1));
    assert_eq!(FrameRate::default_target().to_text(), "60.0");
    assert!(!FrameRate::default_target().is_zero());
    assert!(rate(0, 3).is_zero());
}

#[test]
fn parse_reads_whole_numbers() {
    assert_eq!(FrameRate::parse(b"25"), Some(rate(25, 0)));
    assert_eq!(FrameRate::parse(b"0"), Some(rate(0, 0)));
    assert_eq!(FrameRate::parse(b"060"), Some(rate(60, 0)));
}

#[test]
fn parse_reads_fractions() {
    assert_eq!(POINT, b'.');
    assert_eq!(FrameRate::parse(b"23.98"), Some(rate(2398, 2)));
    assert_eq!(FrameRate::parse(b"60.0"), Some(rate(600, 1)));
    assert_eq!(FrameRate::parse(b"0.5"), Some(rate(5, 1)));
    assert_eq!(FrameRate::parse(b"29.970"), Some(rate(29970, 3)));
    assert_eq!(FrameRate::parse(b"1.000000001"), Some(rate(1000000001, 9)));
}

#[test]
fn parse_refuses_what_is_no_decimal_number() {
    for token in [
        &b""[..],
        b".",
        b"..",
        b"5..",
        b"1.2.3",
        b"+25",
        b"-25",
        b"25 ",
        b" 25",
        b"1e3",
        b"12e34",
        b"12x34",
        b"12 30",
        b"inf",
        b"nan",
        b"2\xff",
    ] {
        assert_eq!(FrameRate::parse(token), None, "{:?}", token);
    }
}

#[test]
fn parse_reads_a_number_with_nothing_on_one_side_of_the_point() {
    assert_eq!(FrameRate::parse(b"5."), Some(rate(5, 0)));
    assert_eq!(FrameRate::parse(b".5"), Some(rate(5, 1)));
    assert_eq!(FrameRate::parse(b"60."), Some(rate(60, 0)));
    assert_eq!(FrameRate::parse(b".000"), Some(rate(0, 3)));
}

#[test]
fn parse_cuts_off_what_is_finer_than_nine_digits() {
    assert_eq!(FrameRate::parse(b"1.0000000001"), Some(rate(1000000000, 9)));
    assert_eq!(FrameRate::parse(b"23.9760239760239"), Some(rate(23976023976, 9)));
    assert_eq!(FrameRate::parse(b"0.9999999999"), Some(rate(999999999, 9)));
    assert_eq!(FrameRate::parse(b".0000000009"), Some(rate(0, 9)));
    assert_eq!(FrameRate::parse(b"1.123456789"), Some(rate(1123456789, 9)));
    assert_eq!(FrameRate::parse(b"1.12345678x9"), None);
    assert_eq!(FrameRate::parse(b"1.1234567890x"), None);
}

#[test]
fn parse_refuses_what_a_rate_cannot_hold() {
    assert_eq!(FrameRate::parse(b"18446744073709551616"), None);
    assert_eq!(FrameRate::parse(b"18446744073.7095516159"), Some(rate(u64::MAX, 9)));
    assert_eq!(FrameRate::parse(b"18446744073.709551616"), None);
    assert_eq!(FrameRate::parse(b"1844674407370955161.6"), None);
    assert_eq!(
        FrameRate::parse(b"1844674407370955161.5"),
        Some(rate(u64::MAX, 1))
    );
}

#[test]
fn to_text_writes_the_point_before_the_scale() {
    assert_eq!(rate(25, 0).to_text(), "25");
    assert_eq!(rate(0, 0).to_text(), "0");
    assert_eq!(rate(2398, 2).to_text(), "23.98");
    assert_eq!(rate(500, 1).to_text(), "50.0");
    assert_eq!(rate(480, 1).to_text(), "48.0");
    assert_eq!(rate(5, 1).to_text(), "0.5");
    assert_eq!(rate(5, 3).to_text(), "0.005");
    assert_eq!(rate(0, 2).to_text(), "0.00");
    assert_eq!(rate(123456789, 9).to_text(), "0.123456789");
    assert_eq!(rate(u64::MAX, 9).to_text(), "18446744073.709551615");
}

#[test]
fn text_reads_back_as_the_same_rate() {
    for mantissa in [0u64, 1, 5, 10, 99, 600, 2398, 29970, 1 << 33, u64::MAX] {
        for scale in 0..=MAX_SCALE {
            let r = rate(mantissa, scale);
            assert_eq!(FrameRate::parse(r.to_text().as_bytes()), Some(r));
        }
    }
}

#[test]
fn doubled_keeps_the_scale() {
    assert_eq!(rate(240, 1).doubled(), Some(rate(480, 1)));
    assert_eq!(rate(2398, 2).doubled(), Some(rate(4796, 2)));
    assert_eq!(rate(0, 0).doubled(), Some(rate(0, 0)));
    assert_eq!(rate(u64::MAX / 2, 0).doubled(), Some(rate(u64::MAX - 1, 0)));
}

#[test]
fn doubled_refuses_what_does_not_fit() {
    assert_eq!(rate(u64::MAX / 2 + 1, 0).doubled(), None);
    assert_eq!(rate(u64::MAX, 4).doubled(), None);
}
