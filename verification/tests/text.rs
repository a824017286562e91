use temperature_protocol::text::{push_decimal, push_digit, push_temperature, push_tenths};

fn tenths(t: i64) -> String {
    let mut s = String::new();
    push_tenths(&mut s, t);
    s
}

fn temperature(units: i64) -> String {
    let mut s = String::from("t=");
    push_temperature(&mut s, units);
    s
}

#[test]
fn decimal_digits() {
    let mut s = String::from("x");
    push_digit(&mut s, 0);
    push_digit(&mut s, 9);
    assert_eq!(s, "x09");
    for n in [0u64, 7, 10, 99, 100, 12_345, u64::MAX] {
        let mut s = String::new();
        push_decimal(&mut s, n);
        assert_eq!(s, n.to_string());
    }
}

#[test]
fn tenths_with_one_place() {
    assert_eq!(tenths(0), "0.0");
    assert_eq!(tenths(5), "0.5");
    assert_eq!(tenths(-5), "-0.5");
    assert_eq!(tenths(215), "21.5");
    assert_eq!(tenths(-1234), "-123.4");
    assert_eq!(tenths(i64::MAX), "922337203685477580.7");
    assert_eq!(tenths(i64::MIN), "-922337203685477580.8");
}

#[test]
fn temperatures_to_the_nearest_tenth() {
    assert_eq!(temperature(21_500_000_000), "t=21.5");
    assert_eq!(temperature(21_549_999_999), "t=21.5");
    assert_eq!(temperature(21_550_000_000), "t=21.6");
    assert_eq!(temperature(-300_000_000), "t=-0.3");
    assert_eq!(temperature(-50_000_000), "t=0.0");
    assert_eq!(temperature(-50_000_001), "t=-0.1");
    assert_eq!(temperature(0), "t=0.0");
    assert_eq!(temperature(i64::MAX), "t=9223372036.9");
    assert_eq!(temperature(i64::MIN), "t=-9223372036.9");
}
