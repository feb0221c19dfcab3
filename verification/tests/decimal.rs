use hls_audio_server::decimal::decimal_string;

#[test]
fn zero_is_a_single_digit() {
    assert_eq!(decimal_string(0), "0");
}

#[test]
fn single_digits() {
    for (n, text) in [(1, "1"), (2, "2"), (3, "3"), (4, "4"), (5, "5"), (6, "6"), (7, "7"), (8, "8"), (9, "9")] {
        assert_eq!(decimal_string(n), text);
    }
}

#[test]
fn digits_come_most_significant_first() {
    assert_eq!(decimal_string(10), "10");
    assert_eq!(decimal_string(1_234_567_890), "1234567890");
    assert_eq!(decimal_string(1_700_000_000_123), "1700000000123");
    assert_eq!(decimal_string(100_200), "100200");
}

#[test]
fn negative_numbers_carry_a_minus_sign() {
    assert_eq!(decimal_string(-1), "-1");
    assert_eq!(decimal_string(-905), "-905");
}

#[test]
fn extreme_values() {
    assert_eq!(decimal_string(i64::MAX), "9223372036854775807");
    assert_eq!(decimal_string(i64::MIN), "-9223372036854775808");
}

#[test]
fn agrees_with_the_standard_formatting() {
    let mut n: i64 = 1;
    for _ in 0..62 {
        assert_eq!(decimal_string(n), n.to_string());
        assert_eq!(decimal_string(-n), (-n).to_string());
        assert_eq!(decimal_string(n - 1), (n - 1).to_string());
        n *= 2;
    }
}

#[test]
fn different_numbers_have_different_text() {
    let numbers = [-100, -10, -1, 0, 1, 9, 10, 11, 99, 100, 101, 110, 1000];
    for a in numbers {
        for b in numbers {
            assert_eq!(decimal_string(a) == decimal_string(b), a == b);
        }
    }
}
