use shard_placement::text::{
    count_digits, decimal_width, push_decimal, push_digits, push_left_aligned, push_repeated,
    push_right_aligned, push_right_aligned_count, push_zero_padded,
};

#[test]
fn numerals_of_natural_numbers() {
    let mut out = String::from("n=");
    push_digits(&mut out, 0);
    out.push(' ');
    push_digits(&mut out, 7);
    out.push(' ');
    push_digits(&mut out, 1203);
    out.push(' ');
    push_digits(&mut out, u64::MAX);
    assert_eq!(out, "n=0 7 1203 18446744073709551615");
}

#[test]
fn numerals_of_integers() {
    let mut out = String::new();
    push_decimal(&mut out, -1);
    out.push(' ');
    push_decimal(&mut out, 42);
    out.push(' ');
    push_decimal(&mut out, i64::MIN);
    out.push(' ');
    push_decimal(&mut out, i64::MAX);
    assert_eq!(out, "-1 42 -9223372036854775808 9223372036854775807");
}

#[test]
fn digits_are_counted() {
    assert_eq!(count_digits(0), 1);
    assert_eq!(count_digits(9), 1);
    assert_eq!(count_digits(10), 2);
    assert_eq!(count_digits(36), 2);
    assert_eq!(count_digits(u64::MAX), 20);
    assert_eq!(decimal_width(0), 1);
    assert_eq!(decimal_width(-5), 2);
    assert_eq!(decimal_width(i64::MIN), 20);
}

#[test]
fn padding() {
    let mut out = String::new();
    push_repeated(&mut out, "ab", 3);
    out.push('|');
    push_right_aligned(&mut out, -7, 5);
    out.push('|');
    push_right_aligned(&mut out, 123456, 3);
    out.push('|');
    push_left_aligned(&mut out, 12, 4);
    out.push('|');
    push_left_aligned(&mut out, 12345, 4);
    out.push('|');
    push_zero_padded(&mut out, 5, 3);
    out.push('|');
    push_zero_padded(&mut out, 1234, 3);
    out.push('|');
    push_right_aligned_count(&mut out, 8, 2);
    out.push('|');
    push_repeated(&mut out, "x", 0);
    assert_eq!(out, "ababab|   -7|123456|12  |12345|005|1234| 8|");
}
