use node_rankings::decimal::{push_decimal, to_decimal};

#[test]
fn to_decimal_of_zero() {
    assert_eq!(to_decimal(0), "0");
}

#[test]
fn to_decimal_of_small_numbers() {
    assert_eq!(to_decimal(7), "7");
    assert_eq!(to_decimal(10), "10");
    assert_eq!(to_decimal(42), "42");
    assert_eq!(to_decimal(1700000000), "1700000000");
}

#[test]
fn to_decimal_of_the_largest_number() {
    assert_eq!(to_decimal(u64::MAX), "18446744073709551615");
}

#[test]
fn to_decimal_agrees_with_std() {
    for n in [0u64, 1, 9, 10, 11, 99, 100, 101, 999_999, 1_000_000, u64::MAX - 1] {
        assert_eq!(to_decimal(n), n.to_string());
    }
}

#[test]
fn push_decimal_appends() {
    let mut out = String::from("n=");
    push_decimal(&mut out, 305);
    assert_eq!(out, "n=305");
    push_decimal(&mut out, 0);
    assert_eq!(out, "n=3050");
}
