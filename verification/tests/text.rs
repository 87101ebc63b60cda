use fizzbuzz_task_scheduler::text::{
    first_piece, i64_to_decimal, last_piece, parse_u64, push_decimal, str_equal, u64_to_decimal,
};

#[test]
fn decimal_of_unsigned_numbers() {
    assert_eq!(u64_to_decimal(0), "0");
    assert_eq!(u64_to_decimal(7), "7");
    assert_eq!(u64_to_decimal(10), "10");
    assert_eq!(u64_to_decimal(1669369358), "1669369358");
    assert_eq!(u64_to_decimal(u64::MAX), "18446744073709551615");
    let mut s = String::from("n=");
    push_decimal(&mut s, 305);
    assert_eq!(s, "n=305");
}

#[test]
fn decimal_of_signed_numbers() {
    assert_eq!(i64_to_decimal(0), "0");
    assert_eq!(i64_to_decimal(-5), "-5");
    assert_eq!(i64_to_decimal(1003), "1003");
    assert_eq!(i64_to_decimal(i64::MIN), "-9223372036854775808");
    assert_eq!(i64_to_decimal(i64::MAX), "9223372036854775807");
}

#[test]
fn parse_follows_std() {
    for s in ["0", "42", "+7", "007", "18446744073709551615", "18446744073709551616", "", "+", "-1", "12a", " 1", "+-1", "99999999999999999999x"] {
        assert_eq!(parse_u64(s), s.parse::<u64>().ok(), "{}", s);
    }
    assert_eq!(parse_u64("1669369358"), Some(1669369358));
}

#[test]
fn decimal_reads_back() {
    for n in [0u64, 1, 9, 10, 99, 100, 123456789, u64::MAX] {
        assert_eq!(parse_u64(&u64_to_decimal(n)), Some(n));
    }
}

#[test]
fn string_equality() {
    assert!(str_equal("abc", "abc"));
    assert!(!str_equal("abc", "abd"));
    assert!(!str_equal("abc", "ab"));
    assert!(str_equal("", ""));
}

#[test]
fn pieces_around_separators() {
    assert_eq!(first_piece("w1:register", ':'), "w1");
    assert_eq!(last_piece("w1:register", ':'), "register");
    assert_eq!(first_piece("a:b:c", ':'), "a");
    assert_eq!(last_piece("a:b:c", ':'), "c");
    assert_eq!(first_piece("plain", ':'), "plain");
    assert_eq!(last_piece("plain", ':'), "plain");
    assert_eq!(first_piece(":x", ':'), "");
    assert_eq!(last_piece("x:", ':'), "");
    assert_eq!(first_piece("", ':'), "");
    assert_eq!(last_piece("ü:ö", ':'), "ö");
}
