use monkey_interpreter::text::{int_to_string, push_decimal};

#[test]
fn integers_in_decimal_notation() {
    assert_eq!(int_to_string(0), "0");
    assert_eq!(int_to_string(7), "7");
    assert_eq!(int_to_string(10), "10");
    assert_eq!(int_to_string(-1), "-1");
    assert_eq!(int_to_string(1090), "1090");
    assert_eq!(int_to_string(i32::MAX), "2147483647");
    assert_eq!(int_to_string(i32::MIN), "-2147483648");
    for value in [-100000, -99, -10, 5, 42, 1000, 123456789] {
        assert_eq!(int_to_string(value), format!("{}", value));
    }
}

#[test]
fn decimal_digits_are_appended() {
    let mut s = "n=".to_owned();
    push_decimal(&mut s, 4294967295);
    assert_eq!(s, "n=4294967295");
    push_decimal(&mut s, 0);
    assert_eq!(s, "n=42949672950");
}
