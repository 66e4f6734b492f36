use notification_behaviour::timeout::Timeout;

#[test]
fn positive_millis_are_a_lifetime() {
    assert_eq!(Timeout::from_value(234), Timeout::Milliseconds(234));
    assert_eq!(Timeout::from_value(1), Timeout::Milliseconds(1));
    assert_eq!(Timeout::from_value(2147483647), Timeout::Milliseconds(2147483647));
}

#[test]
fn negative_millis_are_the_default() {
    assert_eq!(Timeout::from_value(-234), Timeout::Default);
    assert_eq!(Timeout::from_value(-1), Timeout::Default);
}

#[test]
fn zero_millis_never_expire() {
    assert_eq!(Timeout::from_value(0), Timeout::Never);
}

#[test]
fn millis_are_cut_to_32_bits() {
    // 2^32 + 5 keeps 5
    assert_eq!(Timeout::from_value(4294967301), Timeout::Milliseconds(5));
    // 2^31 is the smallest negative 32-bit number
    assert_eq!(Timeout::from_value(2147483648), Timeout::Default);
    // 2^32 keeps 0
    assert_eq!(Timeout::from_value(4294967296), Timeout::Never);
    assert_eq!(Timeout::from_value(i64::MIN), Timeout::Never);
    assert_eq!(Timeout::from_value(i64::MAX), Timeout::Default);
}
