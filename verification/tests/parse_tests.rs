use pairs::parse;

#[test]
fn two_digits_make_a_position() {
    assert_eq!(parse("5 3"), Some((4, 2)));
    assert_eq!(parse("53"), Some((4, 2)));
    assert_eq!(parse("5x3"), Some((4, 2)));
    assert_eq!(parse("55"), Some((4, 4)));
    assert_eq!(parse("1,2"), Some((0, 1)));
    assert_eq!(parse("  9  1  "), Some((8, 0)));
}

#[test]
fn any_other_survivor_count_is_none() {
    assert_eq!(parse("5"), None);
    assert_eq!(parse(""), None);
    assert_eq!(parse("abc"), None);
    assert_eq!(parse("123"), None);
    assert_eq!(parse("1 2 3"), None);
}

#[test]
fn zero_digits_are_dropped() {
    // '0' has no valid predecessor, so it never contributes a coordinate.
    assert_eq!(parse("50"), None);
    assert_eq!(parse("503"), Some((4, 2)));
    assert_eq!(parse("00"), None);
}
