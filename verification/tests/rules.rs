use password_policy::{Error, Parser, Policy, Record};

fn record(from: u64, to: u64, letter: char, password: &str) -> Record {
    Record { policy: Policy { from, to, letter }, password: password.to_string() }
}

fn verdict(line: &str) -> (bool, bool) {
    Parser::new().unwrap().parse(line).unwrap().validate()
}

#[test]
fn validates_a_valid_password() -> Result<(), Error> {
    let record = Parser::new()?.parse("1-3 a: abc")?;
    assert!(record.validate() == (true, true));
    Ok(())
}

#[test]
fn does_not_validate_an_invalid_password() -> Result<(), Error> {
    let record = Parser::new()?.parse("1-3 a: aaaa")?;
    assert!(record.validate() == (false, false));
    Ok(())
}

#[test]
fn one_letter_within_the_range_and_at_one_position() {
    assert_eq!(verdict("1-3 a: abcde"), (true, true));
}

#[test]
fn no_letter_at_all() {
    assert_eq!(verdict("1-3 b: cdefg"), (false, false));
}

#[test]
fn the_upper_bound_is_inclusive() {
    assert_eq!(verdict("2-9 c: ccccccccc"), (true, false));
    assert_eq!(record(2, 9, 'c', "cccccccccc").validate().0, false);
    assert_eq!(record(2, 8, 'c', "ccccccccc").validate().0, false);
}

#[test]
fn the_lower_bound_is_inclusive() {
    assert_eq!(record(2, 9, 'c', "acbc").validate().0, true);
    assert_eq!(record(2, 9, 'c', "acbd").validate().0, false);
    assert_eq!(record(0, 0, 'c', "abd").validate().0, true);
    assert_eq!(record(0, 0, 'c', "abc").validate().0, false);
}

#[test]
fn from_above_to_admits_no_count() {
    assert_eq!(record(3, 1, 'a', "aa").validate().0, false);
    assert_eq!(record(3, 1, 'a', "aaa").validate().0, false);
    assert_eq!(record(3, 1, 'a', "a").validate().0, false);
}

#[test]
fn the_position_rule_wants_exactly_one_position() {
    assert_eq!(record(1, 3, 'a', "abc").validate().1, true);
    assert_eq!(record(1, 3, 'a', "cba").validate().1, true);
    assert_eq!(record(1, 3, 'a', "aba").validate().1, false);
    assert_eq!(record(1, 3, 'a', "bab").validate().1, false);
}

#[test]
fn the_same_position_twice_never_passes() {
    assert_eq!(record(2, 2, 'a', "bab").validate().1, false);
    assert_eq!(record(2, 2, 'a', "bbb").validate().1, false);
}

#[test]
fn a_position_beyond_the_password_holds_nothing() {
    assert_eq!(record(1, 30, 'a', "abc").validate().1, true);
    assert_eq!(record(30, 1, 'a', "abc").validate().1, true);
    assert_eq!(record(2, 30, 'a', "abc").validate().1, false);
    assert_eq!(record(4, 3, 'c', "abc").validate().1, true);
    assert_eq!(record(4, 5, 'c', "abc").validate().1, false);
    assert_eq!(record(3, 4, 'c', "abc").validate().1, true);
    assert_eq!(record(u64::MAX, 1, 'a', "abc").validate().1, true);
    assert_eq!(record(u64::MAX, u64::MAX, 'a', "abc").validate().1, false);
    assert_eq!(verdict("1-18446744073709551615 a: abc"), (true, true));
}

#[test]
fn position_zero_holds_nothing() {
    assert_eq!(record(0, 1, 'a', "abc").validate(), (true, true));
    assert_eq!(record(0, 3, 'a', "abc").validate(), (true, false));
    assert_eq!(record(0, 0, 'a', "abc").validate(), (false, false));
    assert_eq!(verdict("0-2 b: abc"), (true, true));
}

#[test]
fn an_empty_password_passes_only_a_count_of_zero() {
    assert_eq!(record(0, 3, 'a', "").validate(), (true, false));
    assert_eq!(record(1, 3, 'a', "").validate(), (false, false));
}

#[test]
fn positions_count_characters_not_bytes() {
    // Each of the first two characters takes two bytes.
    assert_eq!(record(1, 3, 'x', "\u{e9}\u{e9}x").validate(), (true, true));
    assert_eq!(record(3, 5, 'x', "\u{e9}\u{e9}x").validate(), (false, true));
    assert_eq!(record(1, 2, '\u{e9}', "\u{e9}\u{e9}x").validate(), (true, false));
    assert_eq!(verdict("2-3 \u{e9}: a\u{e9}b"), (false, true));
}

#[test]
fn upper_and_lower_case_differ() {
    assert_eq!(record(1, 2, 'a', "Aa").validate(), (true, true));
    assert_eq!(record(2, 2, 'A', "Aa").validate(), (false, false));
}
