use aoc2019::day4::{ascending, digits, has_pair, has_run2, q1, q2};
use aoc2019::failure::Failure;

#[test]
fn digits_of_a_number() {
    assert_eq!(digits(0), vec!['0']);
    assert_eq!(digits(7), vec!['7']);
    assert_eq!(digits(123450), vec!['1', '2', '3', '4', '5', '0']);
}

#[test]
fn the_three_rules() {
    assert!(has_pair(&digits(111111)));
    assert!(ascending(&digits(111111)));
    assert!(has_pair(&digits(223450)));
    assert!(!ascending(&digits(223450)));
    assert!(!has_pair(&digits(123789)));
    assert!(ascending(&digits(123789)));
    assert!(!has_pair(&digits(5)));
    assert!(ascending(&digits(5)));
}

#[test]
fn runs_of_exactly_two() {
    assert!(has_run2(&digits(112233)));
    assert!(!has_run2(&digits(123444)));
    assert!(has_run2(&digits(111122)));
    assert!(has_run2(&digits(112222)));
    assert!(has_run2(&digits(122333)));
    assert!(!has_run2(&digits(111111)));
    assert!(!has_run2(&digits(123456)));
    assert!(has_run2(&digits(11)));
    assert!(!has_run2(&digits(1)));
    assert!(!has_run2(&Vec::new()));
}

#[test]
fn counts_in_a_range() {
    // 11, 22, 33, ..., 99.
    assert_eq!(q1("10-99".to_string(), &[]).unwrap(), 9);
    assert_eq!(q2("10-99".to_string(), &[]).unwrap(), 9);
    // 111 keeps to the loose rules only.
    assert_eq!(q1("111-111".to_string(), &[]).unwrap(), 1);
    assert_eq!(q2("111-111".to_string(), &[]).unwrap(), 0);
    // 111, 112, ..., 119: all pass; 112 to 119 hold a run of exactly two.
    assert_eq!(q1("111-119".to_string(), &[]).unwrap(), 9);
    assert_eq!(q2("111-119".to_string(), &[]).unwrap(), 8);
    assert_eq!(q1("20-10".to_string(), &[]).unwrap(), 0);
    assert_eq!(q1("0-9".to_string(), &[]).unwrap(), 0);
    assert_eq!(q1("11-11-junk".to_string(), &[]).unwrap(), 1);
}

#[test]
fn malformed_ranges() {
    assert_eq!(q1("10".to_string(), &[]), Err(Failure::BadInput));
    assert_eq!(q1("a-20".to_string(), &[]), Err(Failure::BadInput));
    assert_eq!(q2("10-".to_string(), &[]), Err(Failure::BadInput));
}
