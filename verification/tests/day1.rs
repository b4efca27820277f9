use aoc2019::day1::{fuel_fuel, q1, q2, req_fuel};
use aoc2019::failure::Failure;

#[test]
fn fuel_for_one_module() {
    assert_eq!(req_fuel(12), 2);
    assert_eq!(req_fuel(14), 2);
    assert_eq!(req_fuel(1969), 654);
    assert_eq!(req_fuel(100756), 33583);
    assert_eq!(req_fuel(5), 0);
    assert_eq!(req_fuel(0), 0);
}

#[test]
fn fuel_for_the_fuel() {
    assert_eq!(fuel_fuel(0), 0);
    assert_eq!(fuel_fuel(2), 2);
    assert_eq!(fuel_fuel(654), 966);
    assert_eq!(fuel_fuel(33583), 50346);
}

#[test]
fn sums_over_the_lines() {
    assert_eq!(q1("12\n14\n1969\n100756".to_string(), &[]).unwrap(), 2 + 2 + 654 + 33583);
    assert_eq!(q2("14\n1969\n100756".to_string(), &[]).unwrap(), 2 + 966 + 50346);
    assert_eq!(q1("12".to_string(), &[]).unwrap(), 2);
}

#[test]
fn a_line_that_is_no_number_fails() {
    assert_eq!(q1("12\nabc".to_string(), &[]), Err(Failure::BadInput));
    assert_eq!(q1("12\n".to_string(), &[]), Err(Failure::BadInput));
    assert_eq!(q2("".to_string(), &[]), Err(Failure::BadInput));
    assert_eq!(q1(" 12".to_string(), &[]), Err(Failure::BadInput));
    assert_eq!(q1("-12".to_string(), &[]), Err(Failure::BadInput));
    assert_eq!(q1("+12".to_string(), &[]).unwrap(), 2);
}
