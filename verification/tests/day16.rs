use aoc2019::day16::{fft, q1};
use aoc2019::failure::Failure;

#[test]
fn day16_q1_e1() {
    let input = "80871224585914546619083218645595";
    let output = q1(input.to_string(), &[]);
    assert_eq!(output.unwrap(), "24176176".to_string());
}

#[test]
fn one_phase_at_a_time() {
    let after1 = fft(vec![1, 2, 3, 4, 5, 6, 7, 8]);
    assert_eq!(after1, vec![4, 8, 2, 2, 6, 1, 5, 8]);
    let after2 = fft(after1);
    assert_eq!(after2, vec![3, 4, 0, 4, 0, 4, 3, 8]);
    assert_eq!(fft(Vec::new()), Vec::<i32>::new());
}

#[test]
fn short_and_malformed_signals() {
    assert_eq!(q1("".to_string(), &[]).unwrap(), "".to_string());
    assert_eq!(q1("5".to_string(), &[]).unwrap(), "5".to_string());
    assert_eq!(q1("12a4".to_string(), &[]), Err(Failure::BadInput));
}
