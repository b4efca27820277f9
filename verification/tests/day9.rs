use aoc2019::day5;
use aoc2019::day9::{q1, q2};

#[test]
fn day9_q1_e1() {
    let input = "109,1,204,-1,1001,100,1,100,1008,100,16,101,1006,101,0,99";
    let output = q1(input.to_string(), &[]).unwrap();
    assert_eq!(
        output,
        vec![109, 1, 204, -1, 1001, 100, 1, 100, 1008, 100, 16, 101, 1006, 101, 0, 99]
    );
}

#[test]
fn day9_q1_e2() {
    let input = "1102,34915192,34915192,7,4,7,99,0";
    let output = q1(input.to_string(), &[]).unwrap();
    assert_eq!(output, vec![1219070632396864]);
}

#[test]
fn day9_q1_e3() {
    let input = "104,1125899906842624,99";
    let output = q1(input.to_string(), &[]).unwrap();
    assert_eq!(output, vec![1125899906842624]);
}

#[test]
fn boost_mode_feeds_two() {
    assert_eq!(q2("3,0,4,0,99".to_string(), &[]).unwrap(), vec![2]);
    assert_eq!(q1("3,0,4,0,99".to_string(), &[]).unwrap(), vec![1]);
}

#[test]
fn diagnostics_feed_one_and_five() {
    assert_eq!(day5::q1("3,0,4,0,99".to_string(), &[]).unwrap(), vec![1]);
    assert_eq!(day5::q2("3,0,4,0,99".to_string(), &[]).unwrap(), vec![5]);
    // Is the input less than 8?
    let program = "3,3,1107,-1,8,3,4,3,99";
    assert_eq!(day5::q2(program.to_string(), &[]).unwrap(), vec![1]);
    assert_eq!(day5::run_with_id(program, 8).unwrap(), vec![0]);
}
