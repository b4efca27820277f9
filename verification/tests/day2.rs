use aoc2019::day2::{q1, q2};
use aoc2019::failure::Failure;
use aoc2019::intcode::Error;

#[test]
fn noun_and_verb_are_set_before_the_run() {
    // Adds the cells that the noun and the verb point at: 12 and 2. Cell 12
    // holds 0 and cell 2 holds the verb itself.
    let mut program = vec!["1", "0", "0", "0", "99", "0", "0", "0", "0", "0", "0", "0", "0"];
    assert_eq!(q1(program.join(","), &[]).unwrap(), 2);
    program[12] = "30";
    program[2] = "7";
    assert_eq!(q1(program.join(","), &[]).unwrap(), 32);
}

#[test]
fn search_finds_the_first_pair() {
    // Adds cell noun and cell verb; cells 5 and 6 hold the halves of the target.
    let program = "1,0,0,0,99,19690000,720,0";
    assert_eq!(q2(program.to_string(), &[]).unwrap(), 506);
}

#[test]
fn search_without_an_answer() {
    assert_eq!(q2("1,0,0,0,99".to_string(), &[]), Err(Failure::NoAnswer));
}

#[test]
fn a_failing_trial_ends_the_search() {
    // Noun 0 and verb 0 leave the program as it is: a read, which a run
    // without input refuses.
    assert_eq!(
        q2("3,0,0,99".to_string(), &[]),
        Err(Failure::Machine(Error::InputError(
            "intcode cannot read input in headless mode".to_string()
        )))
    );
    assert_eq!(q1("1,x".to_string(), &[]), Err(Failure::Machine(Error::ParseMem)));
    assert_eq!(q2("1,x".to_string(), &[]), Err(Failure::Machine(Error::ParseMem)));
}
