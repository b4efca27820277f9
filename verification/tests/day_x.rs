use aoc2019::dayX::{q1, q2};

#[test]
fn dayX_q1_e1() {
    let input = "...";
    let output = q1(input.to_string(), &[]);
    assert_eq!(output.unwrap(), ());
}

#[test]
fn frame_answers_nothing_for_the_second_question() {
    assert_eq!(q2("...".to_string(), &[]).unwrap(), ());
}
