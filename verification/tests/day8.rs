use aoc2019::day8::{q1, q2};
use aoc2019::failure::Failure;

fn layer_of(filler: char, head: &str) -> String {
    let mut layer = head.to_string();
    while layer.len() < 150 {
        layer.push(filler);
    }
    layer
}

#[test]
fn checksum_of_the_layer_with_fewest_zeros() {
    // Three zeros, two ones, 145 twos; then one zero, three ones, 146 twos.
    let input = format!("{}{}", layer_of('2', "00011"), layer_of('2', "0111"));
    assert_eq!(q1(input, &[]).unwrap(), 3 * 146);
}

#[test]
fn the_first_of_equal_layers_wins() {
    let input = format!("{}{}", layer_of('2', "011"), layer_of('2', "0111"));
    assert_eq!(q1(input, &[]).unwrap(), 2 * 147);
}

#[test]
fn a_short_last_layer_counts() {
    // The second layer is just "12": no zero at all.
    let input = format!("{}{}", layer_of('2', "0"), "12");
    assert_eq!(q1(input, &[]).unwrap(), 1);
    assert_eq!(q1("".to_string(), &[]), Err(Failure::BadInput));
}

#[test]
fn picture_shows_the_topmost_opaque_pixel() {
    let top = layer_of('2', "0222");
    let middle = layer_of('2', "1122");
    let bottom = layer_of('0', "0001");
    let picture = q2(format!("{}{}{}", top, middle, bottom), &[]).unwrap();
    let lines: Vec<&str> = picture.split('\n').collect();
    assert_eq!(lines.len(), 6);
    assert_eq!(lines[0], format!(" X X{}", " ".repeat(21)));
    for line in &lines[1..] {
        assert_eq!(*line, " ".repeat(25));
    }
}

#[test]
fn picture_of_nothing() {
    let picture = q2("".to_string(), &[]).unwrap();
    assert_eq!(picture.len(), 155);
    assert_eq!(picture.split('\n').next().unwrap(), "_".repeat(25));
    // A pixel that stays see-through is drawn as an underscore too.
    let picture = q2("2".to_string(), &[]).unwrap();
    assert_eq!(picture.split('\n').next().unwrap(), "_".repeat(25));
}
