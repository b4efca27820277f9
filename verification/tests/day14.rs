use aoc2019::day14::{q1, q2, reactions, req_ore, Exact, Reaction, Rounding};
use aoc2019::failure::Failure;

/// Rounds up by way of 32-bit floating point numbers.
struct ByFloat;

impl Rounding for ByFloat {
    fn times(&self, wanted: u64, made: u64) -> u64 {
        self.round_up(wanted, made)
    }

    fn round_up(&self, wanted: u64, made: u64) -> u64 {
        (wanted as f32 / made as f32).ceil() as u64
    }
}

const E1: &str = "
10 ORE => 10 A
1 ORE => 1 B
7 A, 1 B => 1 C
7 A, 1 C => 1 D
7 A, 1 D => 1 E
7 A, 1 E => 1 FUEL
";

const E2: &str = "
9 ORE => 2 A
8 ORE => 3 B
7 ORE => 5 C
3 A, 4 B => 1 AB
5 B, 7 C => 1 BC
4 C, 1 A => 1 CA
2 AB, 3 BC, 4 CA => 1 FUEL
";

const E3: &str = "
157 ORE => 5 NZVS
165 ORE => 6 DCFZ
44 XJWVT, 5 KHKGT, 1 QDVJ, 29 NZVS, 9 GPVTF, 48 HKGWZ => 1 FUEL
12 HKGWZ, 1 GPVTF, 8 PSHF => 9 QDVJ
179 ORE => 7 PSHF
177 ORE => 5 HKGWZ
7 DCFZ, 7 PSHF => 2 XJWVT
165 ORE => 2 GPVTF
3 DCFZ, 7 NZVS, 5 HKGWZ, 10 PSHF => 8 KHKGT
";

#[test]
fn day14_q1_e1() {
    let input = E1.trim();
    let output = q1(input.to_string(), &[], &ByFloat);
    assert_eq!(output.unwrap(), 31);
}

#[test]
fn day14_q1_e2() {
    let input = E2.trim();
    let output = q1(input.to_string(), &[], &ByFloat);
    assert_eq!(output.unwrap(), 165);
}

#[test]
fn day14_q1_e3() {
    let input = E3.trim();
    let output = q1(input.to_string(), &[], &ByFloat);
    assert_eq!(output.unwrap(), 13312);
}

#[test]
fn day14_q2_e1() {
    let input = E3.trim();
    let output = q2(input.to_string(), &[], &ByFloat);
    assert_eq!(output.unwrap(), 82892753);
}

#[test]
fn exact_rounding_gives_the_same_for_small_numbers() {
    assert_eq!(q1(E1.trim().to_string(), &[], &Exact).unwrap(), 31);
    assert_eq!(q1(E2.trim().to_string(), &[], &Exact).unwrap(), 165);
    assert_eq!(q1(E3.trim().to_string(), &[], &Exact).unwrap(), 13312);
    assert_eq!(q2(E3.trim().to_string(), &[], &Exact).unwrap(), 82892753);
}

#[test]
fn rounding_up() {
    assert_eq!(Exact.round_up(0, 5), 0);
    assert_eq!(Exact.round_up(1, 5), 1);
    assert_eq!(Exact.round_up(5, 5), 1);
    assert_eq!(Exact.round_up(6, 5), 2);
    assert_eq!(Exact.round_up(7, 0), 0);
    assert_eq!(Exact.round_up(u64::MAX, 1), u64::MAX);
    assert_eq!(Exact.round_up(u64::MAX, u64::MAX), 1);
    assert_eq!(Exact.round_up(u64::MAX, 2), 1 << 63);
}

fn letters(s: &str) -> Vec<char> {
    s.chars().collect()
}

#[test]
fn reactions_are_read_line_by_line() {
    assert_eq!(
        reactions("7 A, 1 B => 2 C\n10 ORE => 10 A"),
        Some(vec![
            Reaction {
                amount: 2,
                product: letters("C"),
                inputs: vec![(7, letters("A")), (1, letters("B"))]
            },
            Reaction { amount: 10, product: letters("A"), inputs: vec![(10, letters("ORE"))] },
        ])
    );
    assert_eq!(reactions("7 A, 1 B = 2 C"), None);
    assert_eq!(reactions("7 A, B => 2 C"), None);
    // Without the blank a comma does not part two inputs: it is in the name.
    assert_eq!(
        reactions("7 A,1 B => 2 C"),
        Some(vec![Reaction { amount: 2, product: letters("C"), inputs: vec![(7, letters("A,1"))] }])
    );
    assert_eq!(reactions("x A => 2 C"), None);
    assert_eq!(reactions("7 A => C"), None);
    assert_eq!(reactions("7 A => 2 C\n"), None);
    assert_eq!(reactions(""), None);
    // What follows the name is not looked at, nor what follows a second arrow.
    assert_eq!(
        reactions("  1 ORE more => 3 A b c => 9 Z"),
        Some(vec![Reaction {
            amount: 3,
            product: letters("A"),
            inputs: vec![(1, letters("ORE"))]
        }])
    );
}

#[test]
fn what_is_left_over_is_used_first() {
    let list = reactions("10 ORE => 10 A\n7 A => 1 FUEL").unwrap();
    let mut excess = Vec::new();
    // The first unit takes one run of ten A and leaves three.
    assert_eq!(req_ore(&Exact, &list, &mut excess, 1), Ok(10));
    assert_eq!(excess, vec![(letters("FUEL"), 0), (letters("A"), 3)]);
    // The second takes four more, so one more run, and leaves six.
    assert_eq!(req_ore(&Exact, &list, &mut excess, 1), Ok(10));
    assert_eq!(excess, vec![(letters("FUEL"), 0), (letters("A"), 6)]);
    // The third takes one more A than is left.
    assert_eq!(req_ore(&Exact, &list, &mut excess, 1), Ok(10));
    assert_eq!(excess, vec![(letters("FUEL"), 0), (letters("A"), 9)]);
    // The fourth is paid for from what is left.
    assert_eq!(req_ore(&Exact, &list, &mut excess, 1), Ok(0));
    assert_eq!(excess, vec![(letters("FUEL"), 0), (letters("A"), 2)]);
}

#[test]
fn the_last_reaction_for_a_product_counts() {
    let text = "5 ORE => 1 A\n1 A => 1 FUEL\n3 ORE => 1 A";
    assert_eq!(q1(text.to_string(), &[], &Exact).unwrap(), 3);
}

#[test]
fn orders_that_fail() {
    assert_eq!(q1("1 A => 1 FUEL".to_string(), &[], &Exact), Err(Failure::BadInput));
    assert_eq!(q1("1 ORE => 1 A".to_string(), &[], &Exact), Err(Failure::BadInput));
    assert_eq!(q1("1 ORE -> 1 FUEL".to_string(), &[], &Exact), Err(Failure::BadInput));
    assert_eq!(q2("1 A => 1 FUEL".to_string(), &[], &Exact), Err(Failure::BadInput));
    // A thousand million ore a unit: a full hold makes a thousand units.
    assert_eq!(q2("1000000000 ORE => 1 FUEL".to_string(), &[], &Exact).unwrap(), 1000);
    // Two units a run: the last run is paid for in full.
    assert_eq!(q2("3000000000 ORE => 2 FUEL".to_string(), &[], &Exact).unwrap(), 666);
}
