use aoc2019::intcode::io::{Input, NoIo, Output};
use aoc2019::intcode::run;
use aoc2019::intcode::{Error, Instruction, Intcode, Mem};
use std::collections::VecDeque;

fn machine(text: &str) -> Intcode {
    Intcode::new(text).unwrap()
}

fn run_with(text: &str, input: Vec<i64>) -> Vec<i64> {
    let mut cpu = machine(text);
    let mut input = input;
    let mut output = Vec::new();
    run::to_completion(&mut cpu, &mut input, &mut output).unwrap();
    output
}

#[test]
fn add_and_multiply_then_halt() {
    let mut cpu = machine("1,9,10,3,2,3,11,0,99,30,40,50");
    run::headless(&mut cpu).unwrap();
    assert_eq!(cpu.mem().read(0), 3500);
    assert_eq!(cpu.peek(3), 70);
}

#[test]
fn echo_one_input() {
    let mut cpu = machine("3,0,4,0,99");
    let mut input = vec![42];
    let mut output = Vec::new();
    run::to_completion(&mut cpu, &mut input, &mut output).unwrap();
    assert_eq!(output, vec![42]);
    assert!(input.is_empty());
}

#[test]
fn immediate_mode_multiply_patches_the_halt() {
    let mut cpu = machine("1002,4,3,4,33");
    run::headless(&mut cpu).unwrap();
    assert_eq!(cpu.peek(0), 1002);
    assert_eq!(cpu.peek(1), 4);
    assert_eq!(cpu.peek(2), 3);
    assert_eq!(cpu.peek(3), 4);
    assert_eq!(cpu.peek(4), 99);
    assert_eq!(cpu.peek(5), 0);
}

#[test]
fn a_program_that_rewrites_what_it_runs_next() {
    // Stores 1101 at 4, where a halt stood, and so goes on to add 20 and 22
    // into cell 0 before it halts.
    let mut cpu = machine("1101,1100,1,4,99,20,22,0,99");
    run::headless(&mut cpu).unwrap();
    assert_eq!(cpu.peek(4), 1101);
    assert_eq!(cpu.peek(0), 42);
}

#[test]
fn quine_writes_its_own_cells() {
    let text = "109,1,204,-1,1001,100,1,100,1008,100,16,101,1006,101,0,99";
    assert_eq!(
        run_with(text, Vec::new()),
        vec![109, 1, 204, -1, 1001, 100, 1, 100, 1008, 100, 16, 101, 1006, 101, 0, 99]
    );
}

#[test]
fn products_beyond_32_bits_are_exact() {
    assert_eq!(run_with("1102,34915192,34915192,7,4,7,99,0", Vec::new()), vec![1219070632396864]);
    assert_eq!(run_with("104,1125899906842624,99", Vec::new()), vec![1125899906842624]);
    assert_eq!(
        run_with("1102,3037000499,3037000499,0,4,0,99", Vec::new()),
        vec![9223372030926249001]
    );
}

#[test]
fn sums_and_products_wrap_round_at_64_bits() {
    assert_eq!(
        run_with("1101,9223372036854775807,1,0,4,0,99", Vec::new()),
        vec![i64::MIN]
    );
    assert_eq!(run_with("1102,4611686018427387904,4,0,4,0,99", Vec::new()), vec![0]);
}

#[test]
fn comparisons_and_jumps() {
    // Is the input equal to 8? Position mode, then immediate mode.
    assert_eq!(run_with("3,9,8,9,10,9,4,9,99,-1,8", vec![8]), vec![1]);
    assert_eq!(run_with("3,9,8,9,10,9,4,9,99,-1,8", vec![7]), vec![0]);
    assert_eq!(run_with("3,3,1108,-1,8,3,4,3,99", vec![8]), vec![1]);
    // Is the input less than 8?
    assert_eq!(run_with("3,9,7,9,10,9,4,9,99,-1,8", vec![7]), vec![1]);
    assert_eq!(run_with("3,3,1107,-1,8,3,4,3,99", vec![9]), vec![0]);
    // Is the input other than 0? With jump-if-zero, then jump-if-nonzero.
    assert_eq!(run_with("3,12,6,12,15,1,13,14,13,4,13,99,-1,0,1,9", vec![0]), vec![0]);
    assert_eq!(run_with("3,12,6,12,15,1,13,14,13,4,13,99,-1,0,1,9", vec![5]), vec![1]);
    assert_eq!(run_with("3,3,1105,-1,9,1101,0,0,12,4,12,99,1", vec![0]), vec![0]);
    assert_eq!(run_with("3,3,1105,-1,9,1101,0,0,12,4,12,99,1", vec![-3]), vec![1]);
}

#[test]
fn relative_mode_reads_and_writes_from_the_base() {
    // Base 5; reads input to 5 + 2 and writes cell 5 + 2.
    assert_eq!(run_with("109,5,203,2,204,2,99,0", vec![31]), vec![31]);
    // The base moves by a value that may be negative.
    assert_eq!(run_with("109,10,109,-3,204,0,99,77", Vec::new()), vec![77]);
    // A sum stored relative to the base.
    assert_eq!(run_with("109,3,21101,4,5,20,4,23,99", Vec::new()), vec![9]);
}

#[test]
fn a_destination_in_immediate_mode_is_the_operand_itself() {
    let mut cpu = machine("11101,2,3,0,99");
    run::headless(&mut cpu).unwrap();
    assert_eq!(cpu.peek(3), 5);
    assert_eq!(cpu.peek(0), 11101);
    // An input stored in its own operand, and an output of its own operand.
    assert_eq!(run_with("103,0,4,1,104,7,99", vec![9]), vec![9, 7]);
}

#[test]
fn decoding_gives_the_instruction_and_its_width() {
    let mut cpu = machine("1002,4,3,4,33");
    assert_eq!(cpu.fetch_decode_instr(), Ok((Instruction::Mul_(33, 3, 4), 4)));
    // Decoding changes nothing: the same again.
    assert_eq!(cpu.fetch_decode_instr(), Ok((Instruction::Mul_(33, 3, 4), 4)));
    assert_eq!(cpu.peek(4), 33);
    assert_eq!(machine("1,0,0,0").fetch_decode_instr(), Ok((Instruction::Add_(1, 1, 0), 4)));
    assert_eq!(machine("3,7").fetch_decode_instr(), Ok((Instruction::Geti(7), 2)));
    assert_eq!(machine("104,7").fetch_decode_instr(), Ok((Instruction::Puti(1), 2)));
    assert_eq!(machine("1105,0,9").fetch_decode_instr(), Ok((Instruction::Jnz_(0, 9), 3)));
    assert_eq!(machine("6,0,1").fetch_decode_instr(), Ok((Instruction::Jz__(6, 0), 3)));
    assert_eq!(machine("1107,1,2,3").fetch_decode_instr(), Ok((Instruction::Cmp_(1, 2, 3), 4)));
    assert_eq!(machine("108,8,0,3").fetch_decode_instr(), Ok((Instruction::Eq__(8, 108, 3), 4)));
    assert_eq!(machine("109,-4").fetch_decode_instr(), Ok((Instruction::Setb(-4), 2)));
    assert_eq!(machine("99").fetch_decode_instr(), Ok((Instruction::Halt, 1)));
    // Digits above the modes that the instruction uses are not looked at.
    assert_eq!(machine("2000099").fetch_decode_instr(), Ok((Instruction::Halt, 1)));
    cpu.poke(0, 99);
    assert_eq!(cpu.fetch_decode_instr(), Ok((Instruction::Halt, 1)));
}

#[test]
fn decoding_needs_no_machine() {
    let mem = Mem::new("109,1,204,-1,2202,3,4,5,99").unwrap();
    assert_eq!(Instruction::decode(0, 0, &mem), Ok((Instruction::Setb(1), 2)));
    // Relative to a base of 1 the operand -1 means cell 0.
    assert_eq!(Instruction::decode(2, 1, &mem), Ok((Instruction::Puti(0), 2)));
    assert_eq!(Instruction::decode(2, 0, &mem), Err(Error::NegativeAddr));
    // Cell 3 + 5 is 99, cell 4 + 5 is past the program, the product goes to cell 5.
    assert_eq!(Instruction::decode(4, 5, &mem), Ok((Instruction::Mul_(99, 0, 5), 4)));
    assert_eq!(Instruction::decode(8, 0, &mem), Ok((Instruction::Halt, 1)));
    // Past the program every cell holds 0, which names no operation.
    assert_eq!(Instruction::decode(9, 0, &mem), Err(Error::InvalidOpcode(0)));
    assert_eq!(Instruction::decode(u64::MAX, 0, &mem), Err(Error::InvalidOpcode(0)));
}

#[test]
fn what_cannot_be_decoded() {
    assert_eq!(machine("0").fetch_decode_instr(), Err(Error::InvalidOpcode(0)));
    assert_eq!(machine("1098").fetch_decode_instr(), Err(Error::InvalidOpcode(98)));
    assert_eq!(machine("10").fetch_decode_instr(), Err(Error::InvalidOpcode(10)));
    assert_eq!(machine("301,0,0,0").fetch_decode_instr(), Err(Error::InvalidAddrMode(3)));
    assert_eq!(machine("9001,0,0,0").fetch_decode_instr(), Err(Error::InvalidAddrMode(9)));
    assert_eq!(machine("50001,0,0,0").fetch_decode_instr(), Err(Error::InvalidAddrMode(5)));
    assert_eq!(machine("-1").fetch_decode_instr(), Err(Error::NegativeInstr));
    assert_eq!(machine("1,-1,0,0").fetch_decode_instr(), Err(Error::NegativeAddr));
    assert_eq!(machine("101,0,0,-3").fetch_decode_instr(), Err(Error::NegativeAddr));
    assert_eq!(machine("204,-1").fetch_decode_instr(), Err(Error::NegativeAddr));
    // A jump's target is looked at even where the jump is not taken.
    assert_eq!(machine("1105,0,-5").fetch_decode_instr(), Err(Error::NegativeAddr));
    // The first operand that fails decides.
    assert_eq!(machine("301,-1,0,0").fetch_decode_instr(), Err(Error::InvalidAddrMode(3)));
    assert_eq!(machine("3001,-1,0,0").fetch_decode_instr(), Err(Error::NegativeAddr));
    // The operation is looked at before the operands.
    assert_eq!(machine("312,-1,0,0").fetch_decode_instr(), Err(Error::InvalidOpcode(12)));
}

#[test]
fn a_failed_step_leaves_the_machine_as_it_was() {
    let mut cpu = machine("1101,1,1,0,55");
    let mut io = NoIo;
    let mut io2 = NoIo;
    assert_eq!(cpu.step(&mut io, &mut io2), Ok(true));
    assert_eq!(cpu.step(&mut io, &mut io2), Err(Error::InvalidOpcode(55)));
    assert_eq!(cpu.step(&mut io, &mut io2), Err(Error::InvalidOpcode(55)));
    // Mended, it goes on from where it stood.
    cpu.poke(4, 99);
    assert_eq!(cpu.step(&mut io, &mut io2), Ok(false));
    assert_eq!(cpu.peek(0), 2);
}

#[test]
fn a_halted_machine_stays_halted_until_reset() {
    let mut cpu = machine("1101,1,1,5,99,0");
    let mut io = NoIo;
    let mut io2 = NoIo;
    assert_eq!(cpu.step(&mut io, &mut io2), Ok(true));
    assert_eq!(cpu.step(&mut io, &mut io2), Ok(false));
    assert_eq!(cpu.step(&mut io, &mut io2), Ok(false));
    assert_eq!(run::headless(&mut cpu), Ok(()));
    assert_eq!(cpu.peek(5), 2);
    cpu.reset();
    assert_eq!(cpu.peek(5), 0);
    assert_eq!(cpu.step(&mut io, &mut io2), Ok(true));
    assert_eq!(cpu.peek(5), 2);
}

#[test]
fn headless_runs_refuse_input_and_output() {
    let mut cpu = machine("3,0,99");
    assert_eq!(
        run::headless(&mut cpu),
        Err(Error::InputError("intcode cannot read input in headless mode".to_string()))
    );
    let mut cpu = machine("104,1,99");
    assert_eq!(
        run::headless(&mut cpu),
        Err(Error::OutputError("intcode cannot write output in headless mode".to_string()))
    );
    assert_eq!(run::headless(&mut machine("98")), Err(Error::InvalidOpcode(98)));
}

#[test]
fn buffered_runs_fail_when_the_input_runs_out() {
    let mut cpu = machine("3,0,4,0,3,1,4,1,99");
    let mut input = vec![5];
    let mut output = vec![1000];
    assert_eq!(
        run::to_completion(&mut cpu, &mut input, &mut output),
        Err(Error::InputError("no more input in the input buffer".to_string()))
    );
    // What was written before the failure is there, after what was there before.
    assert_eq!(output, vec![1000, 5]);
    assert!(input.is_empty());
    // With more input the run goes on where it stopped.
    let mut input = vec![6];
    assert_eq!(run::to_completion(&mut cpu, &mut input, &mut output), Ok(()));
    assert_eq!(output, vec![1000, 5, 6]);
}

#[test]
fn unread_input_is_left_turned_round() {
    let mut cpu = machine("3,0,99");
    let mut input = vec![1, 2, 3, 4];
    let mut output = Vec::new();
    run::to_completion(&mut cpu, &mut input, &mut output).unwrap();
    assert_eq!(cpu.peek(0), 1);
    assert_eq!(input, vec![4, 3, 2]);
    assert!(output.is_empty());
}

#[test]
fn runs_up_to_the_next_output() {
    let mut cpu = machine("3,0,4,0,3,1,1,0,1,2,4,2,99");
    let mut queue = VecDeque::new();
    queue.push_back(5);
    assert_eq!(run::until_output(&mut cpu, &mut queue), Ok(Some(5)));
    assert!(queue.is_empty());
    // Nothing to read: the run fails, and the machine waits at the read.
    assert_eq!(
        run::until_output(&mut cpu, &mut queue),
        Err(Error::InputError("no more input in the input buffer".to_string()))
    );
    queue.push_back(7);
    queue.push_back(100);
    assert_eq!(run::until_output(&mut cpu, &mut queue), Ok(Some(12)));
    assert_eq!(queue, VecDeque::from(vec![100]));
    assert_eq!(run::until_output(&mut cpu, &mut queue), Ok(None));
    assert_eq!(run::until_output(&mut cpu, &mut queue), Ok(None));
    assert_eq!(queue, VecDeque::from(vec![100]));
}

#[test]
fn bounded_runs_stop_at_their_limit() {
    // Jumps to itself for ever.
    let mut cpu = machine("1105,1,0");
    assert_eq!(run::headless_within(&mut cpu, 1000), Err(Error::StepLimit));
    let mut input = Vec::new();
    let mut output = Vec::new();
    assert_eq!(
        run::to_completion_within(&mut cpu, &mut input, &mut output, 10),
        Err(Error::StepLimit)
    );
    let mut queue = VecDeque::new();
    assert_eq!(run::until_output_within(&mut cpu, &mut queue, 10), Err(Error::StepLimit));
    // The halt is a step too: two steps want a limit of two.
    let mut cpu = machine("1101,1,1,0,99");
    assert_eq!(run::headless_within(&mut cpu, 1), Err(Error::StepLimit));
    assert_eq!(run::headless_within(&mut cpu, 1), Ok(()));
    cpu.reset();
    assert_eq!(run::headless_within(&mut cpu, 2), Ok(()));
    assert_eq!(run::headless_within(&mut cpu, 0), Err(Error::StepLimit));
    // Counts up to the limit it is given and writes each number.
    let mut cpu = machine("1001,100,1,100,4,100,1105,1,0");
    let mut output = Vec::new();
    assert_eq!(
        run::to_completion_within(&mut cpu, &mut Vec::new(), &mut output, 9),
        Err(Error::StepLimit)
    );
    assert_eq!(output, vec![1, 2, 3]);
}

#[test]
fn reset_and_run_again_gives_the_same() {
    let text = "3,50,1001,50,1,50,4,50,1002,50,2,5000,4,5000,99";
    let mut cpu = machine(text);
    let mut seen = Vec::new();
    for _ in 0..3 {
        let mut input = vec![20];
        let mut output = Vec::new();
        run::to_completion(&mut cpu, &mut input, &mut output).unwrap();
        let memory: Vec<i64> = [0u64, 5, 50, 5000, 5001].iter().map(|a| cpu.peek(*a)).collect();
        seen.push((output, memory));
        cpu.reset();
        assert_eq!(cpu.peek(50), 0);
        assert_eq!(cpu.peek(5000), 0);
    }
    assert_eq!(seen[0], (vec![21, 42], vec![3, 50, 21, 42, 0]));
    assert_eq!(seen[1], seen[0]);
    assert_eq!(seen[2], seen[0]);
}

#[test]
fn reset_puts_back_the_base_and_the_program_counter() {
    let mut cpu = machine("109,7,204,0,99,0,0,11");
    assert_eq!(run_with("109,7,204,0,99,0,0,11", Vec::new()), vec![11]);
    let mut output = Vec::new();
    run::to_completion(&mut cpu, &mut Vec::new(), &mut output).unwrap();
    cpu.reset();
    // Had the base stayed at 7, the second run would add 7 to it and read cell 14.
    run::to_completion(&mut cpu, &mut Vec::new(), &mut output).unwrap();
    assert_eq!(output, vec![11, 11]);
}

#[test]
fn copies_share_nothing() {
    let mut first = machine("1101,1,1,0,99");
    let mut second = first.clone();
    run::headless(&mut first).unwrap();
    assert_eq!(first.peek(0), 2);
    assert_eq!(second.peek(0), 1101);
    second.poke(1, 40);
    second.poke(70000, 5);
    run::headless(&mut second).unwrap();
    assert_eq!(second.peek(0), 41);
    assert_eq!(first.peek(70000), 0);
    assert_eq!(first.peek(1), 1);
}

#[test]
fn memory_reads_zero_where_nothing_was_written() {
    let mut mem = Mem::new("5,6,7").unwrap();
    assert_eq!(mem.base_len(), 3);
    assert_eq!(mem.read(0), 5);
    assert_eq!(mem.read(2), 7);
    assert_eq!(mem.read(3), 0);
    assert_eq!(mem.read(1 << 40), 0);
    assert_eq!(mem.read(u64::MAX), 0);
    mem.write(1, -9);
    mem.write(3, 33);
    mem.write(1 << 40, 44);
    mem.write(u64::MAX, 55);
    assert_eq!(mem.read(1), -9);
    assert_eq!(mem.read(3), 33);
    assert_eq!(mem.read(1 << 40), 44);
    assert_eq!(mem.read(u64::MAX), 55);
    assert_eq!(mem.read((1 << 40) + 1), 0);
    assert_eq!(mem.base_len(), 3);
    let copy = mem.clone();
    mem.reset();
    assert_eq!(mem.read(1), 6);
    assert_eq!(mem.read(3), 0);
    assert_eq!(mem.read(1 << 40), 0);
    assert_eq!(mem.read(u64::MAX), 0);
    assert_eq!(copy.read(1), -9);
    assert_eq!(copy.read(1 << 40), 44);
    let image = Mem::with_image(vec![1, 2]);
    assert_eq!(image.read(1), 2);
    assert_eq!(image.base_len(), 2);
}

#[test]
fn malformed_text_is_refused() {
    assert_eq!(Intcode::new("1,x,3").err(), Some(Error::ParseMem));
    assert_eq!(Intcode::new("").err(), Some(Error::ParseMem));
    assert_eq!(Intcode::new("1,,2").err(), Some(Error::ParseMem));
    assert_eq!(Intcode::new("1,2,").err(), Some(Error::ParseMem));
    assert_eq!(Intcode::new("1 2").err(), Some(Error::ParseMem));
    assert_eq!(Intcode::new("1,-").err(), Some(Error::ParseMem));
    assert_eq!(Intcode::new("1,+-2").err(), Some(Error::ParseMem));
    assert_eq!(Intcode::new("9223372036854775808").err(), Some(Error::ParseMem));
    assert_eq!(Intcode::new("-9223372036854775809").err(), Some(Error::ParseMem));
    assert!(Mem::new("12,3.5").is_err());
    let mut cpu = Intcode::new(" 1 ,\t-2,\n+3 ,\u{a0}004\u{2003},-9223372036854775808").unwrap();
    assert_eq!(cpu.peek(0), 1);
    assert_eq!(cpu.peek(1), -2);
    assert_eq!(cpu.peek(2), 3);
    assert_eq!(cpu.peek(3), 4);
    assert_eq!(cpu.peek(4), i64::MIN);
    assert_eq!(cpu.mem().base_len(), 5);
}

#[test]
fn errors_in_words() {
    assert_eq!(Error::InvalidOpcode(98).describe(), "Encountered unknown opcode: 98");
    assert_eq!(Error::InvalidOpcode(0).describe(), "Encountered unknown opcode: 0");
    assert_eq!(
        Error::InvalidAddrMode(7).describe(),
        "Encountered unknown addressing mode: 7"
    );
    assert_eq!(
        Error::InvalidOpcode(u64::MAX).describe(),
        "Encountered unknown opcode: 18446744073709551615"
    );
    assert_eq!(
        Error::InputError("the well is dry".to_string()).describe(),
        "Could not read input: the well is dry"
    );
    assert_eq!(
        Error::OutputError("the pipe is shut".to_string()).describe(),
        "Could not read output: the pipe is shut"
    );
    assert_eq!(Error::NegativeAddr.describe(), "Cannot address negative address");
    assert_eq!(Error::NegativeInstr.describe(), "Cannot execute negative instruction");
    assert_eq!(Error::ParseMem.describe(), "Failed to parse initial memory string");
    assert_eq!(Error::StepLimit.describe(), "Ran out of steps before the machine halted");
}

/// Gives 10, 20, 30, ... and counts how often it was asked.
struct Tens {
    asked: i64,
}

impl Input for Tens {
    fn read(&mut self) -> Result<i64, String> {
        self.asked += 1;
        Ok(self.asked * 10)
    }
}

/// Takes even numbers only.
struct Evens {
    taken: Vec<i64>,
}

impl Output for Evens {
    fn write(&mut self, val: i64) -> Result<(), String> {
        if val % 2 == 0 {
            self.taken.push(val);
            Ok(())
        } else {
            Err(format!("{} is odd", val))
        }
    }
}

#[test]
fn a_step_uses_the_operations_it_is_given_once() {
    let mut cpu = machine("3,0,4,0,1101,0,7,0,4,0,99");
    let mut source = Tens { asked: 0 };
    let mut sink = Evens { taken: Vec::new() };
    assert_eq!(cpu.step(&mut source, &mut sink), Ok(true));
    assert_eq!((source.asked, sink.taken.len()), (1, 0));
    assert_eq!(cpu.step(&mut source, &mut sink), Ok(true));
    assert_eq!((source.asked, sink.taken.clone()), (1, vec![10]));
    assert_eq!(cpu.step(&mut source, &mut sink), Ok(true));
    assert_eq!(cpu.step(&mut source, &mut sink), Err(Error::OutputError("7 is odd".to_string())));
    // The write that failed was not carried out: the machine tries it again.
    cpu.poke(0, 8);
    assert_eq!(cpu.step(&mut source, &mut sink), Ok(true));
    assert_eq!(cpu.step(&mut source, &mut sink), Ok(false));
    assert_eq!((source.asked, sink.taken), (1, vec![10, 8]));
}

#[test]
fn buffers_as_operations() {
    let mut stack = vec![1, 2, 3];
    assert_eq!(Input::read(&mut stack), Ok(3));
    assert_eq!(stack, vec![1, 2]);
    let mut queue = VecDeque::from(vec![1, 2, 3]);
    assert_eq!(Input::read(&mut queue), Ok(1));
    assert_eq!(queue, VecDeque::from(vec![2, 3]));
    let mut empty: Vec<i64> = Vec::new();
    assert_eq!(
        Input::read(&mut empty),
        Err("no more input in the input buffer".to_string())
    );
    let mut sink = vec![9];
    assert_eq!(Output::write(&mut sink, 4), Ok(()));
    assert_eq!(sink, vec![9, 4]);
    let mut slot = Some(1);
    assert_eq!(Output::write(&mut slot, 4), Ok(()));
    assert_eq!(slot, Some(4));
    let mut items = vec![1, 2, 3, 4, 5];
    run::reverse(&mut items);
    assert_eq!(items, vec![5, 4, 3, 2, 1]);
}
