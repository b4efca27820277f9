use vstd::prelude::*;

use super::error::Error;
use super::io::{Input, Output};
use super::mem::{Mem, MemView};

verus! {

/// One decoded instruction. Source operands hold the value already read from
/// memory, destinations and jump targets hold the address.
#[derive(Debug, Clone, Copy, PartialEq, Eq)]
pub enum Instruction {
    /// Store the sum of the two values at the address.
    Add_(i64, i64, u64),
    /// Store the product of the two values at the address.
    Mul_(i64, i64, u64),
    /// Store one integer of input at the address.
    Geti(u64),
    /// Give the integer at the address as output.
    Puti(u64),
    /// Continue at the address if the value is not 0.
    Jnz_(i64, u64),
    /// Continue at the address if the value is 0.
    Jz__(i64, u64),
    /// Store 1 at the address if the first value is less than the second, else 0.
    Cmp_(i64, i64, u64),
    /// Store 1 at the address if the two values are equal, else 0.
    Eq__(i64, i64, u64),
    /// Add the value to the relocation base.
    Setb(i64),
    /// Stop.
    Halt,
}

/// An Intcode machine as the contracts see it.
pub struct Machine {
    /// The memory.
    pub mem: MemView,
    /// The address of the next instruction word.
    pub pc: u64,
    /// The relocation base.
    pub base: i64,
}

/// The address that the value `val` names, if it names one.
pub open spec fn to_addr(val: i64) -> Result<u64, Error> {
    if val < 0 {
        Err(Error::NegativeAddr)
    } else {
        Ok(val as u64)
    }
}

/// The addressing mode of operand `k` (1, 2 or 3) in the instruction word `word`.
pub open spec fn mode_of(word: u64, k: u64) -> u64 {
    if k == 1 {
        word / 100 % 10
    } else if k == 2 {
        word / 1000 % 10
    } else {
        word / 10000 % 10
    }
}

/// The number of cells that an instruction with operation code `opcode`
/// takes up: its word and its operands. 0 where `opcode` names no operation.
pub open spec fn width_of(opcode: u64) -> u64 {
    if opcode == 1 || opcode == 2 || opcode == 7 || opcode == 8 {
        4
    } else if opcode == 5 || opcode == 6 {
        3
    } else if opcode == 3 || opcode == 4 || opcode == 9 {
        2
    } else if opcode == 99 {
        1
    } else {
        0
    }
}

impl Machine {
    /// The machine that was just built from `image`, or just reset.
    pub open spec fn initial(image: Seq<i64>) -> Machine {
        Machine { mem: MemView::fresh(image), pc: 0, base: 0 }
    }

    /// The machine after a reset.
    pub open spec fn reset(self) -> Machine {
        Machine::initial(self.mem.image)
    }

    /// The machine with `val` stored at `addr`.
    pub open spec fn store(self, addr: u64, val: i64) -> Machine {
        Machine { mem: self.mem.write(addr, val), ..self }
    }

    /// The machine with its program counter at `pc`.
    pub open spec fn jump(self, pc: u64) -> Machine {
        Machine { pc, ..self }
    }

    /// The machine with its program counter `width` cells further on.
    pub open spec fn skip(self, width: u64) -> Machine {
        self.jump(self.pc.wrapping_add(width))
    }

    /// The address that operand `k` of the instruction word `word` at the
    /// program counter refers to. In position mode the operand's cell holds the
    /// address, in relative mode it holds the address less the relocation base,
    /// and in immediate mode the operand's own cell is meant.
    pub open spec fn operand(self, word: u64, k: u64) -> Result<u64, Error> {
        let slot = self.pc.wrapping_add(k);
        let mode = mode_of(word, k);
        if mode == 0 {
            to_addr(self.mem.read(slot))
        } else if mode == 1 {
            Ok(slot)
        } else if mode == 2 {
            to_addr(self.mem.read(slot).wrapping_add(self.base))
        } else {
            Err(Error::InvalidAddrMode(mode))
        }
    }

    /// The value of source operand `k`.
    pub open spec fn value(self, word: u64, k: u64) -> Result<i64, Error> {
        match self.operand(word, k) {
            Ok(addr) => Ok(self.mem.read(addr)),
            Err(e) => Err(e),
        }
    }

    /// The address that the value of operand `k` names: a jump's target.
    pub open spec fn target(self, word: u64, k: u64) -> Result<u64, Error> {
        match self.value(word, k) {
            Ok(val) => to_addr(val),
            Err(e) => Err(e),
        }
    }

    /// Two source values and a destination: the operands of an instruction
    /// that combines two values. The operands are resolved in order, and the
    /// first that fails decides the error.
    pub open spec fn two_values_and_address(self, word: u64) -> Result<(i64, i64, u64), Error> {
        match self.value(word, 1) {
            Err(e) => Err(e),
            Ok(a) => match self.value(word, 2) {
                Err(e) => Err(e),
                Ok(b) => match self.operand(word, 3) {
                    Err(e) => Err(e),
                    Ok(dst) => Ok((a, b, dst)),
                },
            },
        }
    }

    /// A source value and a target: the operands of a jump.
    pub open spec fn value_and_target(self, word: u64) -> Result<(i64, u64), Error> {
        match self.value(word, 1) {
            Err(e) => Err(e),
            Ok(v) => match self.target(word, 2) {
                Err(e) => Err(e),
                Ok(t) => Ok((v, t)),
            },
        }
    }

    /// The instruction at the program counter and the number of cells it takes
    /// up, or the reason why there is none.
    pub open spec fn decode(self) -> Result<(Instruction, u64), Error> {
        let raw = self.mem.read(self.pc);
        if raw < 0 {
            Err(Error::NegativeInstr)
        } else {
            let word = raw as u64;
            let opcode = word % 100;
            if opcode == 1 || opcode == 2 || opcode == 7 || opcode == 8 {
                match self.two_values_and_address(word) {
                    Err(e) => Err(e),
                    Ok((a, b, dst)) => Ok(
                        (
                            if opcode == 1 {
                                Instruction::Add_(a, b, dst)
                            } else if opcode == 2 {
                                Instruction::Mul_(a, b, dst)
                            } else if opcode == 7 {
                                Instruction::Cmp_(a, b, dst)
                            } else {
                                Instruction::Eq__(a, b, dst)
                            },
                            4,
                        ),
                    ),
                }
            } else if opcode == 3 || opcode == 4 {
                match self.operand(word, 1) {
                    Err(e) => Err(e),
                    Ok(addr) => Ok(
                        (
                            if opcode == 3 {
                                Instruction::Geti(addr)
                            } else {
                                Instruction::Puti(addr)
                            },
                            2,
                        ),
                    ),
                }
            } else if opcode == 5 || opcode == 6 {
                match self.value_and_target(word) {
                    Err(e) => Err(e),
                    Ok((v, t)) => Ok(
                        (
                            if opcode == 5 {
                                Instruction::Jnz_(v, t)
                            } else {
                                Instruction::Jz__(v, t)
                            },
                            3,
                        ),
                    ),
                }
            } else if opcode == 9 {
                match self.value(word, 1) {
                    Err(e) => Err(e),
                    Ok(v) => Ok((Instruction::Setb(v), 2)),
                }
            } else if opcode == 99 {
                Ok((Instruction::Halt, 1))
            } else {
                Err(Error::InvalidOpcode(opcode))
            }
        }
    }

    /// The machine after `instr`, which takes up `width` cells, was carried
    /// out. A read stores `input`; a write changes nothing but the program
    /// counter; a halt changes nothing at all, so that a halted machine stays
    /// halted. Sums, products and the relocation base wrap round at the ends
    /// of the 64-bit range.
    pub open spec fn apply(self, instr: Instruction, width: u64, input: i64) -> Machine {
        match instr {
            Instruction::Add_(a, b, dst) => self.skip(width).store(dst, a.wrapping_add(b)),
            Instruction::Mul_(a, b, dst) => self.skip(width).store(dst, a.wrapping_mul(b)),
            Instruction::Geti(dst) => self.skip(width).store(dst, input),
            Instruction::Puti(src) => self.skip(width),
            Instruction::Jnz_(v, t) => if v != 0 {
                self.jump(t)
            } else {
                self.skip(width)
            },
            Instruction::Jz__(v, t) => if v == 0 {
                self.jump(t)
            } else {
                self.skip(width)
            },
            Instruction::Cmp_(a, b, dst) => self.skip(width).store(
                dst,
                if a < b {
                    1
                } else {
                    0
                },
            ),
            Instruction::Eq__(a, b, dst) => self.skip(width).store(
                dst,
                if a == b {
                    1
                } else {
                    0
                },
            ),
            Instruction::Setb(b) => Machine { base: self.base.wrapping_add(b), ..self.skip(width) },
            Instruction::Halt => self,
        }
    }

    /// Whether the machine has halted: the instruction at its program counter
    /// is a halt.
    pub open spec fn halted(self) -> bool {
        self.decode() matches Ok((Instruction::Halt, _))
    }
}

/// What one step did, given the machine, the source and the sink before and
/// after it and the step's result.
///
/// A step decodes one instruction and carries it out. Where decoding fails,
/// or the read or the write that the instruction asks for, the step gives
/// the error and the machine is as before. A read uses the source once and
/// leaves the sink alone, a write uses the sink once and leaves the source
/// alone, and every other instruction leaves both alone. The result is
/// `Ok(false)` for a halt and `Ok(true)` for every other instruction.
pub open spec fn step_spec<I: Input, O: Output>(
    pre: Machine,
    post: Machine,
    source: (I, I),
    sink: (O, O),
    res: Result<bool, Error>,
) -> bool {
    match pre.decode() {
        Err(e) => res == Err::<bool, Error>(e) && post == pre && source.1 == source.0 && sink.1
            == sink.0,
        Ok((Instruction::Geti(dst), width)) => {
            &&& sink.1 == sink.0
            &&& match res {
                Ok(running) => {
                    &&& running
                    &&& source.0.reads(&source.1, Ok(post.mem.read(dst)))
                    &&& post == pre.apply(Instruction::Geti(dst), width, post.mem.read(dst))
                },
                Err(Error::InputError(reason)) => {
                    &&& source.0.reads(&source.1, Err(reason))
                    &&& post == pre
                },
                Err(_) => false,
            }
        },
        Ok((Instruction::Puti(src), width)) => {
            &&& source.1 == source.0
            &&& match res {
                Ok(running) => {
                    &&& running
                    &&& sink.0.writes(&sink.1, pre.mem.read(src), None)
                    &&& post == pre.apply(Instruction::Puti(src), width, 0)
                },
                Err(Error::OutputError(reason)) => {
                    &&& sink.0.writes(&sink.1, pre.mem.read(src), Some(reason))
                    &&& post == pre
                },
                Err(_) => false,
            }
        },
        Ok((instr, width)) => {
            &&& res == Ok::<bool, Error>(!(instr is Halt))
            &&& post == pre.apply(instr, width, 0)
            &&& source.1 == source.0
            &&& sink.1 == sink.0
        },
    }
}

/// Decoding reads the instruction word, the operand cells after it, the
/// relocation base and the cells that the operands refer to, and nothing
/// else: two machines that agree on these decode the same instruction.
pub proof fn lemma_decode_reads_only_its_cells(a: Machine, b: Machine)
    requires
        a.pc == b.pc,
        a.base == b.base,
        forall|k: u64| 0 <= k <= 3 ==> a.mem.read(a.pc.wrapping_add(k)) == b.mem.read(b.pc.wrapping_add(k)),
        forall|k: u64|
            1 <= k <= 3 ==> (#[trigger] a.operand(a.mem.read(a.pc) as u64, k) matches Ok(addr)
                ==> a.mem.read(addr) == b.mem.read(addr)),
    ensures
        a.decode() == b.decode(),
{
    let word = a.mem.read(a.pc) as u64;
    assert(a.pc.wrapping_add(0) == a.pc);
    assert forall|k: u64| 1 <= k <= 3 implies #[trigger] a.operand(word, k) == b.operand(word, k)
        && a.value(word, k) == b.value(word, k) && a.target(word, k) == b.target(word, k) by {
    }
}

/// Every instruction takes up as many cells as its operation has operands,
/// and one more.
pub proof fn lemma_width_goes_with_operation(m: Machine)
    ensures
        m.decode() matches Ok((_, width)) ==> width == width_of(
            (m.mem.read(m.pc) as u64) % 100,
        ) && 1 <= width <= 4,
{
}

/// A machine runs the program that is in its memory now: when an instruction
/// stores a word at the address of the next instruction, that word is what
/// is decoded next. A stored 99, for one, halts the machine.
pub proof fn lemma_stored_instruction_is_decoded(m: Machine, a: i64, b: i64, width: u64)
    ensures
        ({
            let next = m.pc.wrapping_add(width);
            let after = m.apply(Instruction::Add_(a, b, next), width, 0);
            &&& after.pc == next
            &&& after.mem.read(after.pc) == a.wrapping_add(b)
            &&& a.wrapping_add(b) == 99 ==> after.halted()
            &&& a.wrapping_add(b) < 0 ==> after.decode() == Err::<(Instruction, u64), Error>(
                Error::NegativeInstr,
            )
        }),
        ({
            let patched = m.store(m.pc, 99);
            patched.decode() == Ok::<(Instruction, u64), Error>((Instruction::Halt, 1))
        }),
{
}

/// A product that fits in 64 bits is stored as it is, and so is a sum.
pub proof fn lemma_arithmetic_is_exact_in_range(m: Machine, a: i64, b: i64, dst: u64, width: u64)
    ensures
        i64::MIN <= a * b <= i64::MAX ==> m.apply(Instruction::Mul_(a, b, dst), width, 0).mem.read(
            dst,
        ) == a * b,
        i64::MIN <= a + b <= i64::MAX ==> m.apply(Instruction::Add_(a, b, dst), width, 0).mem.read(
            dst,
        ) == a + b,
{
}

/// A halted machine stays halted: the halt changes nothing, so the next
/// step finds the same halt. Only a reset or a store can end this.
pub proof fn lemma_halt_is_terminal(m: Machine, width: u64, input: i64)
    requires
        m.halted(),
    ensures
        m.apply(Instruction::Halt, width, input) == m,
        m.apply(Instruction::Halt, width, input).halted(),
{
}

/// A step of a halted machine gives `Ok(false)` and changes neither the
/// machine nor the source nor the sink, whatever these are.
pub proof fn lemma_step_of_halted_machine<I: Input, O: Output>(
    pre: Machine,
    post: Machine,
    source: (I, I),
    sink: (O, O),
    res: Result<bool, Error>,
)
    requires
        pre.halted(),
        step_spec(pre, post, source, sink, res),
    ensures
        res == Ok::<bool, Error>(false),
        post == pre,
        source.1 == source.0,
        sink.1 == sink.0,
{
}

/// No instruction changes the image that a reset goes back to.
pub proof fn lemma_apply_keeps_image(m: Machine, instr: Instruction, width: u64, input: i64)
    ensures
        m.apply(instr, width, input).mem.image == m.mem.image,
        m.apply(instr, width, input).reset() == m.reset(),
{
}

/// The address that `val` names, or `Error::NegativeAddr`.
fn addr_of(val: i64) -> (r: Result<u64, Error>)
    ensures
        r == to_addr(val),
{
    if val < 0 {
        Err(Error::NegativeAddr)
    } else {
        Ok(val as u64)
    }
}

impl Instruction {
    /// Resolves operand `k` (1, 2 or 3) of the instruction word `word` at the
    /// program counter to the address it refers to.
    fn fetch_arg(mem: &Mem, pc: u64, base: i64, word: u64, k: u64) -> (r: Result<u64, Error>)
        requires
            1 <= k <= 3,
        ensures
            r == (Machine { mem: mem@, pc, base }).operand(word, k),
    {
        let slot = pc.wrapping_add(k);
        let mode = if k == 1 {
            word / 100 % 10
        } else if k == 2 {
            word / 1000 % 10
        } else {
            word / 10000 % 10
        };
        if mode == 0 {
            addr_of(mem.read(slot))
        } else if mode == 1 {
            Ok(slot)
        } else if mode == 2 {
            addr_of(mem.read(slot).wrapping_add(base))
        } else {
            Err(Error::InvalidAddrMode(mode))
        }
    }

    /// The value of source operand `k`.
    fn fetch_value(mem: &Mem, pc: u64, base: i64, word: u64, k: u64) -> (r: Result<i64, Error>)
        requires
            1 <= k <= 3,
        ensures
            r == (Machine { mem: mem@, pc, base }).value(word, k),
    {
        match Self::fetch_arg(mem, pc, base, word, k) {
            Ok(addr) => Ok(mem.read(addr)),
            Err(e) => Err(e),
        }
    }

    /// Decodes the instruction at `pc` in `mem`, with the relocation base
    /// `base`. Gives the instruction and the number of cells it takes up.
    pub fn decode(pc: u64, base: i64, mem: &Mem) -> (r: Result<(Instruction, u64), Error>)
        ensures
            r == (Machine { mem: mem@, pc, base }).decode(),
    {
        let raw = mem.read(pc);
        if raw < 0 {
            return Err(Error::NegativeInstr);
        }
        let word = raw as u64;
        let opcode = word % 100;
        if opcode == 1 || opcode == 2 || opcode == 7 || opcode == 8 {
            let a = Self::fetch_value(mem, pc, base, word, 1)?;
            let b = Self::fetch_value(mem, pc, base, word, 2)?;
            let dst = Self::fetch_arg(mem, pc, base, word, 3)?;
            let instr = if opcode == 1 {
                Instruction::Add_(a, b, dst)
            } else if opcode == 2 {
                Instruction::Mul_(a, b, dst)
            } else if opcode == 7 {
                Instruction::Cmp_(a, b, dst)
            } else {
                Instruction::Eq__(a, b, dst)
            };
            Ok((instr, 4))
        } else if opcode == 3 || opcode == 4 {
            let addr = Self::fetch_arg(mem, pc, base, word, 1)?;
            Ok(
                (
                    if opcode == 3 {
                        Instruction::Geti(addr)
                    } else {
                        Instruction::Puti(addr)
                    },
                    2,
                ),
            )
        } else if opcode == 5 || opcode == 6 {
            let v = Self::fetch_value(mem, pc, base, word, 1)?;
            let t = addr_of(Self::fetch_value(mem, pc, base, word, 2)?)?;
            Ok(
                (
                    if opcode == 5 {
                        Instruction::Jnz_(v, t)
                    } else {
                        Instruction::Jz__(v, t)
                    },
                    3,
                ),
            )
        } else if opcode == 9 {
            let v = Self::fetch_value(mem, pc, base, word, 1)?;
            Ok((Instruction::Setb(v), 2))
        } else if opcode == 99 {
            Ok((Instruction::Halt, 1))
        } else {
            Err(Error::InvalidOpcode(opcode))
        }
    }
}

/// An Intcode interpreter.
#[derive(Debug)]
pub struct Intcode {
    mem: Mem,
    pc: u64,
    base: i64,
}

impl View for Intcode {
    type V = Machine;

    closed spec fn view(&self) -> Machine {
        Machine { mem: self.mem@, pc: self.pc, base: self.base }
    }
}

impl Clone for Intcode {
    /// A copy with a memory of its own.
    fn clone(&self) -> (copy: Intcode)
        ensures
            copy@ == self@,
    {
        Intcode { mem: self.mem.clone(), pc: self.pc, base: self.base }
    }
}

impl Intcode {
    /// Builds a machine from program text: integers with commas between
    /// them, each with any white space around it. Text that is anything else
    /// gives `Error::ParseMem`.
    pub fn new(input: &str) -> (r: Result<Intcode, Error>)
        ensures
            match crate::text::int_list(input@) {
                Some(image) => r matches Ok(cpu) && cpu@ == Machine::initial(image),
                None => r == Err::<Intcode, Error>(Error::ParseMem),
            },
    {
        match Mem::new(input) {
            Ok(mem) => Ok(Intcode { mem, pc: 0, base: 0 }),
            Err(e) => Err(e),
        }
    }

    /// Puts the machine back to where it was when it was built.
    pub fn reset(&mut self)
        ensures
            final(self)@ == old(self)@.reset(),
    {
        self.mem.reset();
        self.pc = 0;
        self.base = 0;
    }

    /// The machine's memory, to read and to change.
    pub fn mem(&mut self) -> (mem: &mut Mem)
        ensures
            mem@ == old(self)@.mem,
            final(self)@ == (Machine { mem: final(mem)@, ..old(self)@ }),
    {
        &mut self.mem
    }

    /// The value at `addr`.
    pub fn peek(&self, addr: u64) -> (val: i64)
        ensures
            val == self@.mem.read(addr),
    {
        self.mem.read(addr)
    }

    /// Stores `val` at `addr`.
    pub fn poke(&mut self, addr: u64, val: i64)
        ensures
            final(self)@ == old(self)@.store(addr, val),
    {
        self.mem.write(addr, val);
    }

    /// Decodes the instruction at the program counter. Gives the instruction
    /// and the number of cells it takes up, and changes nothing.
    pub fn fetch_decode_instr(&self) -> (r: Result<(Instruction, u64), Error>)
        ensures
            r == self@.decode(),
    {
        Instruction::decode(self.pc, self.base, &self.mem)
    }

    /// Decodes one instruction and carries it out, reading from `input` and
    /// writing to `output` where the instruction asks for it. Gives `false`
    /// once the machine has halted.
    pub fn step<I: Input, O: Output>(&mut self, input: &mut I, output: &mut O) -> (res: Result<
        bool,
        Error,
    >)
        ensures
            step_spec(
                old(self)@,
                final(self)@,
                (*old(input), *final(input)),
                (*old(output), *final(output)),
                res,
            ),
    {
        let (instr, width) = match self.fetch_decode_instr() {
            Ok(decoded) => decoded,
            Err(e) => {
                return Err(e);
            },
        };
        let next = self.pc.wrapping_add(width);
        match instr {
            Instruction::Add_(a, b, dst) => {
                self.pc = next;
                self.mem.write(dst, a.wrapping_add(b));
            },
            Instruction::Mul_(a, b, dst) => {
                self.pc = next;
                self.mem.write(dst, a.wrapping_mul(b));
            },
            Instruction::Geti(dst) => {
                match input.read() {
                    Ok(val) => {
                        self.pc = next;
                        self.mem.write(dst, val);
                    },
                    Err(reason) => {
                        return Err(Error::InputError(reason));
                    },
                }
            },
            Instruction::Puti(src) => {
                match output.write(self.mem.read(src)) {
                    Ok(()) => {
                        self.pc = next;
                    },
                    Err(reason) => {
                        return Err(Error::OutputError(reason));
                    },
                }
            },
            Instruction::Jnz_(v, t) => {
                self.pc = if v != 0 {
                    t
                } else {
                    next
                };
            },
            Instruction::Jz__(v, t) => {
                self.pc = if v == 0 {
                    t
                } else {
                    next
                };
            },
            Instruction::Cmp_(a, b, dst) => {
                self.pc = next;
                self.mem.write(
                    dst,
                    if a < b {
                        1
                    } else {
                        0
                    },
                );
            },
            Instruction::Eq__(a, b, dst) => {
                self.pc = next;
                self.mem.write(
                    dst,
                    if a == b {
                        1
                    } else {
                        0
                    },
                );
            },
            Instruction::Setb(b) => {
                self.pc = next;
                self.base = self.base.wrapping_add(b);
            },
            Instruction::Halt => {
                return Ok(false);
            },
        }
        Ok(true)
    }
}

} // verus!
