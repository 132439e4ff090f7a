use crate::instruction::{decode, Opcode};
use vstd::math::abs;
use vstd::prelude::*;

verus! {

/// Number of registers in the register file.
pub const REGISTER_COUNT: usize = 32;

/// Why a machine stopped in the faulted state. A faulting step changes
/// nothing but the fault itself, and every later step halts at once.
#[derive(Debug, Clone, Copy, PartialEq, Eq, Structural)]
pub enum Fault {
    /// The program ends before the operands of the instruction at the counter.
    TruncatedInstruction,
    /// A register index operand is not below the register count.
    RegisterOutOfRange,
    /// A division whose divisor register holds zero.
    DivideByZero,
    /// An arithmetic result that does not fit in a signed 32-bit register.
    Overflow,
    /// A jump whose offset is negative, or whose target lies before the start
    /// or past the end of the program.
    JumpOutOfRange,
}

/// The mathematical state of a machine.
pub ghost struct VmState {
    pub registers: Seq<i32>,
    pub pc: nat,
    pub program: Seq<u8>,
    pub remainder: u32,
    pub equal_flag: bool,
    pub fault: Option<Fault>,
    pub halted: bool,
}

/// The register-based virtual machine.
pub struct VM {
    /// The register file.
    pub registers: [i32; 32],
    /// Index of the next program byte to decode.
    pub pc: usize,
    /// The program bytes; it only grows, by `add_byte`.
    pub program: Vec<u8>,
    /// Remainder of the last division, as an unsigned 32-bit pattern.
    pub remainder: u32,
    /// Result of the last comparison.
    pub equal_flag: bool,
    /// Set once a step faults; the machine then stays halted.
    pub fault: Option<Fault>,
    /// Set once a step runs `HLT` or an illegal opcode; the machine then
    /// stays halted until `resume` clears it.
    pub halted: bool,
}

impl View for VM {
    type V = VmState;

    open spec fn view(&self) -> VmState {
        VmState {
            registers: self.registers@,
            pc: self.pc as nat,
            program: self.program@,
            remainder: self.remainder,
            equal_flag: self.equal_flag,
            fault: self.fault,
            halted: self.halted,
        }
    }
}

/// Number of operand bytes that follow an opcode.
pub open spec fn operand_width(op: Opcode) -> nat {
    match op {
        Opcode::HLT | Opcode::LOAD | Opcode::ADD | Opcode::SUB | Opcode::MUL | Opcode::DIV
        | Opcode::EQ => 3,
        Opcode::JMP | Opcode::JMPF | Opcode::JMPB | Opcode::JEQ | Opcode::JNEQ => 1,
        Opcode::IGL => 0,
    }
}

/// Quotient of `a` by `b`, rounded toward zero.
pub open spec fn trunc_div(a: int, b: int) -> int {
    let q: int = abs(a) as int / abs(b) as int;
    if (a < 0) == (b < 0) {
        q
    } else {
        -q
    }
}

/// Remainder of the division of `a` by `b` rounded toward zero: it has the
/// sign of `a`.
pub open spec fn trunc_rem(a: int, b: int) -> int {
    let r: int = abs(a) as int % abs(b) as int;
    if a < 0 {
        -r
    } else {
        r
    }
}

/// `x` can be held in a register.
pub open spec fn fits_i32(x: int) -> bool {
    i32::MIN <= x <= i32::MAX
}

impl VmState {
    /// The operand byte `k` places after the opcode at the counter.
    pub open spec fn operand(self, k: int) -> u8 {
        self.program[self.pc + 1 + k]
    }

    /// The value of register `r`.
    pub open spec fn reg(self, r: u8) -> int {
        self.registers[r as int] as int
    }

    /// This state, unchanged but for the fault `f`.
    pub open spec fn with_fault(self, f: Fault) -> VmState {
        VmState { fault: Some(f), ..self }
    }

    /// Past the opcode and its operands, with register `r` set to `v`.
    pub open spec fn write_reg(self, width: nat, r: u8, v: int) -> VmState {
        VmState {
            pc: self.pc + 1 + width,
            registers: self.registers.update(r as int, v as i32),
            ..self
        }
    }

    /// The state after a jump to `target`, or the fault if `target` lies
    /// outside the program.
    pub open spec fn jump(self, target: int) -> VmState {
        if 0 <= target <= self.program.len() {
            VmState { pc: target as nat, ..self }
        } else {
            self.with_fault(Fault::JumpOutOfRange)
        }
    }

    /// A three-register arithmetic instruction `op`.
    pub open spec fn arith(self, op: Opcode) -> VmState {
        let (r1, r2, r3) = (self.operand(0), self.operand(1), self.operand(2));
        if r1 >= REGISTER_COUNT || r2 >= REGISTER_COUNT || r3 >= REGISTER_COUNT {
            self.with_fault(Fault::RegisterOutOfRange)
        } else {
            let (a, b) = (self.reg(r1), self.reg(r2));
            if op == Opcode::DIV && b == 0 {
                self.with_fault(Fault::DivideByZero)
            } else {
                let v = match op {
                    Opcode::ADD => a + b,
                    Opcode::SUB => a - b,
                    Opcode::MUL => a * b,
                    _ => trunc_div(a, b),
                };
                if !fits_i32(v) {
                    self.with_fault(Fault::Overflow)
                } else if op == Opcode::DIV {
                    VmState { remainder: trunc_rem(a, b) as u32, ..self.write_reg(3, r3, v) }
                } else {
                    self.write_reg(3, r3, v)
                }
            }
        }
    }

    /// A jump instruction `op` through the register named by operand 0; the
    /// relative jumps count from the end of the instruction.
    pub open spec fn jump_by(self, op: Opcode) -> VmState {
        let r = self.operand(0);
        let here = self.pc + 2;
        if r >= REGISTER_COUNT {
            self.with_fault(Fault::RegisterOutOfRange)
        } else {
            let v = self.reg(r);
            if v < 0 {
                self.with_fault(Fault::JumpOutOfRange)
            } else {
                match op {
                    Opcode::JMPF => self.jump(here + v),
                    Opcode::JMPB => self.jump(here - v),
                    _ => self.jump(v),
                }
            }
        }
    }
}

/// One step of execution: the next state, and whether the machine halted.
pub open spec fn step_state(s: VmState) -> (VmState, bool) {
    if s.halted || s.fault is Some || s.pc >= s.program.len() {
        (s, true)
    } else {
        let op = decode(s.program[s.pc as int]);
        let w = operand_width(op);
        if s.pc + 1 + w > s.program.len() {
            (s.with_fault(Fault::TruncatedInstruction), true)
        } else {
            let next = VmState { pc: s.pc + 1 + w, ..s };
            let t = match op {
                Opcode::HLT | Opcode::IGL => VmState { halted: true, ..next },
                Opcode::LOAD => {
                    let r = s.operand(0);
                    if r >= REGISTER_COUNT {
                        s.with_fault(Fault::RegisterOutOfRange)
                    } else {
                        s.write_reg(3, r, s.operand(1) as int * 256 + s.operand(2) as int)
                    }
                },
                Opcode::ADD | Opcode::SUB | Opcode::MUL | Opcode::DIV => s.arith(op),
                Opcode::JMP | Opcode::JMPF | Opcode::JMPB => s.jump_by(op),
                Opcode::EQ => {
                    let (r1, r2) = (s.operand(0), s.operand(1));
                    if r1 >= REGISTER_COUNT || r2 >= REGISTER_COUNT {
                        s.with_fault(Fault::RegisterOutOfRange)
                    } else {
                        VmState { equal_flag: s.reg(r1) == s.reg(r2), ..next }
                    }
                },
                Opcode::JEQ | Opcode::JNEQ => {
                    if s.equal_flag == (op == Opcode::JEQ) {
                        s.jump_by(Opcode::JMP)
                    } else {
                        next
                    }
                },
            };
            (t, op == Opcode::HLT || op == Opcode::IGL || t.fault is Some)
        }
    }
}

/// The state reached by stepping from `s` until a step reports a halt, or
/// until `fuel` steps have run.
pub open spec fn run_state(s: VmState, fuel: nat) -> VmState
    decreases fuel,
{
    if fuel == 0 {
        s
    } else {
        let (t, halted) = step_state(s);
        if halted {
            t
        } else {
            run_state(t, (fuel - 1) as nat)
        }
    }
}

/// `s` with the counter moved back over the opcode just decoded.
pub open spec fn rewind(s: VmState) -> VmState {
    VmState { pc: (s.pc - 1) as nat, ..s }
}

/// The state of a machine just after `decode_opcode` read a legal opcode
/// `op` whose operands are all in the program.
pub open spec fn decoded(s: VmState, op: Opcode) -> bool {
    &&& s.fault is None
    &&& !s.halted
    &&& 1 <= s.pc
    &&& s.pc + operand_width(op) <= s.program.len()
    &&& decode(s.program[s.pc - 1]) == op
}

impl VM {
    /// A machine with every register zero, an empty program, the counter at
    /// the start, a zero remainder and a clear flag.
    pub fn new() -> (r: VM)
        ensures
            r@.registers == Seq::new(32, |i: int| 0i32),
            r@.pc == 0,
            r@.program == Seq::<u8>::empty(),
            r@.remainder == 0,
            !r@.equal_flag,
            r@.fault is None,
            !r@.halted,
    {
        let r = VM {
            registers: [0i32; 32],
            pc: 0,
            program: Vec::new(),
            remainder: 0,
            equal_flag: false,
            fault: None,
            halted: false,
        };
        assert(r@.registers =~= Seq::new(32, |i: int| 0i32));
        r
    }

    /// Appends one byte to the program.
    pub fn add_byte(&mut self, byte: u8)
        ensures
            final(self)@ == (VmState { program: old(self)@.program.push(byte), ..old(self)@ }),
    {
        self.program.push(byte);
    }

    /// Clears the halt that `HLT` or an illegal opcode left, so that later
    /// bytes run; a fault stays.
    pub fn resume(&mut self)
        ensures
            final(self)@ == (VmState { halted: false, ..old(self)@ }),
    {
        self.halted = false;
    }

    /// Runs one instruction, as `execute_instruction` does, dropping whether
    /// the machine halted.
    pub fn run_once(&mut self)
        ensures
            final(self)@ == step_state(old(self)@).0,
    {
        self.execute_instruction();
    }

    /// Executes instructions until one reports a halt. A program may loop
    /// forever; this gives up after `u64::MAX` steps, a count no real run
    /// reaches.
    pub fn run(&mut self)
        ensures
            final(self)@ == run_state(old(self)@, u64::MAX as nat),
    {
        let mut fuel: u64 = u64::MAX;
        let ghost s0 = self@;
        loop
            invariant_except_break
                run_state(self@, fuel as nat) == run_state(s0, u64::MAX as nat),
            ensures
                self@ == run_state(s0, u64::MAX as nat),
            decreases fuel,
        {
            if fuel == 0 {
                break;
            }
            let ghost before = self@;
            let is_done = self.execute_instruction();
            if is_done {
                assert(self@ == run_state(before, fuel as nat));
                break;
            }
            fuel = fuel - 1;
        }
    }

    /// Executes the instruction at the counter and reports whether the
    /// machine halted: at the end of the program, on `HLT` or an illegal
    /// opcode, or on a fault. A machine that halted on `HLT` or an illegal
    /// opcode, or that faulted, halts again at once and changes nothing.
    pub fn execute_instruction(&mut self) -> (halted: bool)
        ensures
            (final(self)@, halted) == step_state(old(self)@),
    {
        if self.halted || self.fault.is_some() || self.pc >= self.program.len() {
            return true;
        }
        let op = self.decode_opcode();
        let width: usize = match op {
            Opcode::JMP | Opcode::JMPF | Opcode::JMPB | Opcode::JEQ | Opcode::JNEQ => 1,
            Opcode::IGL => 0,
            _ => 3,
        };
        if self.program.len() - self.pc < width {
            return self.fail(Fault::TruncatedInstruction);
        }
        match op {
            Opcode::HLT => {
                self.next_8_bits();
                self.next_16_bits();
                self.halted = true;
                true
            },
            Opcode::IGL => {
                self.halted = true;
                true
            },
            Opcode::LOAD => self.execute_load(),
            Opcode::ADD | Opcode::SUB | Opcode::MUL | Opcode::DIV => self.execute_arith(op),
            Opcode::JMP | Opcode::JMPF | Opcode::JMPB => self.execute_jump(op),
            Opcode::EQ => self.execute_eq(),
            Opcode::JEQ | Opcode::JNEQ => {
                if self.equal_flag == (op == Opcode::JEQ) {
                    self.execute_jump(Opcode::JMP)
                } else {
                    self.next_8_bits();
                    false
                }
            },
        }
    }

    /// Moves the counter back over the opcode just decoded and records `f`.
    fn fail(&mut self, f: Fault) -> (halted: bool)
        requires
            old(self).pc >= 1,
        ensures
            final(self)@ == rewind(old(self)@).with_fault(f),
            halted,
    {
        self.pc = self.pc - 1;
        self.fault = Some(f);
        true
    }

    fn execute_load(&mut self) -> (halted: bool)
        requires
            decoded(old(self)@, Opcode::LOAD),
        ensures
            (final(self)@, halted) == step_state(rewind(old(self)@)),
    {
        let r = self.next_8_bits() as usize;
        let number = self.next_16_bits();
        if r >= REGISTER_COUNT {
            self.pc = self.pc - 3;
            return self.fail(Fault::RegisterOutOfRange);
        }
        self.registers[r] = number as i32;
        false
    }

    #[verifier::rlimit(40)]
    fn execute_arith(&mut self, op: Opcode) -> (halted: bool)
        requires
            decoded(old(self)@, op),
            op == Opcode::ADD || op == Opcode::SUB || op == Opcode::MUL || op == Opcode::DIV,
        ensures
            (final(self)@, halted) == step_state(rewind(old(self)@)),
    {
        let ghost s0 = rewind(self@);
        assert(step_state(s0) == (s0.arith(op), s0.arith(op).fault is Some));
        let r1 = self.next_8_bits() as usize;
        let r2 = self.next_8_bits() as usize;
        let r3 = self.next_8_bits() as usize;
        if r1 >= REGISTER_COUNT || r2 >= REGISTER_COUNT || r3 >= REGISTER_COUNT {
            self.pc = self.pc - 3;
            return self.fail(Fault::RegisterOutOfRange);
        }
        let a = self.registers[r1];
        let b = self.registers[r2];
        if op == Opcode::DIV && b == 0 {
            self.pc = self.pc - 3;
            return self.fail(Fault::DivideByZero);
        }
        let result = match op {
            Opcode::ADD => a.checked_add(b),
            Opcode::SUB => a.checked_sub(b),
            Opcode::MUL => a.checked_mul(b),
            _ => a.checked_div(b),
        };
        let ghost v: int = match op {
            Opcode::ADD => a + b,
            Opcode::SUB => a - b,
            Opcode::MUL => a * b,
            _ => trunc_div(a as int, b as int),
        };
        assert(result is None <==> !fits_i32(v));
        assert(result is Some ==> result->0 as int == v);
        match result {
            None => {
                assert(s0.arith(op) == s0.with_fault(Fault::Overflow));
                self.pc = self.pc - 3;
                let h = self.fail(Fault::Overflow);
                assert(self@ == s0.arith(op));
                assert((self@, h) == step_state(rewind(old(self)@)));
                h
            },
            Some(v) => {
                if op == Opcode::DIV {
                    assert(!(a == i32::MIN && b == -1)) by {
                        if a == i32::MIN && b == -1 {
                            assert(abs(a as int) == 2147483648 && abs(b as int) == 1);
                            assert(2147483648int / 1int == 2147483648);
                        }
                    }
                    let rem = a.checked_rem(b).unwrap();
                    #[verifier::truncate]
                    let rem_bits = rem as u32;
                    self.remainder = rem_bits;
                }
                self.registers[r3] = v;
                false
            },
        }
    }

    fn execute_eq(&mut self) -> (halted: bool)
        requires
            decoded(old(self)@, Opcode::EQ),
        ensures
            (final(self)@, halted) == step_state(rewind(old(self)@)),
    {
        let r1 = self.next_8_bits() as usize;
        let r2 = self.next_8_bits() as usize;
        if r1 >= REGISTER_COUNT || r2 >= REGISTER_COUNT {
            self.pc = self.pc - 2;
            return self.fail(Fault::RegisterOutOfRange);
        }
        self.equal_flag = self.registers[r1] == self.registers[r2];
        self.next_8_bits();
        false
    }

    /// A jump through the register named by the next byte: absolute for
    /// `JMP`, relative to the end of the instruction for `JMPF` and `JMPB`.
    fn execute_jump(&mut self, op: Opcode) -> (halted: bool)
        requires
            old(self)@.fault is None,
            !old(self)@.halted,
            1 <= old(self)@.pc < old(self)@.program.len(),
            op == Opcode::JMP || op == Opcode::JMPF || op == Opcode::JMPB,
        ensures
            (final(self)@, halted) == (rewind(old(self)@).jump_by(op), final(self)@.fault is Some),
    {
        let r = self.next_8_bits() as usize;
        if r >= REGISTER_COUNT {
            self.pc = self.pc - 1;
            return self.fail(Fault::RegisterOutOfRange);
        }
        let v = self.registers[r];
        let len = self.program.len();
        if v < 0 {
            self.pc = self.pc - 1;
            return self.fail(Fault::JumpOutOfRange);
        }
        let offset = v as usize;
        let in_range = match op {
            Opcode::JMPF => offset <= len - self.pc,
            Opcode::JMPB => offset <= self.pc,
            _ => offset <= len,
        };
        if !in_range {
            self.pc = self.pc - 1;
            return self.fail(Fault::JumpOutOfRange);
        }
        self.pc = match op {
            Opcode::JMPF => self.pc + offset,
            Opcode::JMPB => self.pc - offset,
            _ => offset,
        };
        false
    }

    /// Decodes the byte at the counter and moves past it.
    fn decode_opcode(&mut self) -> (op: Opcode)
        requires
            old(self).pc < old(self).program.len(),
        ensures
            op == decode(old(self).program@[old(self).pc as int]),
            final(self)@ == (VmState { pc: old(self)@.pc + 1, ..old(self)@ }),
    {
        let op = Opcode::from(self.program[self.pc]);
        self.pc = self.pc + 1;
        op
    }

    /// Reads the byte at the counter and moves past it.
    fn next_8_bits(&mut self) -> (b: u8)
        requires
            old(self).pc < old(self).program.len(),
        ensures
            b == old(self).program@[old(self).pc as int],
            final(self)@ == (VmState { pc: old(self)@.pc + 1, ..old(self)@ }),
    {
        let b = self.program[self.pc];
        self.pc = self.pc + 1;
        b
    }

    /// Reads the big-endian 16-bit value at the counter and moves past it.
    fn next_16_bits(&mut self) -> (v: u16)
        requires
            old(self).pc + 2 <= old(self).program.len(),
        ensures
            v as int == old(self).program@[old(self).pc as int] as int * 256
                + old(self).program@[old(self).pc + 1] as int,
            final(self)@ == (VmState { pc: old(self)@.pc + 2, ..old(self)@ }),
    {
        let high = self.program[self.pc] as u16;
        let low = self.program[self.pc + 1] as u16;
        self.pc = self.pc + 2;
        high * 256 + low
    }
}

} // verus!
