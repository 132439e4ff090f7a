//! Properties of the machine's step semantics, proved over [`step_state`]
//! and [`run_state`], which `VM::execute_instruction` and `VM::run` follow.
use crate::instruction::{decode, Opcode};
use crate::vm::{fits_i32, run_state, step_state, trunc_div, trunc_rem, Fault, VmState};
use vstd::math::abs;
use vstd::prelude::*;

verus! {

/// The instruction at the counter of `s` is `op`, its operands all lie in
/// the program, the machine has neither halted nor faulted, and it has its
/// full register file.
pub open spec fn at_instruction(s: VmState, op: Opcode, width: nat) -> bool {
    &&& s.registers.len() == 32
    &&& s.fault is None
    &&& !s.halted
    &&& s.pc + 1 + width <= s.program.len()
    &&& decode(s.program[s.pc as int]) == op
}

/// Loading an immediate into a register and then reading that register
/// yields the immediate, for every 16-bit immediate.
pub proof fn lemma_load_then_read(s: VmState, r: u8, imm: u16)
    requires
        at_instruction(s, Opcode::LOAD, 3),
        s.operand(0) == r,
        r < 32,
        s.operand(1) as int * 256 + s.operand(2) as int == imm as int,
    ensures
        step_state(s).0.registers[r as int] as int == imm as int,
        step_state(s) == (VmState {
            pc: s.pc + 4,
            registers: s.registers.update(r as int, imm as i32),
            ..s
        }, false),
{
}

/// Addition, subtraction and multiplication compute the integer result of
/// the two source registers into the third, and fault exactly when that
/// result does not fit in a register.
pub proof fn lemma_arith_is_integer_arith(s: VmState, op: Opcode)
    requires
        op == Opcode::ADD || op == Opcode::SUB || op == Opcode::MUL,
        at_instruction(s, op, 3),
        s.operand(0) < 32,
        s.operand(1) < 32,
        s.operand(2) < 32,
    ensures
        ({
            let (a, b) = (s.reg(s.operand(0)), s.reg(s.operand(1)));
            let v = if op == Opcode::ADD {
                a + b
            } else if op == Opcode::SUB {
                a - b
            } else {
                a * b
            };
            let (t, halted) = step_state(s);
            &&& fits_i32(v) ==> !halted && t.registers[s.operand(2) as int] as int == v
                && t == (VmState {
                pc: s.pc + 4,
                registers: s.registers.update(s.operand(2) as int, v as i32),
                ..s
            })
            &&& !fits_i32(v) ==> halted && t == (VmState { fault: Some(Fault::Overflow), ..s })
        }),
{
}

/// Division stores the quotient rounded toward zero and the remainder, for
/// every non-zero divisor whose quotient fits; quotient and remainder
/// satisfy `a == b * q + r`, with `r` smaller than `b` in magnitude and of
/// the sign of `a`.
pub proof fn lemma_div_truncates(s: VmState)
    requires
        at_instruction(s, Opcode::DIV, 3),
        s.operand(0) < 32,
        s.operand(1) < 32,
        s.operand(2) < 32,
        s.reg(s.operand(1)) != 0,
    ensures
        ({
            let (a, b) = (s.reg(s.operand(0)), s.reg(s.operand(1)));
            let (q, r) = (trunc_div(a, b), trunc_rem(a, b));
            let (t, halted) = step_state(s);
            &&& a == b * q + r
            &&& abs(r) < abs(b)
            &&& r == 0 || (r < 0) == (a < 0)
            &&& fits_i32(q) ==> !halted && t.registers[s.operand(2) as int] as int == q
                && t == (VmState {
                pc: s.pc + 4,
                registers: s.registers.update(s.operand(2) as int, q as i32),
                remainder: r as u32,
                ..s
            })
            &&& !fits_i32(q) ==> halted && t.fault == Some(Fault::Overflow)
        }),
{
    let (a, b) = (s.reg(s.operand(0)), s.reg(s.operand(1)));
    let (ua, ub) = (abs(a) as int, abs(b) as int);
    vstd::arithmetic::div_mod::lemma_fundamental_div_mod(ua, ub);
    vstd::arithmetic::div_mod::lemma_mod_bound(ua, ub);
    let (q0, r0) = (ua / ub, ua % ub);
    if a >= 0 && b > 0 {
    } else if a >= 0 {
        assert(b * (-q0) == ub * q0) by (nonlinear_arith)
            requires
                ub == -b,
        ;
    } else if b > 0 {
        assert(b * (-q0) == -(ub * q0)) by (nonlinear_arith)
            requires
                ub == b,
        ;
    } else {
        assert(b * q0 == -(ub * q0)) by (nonlinear_arith)
            requires
                ub == -b,
        ;
    }
}

/// Comparison sets the flag exactly when the two registers hold equal values
/// now: the flag it leaves does not depend on the flag it found.
pub proof fn lemma_eq_compares_current(s: VmState, earlier_flag: bool)
    requires
        at_instruction(s, Opcode::EQ, 3),
        s.operand(0) < 32,
        s.operand(1) < 32,
    ensures
        step_state(s).0.equal_flag == (s.reg(s.operand(0)) == s.reg(s.operand(1))),
        step_state(VmState { equal_flag: earlier_flag, ..s }) == step_state(s),
        step_state(s) == (VmState {
            pc: s.pc + 4,
            equal_flag: s.reg(s.operand(0)) == s.reg(s.operand(1)),
            ..s
        }, false),
{
}

/// A conditional jump moves the counter to the register's value only when
/// the flag matches its condition; otherwise it only steps past its operand.
pub proof fn lemma_conditional_jump(s: VmState, op: Opcode)
    requires
        op == Opcode::JEQ || op == Opcode::JNEQ,
        at_instruction(s, op, 1),
    ensures
        s.equal_flag != (op == Opcode::JEQ) ==> step_state(s) == (
        VmState { pc: s.pc + 2, ..s }, false),
        s.equal_flag == (op == Opcode::JEQ) && s.operand(0) < 32 && 0 <= s.reg(s.operand(0))
            <= s.program.len() ==> step_state(s) == (
        VmState { pc: s.reg(s.operand(0)) as nat, ..s }, false),
{
}

/// Running is stepping until a step reports a halt: with fuel left, a run
/// takes one step, stops there if it halted, and otherwise runs on.
pub proof fn lemma_run_steps_until_halt(s: VmState, fuel: nat)
    ensures
        run_state(s, fuel + 1) == (if step_state(s).1 {
            step_state(s).0
        } else {
            run_state(step_state(s).0, fuel)
        }),
        step_state(s).1 ==> run_state(s, fuel + 1) == step_state(s).0,
{
}

/// A machine that stopped, by `HLT` or an illegal opcode, at the end of its
/// program, or on a fault, reports a halt again on the next step and changes
/// nothing; so does every run from it.
pub proof fn lemma_halted_stays_halted(s: VmState)
    requires
        s.halted || s.fault is Some || s.pc >= s.program.len(),
    ensures
        step_state(s) == (s, true),
        forall|fuel: nat| #[trigger] run_state(s, fuel) == s,
{
    assert forall|fuel: nat| #[trigger] run_state(s, fuel) == s by {
        if fuel > 0 {
            assert(run_state(s, fuel) == step_state(s).0);
        }
    }
}

/// Every halt is final: once a step reports a halt, the state it leaves
/// halts again on the next step with no change.
pub proof fn lemma_halt_is_stable(s: VmState)
    requires
        step_state(s).1,
    ensures
        step_state(step_state(s).0) == (step_state(s).0, true),
{
    lemma_halted_stays_halted(step_state(s).0);
}

} // verus!
