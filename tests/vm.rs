use iridium::vm::{Fault, VM};

#[test]
fn test_create_vm() {
    let test_vm = VM::new();
    assert_eq!(test_vm.registers[0], 0)
}

#[test]
fn test_hlt_opcode() {
    let mut test_vm = VM::new();
    let test_bytes = vec![0, 0, 0, 0];
    test_vm.program = test_bytes;
    test_vm.run();
    assert_eq!(test_vm.pc, 4);
}

#[test]
fn test_igl_opcode() {
    let mut test_vm = VM::new();
    let test_bytes = vec![200, 0, 0, 0];
    test_vm.program = test_bytes;
    test_vm.run();
    assert_eq!(test_vm.pc, 1);
}

#[test]
fn test_load_opcode() {
    let mut test_vm = VM::new();
    test_vm.program = vec![1, 0, 1, 244];
    test_vm.run();
    assert_eq!(test_vm.registers[0], 500);
}

#[test]
fn test_add_opcode() {
    let mut test_vm = VM::new();
    test_vm.program = vec![1, 0, 0, 10, 1, 1, 0, 15, 2, 0, 1, 2];
    test_vm.run();
    assert_eq!(test_vm.registers[2], 25);
}

#[test]
fn test_sub_opcode() {
    let mut test_vm = VM::new();
    test_vm.program = vec![1, 0, 0, 15, 1, 1, 0, 10, 3, 0, 1, 2];
    test_vm.run();
    assert_eq!(test_vm.registers[2], 5);
}

#[test]
fn test_mul_opcode() {
    let mut test_vm = VM::new();
    test_vm.program = vec![1, 0, 0, 15, 1, 1, 0, 10, 4, 0, 1, 2];
    test_vm.run();
    assert_eq!(test_vm.registers[2], 150);
}

#[test]
fn test_div_opcode() {
    let mut test_vm = VM::new();
    test_vm.program = vec![1, 0, 0, 8, 1, 1, 0, 5, 5, 0, 1, 2];
    test_vm.run();
    assert_eq!(test_vm.registers[2], 1);
    assert_eq!(test_vm.remainder, 3);
}

#[test]
fn test_jmp_opcode() {
    let mut test_vm = VM::new();
    test_vm.registers[0] = 1;
    test_vm.program = vec![6, 0, 0, 0];
    test_vm.run_once();
    assert_eq!(test_vm.pc, 1);
}

#[test]
fn test_jmpf_opcode() {
    let mut test_vm = VM::new();
    test_vm.registers[0] = 2;
    test_vm.program = vec![7, 0, 0, 0, 1, 1, 0, 3];
    test_vm.run();
    assert_eq!(test_vm.registers[1], 3);
}

#[test]
fn test_jmpb_opcode() {
    let mut test_vm = VM::new();
    test_vm.registers[0] = 6;
    test_vm.registers[1] = 8;
    test_vm.program = vec![7, 0, 1, 2, 0, 8, 255, 0, 8, 1];
    test_vm.run();
    assert_eq!(test_vm.registers[2], 8);
}

#[test]
fn test_eq_opcode() {
    let mut test_vm = VM::new();
    test_vm.registers[0] = 10;
    test_vm.registers[1] = 10;
    test_vm.program = vec![9, 0, 1, 0, 9, 0, 1, 0];
    test_vm.run_once();
    assert_eq!(test_vm.equal_flag, true);
    test_vm.registers[1] = 20;
    test_vm.run_once();
    assert_eq!(test_vm.equal_flag, false);
}

#[test]
fn test_jeq_opcode() {
    let mut test_vm = VM::new();
    test_vm.registers[0] = 4;
    test_vm.equal_flag = true;
    test_vm.program = vec![10, 0, 3, 2, 1, 1, 0, 9];
    test_vm.run();
    assert_eq!(test_vm.registers[1], 9);
}

#[test]
fn test_jneq_opcode() {
    let mut test_vm = VM::new();
    test_vm.registers[0] = 4;
    test_vm.equal_flag = false;
    test_vm.program = vec![11, 0, 3, 2, 1, 1, 0, 9];
    test_vm.run();
    assert_eq!(test_vm.registers[1], 9);
}

#[test]
fn new_machine_is_blank() {
    let vm = VM::new();
    assert!(vm.registers.iter().all(|r| *r == 0));
    assert_eq!(vm.pc, 0);
    assert!(vm.program.is_empty());
    assert_eq!(vm.remainder, 0);
    assert!(!vm.equal_flag);
    assert_eq!(vm.fault, None);
    assert!(!vm.halted);
}

#[test]
fn add_byte_appends() {
    let mut vm = VM::new();
    vm.add_byte(7);
    vm.add_byte(200);
    assert_eq!(vm.program, vec![7, 200]);
    assert_eq!(vm.pc, 0);
}

#[test]
fn load_largest_immediate_reads_back() {
    let mut vm = VM::new();
    vm.program = vec![1, 31, 255, 255, 1, 3, 0, 0];
    vm.run();
    assert_eq!(vm.registers[31], 65535);
    assert_eq!(vm.registers[3], 0);
    assert_eq!(vm.pc, 8);
}

#[test]
fn sub_gives_negative_result() {
    let mut vm = VM::new();
    vm.registers[0] = 10;
    vm.registers[1] = 15;
    vm.program = vec![3, 0, 1, 2];
    assert!(!vm.execute_instruction());
    assert_eq!(vm.registers[2], -5);
    assert_eq!(vm.pc, 4);
}

#[test]
fn mul_of_negatives() {
    let mut vm = VM::new();
    vm.registers[0] = -7;
    vm.registers[1] = -6;
    vm.program = vec![4, 0, 1, 0];
    vm.run();
    assert_eq!(vm.registers[0], 42);
}

#[test]
fn add_overflow_faults_without_change() {
    let mut vm = VM::new();
    vm.registers[0] = i32::MAX;
    vm.registers[1] = 1;
    vm.program = vec![2, 0, 1, 2];
    assert!(vm.execute_instruction());
    assert_eq!(vm.fault, Some(Fault::Overflow));
    assert_eq!(vm.registers[2], 0);
    assert_eq!(vm.pc, 0);
}

#[test]
fn div_truncates_toward_zero() {
    let mut vm = VM::new();
    vm.registers[0] = -7;
    vm.registers[1] = 2;
    vm.program = vec![5, 0, 1, 2];
    vm.run();
    assert_eq!(vm.registers[2], -3);
    assert_eq!(vm.remainder, (-1i32) as u32);
}

#[test]
fn div_by_negative_divisor() {
    let mut vm = VM::new();
    vm.registers[0] = 7;
    vm.registers[1] = -2;
    vm.program = vec![5, 0, 1, 2];
    vm.run();
    assert_eq!(vm.registers[2], -3);
    assert_eq!(vm.remainder, 1);
}

#[test]
fn div_by_zero_faults() {
    let mut vm = VM::new();
    vm.registers[0] = 7;
    vm.program = vec![5, 0, 1, 2];
    vm.run();
    assert_eq!(vm.fault, Some(Fault::DivideByZero));
    assert_eq!(vm.pc, 0);
    assert_eq!(vm.registers[2], 0);
}

#[test]
fn div_min_by_minus_one_overflows() {
    let mut vm = VM::new();
    vm.registers[0] = i32::MIN;
    vm.registers[1] = -1;
    vm.program = vec![5, 0, 1, 2];
    vm.run();
    assert_eq!(vm.fault, Some(Fault::Overflow));
}

#[test]
fn halt_program_leaves_registers() {
    let mut vm = VM::new();
    vm.registers[5] = 9;
    vm.program = vec![0, 0, 0, 0];
    vm.run();
    assert_eq!(vm.pc, 4);
    let mut expected = [0i32; 32];
    expected[5] = 9;
    assert_eq!(vm.registers, expected);
    assert_eq!(vm.fault, None);
}

#[test]
fn illegal_opcode_halts_after_one_decode() {
    let mut vm = VM::new();
    vm.program = vec![200, 1, 0, 0, 5];
    assert!(vm.execute_instruction());
    assert_eq!(vm.pc, 1);
    assert_eq!(vm.registers[0], 0);
}

#[test]
fn jump_forward_counts_from_instruction_end() {
    let mut vm = VM::new();
    vm.registers[0] = 2;
    vm.program = vec![7, 0, 0, 0, 1, 1, 0, 3];
    assert!(!vm.execute_instruction());
    assert_eq!(vm.pc, 4);
}

#[test]
fn jump_back_past_start_faults() {
    let mut vm = VM::new();
    vm.registers[0] = 3;
    vm.program = vec![8, 0];
    assert!(vm.execute_instruction());
    assert_eq!(vm.fault, Some(Fault::JumpOutOfRange));
    assert_eq!(vm.pc, 0);
}

#[test]
fn jump_with_negative_register_faults() {
    let mut vm = VM::new();
    vm.registers[0] = -1;
    vm.program = vec![6, 0];
    vm.run();
    assert_eq!(vm.fault, Some(Fault::JumpOutOfRange));
}

#[test]
fn jump_past_end_faults() {
    let mut vm = VM::new();
    vm.registers[0] = 3;
    vm.program = vec![6, 0];
    vm.run();
    assert_eq!(vm.fault, Some(Fault::JumpOutOfRange));
}

#[test]
fn register_index_out_of_range_faults() {
    let mut vm = VM::new();
    vm.program = vec![1, 32, 0, 1];
    assert!(vm.execute_instruction());
    assert_eq!(vm.fault, Some(Fault::RegisterOutOfRange));
    assert_eq!(vm.pc, 0);
}

#[test]
fn truncated_instruction_faults() {
    let mut vm = VM::new();
    vm.program = vec![1, 0, 1];
    vm.run();
    assert_eq!(vm.fault, Some(Fault::TruncatedInstruction));
    assert_eq!(vm.pc, 0);
    assert_eq!(vm.registers[0], 0);
}

#[test]
fn faulted_machine_stays_halted() {
    let mut vm = VM::new();
    vm.program = vec![1, 40, 0, 1, 1, 0, 0, 1];
    vm.run();
    assert_eq!(vm.fault, Some(Fault::RegisterOutOfRange));
    assert!(vm.execute_instruction());
    assert_eq!(vm.pc, 0);
    assert_eq!(vm.registers[0], 0);
}

#[test]
fn eq_recomputes_from_current_values() {
    let mut vm = VM::new();
    vm.registers[0] = 3;
    vm.registers[1] = 4;
    vm.equal_flag = true;
    vm.program = vec![9, 0, 1, 0, 9, 0, 1, 0];
    vm.run_once();
    assert!(!vm.equal_flag);
    vm.registers[1] = 3;
    vm.run_once();
    assert!(vm.equal_flag);
    assert_eq!(vm.pc, 8);
}

#[test]
fn conditional_jump_not_taken_steps_past_operand() {
    let mut vm = VM::new();
    vm.registers[0] = 6;
    vm.equal_flag = false;
    vm.program = vec![10, 0, 11, 40, 0, 0];
    assert!(!vm.execute_instruction());
    assert_eq!(vm.pc, 2);
    vm.equal_flag = true;
    assert!(!vm.execute_instruction());
    assert_eq!(vm.pc, 4);
}

#[test]
fn step_after_end_reports_halt_again() {
    let mut vm = VM::new();
    vm.program = vec![1, 2, 0, 7];
    vm.run();
    assert_eq!(vm.pc, 4);
    assert!(vm.execute_instruction());
    assert_eq!(vm.pc, 4);
    assert_eq!(vm.registers[2], 7);
    assert_eq!(vm.fault, None);
}

#[test]
fn run_matches_stepping() {
    let program = vec![1, 0, 0, 10, 1, 1, 0, 15, 2, 0, 1, 2, 0, 0, 0, 0, 1, 3, 0, 1];
    let mut by_run = VM::new();
    by_run.program = program.clone();
    by_run.run();
    let mut by_step = VM::new();
    by_step.program = program;
    while !by_step.execute_instruction() {}
    assert_eq!(by_run.pc, by_step.pc);
    assert_eq!(by_run.pc, 16);
    assert_eq!(by_run.registers, by_step.registers);
    assert_eq!(by_run.registers[3], 0);
}

#[test]
fn halt_is_final_while_bytes_remain() {
    let mut vm = VM::new();
    vm.program = vec![0, 0, 0, 0, 1, 0, 0, 5];
    assert!(vm.execute_instruction());
    assert_eq!(vm.pc, 4);
    assert!(vm.halted);
    assert!(vm.execute_instruction());
    assert_eq!(vm.pc, 4);
    assert_eq!(vm.registers[0], 0);
    vm.run();
    assert_eq!(vm.pc, 4);
    assert_eq!(vm.registers[0], 0);
}

#[test]
fn illegal_opcode_is_final() {
    let mut vm = VM::new();
    vm.program = vec![200, 1, 0, 0, 5];
    vm.run();
    assert_eq!(vm.pc, 1);
    assert!(vm.execute_instruction());
    assert_eq!(vm.pc, 1);
    assert_eq!(vm.registers[0], 0);
}

#[test]
fn resume_lets_later_bytes_run() {
    let mut vm = VM::new();
    vm.program = vec![0, 0, 0, 0, 1, 0, 0, 5];
    vm.run();
    vm.resume();
    assert!(!vm.halted);
    vm.run();
    assert_eq!(vm.registers[0], 5);
    assert_eq!(vm.pc, 8);
}
