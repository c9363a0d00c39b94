use ljd_16_bit_computer_rs::cpu::{Cpu, InstructionResult};
use ljd_16_bit_computer_rs::error::MemoryError;
use ljd_16_bit_computer_rs::memory::Memory;

fn memory_with_program(program: &[u16]) -> Memory {
    let mut memory =
        Memory { program_rom: [0u16; 65536], data_rom: [0u16; 32768], ram: [0u16; 32768] };
    for (i, word) in program.iter().enumerate() {
        memory.program_rom[i] = *word;
    }
    memory
}

/// Runs a single instruction on `cpu` from address 0 and returns its result.
fn run_one(cpu: &mut Cpu, instruction: u16) -> Result<InstructionResult, MemoryError> {
    let mut memory = memory_with_program(&[instruction]);
    cpu.pc = 0;
    cpu.step(&mut memory)
}

#[test]
fn new_cpu_is_reset() {
    let cpu = Cpu::new();
    assert_eq!(cpu.registers, [0u16; 16]);
    assert_eq!(cpu.pc, 0);
    assert!(!cpu.carry);
    assert!(!cpu.overflow);
}

#[test]
fn end_halts_without_moving_pc() {
    let mut memory = memory_with_program(&[0x1AB3, 0x0000]);
    let mut cpu = Cpu::new();
    cpu.pc = 1;
    assert_eq!(cpu.step(&mut memory), Ok(InstructionResult::Halt));
    assert_eq!(cpu.pc, 1);
    assert_eq!(cpu.step(&mut memory), Ok(InstructionResult::Halt));
    assert_eq!(cpu.pc, 1);
    assert_eq!(cpu.registers, [0u16; 16]);
}

#[test]
fn lby_then_hby_build_a_word() {
    let mut memory = memory_with_program(&[0x2CD3, 0x1AB3]);
    let mut cpu = Cpu::new();
    cpu.registers[3] = 0x5566;
    assert_eq!(cpu.step(&mut memory), Ok(InstructionResult::Next));
    assert_eq!(cpu.registers[3], 0x55CD);
    assert_eq!(cpu.pc, 1);
    assert_eq!(cpu.step(&mut memory), Ok(InstructionResult::Next));
    assert_eq!(cpu.registers[3], 0xABCD);
    assert_eq!(cpu.pc, 2);
}

#[test]
fn lod_reads_rom_and_ram() {
    let mut memory = memory_with_program(&[0x3102, 0x3405]);
    memory.ram[0] = 0x5555;
    memory.data_rom[0x10] = 0x6666;
    let mut cpu = Cpu::new();
    cpu.registers[1] = 0x8000;
    cpu.registers[4] = 0x0010;
    cpu.step(&mut memory).unwrap();
    cpu.step(&mut memory).unwrap();
    assert_eq!(cpu.registers[2], 0x5555);
    assert_eq!(cpu.registers[5], 0x6666);
}

#[test]
fn str_writes_ram() {
    let mut memory = memory_with_program(&[0x4120]);
    let mut cpu = Cpu::new();
    cpu.registers[1] = 0x8001;
    cpu.registers[2] = 0x7777;
    assert_eq!(cpu.step(&mut memory), Ok(InstructionResult::Next));
    assert_eq!(memory.ram[1], 0x7777);
    assert_eq!(cpu.pc, 1);
}

#[test]
fn str_to_rom_fails_and_changes_nothing() {
    let mut memory = memory_with_program(&[0x4120]);
    let mut cpu = Cpu::new();
    cpu.registers[1] = 0x0042;
    cpu.registers[2] = 0x7777;
    assert_eq!(cpu.step(&mut memory), Err(MemoryError::ReadOnly(0x0042)));
    assert_eq!(cpu.pc, 0);
    assert_eq!(memory.data_rom[0x42], 0);
    assert!(memory.ram.iter().all(|w| *w == 0));
}

#[test]
fn add_sets_overflow_on_signed_overflow() {
    let mut cpu = Cpu::new();
    cpu.registers[1] = 0x7FFF;
    cpu.registers[2] = 0x0001;
    assert_eq!(run_one(&mut cpu, 0x5123), Ok(InstructionResult::Next));
    assert_eq!(cpu.registers[3], 0x8000);
    assert!(!cpu.carry);
    assert!(cpu.overflow);
}

#[test]
fn add_sets_carry_on_unsigned_overflow() {
    let mut cpu = Cpu::new();
    cpu.registers[1] = 0xFFFF;
    cpu.registers[2] = 0x0001;
    run_one(&mut cpu, 0x5123).unwrap();
    assert_eq!(cpu.registers[3], 0x0000);
    assert!(cpu.carry);
    assert!(!cpu.overflow);
}

#[test]
fn add_of_two_negatives_overflows_to_positive() {
    let mut cpu = Cpu::new();
    cpu.registers[1] = 0x8000;
    cpu.registers[2] = 0x8000;
    run_one(&mut cpu, 0x5123).unwrap();
    assert_eq!(cpu.registers[3], 0x0000);
    assert!(cpu.carry);
    assert!(cpu.overflow);
}

#[test]
fn sub_computes_difference() {
    let mut cpu = Cpu::new();
    cpu.registers[1] = 5;
    cpu.registers[2] = 3;
    run_one(&mut cpu, 0x6123).unwrap();
    assert_eq!(cpu.registers[3], 2);
    assert!(!cpu.carry);
    assert!(!cpu.overflow);
    run_one(&mut cpu, 0x6213).unwrap();
    assert_eq!(cpu.registers[3], 0xFFFE);
    assert!(cpu.carry);
    assert!(!cpu.overflow);
}

#[test]
fn sub_of_zero_leaves_carry_clear() {
    let mut cpu = Cpu::new();
    cpu.registers[1] = 9;
    cpu.registers[2] = 0;
    cpu.carry = true;
    run_one(&mut cpu, 0x6123).unwrap();
    assert_eq!(cpu.registers[3], 9);
    assert!(!cpu.carry);
}

#[test]
fn sub_sets_overflow_on_signed_overflow() {
    let mut cpu = Cpu::new();
    cpu.registers[1] = 0x0000;
    cpu.registers[2] = 0x8000;
    run_one(&mut cpu, 0x6123).unwrap();
    assert_eq!(cpu.registers[3], 0x8000);
    assert!(cpu.carry);
    assert!(cpu.overflow);
    cpu.registers[1] = 0x8000;
    cpu.registers[2] = 0x0001;
    run_one(&mut cpu, 0x6123).unwrap();
    assert_eq!(cpu.registers[3], 0x7FFF);
    assert!(!cpu.carry);
    assert!(cpu.overflow);
    cpu.registers[1] = 0xFFFF;
    cpu.registers[2] = 0x8000;
    run_one(&mut cpu, 0x6123).unwrap();
    assert_eq!(cpu.registers[3], 0x7FFF);
    assert!(!cpu.carry);
    assert!(!cpu.overflow);
}

#[test]
fn add_is_symmetric() {
    let mut first = Cpu::new();
    first.registers[1] = 0x9000;
    first.registers[2] = 0x8123;
    run_one(&mut first, 0x5123).unwrap();
    let mut second = Cpu::new();
    second.registers[1] = 0x9000;
    second.registers[2] = 0x8123;
    run_one(&mut second, 0x5213).unwrap();
    assert_eq!(first.registers, second.registers);
    assert_eq!((first.carry, first.overflow), (second.carry, second.overflow));
    assert_eq!(first.registers[3], 0x1123);
    assert!(first.carry);
    assert!(first.overflow);
}

#[test]
fn condition_bit_three_is_ignored() {
    let mut cpu = Cpu::new();
    cpu.registers[2] = 0x0200;
    cpu.registers[1] = 0x0005;
    assert_eq!(run_one(&mut cpu, 0xE12F), Ok(InstructionResult::Jump(0x0200)));
    assert_eq!(run_one(&mut cpu, 0xE127), Ok(InstructionResult::Jump(0x0200)));
    assert_eq!(run_one(&mut cpu, 0xE128), Ok(InstructionResult::Next));
    cpu.carry = true;
    assert_eq!(run_one(&mut cpu, 0xF029), Ok(InstructionResult::Jump(0x0200)));
    assert_eq!(run_one(&mut cpu, 0xF02A), Ok(InstructionResult::Next));
}

#[test]
fn adi_and_sbi_use_the_rs2_nibble() {
    let mut cpu = Cpu::new();
    cpu.registers[1] = 10;
    run_one(&mut cpu, 0x71F2).unwrap();
    assert_eq!(cpu.registers[2], 25);
    run_one(&mut cpu, 0x8213).unwrap();
    assert_eq!(cpu.registers[3], 24);
    assert!(!cpu.carry);
    cpu.registers[4] = 0;
    run_one(&mut cpu, 0x8415).unwrap();
    assert_eq!(cpu.registers[5], 0xFFFF);
    assert!(cpu.carry);
    assert!(!cpu.overflow);
}

#[test]
fn logic_instructions() {
    let mut cpu = Cpu::new();
    cpu.registers[1] = 0b1100;
    cpu.registers[2] = 0b1010;
    cpu.carry = true;
    cpu.overflow = true;
    run_one(&mut cpu, 0x9123).unwrap();
    assert_eq!(cpu.registers[3], 0b1000);
    run_one(&mut cpu, 0xA124).unwrap();
    assert_eq!(cpu.registers[4], 0b1110);
    run_one(&mut cpu, 0xB125).unwrap();
    assert_eq!(cpu.registers[5], 0b0110);
    run_one(&mut cpu, 0xC126).unwrap();
    assert_eq!(cpu.registers[6], 0xFFF1);
    assert!(cpu.carry);
    assert!(cpu.overflow);
}

#[test]
fn shf_left_carries_out_the_top_bit() {
    let mut cpu = Cpu::new();
    cpu.registers[1] = 0x8001;
    run_one(&mut cpu, 0xD102).unwrap();
    assert_eq!(cpu.registers[2], 0x0002);
    assert!(cpu.carry);
    cpu.registers[1] = 0x01FF;
    run_one(&mut cpu, 0xD172).unwrap();
    assert_eq!(cpu.registers[2], 0xFF00);
    assert!(cpu.carry);
    cpu.registers[1] = 0x00FF;
    run_one(&mut cpu, 0xD172).unwrap();
    assert_eq!(cpu.registers[2], 0xFF00);
    assert!(!cpu.carry);
}

#[test]
fn shf_right_carries_out_the_last_bit() {
    let mut cpu = Cpu::new();
    cpu.registers[1] = 0x1280;
    cpu.overflow = true;
    run_one(&mut cpu, 0xD1F2).unwrap();
    assert_eq!(cpu.registers[2], 0x0012);
    assert!(cpu.carry);
    assert!(cpu.overflow);
    cpu.registers[1] = 0x0002;
    run_one(&mut cpu, 0xD182).unwrap();
    assert_eq!(cpu.registers[2], 0x0001);
    assert!(!cpu.carry);
}

#[test]
fn brv_tests_the_sign() {
    let mut cpu = Cpu::new();
    cpu.registers[2] = 0x1234;
    cpu.registers[1] = 0;
    assert_eq!(run_one(&mut cpu, 0xE122), Ok(InstructionResult::Jump(0x1234)));
    assert_eq!(cpu.pc, 0x1234);
    assert_eq!(run_one(&mut cpu, 0xE125), Ok(InstructionResult::Next));
    assert_eq!(cpu.pc, 1);
    cpu.registers[1] = 0x8000;
    assert_eq!(run_one(&mut cpu, 0xE124), Ok(InstructionResult::Jump(0x1234)));
    assert_eq!(run_one(&mut cpu, 0xE123), Ok(InstructionResult::Next));
    cpu.registers[1] = 0x0001;
    assert_eq!(run_one(&mut cpu, 0xE121), Ok(InstructionResult::Jump(0x1234)));
    assert_eq!(run_one(&mut cpu, 0xE126), Ok(InstructionResult::Next));
}

#[test]
fn brf_tests_the_flags() {
    let mut cpu = Cpu::new();
    cpu.registers[2] = 0x0100;
    assert_eq!(run_one(&mut cpu, 0xF020), Ok(InstructionResult::Jump(0x0100)));
    assert_eq!(run_one(&mut cpu, 0xF028), Ok(InstructionResult::Jump(0x0100)));
    assert_eq!(run_one(&mut cpu, 0xF021), Ok(InstructionResult::Next));
    assert_eq!(run_one(&mut cpu, 0xF024), Ok(InstructionResult::Next));
    cpu.carry = true;
    assert_eq!(run_one(&mut cpu, 0xF021), Ok(InstructionResult::Jump(0x0100)));
    assert_eq!(run_one(&mut cpu, 0xF020), Ok(InstructionResult::Next));
    assert_eq!(run_one(&mut cpu, 0xF022), Ok(InstructionResult::Next));
    cpu.carry = false;
    cpu.overflow = true;
    assert_eq!(run_one(&mut cpu, 0xF022), Ok(InstructionResult::Jump(0x0100)));
    assert_eq!(run_one(&mut cpu, 0xF023), Ok(InstructionResult::Jump(0x0100)));
}

#[test]
fn pc_wraps_after_the_last_address() {
    let mut memory = memory_with_program(&[]);
    memory.program_rom[0xFFFF] = 0x7011;
    let mut cpu = Cpu::new();
    cpu.pc = 0xFFFF;
    assert_eq!(cpu.step(&mut memory), Ok(InstructionResult::Next));
    assert_eq!(cpu.pc, 0);
    assert_eq!(cpu.registers[1], 1);
}
