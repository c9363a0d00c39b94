use ljd_16_bit_computer_rs::computer::{
    frame_sleep_nanos, Computer, FRAME_DURATION_NANOS, INSTRUCTIONS_PER_FRAME,
};
use ljd_16_bit_computer_rs::error::MemoryError;
use ljd_16_bit_computer_rs::memory::Memory;

fn memory_with_program(program: &[u16]) -> Memory {
    let mut memory =
        Memory { program_rom: [0u16; 65536], data_rom: [0u16; 32768], ram: [0u16; 32768] };
    for (i, word) in program.iter().enumerate() {
        memory.program_rom[i] = *word;
    }
    memory
}

#[test]
fn new_computer_has_reset_cpu_and_given_memory() {
    let computer = Computer::new(memory_with_program(&[0x1234]));
    assert_eq!(computer.cpu.pc, 0);
    assert_eq!(computer.cpu.registers, [0u16; 16]);
    assert_eq!(computer.memory.program_rom[0], 0x1234);
}

#[test]
fn frame_runs_the_given_number_of_instructions() {
    // ADI R0 + 1 -> R0, repeated
    let mut computer = Computer::new(memory_with_program(&[0x7010; 8]));
    assert_eq!(computer.execute_frame(Some(3)), Ok(()));
    assert_eq!(computer.cpu.registers[0], 3);
    assert_eq!(computer.cpu.pc, 3);
}

#[test]
fn frame_of_zero_instructions_does_nothing() {
    let mut computer = Computer::new(memory_with_program(&[0x7010]));
    assert_eq!(computer.execute_frame(Some(0)), Ok(()));
    assert_eq!(computer.cpu.registers[0], 0);
    assert_eq!(computer.cpu.pc, 0);
}

#[test]
fn frame_stops_at_end() {
    let mut computer = Computer::new(memory_with_program(&[0x7010, 0x7010, 0x0000, 0x7010]));
    assert_eq!(computer.execute_frame(None), Ok(()));
    assert_eq!(computer.cpu.registers[0], 2);
    assert_eq!(computer.cpu.pc, 2);
    // A halted machine stays halted.
    assert_eq!(computer.execute_frame(None), Ok(()));
    assert_eq!(computer.cpu.registers[0], 2);
    assert_eq!(computer.cpu.pc, 2);
}

#[test]
fn default_frame_length_is_instructions_per_frame() {
    // ADI R0 + 1 -> R0; BRF with no condition bits jumps to R2 (= 0) when no flag is set.
    let mut computer = Computer::new(memory_with_program(&[0x7010, 0xF020]));
    assert_eq!(computer.execute_frame(None), Ok(()));
    assert_eq!(INSTRUCTIONS_PER_FRAME, 34_440);
    assert_eq!(computer.cpu.registers[0] as u32, INSTRUCTIONS_PER_FRAME / 2);
    assert_eq!(computer.cpu.pc, 0);
}

#[test]
fn frame_stops_at_a_memory_error() {
    // ADI R0 + 1 -> R0; STR R0 -> ram[R1] with R1 = 0 (data ROM); ADI again.
    let mut computer = Computer::new(memory_with_program(&[0x7010, 0x4100, 0x7010]));
    assert_eq!(computer.execute_frame(None), Err(MemoryError::ReadOnly(0)));
    assert_eq!(computer.cpu.registers[0], 1);
    assert_eq!(computer.cpu.pc, 1);
}

#[test]
fn sleep_fills_the_rest_of_the_frame() {
    assert_eq!(FRAME_DURATION_NANOS, 16_683_333);
    assert_eq!(frame_sleep_nanos(0), 16_683_333);
    assert_eq!(frame_sleep_nanos(683_333), 16_000_000);
    assert_eq!(frame_sleep_nanos(16_683_333), 0);
    assert_eq!(frame_sleep_nanos(20_000_000), 0);
}

#[test]
fn frame_never_touches_the_roms() {
    // HBY $80 -> R1 (R1 = $8000); STR R1 -> ram[R1]; STR to ram[R2] = ram[0] fails.
    let mut memory = memory_with_program(&[0x1801, 0x4110, 0x4210]);
    memory.data_rom[0] = 0xBEEF;
    let mut computer = Computer::new(memory);
    assert_eq!(computer.execute_frame(None), Err(MemoryError::ReadOnly(0)));
    assert_eq!(computer.memory.ram[0], 0x8000);
    assert_eq!(computer.memory.data_rom[0], 0xBEEF);
    assert_eq!(computer.memory.program_rom[..3], [0x1801, 0x4110, 0x4210]);
    assert_eq!(computer.cpu.pc, 2);
}
