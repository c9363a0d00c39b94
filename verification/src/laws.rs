//! Properties of the machine that hold across instructions, steps and frames.

use crate::cpu::InstructionResult;
use crate::error::MemoryError;
use crate::isa::{
    add_into, difference_borrows, difference_word, execute_outcome, flag_condition_holds,
    frame_outcome, immediate8, opcode, rd_field, rs1_field, sign_condition_holds, step_outcome, sum_word,
    CpuState,
};
use crate::memory::{be_word, cartridge_memory, write_outcome, MemoryState, RAM_START};
use vstd::prelude::*;

verus! {

/// A write to RAM succeeds; a read of the same address then gives the written word,
/// and every other data address, and all of program ROM, read as before.
pub proof fn lemma_read_after_write(m: MemoryState, address: u16, value: u16, other: u16)
    requires
        m.well_formed(),
        address >= RAM_START,
    ensures
        write_outcome(m, address, value).1 == Ok::<(), MemoryError>(()),
        write_outcome(m, address, value).0.well_formed(),
        write_outcome(m, address, value).0.read(address) == value,
        other != address ==> write_outcome(m, address, value).0.read(other) == m.read(other),
        write_outcome(m, address, value).0.program_rom == m.program_rom,
{
}

/// A write to the cartridge data ROM is refused with `ReadOnly` and changes nothing.
pub proof fn lemma_rom_write_refused(m: MemoryState, address: u16, value: u16)
    requires
        address < RAM_START,
    ensures
        write_outcome(m, address, value) == (m, Err::<(), MemoryError>(MemoryError::ReadOnly(address))),
{
}

/// An instruction changes no register other than its RD, and never the program counter.
pub proof fn lemma_only_destination_register_changes(
    s: CpuState,
    m: MemoryState,
    instruction: u16,
    j: int,
)
    requires
        s.well_formed(),
        0 <= j < 16,
        j != rd_field(instruction),
    ensures
        execute_outcome(s, m, instruction).0.reg(j) == s.reg(j),
        execute_outcome(s, m, instruction).0.pc == s.pc,
        execute_outcome(s, m, instruction).0.well_formed(),
{
}

/// Only STR changes memory.
pub proof fn lemma_only_store_writes_memory(s: CpuState, m: MemoryState, instruction: u16)
    requires
        opcode(instruction) != 0x4,
    ensures
        execute_outcome(s, m, instruction).1 == m,
{
}

/// Only the arithmetic instructions (ADD, SUB, ADI, SBI) set V; only they and SHF set C.
pub proof fn lemma_flags_change_only_by_arithmetic(
    s: CpuState,
    m: MemoryState,
    instruction: u16,
)
    ensures
        !(0x5 <= opcode(instruction) <= 0x8) ==> execute_outcome(s, m, instruction).0.overflow
            == s.overflow,
        !(0x5 <= opcode(instruction) <= 0x8 || opcode(instruction) == 0xD) ==> execute_outcome(
            s,
            m,
            instruction,
        ).0.carry == s.carry,
{
}

/// SUB and SBI give the difference modulo 2^16, which adding the subtrahend back
/// undoes; C is set exactly when the unsigned subtraction underflows.
pub proof fn lemma_subtraction(a: u16, b: u16)
    ensures
        difference_word(a, b) as int == if a >= b {
            a - b
        } else {
            a - b + 0x10000
        },
        sum_word(difference_word(a, b), b) == a,
        difference_borrows(a, b) == (a < b),
{
}

/// ADD is symmetric in its operands: result and flags alike.
pub proof fn lemma_add_commutes(s: CpuState, d: int, a: u16, b: u16)
    ensures
        add_into(s, d, a, b) == add_into(s, d, b, a),
{
}

/// BRV reads only the low three condition bits: bit 3 is ignored, 0b111 always jumps
/// and 0b000 never does.
pub proof fn lemma_sign_condition_nibble(cond: int, v: u16)
    requires
        0 <= cond,
    ensures
        sign_condition_holds(cond, v) == sign_condition_holds(cond % 8, v),
        cond % 8 == 7 ==> sign_condition_holds(cond, v),
        cond % 8 == 0 ==> !sign_condition_holds(cond, v),
{
}

/// BRF masks its condition bits to 0b111: bit 3 is ignored.
pub proof fn lemma_flag_condition_masked(cond: int, carry: bool, overflow: bool)
    requires
        0 <= cond,
    ensures
        flag_condition_holds(cond, carry, overflow) == flag_condition_holds(
            cond % 8,
            carry,
            overflow,
        ),
{
}

/// HBY `h` into RD followed by LBY `l` into RD leaves `h * 256 + l` in RD, whatever RD
/// held, and changes nothing else.
pub proof fn lemma_hby_then_lby_builds_word(s: CpuState, m: MemoryState, d: int, h: int, l: int)
    requires
        s.well_formed(),
        0 <= d < 16,
        0 <= h < 256,
        0 <= l < 256,
    ensures
        ({
            let (s1, m1, r1) = execute_outcome(s, m, (0x1000 + h * 16 + d) as u16);
            let (s2, m2, r2) = execute_outcome(s1, m1, (0x2000 + l * 16 + d) as u16);
            &&& r1 == Ok::<InstructionResult, MemoryError>(InstructionResult::Next)
            &&& r2 == Ok::<InstructionResult, MemoryError>(InstructionResult::Next)
            &&& m2 == m
            &&& s2.reg(d) == h * 256 + l
            &&& forall|j: int| 0 <= j < 16 && j != d ==> s2.reg(j) == s.reg(j)
            &&& s2.pc == s.pc
            &&& s2.carry == s.carry
            &&& s2.overflow == s.overflow
        }),
{
    let i1 = (0x1000 + h * 16 + d) as u16;
    let i2 = (0x2000 + l * 16 + d) as u16;
    assert(i1 as int == 0x1000 + h * 16 + d);
    assert(i2 as int == 0x2000 + l * 16 + d);
    assert(opcode(i1) == 1 && rd_field(i1) == d && immediate8(i1) == h) by (nonlinear_arith)
        requires
            i1 as int == 0x1000 + h * 16 + d,
            0 <= d < 16,
            0 <= h < 256,
    ;
    assert(opcode(i2) == 2 && rd_field(i2) == d && immediate8(i2) == l) by (nonlinear_arith)
        requires
            i2 as int == 0x2000 + l * 16 + d,
            0 <= d < 16,
            0 <= l < 256,
    ;
    let x = s.reg(d) as int;
    let high = h * 0x100 + x % 0x100;
    assert(0 <= high < 0x10000 && (high / 0x100) * 0x100 + l == h * 256 + l) by (nonlinear_arith)
        requires
            high == h * 0x100 + x % 0x100,
            0 <= x,
            0 <= h < 256,
            0 <= l < 256,
    ;
}

/// A step never changes program ROM or data ROM, and keeps both models well formed.
pub proof fn lemma_step_preserves_roms(s: CpuState, m: MemoryState)
    requires
        s.well_formed(),
        m.well_formed(),
    ensures
        step_outcome(s, m).0.well_formed(),
        step_outcome(s, m).1.well_formed(),
        step_outcome(s, m).1.program_rom == m.program_rom,
        step_outcome(s, m).1.data_rom == m.data_rom,
{
    let instruction = m.program_word(s.pc);
    lemma_only_destination_register_changes(s, m, instruction, (rd_field(instruction) + 1) % 16);
}

/// A frame never changes program ROM or data ROM.
pub proof fn lemma_frame_preserves_roms(s: CpuState, m: MemoryState, n: nat)
    requires
        s.well_formed(),
        m.well_formed(),
    ensures
        frame_outcome(s, m, n).1.program_rom == m.program_rom,
        frame_outcome(s, m, n).1.data_rom == m.data_rom,
    decreases n,
{
    if n > 0 {
        lemma_step_preserves_roms(s, m);
        let (s2, m2, r) = step_outcome(s, m);
        lemma_frame_preserves_roms(s2, m2, (n - 1) as nat);
    }
}

/// A failed step changes nothing: it was a STR aimed at data ROM, and the error names
/// the address.
pub proof fn lemma_failed_step_changes_nothing(s: CpuState, m: MemoryState)
    requires
        step_outcome(s, m).2 is Err,
    ensures
        step_outcome(s, m).0 == s,
        step_outcome(s, m).1 == m,
        opcode(m.program_word(s.pc)) == 0x4,
        s.reg(rs1_field(m.program_word(s.pc))) < RAM_START,
        step_outcome(s, m).2 == Err::<InstructionResult, MemoryError>(
            MemoryError::ReadOnly(s.reg(rs1_field(m.program_word(s.pc)))),
        ),
{
}

/// END is a fixed point: a step at END changes nothing and halts, and so does a frame
/// of any nonzero length. A frame of length zero changes nothing either.
pub proof fn lemma_halt_is_fixed_point(s: CpuState, m: MemoryState, n: nat)
    ensures
        opcode(m.program_word(s.pc)) == 0x0 ==> step_outcome(s, m) == (
            s,
            m,
            Ok::<InstructionResult, MemoryError>(InstructionResult::Halt),
        ),
        opcode(m.program_word(s.pc)) == 0x0 ==> frame_outcome(s, m, n) == (
            s,
            m,
            Ok::<(), MemoryError>(()),
        ),
        frame_outcome(s, m, 0) == (s, m, Ok::<(), MemoryError>(())),
{
    if opcode(m.program_word(s.pc)) == 0x0 {
        assert(s.with_pc(s.pc) =~= s);
    }
}

/// Cartridge words are big-endian: word `i` of program ROM has byte `2i` of the image as
/// its high byte and byte `2i + 1` as its low byte, and data ROM continues the same way.
pub proof fn lemma_cartridge_byte_order(bytes: Seq<u8>, i: int)
    requires
        0 <= i < 65536,
        bytes.len() == 196608,
    ensures
        cartridge_memory(bytes).program_rom[i] / 256 == bytes[2 * i],
        cartridge_memory(bytes).program_rom[i] % 256 == bytes[2 * i + 1],
        i < 32768 ==> cartridge_memory(bytes).data_rom[i] / 256 == bytes[131072 + 2 * i],
        i < 32768 ==> cartridge_memory(bytes).data_rom[i] % 256 == bytes[131072 + 2 * i + 1],
{
    assert(be_word(bytes, i) == bytes[2 * i] * 256 + bytes[2 * i + 1]);
    if i < 32768 {
        assert(be_word(bytes, 65536 + i) == bytes[131072 + 2 * i] * 256 + bytes[131072 + 2 * i
            + 1]);
    }
}

} // verus!
