//! The mathematical model of the instruction set: what one instruction, one step of
//! the CPU and one frame of execution do to the machine state.

use crate::cpu::InstructionResult;
use crate::error::MemoryError;
use crate::memory::{write_outcome, MemoryState};
use vstd::arithmetic::power2::pow2;
use vstd::prelude::*;

verus! {

/// Mathematical model of the CPU: sixteen 16-bit registers, the program counter and
/// the carry (C) and overflow (V) flags.
pub struct CpuState {
    pub registers: Seq<u16>,
    pub pc: u16,
    pub carry: bool,
    pub overflow: bool,
}

impl CpuState {
    /// The state after reset: every register zero, PC at `$0000`, flags clear.
    pub open spec fn initial() -> CpuState {
        CpuState { registers: Seq::new(16, |i: int| 0u16), pc: 0, carry: false, overflow: false }
    }

    /// There are exactly sixteen registers.
    pub open spec fn well_formed(self) -> bool {
        self.registers.len() == 16
    }

    /// The value of register `i`.
    pub open spec fn reg(self, i: int) -> u16 {
        self.registers[i]
    }

    /// The state with register `i` set to `v`.
    pub open spec fn with_reg(self, i: int, v: u16) -> CpuState {
        CpuState {
            registers: self.registers.update(i, v),
            pc: self.pc,
            carry: self.carry,
            overflow: self.overflow,
        }
    }

    /// The state with the carry flag set to `c`.
    pub open spec fn with_carry(self, c: bool) -> CpuState {
        CpuState { registers: self.registers, pc: self.pc, carry: c, overflow: self.overflow }
    }

    /// The state with both flags set.
    pub open spec fn with_flags(self, c: bool, v: bool) -> CpuState {
        CpuState { registers: self.registers, pc: self.pc, carry: c, overflow: v }
    }

    /// The state with the program counter set to `pc`.
    pub open spec fn with_pc(self, pc: u16) -> CpuState {
        CpuState { registers: self.registers, pc, carry: self.carry, overflow: self.overflow }
    }
}

// ---------------------------------------------------------------------------
// Instruction format: | Op (15-12) | RS1 (11-8) | RS2 (7-4) | RD (3-0) |
/// The opcode: the first nibble of the instruction word.
pub open spec fn opcode(instruction: u16) -> int {
    instruction as int / 0x1000
}

/// The RS1 field: the second nibble.
pub open spec fn rs1_field(instruction: u16) -> int {
    (instruction as int / 0x100) % 16
}

/// The RS2 field: the third nibble.
pub open spec fn rs2_field(instruction: u16) -> int {
    (instruction as int / 0x10) % 16
}

/// The RD field: the fourth nibble.
pub open spec fn rd_field(instruction: u16) -> int {
    instruction as int % 16
}

/// The 8-bit immediate of HBY and LBY, formed by RS1 and RS2.
pub open spec fn immediate8(instruction: u16) -> int {
    (instruction as int / 0x10) % 0x100
}

// ---------------------------------------------------------------------------
// Arithmetic
/// A word read as a two's complement signed number.
pub open spec fn as_signed(x: u16) -> int {
    if x < 0x8000 {
        x as int
    } else {
        x - 0x10000
    }
}

/// The 16-bit sum of two words, modulo 2^16.
pub open spec fn sum_word(a: u16, b: u16) -> u16 {
    ((a + b) % 0x10000) as u16
}

/// Whether the unsigned sum of two words overflows 16 bits.
pub open spec fn sum_carries(a: u16, b: u16) -> bool {
    a + b >= 0x10000
}

/// Whether the signed sum of two words lies outside the signed 16-bit range.
pub open spec fn sum_overflows(a: u16, b: u16) -> bool {
    !(-0x8000 <= as_signed(a) + as_signed(b) < 0x8000)
}

/// The 16-bit difference of two words, modulo 2^16.
pub open spec fn difference_word(a: u16, b: u16) -> u16 {
    ((a - b) % 0x10000) as u16
}

/// Whether the unsigned difference `a - b` underflows (a borrow).
pub open spec fn difference_borrows(a: u16, b: u16) -> bool {
    a < b
}

/// Whether the signed difference of two words lies outside the signed 16-bit range.
pub open spec fn difference_overflows(a: u16, b: u16) -> bool {
    !(-0x8000 <= as_signed(a) - as_signed(b) < 0x8000)
}

/// The state after `a + b` is written to register `d`, with C and V set by the sum.
pub open spec fn add_into(s: CpuState, d: int, a: u16, b: u16) -> CpuState {
    s.with_reg(d, sum_word(a, b)).with_flags(sum_carries(a, b), sum_overflows(a, b))
}

/// The state after `a - b` is written to register `d`, with C set when the unsigned
/// subtraction underflows and V when the signed subtraction overflows.
pub open spec fn sub_into(s: CpuState, d: int, a: u16, b: u16) -> CpuState {
    s.with_reg(d, difference_word(a, b)).with_flags(
        difference_borrows(a, b),
        difference_overflows(a, b),
    )
}

// ---------------------------------------------------------------------------
// Shifts: the RS2 field of SHF is DAAA, D the direction (1 right), AAA the amount - 1.
/// Whether a SHF with direction/amount nibble `da` shifts right.
pub open spec fn shift_is_right(da: int) -> bool {
    da >= 8
}

/// The number of places (1 to 8) that a SHF with nibble `da` shifts by.
pub open spec fn shift_amount(da: int) -> nat {
    (da % 8 + 1) as nat
}

/// The word that SHF produces from `v`.
pub open spec fn shifted(v: u16, da: int) -> u16 {
    let k = shift_amount(da);
    if shift_is_right(da) {
        (v as int / pow2(k) as int) as u16
    } else {
        ((v * pow2(k)) % 0x10000) as u16
    }
}

/// The carry that SHF produces from `v`: the last bit shifted out.
pub open spec fn shift_carry(v: u16, da: int) -> bool {
    let k = shift_amount(da);
    if shift_is_right(da) {
        (v as int / pow2((k - 1) as nat) as int) % 2 == 1
    } else {
        ((v * pow2(k)) / 0x10000) % 2 == 1
    }
}

// ---------------------------------------------------------------------------
// Branches
/// BRV: the condition nibble 0NZP selects the signs of `v` on which to jump.
pub open spec fn sign_condition_holds(cond: int, v: u16) -> bool {
    ||| (cond / 4) % 2 == 1 && v >= 0x8000
    ||| (cond / 2) % 2 == 1 && v == 0
    ||| cond % 2 == 1 && 0 < v < 0x8000
}

/// BRF: the condition nibble 00VC selects the flags on which to jump; with the low
/// three bits clear it jumps when neither flag is set.
pub open spec fn flag_condition_holds(cond: int, carry: bool, overflow: bool) -> bool {
    ||| cond % 8 == 0 && !carry && !overflow
    ||| cond % 2 == 1 && carry
    ||| (cond / 2) % 2 == 1 && overflow
}

/// Jump to `target` when `holds`, else go on to the next instruction.
pub open spec fn branch(holds: bool, target: u16) -> InstructionResult {
    if holds {
        InstructionResult::Jump(target)
    } else {
        InstructionResult::Next
    }
}

// ---------------------------------------------------------------------------
// Execution
/// What executing `instruction` does to the CPU (PC aside) and the memory, and what it
/// returns.
pub open spec fn execute_outcome(s: CpuState, m: MemoryState, instruction: u16) -> (
    CpuState,
    MemoryState,
    Result<InstructionResult, MemoryError>,
) {
    let op = opcode(instruction);
    let r1 = rs1_field(instruction);
    let r2 = rs2_field(instruction);
    let d = rd_field(instruction);
    let next = Ok::<InstructionResult, MemoryError>(InstructionResult::Next);
    if op == 0x0 {
        // END
        (s, m, Ok(InstructionResult::Halt))
    } else if op == 0x1 {
        // HBY: immd8 -> RD[15-08]
        (s.with_reg(d, (immediate8(instruction) * 0x100 + s.reg(d) % 0x100) as u16), m, next)
    } else if op == 0x2 {
        // LBY: immd8 -> RD[07-00]
        (s.with_reg(d, ((s.reg(d) / 0x100) * 0x100 + immediate8(instruction)) as u16), m, next)
    } else if op == 0x3 {
        // LOD: ram[RS1] -> RD
        (s.with_reg(d, m.read(s.reg(r1))), m, next)
    } else if op == 0x4 {
        // STR: RS2 -> ram[RS1]
        let (m2, w) = write_outcome(m, s.reg(r1), s.reg(r2));
        match w {
            Ok(_) => (s, m2, next),
            Err(e) => (s, m2, Err(e)),
        }
    } else if op == 0x5 {
        // ADD: RS1 + RS2 -> RD
        (add_into(s, d, s.reg(r1), s.reg(r2)), m, next)
    } else if op == 0x6 {
        // SUB: RS1 - RS2 -> RD
        (sub_into(s, d, s.reg(r1), s.reg(r2)), m, next)
    } else if op == 0x7 {
        // ADI: RS1 + immd4 -> RD
        (add_into(s, d, s.reg(r1), r2 as u16), m, next)
    } else if op == 0x8 {
        // SBI: RS1 - immd4 -> RD
        (sub_into(s, d, s.reg(r1), r2 as u16), m, next)
    } else if op == 0x9 {
        (s.with_reg(d, s.reg(r1) & s.reg(r2)), m, next)
    } else if op == 0xA {
        (s.with_reg(d, s.reg(r1) | s.reg(r2)), m, next)
    } else if op == 0xB {
        (s.with_reg(d, s.reg(r1) ^ s.reg(r2)), m, next)
    } else if op == 0xC {
        (s.with_reg(d, !(s.reg(r1) | s.reg(r2))), m, next)
    } else if op == 0xD {
        // SHF: RS1 shifted by the DAAA nibble -> RD; C gets the last bit shifted out
        (s.with_reg(d, shifted(s.reg(r1), r2)).with_carry(shift_carry(s.reg(r1), r2)), m, next)
    } else if op == 0xE {
        // BRV: if RS1 matches NZP then RS2 -> PC
        (s, m, Ok(branch(sign_condition_holds(d, s.reg(r1)), s.reg(r2))))
    } else {
        // BRF: if the selected flags hold then RS2 -> PC
        (s, m, Ok(branch(flag_condition_holds(d, s.carry, s.overflow), s.reg(r2))))
    }
}

/// The program counter after an instruction at `pc` returned `r`.
pub open spec fn next_pc(pc: u16, r: InstructionResult) -> u16 {
    match r {
        InstructionResult::Jump(address) => address,
        InstructionResult::Next => ((pc + 1) % 0x10000) as u16,
        InstructionResult::Halt => pc,
    }
}

/// One step of the CPU: fetch the instruction at PC, execute it, and move PC on.
/// A failed instruction leaves PC where it was.
pub open spec fn step_outcome(s: CpuState, m: MemoryState) -> (
    CpuState,
    MemoryState,
    Result<InstructionResult, MemoryError>,
) {
    let (s2, m2, r) = execute_outcome(s, m, m.program_word(s.pc));
    match r {
        Ok(res) => (s2.with_pc(next_pc(s.pc, res)), m2, r),
        Err(_) => (s2, m2, r),
    }
}

/// Up to `n` steps: execution stops early at END (after the step that met it) or at
/// the first error.
pub open spec fn frame_outcome(s: CpuState, m: MemoryState, n: nat) -> (
    CpuState,
    MemoryState,
    Result<(), MemoryError>,
)
    decreases n,
{
    if n == 0 {
        (s, m, Ok(()))
    } else {
        let (s2, m2, r) = step_outcome(s, m);
        match r {
            Err(e) => (s2, m2, Err(e)),
            Ok(InstructionResult::Halt) => (s2, m2, Ok(())),
            Ok(_) => frame_outcome(s2, m2, (n - 1) as nat),
        }
    }
}

} // verus!
