use crate::error::MemoryError;
use crate::isa::{
    add_into, branch, execute_outcome, flag_condition_holds, immediate8, shift_amount, sub_into,
    shift_carry, shift_is_right, shifted, sign_condition_holds, step_outcome, CpuState,
};
use crate::memory::{write_outcome, Memory};
use vstd::arithmetic::power2::{lemma2_to64, pow2};
use vstd::bits::{lemma_u16_shr_is_div, lemma_u32_shl_is_mul, lemma_u32_shr_is_div};
use vstd::prelude::*;

verus! {

/// The CPU: sixteen general-purpose 16-bit registers, the program counter and the
/// carry and overflow flags.
pub struct Cpu {
    /// General purpose registers R0-R15.
    pub registers: [u16; 16],
    /// Program counter.
    pub pc: u16,
    /// Carry flag (C).
    pub carry: bool,
    /// Overflow flag (V).
    pub overflow: bool,
}

/// How an executed instruction moves the program counter.
#[derive(Debug, Clone, Copy, PartialEq, Eq, Structural)]
pub enum InstructionResult {
    /// Set PC to the address.
    Jump(u16),
    /// Increment PC.
    Next,
    /// An END instruction was executed; PC stays.
    Halt,
}

impl View for Cpu {
    type V = CpuState;

    open spec fn view(&self) -> CpuState {
        CpuState {
            registers: self.registers@,
            pc: self.pc,
            carry: self.carry,
            overflow: self.overflow,
        }
    }
}

// Facts about the bit-level encodings the instructions use.
proof fn lemma_decode(instruction: u16)
    by (bit_vector)
    ensures
        ((instruction >> 12u16) & 0xF) == instruction / 0x1000,
        ((instruction >> 8u16) & 0xF) == (instruction / 0x100) % 16,
        ((instruction >> 4u16) & 0xF) == (instruction / 0x10) % 16,
        (instruction & 0xF) == instruction % 16,
{
}

proof fn lemma_byte_insert(instruction: u16, old: u16)
    by (bit_vector)
    ensures
        ((old & 0x00FF) | ((instruction << 4u16) & 0xFF00)) == ((instruction / 0x10) % 0x100) * 0x100
            + old % 0x100,
        ((old & 0xFF00) | ((instruction >> 4u16) & 0x00FF)) == (old / 0x100) * 0x100 + (
        instruction / 0x10) % 0x100,
{
}

proof fn lemma_overflow_bits(a: u16, b: u16, result: u16)
    by (bit_vector)
    requires
        result == (a + b) % 0x10000,
    ensures
        (((a ^ b) & 0x8000) == 0 && ((a ^ result) & 0x8000) != 0) == ((a < 0x8000 && b < 0x8000
            && a + b >= 0x8000) || (a >= 0x8000 && b >= 0x8000 && a + b < 0x18000)),
{
}

proof fn lemma_sub_overflow_bits(a: u16, b: u16, result: u16)
    by (bit_vector)
    requires
        a >= b ==> result == a - b,
        a < b ==> result == a + 0x10000 - b,
    ensures
        (((a ^ b) & 0x8000) != 0 && ((a ^ result) & 0x8000) != 0) == ((a < 0x8000 && b >= 0x8000
            && a + 0x10000 - b >= 0x8000) || (a >= 0x8000 && b < 0x8000 && a - b < 0x8000)),
{
}

proof fn lemma_low_bit(x: u32)
    by (bit_vector)
    ensures
        (x & 1) == x % 2,
        (x & 0xFFFF) == x % 0x10000,
{
}

proof fn lemma_condition_bits(c: u8)
    by (bit_vector)
    ensures
        (c & 0b0100 != 0) == ((c / 4) % 2 == 1),
        (c & 0b0010 != 0) == ((c / 2) % 2 == 1),
        (c & 0b0001 != 0) == (c % 2 == 1),
        (c & 0b0111 == 0) == (c % 8 == 0),
{
}

/// Whether any bit of `mask` is set in `cond`.
fn is_bit_set(cond: u8, mask: u8) -> (r: bool)
    ensures
        r == (cond & mask != 0),
{
    (cond & mask) != 0
}

impl Cpu {
    /// A CPU after reset: all registers zero, PC at `$0000`, both flags clear.
    pub fn new() -> (r: Cpu)
        ensures
            r@ == CpuState::initial(),
    {
        let r = Cpu { registers: [0u16; 16], pc: 0, carry: false, overflow: false };
        assert(r@.registers =~= CpuState::initial().registers);
        r
    }

    /// Every CPU's model has sixteen registers.
    pub proof fn lemma_view_well_formed(&self)
        ensures
            self@.well_formed(),
    {
    }

    /// Fetches the instruction at PC, executes it and updates PC: to the target of a
    /// jump, to the next address (wrapping) otherwise, or not at all on END. A store to
    /// data ROM fails with `ReadOnly` and changes nothing, PC included.
    pub fn step(&mut self, memory: &mut Memory) -> (r: Result<InstructionResult, MemoryError>)
        ensures
            (final(self)@, final(memory)@, r) == step_outcome(old(self)@, old(memory)@),
    {
        let instruction = match memory.read_program(self.pc) {
            Ok(word) => word,
            Err(e) => {
                return Err(e);
            },
        };
        let instruction_result = match self.execute_instruction(instruction, memory) {
            Ok(res) => res,
            Err(e) => {
                return Err(e);
            },
        };
        let pc = match instruction_result {
            InstructionResult::Jump(addr) => addr,
            InstructionResult::Next => self.pc.wrapping_add(1),
            InstructionResult::Halt => self.pc,
        };
        self.pc = pc;
        Ok(instruction_result)
    }

    /// Decodes and executes one instruction word; PC is left to the caller.
    fn execute_instruction(&mut self, instruction: u16, memory: &mut Memory) -> (r: Result<
        InstructionResult,
        MemoryError,
    >)
        ensures
            (final(self)@, final(memory)@, r) == execute_outcome(
                old(self)@,
                old(memory)@,
                instruction,
            ),
    {
        proof {
            lemma_decode(instruction);
        }
        let opcode = ((instruction >> 12) & 0x0F) as u8;
        let rs1 = ((instruction >> 8) & 0xF) as u8;
        let rs2 = ((instruction >> 4) & 0xF) as u8;
        let rd = (instruction & 0xF) as u8;

        match opcode {
            0x0 => Ok(self.end()),
            0x1 => Ok(self.hby(instruction, rd)),
            0x2 => Ok(self.lby(instruction, rd)),
            0x3 => Ok(self.lod(rs1, rd, memory)),
            0x4 => self.str(rs1, rs2, memory),
            0x5 => Ok(self.add(rs1, rs2, rd)),
            0x6 => Ok(self.sub(rs1, rs2, rd)),
            0x7 => Ok(self.adi(rs1, rs2, rd)),
            0x8 => Ok(self.sbi(rs1, rs2, rd)),
            0x9 => Ok(self.and(rs1, rs2, rd)),
            0xA => Ok(self.orr(rs1, rs2, rd)),
            0xB => Ok(self.xor(rs1, rs2, rd)),
            0xC => Ok(self.nor(rs1, rs2, rd)),
            0xD => Ok(self.shf(rs1, rs2, rd)),
            0xE => Ok(self.brv(rs1, rs2, rd)),
            _ => Ok(self.brf(rs2, rd)),
        }
    }

    /// END.
    fn end(&self) -> (r: InstructionResult)
        ensures
            r == InstructionResult::Halt,
    {
        InstructionResult::Halt
    }

    /// HBY: the 8-bit immediate in bits 11-4 of the instruction becomes the high byte of RD.
    fn hby(&mut self, instruction: u16, rd: u8) -> (r: InstructionResult)
        requires
            rd < 16,
        ensures
            final(self)@ == old(self)@.with_reg(
                rd as int,
                (immediate8(instruction) * 0x100 + old(self)@.reg(rd as int) % 0x100) as u16,
            ),
            r == InstructionResult::Next,
    {
        let old_value = self.register(rd);
        proof {
            lemma_byte_insert(instruction, old_value);
        }
        let immd8 = (instruction << 4) & 0xFF00;
        self.set_register(rd, (old_value & 0x00FF) | immd8);
        InstructionResult::Next
    }

    /// LBY: the 8-bit immediate in bits 11-4 of the instruction becomes the low byte of RD.
    fn lby(&mut self, instruction: u16, rd: u8) -> (r: InstructionResult)
        requires
            rd < 16,
        ensures
            final(self)@ == old(self)@.with_reg(
                rd as int,
                ((old(self)@.reg(rd as int) / 0x100) * 0x100 + immediate8(instruction)) as u16,
            ),
            r == InstructionResult::Next,
    {
        let old_value = self.register(rd);
        proof {
            lemma_byte_insert(instruction, old_value);
        }
        let immd8 = (instruction >> 4) & 0x00FF;
        self.set_register(rd, (old_value & 0xFF00) | immd8);
        InstructionResult::Next
    }

    /// LOD: the data word at the address in RS1 goes to RD.
    fn lod(&mut self, rs1: u8, rd: u8, memory: &Memory) -> (r: InstructionResult)
        requires
            rs1 < 16,
            rd < 16,
        ensures
            final(self)@ == old(self)@.with_reg(rd as int, memory@.read(old(self)@.reg(rs1 as int))),
            r == InstructionResult::Next,
    {
        let address = self.register(rs1);
        let value = memory.read_data(address);
        self.set_register(rd, value);
        InstructionResult::Next
    }

    /// STR: RS2 is written to the data address in RS1.
    fn str(&self, rs1: u8, rs2: u8, memory: &mut Memory) -> (r: Result<InstructionResult, MemoryError>)
        requires
            rs1 < 16,
            rs2 < 16,
        ensures
            ({
                let (m2, w) = write_outcome(old(memory)@, self@.reg(rs1 as int), self@.reg(rs2 as int));
                &&& final(memory)@ == m2
                &&& r == match w {
                    Ok(_) => Ok::<InstructionResult, MemoryError>(InstructionResult::Next),
                    Err(e) => Err(e),
                }
            }),
    {
        let address = self.register(rs1);
        let value = self.register(rs2);
        match memory.write_data(address, value) {
            Ok(()) => Ok(InstructionResult::Next),
            Err(e) => Err(e),
        }
    }

    /// ADD: RS1 + RS2 -> RD.
    fn add(&mut self, rs1: u8, rs2: u8, rd: u8) -> (r: InstructionResult)
        requires
            rs1 < 16,
            rs2 < 16,
            rd < 16,
        ensures
            final(self)@ == add_into(
                old(self)@,
                rd as int,
                old(self)@.reg(rs1 as int),
                old(self)@.reg(rs2 as int),
            ),
            r == InstructionResult::Next,
    {
        let a = self.register(rs1);
        let b = self.register(rs2);
        self.basic_add(a, b, rd)
    }

    /// SUB: RS1 - RS2 -> RD; C is set when the unsigned subtraction underflows,
    /// V when the signed subtraction overflows.
    fn sub(&mut self, rs1: u8, rs2: u8, rd: u8) -> (r: InstructionResult)
        requires
            rs1 < 16,
            rs2 < 16,
            rd < 16,
        ensures
            final(self)@ == sub_into(
                old(self)@,
                rd as int,
                old(self)@.reg(rs1 as int),
                old(self)@.reg(rs2 as int),
            ),
            r == InstructionResult::Next,
    {
        let a = self.register(rs1);
        let b = self.register(rs2);
        self.basic_sub(a, b, rd)
    }

    /// ADI: RS1 + immd4 -> RD; the immediate is the RS2 field.
    fn adi(&mut self, rs1: u8, immd4: u8, rd: u8) -> (r: InstructionResult)
        requires
            rs1 < 16,
            immd4 < 16,
            rd < 16,
        ensures
            final(self)@ == add_into(old(self)@, rd as int, old(self)@.reg(rs1 as int), immd4 as u16),
            r == InstructionResult::Next,
    {
        let a = self.register(rs1);
        self.basic_add(a, immd4 as u16, rd)
    }

    /// SBI: RS1 - immd4 -> RD; the immediate is the RS2 field. C is set when the
    /// unsigned subtraction underflows, V when the signed subtraction overflows.
    fn sbi(&mut self, rs1: u8, immd4: u8, rd: u8) -> (r: InstructionResult)
        requires
            rs1 < 16,
            immd4 < 16,
            rd < 16,
        ensures
            final(self)@ == sub_into(old(self)@, rd as int, old(self)@.reg(rs1 as int), immd4 as u16),
            r == InstructionResult::Next,
    {
        let a = self.register(rs1);
        let immd = immd4 as u16;
        self.basic_sub(a, immd, rd)
    }

    /// AND: RS1 and RS2 -> RD.
    fn and(&mut self, rs1: u8, rs2: u8, rd: u8) -> (r: InstructionResult)
        requires
            rs1 < 16,
            rs2 < 16,
            rd < 16,
        ensures
            final(self)@ == old(self)@.with_reg(
                rd as int,
                old(self)@.reg(rs1 as int) & old(self)@.reg(rs2 as int),
            ),
            r == InstructionResult::Next,
    {
        let v = self.register(rs1) & self.register(rs2);
        self.set_register(rd, v);
        InstructionResult::Next
    }

    /// ORR: RS1 or RS2 -> RD.
    fn orr(&mut self, rs1: u8, rs2: u8, rd: u8) -> (r: InstructionResult)
        requires
            rs1 < 16,
            rs2 < 16,
            rd < 16,
        ensures
            final(self)@ == old(self)@.with_reg(
                rd as int,
                old(self)@.reg(rs1 as int) | old(self)@.reg(rs2 as int),
            ),
            r == InstructionResult::Next,
    {
        let v = self.register(rs1) | self.register(rs2);
        self.set_register(rd, v);
        InstructionResult::Next
    }

    /// XOR: RS1 xor RS2 -> RD.
    fn xor(&mut self, rs1: u8, rs2: u8, rd: u8) -> (r: InstructionResult)
        requires
            rs1 < 16,
            rs2 < 16,
            rd < 16,
        ensures
            final(self)@ == old(self)@.with_reg(
                rd as int,
                old(self)@.reg(rs1 as int) ^ old(self)@.reg(rs2 as int),
            ),
            r == InstructionResult::Next,
    {
        let v = self.register(rs1) ^ self.register(rs2);
        self.set_register(rd, v);
        InstructionResult::Next
    }

    /// NOR: RS1 nor RS2 -> RD.
    fn nor(&mut self, rs1: u8, rs2: u8, rd: u8) -> (r: InstructionResult)
        requires
            rs1 < 16,
            rs2 < 16,
            rd < 16,
        ensures
            final(self)@ == old(self)@.with_reg(
                rd as int,
                !(old(self)@.reg(rs1 as int) | old(self)@.reg(rs2 as int)),
            ),
            r == InstructionResult::Next,
    {
        let v = !(self.register(rs1) | self.register(rs2));
        self.set_register(rd, v);
        InstructionResult::Next
    }

    /// SHF: RS1 shifted by the DAAA nibble `da` -> RD. D is the direction (0 left,
    /// 1 right), AAA the amount minus one; C receives the last bit shifted out.
    fn shf(&mut self, rs1: u8, da: u8, rd: u8) -> (r: InstructionResult)
        requires
            rs1 < 16,
            da < 16,
            rd < 16,
        ensures
            final(self)@ == old(self)@.with_reg(
                rd as int,
                shifted(old(self)@.reg(rs1 as int), da as int),
            ).with_carry(shift_carry(old(self)@.reg(rs1 as int), da as int)),
            r == InstructionResult::Next,
    {
        let direction = da >> 3;
        assert(da & 0x7 <= 7) by (bit_vector);
        let amount = (da & 0x7) + 1;
        assert(direction == 0 <==> !shift_is_right(da as int)) by (bit_vector)
            requires
                da < 16,
                direction == da >> 3,
        ;
        assert(amount == shift_amount(da as int)) by (bit_vector)
            requires
                amount == (da & 0x7) + 1,
        ;
        let value = self.register(rs1);
        proof {
            lemma2_to64();
        }
        let result = if direction == 0 {
            // Left shift: compute in 32 bits, keep the low word, carry out bit 16.
            let wide = (value as u32) << (amount as u32);
            proof {
                assert(value * pow2(amount as nat) <= u32::MAX) by (nonlinear_arith)
                    requires
                        value <= 0xFFFF,
                        pow2(amount as nat) <= 256,
                ;
                lemma_u32_shl_is_mul(value as u32, amount as u32);
                lemma_u32_shr_is_div(wide, 16);
                lemma_low_bit(wide);
                lemma_low_bit(wide >> 16u32);
            }
            self.carry = (wide >> 16) & 1 != 0;
            (wide & 0xFFFF) as u16
        } else {
            // Right shift: carry out the bit just below the amount.
            proof {
                lemma_u16_shr_is_div(value, amount as u16);
                lemma_u16_shr_is_div(value, (amount - 1) as u16);
                lemma_low_bit((value >> ((amount - 1) as u16)) as u32);
            }
            self.carry = (value >> (amount - 1)) & 1 != 0;
            value >> amount
        };
        self.set_register(rd, result);
        InstructionResult::Next
    }

    /// BRV: jump to RS2 if the sign of RS1 matches the condition bits 0NZP in RD.
    fn brv(&self, rs1: u8, rs2: u8, cond: u8) -> (r: InstructionResult)
        requires
            rs1 < 16,
            rs2 < 16,
        ensures
            r == branch(
                sign_condition_holds(cond as int, self@.reg(rs1 as int)),
                self@.reg(rs2 as int),
            ),
    {
        proof {
            lemma_condition_bits(cond);
        }
        let value = self.register(rs1);
        let is_negative = (value & 0x8000) != 0;
        let is_zero = value == 0;
        let is_positive = !is_negative && !is_zero;
        assert(is_negative == (value >= 0x8000)) by (bit_vector)
            requires
                is_negative == ((value & 0x8000) != 0),
        ;
        let should_jump = is_bit_set(cond, 0b0100) && is_negative || is_bit_set(cond, 0b0010)
            && is_zero || is_bit_set(cond, 0b0001) && is_positive;
        if should_jump {
            InstructionResult::Jump(self.register(rs2))
        } else {
            InstructionResult::Next
        }
    }

    /// BRF: jump to RS2 if a flag selected by the condition bits 00VC in RD is set, or,
    /// when the low three condition bits are clear, if neither flag is set.
    fn brf(&self, rs2: u8, cond: u8) -> (r: InstructionResult)
        requires
            rs2 < 16,
        ensures
            r == branch(
                flag_condition_holds(cond as int, self.carry, self.overflow),
                self@.reg(rs2 as int),
            ),
    {
        proof {
            lemma_condition_bits(cond);
        }
        let should_jump: bool = (cond & 0b0111) == 0 && !self.carry && !self.overflow
            || is_bit_set(cond, 0b0001) && self.carry || is_bit_set(cond, 0b0010) && self.overflow;
        if should_jump {
            InstructionResult::Jump(self.register(rs2))
        } else {
            InstructionResult::Next
        }
    }

    /// Writes `a + b` to RD and sets C (unsigned carry out) and V (signed overflow).
    fn basic_add(&mut self, a: u16, b: u16, rd: u8) -> (r: InstructionResult)
        requires
            rd < 16,
        ensures
            final(self)@ == add_into(old(self)@, rd as int, a, b),
            r == InstructionResult::Next,
    {
        let sum: u32 = a as u32 + b as u32;
        let result = (sum % 0x10000) as u16;
        let carry = sum > 0xFFFF;
        proof {
            lemma_overflow_bits(a, b, result);
        }
        self.set_register(rd, result);
        self.carry = carry;
        self.overflow = ((a ^ b) & 0x8000) == 0 && ((a ^ result) & 0x8000) != 0;
        InstructionResult::Next
    }

    /// Writes `a - b` to RD and sets C (unsigned borrow) and V (signed overflow).
    fn basic_sub(&mut self, a: u16, b: u16, rd: u8) -> (r: InstructionResult)
        requires
            rd < 16,
        ensures
            final(self)@ == sub_into(old(self)@, rd as int, a, b),
            r == InstructionResult::Next,
    {
        let result = a.wrapping_sub(b);
        proof {
            lemma_sub_overflow_bits(a, b, result);
        }
        self.set_register(rd, result);
        self.carry = a < b;
        self.overflow = ((a ^ b) & 0x8000) != 0 && ((a ^ result) & 0x8000) != 0;
        InstructionResult::Next
    }

    /// The value of register `index`.
    fn register(&self, index: u8) -> (r: u16)
        requires
            index < 16,
        ensures
            r == self@.reg(index as int),
    {
        self.registers[index as usize]
    }

    /// Sets register `index` to `value`.
    fn set_register(&mut self, index: u8, value: u16)
        requires
            index < 16,
        ensures
            final(self)@ == old(self)@.with_reg(index as int, value),
    {
        self.registers[index as usize] = value;
        assert(self@.registers =~= old(self)@.with_reg(index as int, value).registers);
    }
}

} // verus!
