//! What each instruction computes, stated over a whole step of the CPU in terms of the
//! operands it reads and the state it leaves: the relations that define ADD, SUB,
//! SHF, BRV and BRF, and how a frame counts its instructions.

use crate::computer::{frame_length, frame_rest};
use crate::cpu::InstructionResult;
use crate::error::MemoryError;
use crate::isa::{
    as_signed, frame_outcome, immediate8, opcode, rd_field, rs1_field, rs2_field, step_outcome,
    CpuState,
};
use crate::memory::{cartridge_memory, MemoryState, CARTRIDGE_SIZE};
use vstd::arithmetic::div_mod::{
    lemma_div_denominator, lemma_div_multiples_vanish, lemma_fundamental_div_mod,
    lemma_mod_breakdown,
};
use vstd::arithmetic::power2::{lemma2_to64, lemma_pow2_adds, pow2};
use vstd::prelude::*;

verus! {

/// The word that `step_outcome` fetches.
pub open spec fn fetched(s: CpuState, m: MemoryState) -> u16 {
    m.program_word(s.pc)
}

/// The program counter of the next instruction in sequence.
pub open spec fn pc_after(pc: u16) -> u16 {
    ((pc + 1) % 0x10000) as u16
}

/// A word read as signed is the one number in the signed 16-bit range congruent to it
/// modulo 2^16.
pub proof fn lemma_signed_reading(x: u16)
    ensures
        -0x8000 <= as_signed(x) < 0x8000,
        (as_signed(x) - x) % 0x10000 == 0,
        as_signed(x) < 0 <==> x >= 0x8000,
{
}

/// ADD and ADI: RD receives the low 16 bits of the sum and C the bit above them, so
/// `a + b == RD + 2^16 * C` exactly; V is set exactly when the sum of the operands read
/// as signed differs from RD read as signed. Nothing but RD, the flags and PC changes.
pub proof fn lemma_add_semantics(s: CpuState, m: MemoryState)
    requires
        s.well_formed(),
        opcode(fetched(s, m)) == 0x5 || opcode(fetched(s, m)) == 0x7,
    ensures
        ({
            let i = fetched(s, m);
            let a = s.reg(rs1_field(i));
            let b: int = if opcode(i) == 0x5 {
                s.reg(rs2_field(i)) as int
            } else {
                rs2_field(i)
            };
            let (s2, m2, r) = step_outcome(s, m);
            let sum = s2.reg(rd_field(i));
            &&& a + b == sum + if s2.carry {
                0x10000int
            } else {
                0
            }
            &&& s2.overflow == (as_signed(a) + as_signed(b as u16) != as_signed(sum))
            &&& r == Ok::<InstructionResult, MemoryError>(InstructionResult::Next)
            &&& m2 == m
            &&& s2.pc == pc_after(s.pc)
            &&& forall|j: int| 0 <= j < 16 && j != rd_field(i) ==> s2.reg(j) == s.reg(j)
        }),
{
}

/// SUB and SBI: RD receives `a - b` modulo 2^16 and C is the borrow, so
/// `a - b == RD - 2^16 * C` exactly; V is set exactly when the difference of the
/// operands read as signed differs from RD read as signed.
pub proof fn lemma_sub_semantics(s: CpuState, m: MemoryState)
    requires
        s.well_formed(),
        opcode(fetched(s, m)) == 0x6 || opcode(fetched(s, m)) == 0x8,
    ensures
        ({
            let i = fetched(s, m);
            let a = s.reg(rs1_field(i));
            let b: int = if opcode(i) == 0x6 {
                s.reg(rs2_field(i)) as int
            } else {
                rs2_field(i)
            };
            let (s2, m2, r) = step_outcome(s, m);
            let difference = s2.reg(rd_field(i));
            &&& a - b == difference - if s2.carry {
                0x10000int
            } else {
                0
            }
            &&& s2.overflow == (as_signed(a) - as_signed(b as u16) != as_signed(difference))
            &&& r == Ok::<InstructionResult, MemoryError>(InstructionResult::Next)
            &&& m2 == m
            &&& s2.pc == pc_after(s.pc)
            &&& forall|j: int| 0 <= j < 16 && j != rd_field(i) ==> s2.reg(j) == s.reg(j)
        }),
{
}

/// SHF right by `k` (RS2 nibble `1AAA`, `k = AAA + 1`): the value splits into RD and the
/// `k` low bits that drop out, `v == RD * 2^k + (v mod 2^k)`, and C is the highest of the
/// dropped bits, the last one shifted out: set exactly when `v mod 2^k >= 2^(k-1)`.
/// V is kept.
pub proof fn lemma_shift_right_semantics(s: CpuState, m: MemoryState)
    requires
        s.well_formed(),
        opcode(fetched(s, m)) == 0xD,
        rs2_field(fetched(s, m)) >= 8,
    ensures
        ({
            let i = fetched(s, m);
            let v = s.reg(rs1_field(i)) as int;
            let k = (rs2_field(i) - 7) as nat;
            let (s2, m2, r) = step_outcome(s, m);
            let result = s2.reg(rd_field(i)) as int;
            &&& 1 <= k <= 8
            &&& v == result * pow2(k) + v % pow2(k) as int
            &&& s2.carry == (v % pow2(k) as int >= pow2((k - 1) as nat))
            &&& s2.overflow == s.overflow
            &&& r == Ok::<InstructionResult, MemoryError>(InstructionResult::Next)
            &&& m2 == m
            &&& s2.pc == pc_after(s.pc)
            &&& forall|j: int| 0 <= j < 16 && j != rd_field(i) ==> s2.reg(j) == s.reg(j)
        }),
{
    let i = fetched(s, m);
    let v = s.reg(rs1_field(i)) as int;
    let k = (rs2_field(i) - 7) as nat;
    lemma2_to64();
    assert(k == rs2_field(i) % 8 + 1);
    let d = pow2((k - 1) as nat) as int;
    assert(pow2(k) == 2 * d) by {
        lemma_pow2_adds(1, (k - 1) as nat);
    }
    lemma_fundamental_div_mod(v, pow2(k) as int);
    lemma_mod_breakdown(v, d, 2);
    lemma_fundamental_div_mod(v, d);
    assert(0 <= v % d < d);
    let t = (v / d) % 2;
    assert(t == 0 || t == 1);
    assert(d * t == if t == 1 {
        d
    } else {
        0
    }) by (nonlinear_arith)
        requires
            t == 0 || t == 1,
    ;
    assert(v / pow2(k) as int * pow2(k) as int == pow2(k) as int * (v / pow2(k) as int)) by (
    nonlinear_arith);
}

/// SHF left by `k` (RS2 nibble `0AAA`, `k = AAA + 1`): RD is `v * 2^k` modulo 2^16, and
/// C is the last bit shifted out, bit `16 - k` of `v`. V is kept.
pub proof fn lemma_shift_left_semantics(s: CpuState, m: MemoryState)
    requires
        s.well_formed(),
        opcode(fetched(s, m)) == 0xD,
        rs2_field(fetched(s, m)) < 8,
    ensures
        ({
            let i = fetched(s, m);
            let v = s.reg(rs1_field(i)) as int;
            let k = (rs2_field(i) + 1) as nat;
            let (s2, m2, r) = step_outcome(s, m);
            let result = s2.reg(rd_field(i)) as int;
            &&& 1 <= k <= 8
            &&& result == (v * pow2(k)) % 0x10000
            &&& s2.carry == ((v / pow2((16 - k) as nat) as int) % 2 == 1)
            &&& s2.overflow == s.overflow
            &&& r == Ok::<InstructionResult, MemoryError>(InstructionResult::Next)
            &&& m2 == m
            &&& s2.pc == pc_after(s.pc)
            &&& forall|j: int| 0 <= j < 16 && j != rd_field(i) ==> s2.reg(j) == s.reg(j)
        }),
{
    let i = fetched(s, m);
    let v = s.reg(rs1_field(i)) as int;
    let k = (rs2_field(i) + 1) as nat;
    lemma2_to64();
    let c = pow2(k) as int;
    let e = pow2((16 - k) as nat) as int;
    assert(c * e == 0x10000) by {
        lemma_pow2_adds(k, (16 - k) as nat);
    }
    lemma_div_multiples_vanish(v, c);
    lemma_div_denominator(c * v, c, e);
    assert(v * c == c * v) by (nonlinear_arith);
}

/// BRV reads RS1 as a signed word: with condition bits 0NZP in RD it jumps to RS2
/// exactly when N is selected and RS1 is negative, Z is selected and RS1 is zero, or P
/// is selected and RS1 is positive; otherwise it goes on to the next instruction. No
/// register, flag or memory word changes.
pub proof fn lemma_sign_branch_semantics(s: CpuState, m: MemoryState)
    requires
        s.well_formed(),
        opcode(fetched(s, m)) == 0xE,
    ensures
        ({
            let i = fetched(s, m);
            let v = as_signed(s.reg(rs1_field(i)));
            let target = s.reg(rs2_field(i));
            let jumps = ((i & 4) != 0 && v < 0) || ((i & 2) != 0 && v == 0) || ((i & 1) != 0 && v
                > 0);
            let (s2, m2, r) = step_outcome(s, m);
            &&& jumps ==> r == Ok::<InstructionResult, MemoryError>(InstructionResult::Jump(target))
                && s2.pc == target
            &&& !jumps ==> r == Ok::<InstructionResult, MemoryError>(InstructionResult::Next) && s2.pc
                == pc_after(s.pc)
            &&& s2.registers == s.registers
            &&& s2.carry == s.carry
            &&& s2.overflow == s.overflow
            &&& m2 == m
        }),
{
    let i = fetched(s, m);
    lemma_instruction_condition_bits(i);
}

/// BRF with condition bits 00VC in RD: when the low three bits are clear it jumps to
/// RS2 exactly when neither flag is set; otherwise it jumps exactly when C is selected
/// and set or V is selected and set. Bit 3 plays no part. Nothing but PC changes.
pub proof fn lemma_flag_branch_semantics(s: CpuState, m: MemoryState)
    requires
        s.well_formed(),
        opcode(fetched(s, m)) == 0xF,
    ensures
        ({
            let i = fetched(s, m);
            let target = s.reg(rs2_field(i));
            let jumps = if (i & 7) == 0 {
                !s.carry && !s.overflow
            } else {
                ((i & 1) != 0 && s.carry) || ((i & 2) != 0 && s.overflow)
            };
            let (s2, m2, r) = step_outcome(s, m);
            &&& jumps ==> r == Ok::<InstructionResult, MemoryError>(InstructionResult::Jump(target))
                && s2.pc == target
            &&& !jumps ==> r == Ok::<InstructionResult, MemoryError>(InstructionResult::Next) && s2.pc
                == pc_after(s.pc)
            &&& s2.registers == s.registers
            &&& s2.carry == s.carry
            &&& s2.overflow == s.overflow
            &&& m2 == m
        }),
{
    let i = fetched(s, m);
    lemma_instruction_condition_bits(i);
}

/// The low bits of an instruction word are the low bits of its RD field.
proof fn lemma_instruction_condition_bits(i: u16)
    by (bit_vector)
    ensures
        ((i & 4) != 0) == (((i % 16) / 4) % 2 == 1),
        ((i & 2) != 0) == (((i % 16) / 2) % 2 == 1),
        ((i & 1) != 0) == ((i % 16) % 2 == 1),
        ((i & 7) == 0) == ((i % 16) % 8 == 0),
{
}

/// A frame given `Some(n)` runs `n` instructions, whatever `n` is, unless END or an
/// error stops it first; given `None` it runs 34,440.
pub proof fn lemma_frame_length_is_the_count(n: u32)
    ensures
        frame_length(Some(n)) == n,
        frame_length(None) == 34_440,
{
}

/// Counting frames: over a program ROM holding `ADI R0 + 1 -> R0` at every address, a
/// frame given `Some(n)` executes exactly `n` instructions: it succeeds, R0 and PC both
/// advance by `n` (modulo 2^16), and memory is unchanged.
pub proof fn lemma_counting_frame(s: CpuState, m: MemoryState, n: u32)
    requires
        s.well_formed(),
        forall|address: u16| #[trigger] m.program_word(address) == 0x7010,
    ensures
        ({
            let (s2, m2, r) = frame_outcome(s, m, frame_length(Some(n)));
            &&& r == Ok::<(), MemoryError>(())
            &&& s2.reg(0) as int == (s.reg(0) + n) % 0x10000
            &&& s2.pc as int == (s.pc + n) % 0x10000
            &&& m2 == m
        }),
{
    lemma_counting_steps(s, m, n as nat);
}

proof fn lemma_counting_steps(s: CpuState, m: MemoryState, n: nat)
    requires
        s.well_formed(),
        forall|address: u16| #[trigger] m.program_word(address) == 0x7010,
    ensures
        ({
            let (s2, m2, r) = frame_outcome(s, m, n);
            &&& r == Ok::<(), MemoryError>(())
            &&& s2.well_formed()
            &&& s2.reg(0) as int == (s.reg(0) + n) % 0x10000
            &&& s2.pc as int == (s.pc + n) % 0x10000
            &&& m2 == m
        }),
    decreases n,
{
    if n > 0 {
        let i = m.program_word(s.pc);
        assert(i == 0x7010);
        assert(opcode(i) == 7 && rs1_field(i) == 0 && rs2_field(i) == 1 && rd_field(i) == 0);
        let (s1, m1, r1) = step_outcome(s, m);
        assert(s1.reg(0) as int == (s.reg(0) + 1) % 0x10000);
        assert(s1.pc as int == (s.pc + 1) % 0x10000);
        lemma_counting_steps(s1, m1, (n - 1) as nat);
        let x = s.reg(0) as int;
        let p = s.pc as int;
        assert(((x + 1) % 0x10000 + (n - 1)) % 0x10000 == (x + n) % 0x10000) by {
            vstd::arithmetic::div_mod::lemma_add_mod_noop(x + 1, n - 1, 0x10000);
            vstd::arithmetic::div_mod::lemma_mod_twice(n - 1, 0x10000);
            vstd::arithmetic::div_mod::lemma_add_mod_noop((x + 1) % 0x10000, n - 1, 0x10000);
            vstd::arithmetic::div_mod::lemma_mod_twice(x + 1, 0x10000);
        }
        assert(((p + 1) % 0x10000 + (n - 1)) % 0x10000 == (p + n) % 0x10000) by {
            vstd::arithmetic::div_mod::lemma_add_mod_noop(p + 1, n - 1, 0x10000);
            vstd::arithmetic::div_mod::lemma_mod_twice(n - 1, 0x10000);
            vstd::arithmetic::div_mod::lemma_add_mod_noop((p + 1) % 0x10000, n - 1, 0x10000);
            vstd::arithmetic::div_mod::lemma_mod_twice(p + 1, 0x10000);
        }
    }
}

/// Bit `k` of a word.
pub open spec fn bit(x: u16, k: u16) -> bool {
    (x >> k) & 1 == 1
}

/// The four fields of an instruction are its four nibbles, most significant first, and
/// the 8-bit immediate is the middle byte.
pub proof fn lemma_instruction_fields(i: u16)
    ensures
        0 <= opcode(i) < 16,
        0 <= rs1_field(i) < 16,
        0 <= rs2_field(i) < 16,
        0 <= rd_field(i) < 16,
        i as int == opcode(i) * 0x1000 + rs1_field(i) * 0x100 + rs2_field(i) * 0x10 + rd_field(i),
        immediate8(i) == rs1_field(i) * 0x10 + rs2_field(i),
{
}

/// HBY puts the immediate in the high byte of RD and keeps its low byte; LBY puts it in
/// the low byte and keeps the high byte. Nothing else but PC changes.
pub proof fn lemma_byte_load_semantics(s: CpuState, m: MemoryState)
    requires
        s.well_formed(),
        opcode(fetched(s, m)) == 0x1 || opcode(fetched(s, m)) == 0x2,
    ensures
        ({
            let i = fetched(s, m);
            let old_value = s.reg(rd_field(i)) as int;
            let (s2, m2, r) = step_outcome(s, m);
            let new_value = s2.reg(rd_field(i)) as int;
            let immediate = rs1_field(i) * 0x10 + rs2_field(i);
            &&& opcode(i) == 0x1 ==> new_value / 256 == immediate && new_value % 256 == old_value
                % 256
            &&& opcode(i) == 0x2 ==> new_value / 256 == old_value / 256 && new_value % 256
                == immediate
            &&& r == Ok::<InstructionResult, MemoryError>(InstructionResult::Next)
            &&& m2 == m
            &&& s2.pc == pc_after(s.pc)
            &&& s2.carry == s.carry
            &&& s2.overflow == s.overflow
            &&& forall|j: int| 0 <= j < 16 && j != rd_field(i) ==> s2.reg(j) == s.reg(j)
        }),
{
    let i = fetched(s, m);
    lemma_instruction_fields(i);
    let x = s.reg(rd_field(i)) as int;
    let h = immediate8(i);
    assert(0 <= h < 256);
    assert((h * 0x100 + x % 0x100) / 256 == h && (h * 0x100 + x % 0x100) % 256 == x % 256
        && h * 0x100 + x % 0x100 < 0x10000) by (nonlinear_arith)
        requires
            0 <= h < 256,
            0 <= x,
    ;
    assert(((x / 0x100) * 0x100 + h) / 256 == x / 256 && ((x / 0x100) * 0x100 + h) % 256 == h
        && (x / 0x100) * 0x100 + h < 0x10000) by (nonlinear_arith)
        requires
            0 <= h < 256,
            0 <= x < 0x10000,
    ;
}

/// AND, ORR, XOR and NOR work bit by bit: each bit of RD is the AND, OR, XOR or NOR of
/// the same bit of RS1 and RS2. Nothing else but PC changes.
pub proof fn lemma_logic_semantics(s: CpuState, m: MemoryState)
    requires
        s.well_formed(),
        0x9 <= opcode(fetched(s, m)) <= 0xC,
    ensures
        ({
            let i = fetched(s, m);
            let a = s.reg(rs1_field(i));
            let b = s.reg(rs2_field(i));
            let (s2, m2, r) = step_outcome(s, m);
            let x = s2.reg(rd_field(i));
            &&& forall|k: u16|
                k < 16 ==> #[trigger] bit(x, k) == if opcode(i) == 0x9 {
                    bit(a, k) && bit(b, k)
                } else if opcode(i) == 0xA {
                    bit(a, k) || bit(b, k)
                } else if opcode(i) == 0xB {
                    bit(a, k) != bit(b, k)
                } else {
                    !(bit(a, k) || bit(b, k))
                }
            &&& r == Ok::<InstructionResult, MemoryError>(InstructionResult::Next)
            &&& m2 == m
            &&& s2.pc == pc_after(s.pc)
            &&& s2.carry == s.carry
            &&& s2.overflow == s.overflow
            &&& forall|j: int| 0 <= j < 16 && j != rd_field(i) ==> s2.reg(j) == s.reg(j)
        }),
{
    lemma_bitwise_ops();
}

proof fn lemma_bitwise_ops()
    ensures
        forall|a: u16, b: u16, k: u16|
            k < 16 ==> #[trigger] bit(a & b, k) == (bit(a, k) && bit(b, k)),
        forall|a: u16, b: u16, k: u16|
            k < 16 ==> #[trigger] bit(a | b, k) == (bit(a, k) || bit(b, k)),
        forall|a: u16, b: u16, k: u16|
            k < 16 ==> #[trigger] bit(a ^ b, k) == (bit(a, k) != bit(b, k)),
        forall|a: u16, b: u16, k: u16|
            k < 16 ==> #[trigger] bit(!(a | b), k) == !(bit(a, k) || bit(b, k)),
{
    assert(forall|a: u16, b: u16, k: u16|
        k < 16 ==> (((a & b) >> k) & 1 == 1) == (((a >> k) & 1 == 1) && ((b >> k) & 1 == 1)))
        by (bit_vector);
    assert(forall|a: u16, b: u16, k: u16|
        k < 16 ==> (((a | b) >> k) & 1 == 1) == (((a >> k) & 1 == 1) || ((b >> k) & 1 == 1)))
        by (bit_vector);
    assert(forall|a: u16, b: u16, k: u16|
        k < 16 ==> (((a ^ b) >> k) & 1 == 1) == (((a >> k) & 1 == 1) != ((b >> k) & 1 == 1)))
        by (bit_vector);
    assert(forall|a: u16, b: u16, k: u16|
        k < 16 ==> (((!(a | b)) >> k) & 1 == 1) == !(((a >> k) & 1 == 1) || ((b >> k) & 1
            == 1))) by (bit_vector);
}

/// LOD loads RD with the data word at the address held in RS1; nothing else but PC
/// changes.
pub proof fn lemma_load_semantics(s: CpuState, m: MemoryState)
    requires
        s.well_formed(),
        opcode(fetched(s, m)) == 0x3,
    ensures
        ({
            let i = fetched(s, m);
            let (s2, m2, r) = step_outcome(s, m);
            &&& s2.reg(rd_field(i)) == m.read(s.reg(rs1_field(i)))
            &&& r == Ok::<InstructionResult, MemoryError>(InstructionResult::Next)
            &&& m2 == m
            &&& s2.pc == pc_after(s.pc)
            &&& s2.carry == s.carry
            &&& s2.overflow == s.overflow
            &&& forall|j: int| 0 <= j < 16 && j != rd_field(i) ==> s2.reg(j) == s.reg(j)
        }),
{
}

/// STR stores RS2 at the data address held in RS1. It succeeds exactly when that
/// address is in RAM; then a read there gives RS2, every other data address reads as
/// before, and PC moves on. Otherwise it fails with `ReadOnly(address)` and nothing
/// changes. No register or flag changes either way.
pub proof fn lemma_store_semantics(s: CpuState, m: MemoryState, other: u16)
    requires
        s.well_formed(),
        m.well_formed(),
        opcode(fetched(s, m)) == 0x4,
    ensures
        ({
            let i = fetched(s, m);
            let address = s.reg(rs1_field(i));
            let value = s.reg(rs2_field(i));
            let (s2, m2, r) = step_outcome(s, m);
            &&& s2.registers == s.registers
            &&& s2.carry == s.carry
            &&& s2.overflow == s.overflow
            &&& m2.program_rom == m.program_rom
            &&& address >= 0x8000 ==> {
                &&& r == Ok::<InstructionResult, MemoryError>(InstructionResult::Next)
                &&& m2.read(address) == value
                &&& other != address ==> m2.read(other) == m.read(other)
                &&& s2.pc == pc_after(s.pc)
            }
            &&& address < 0x8000 ==> {
                &&& r == Err::<InstructionResult, MemoryError>(MemoryError::ReadOnly(address))
                &&& m2 == m
                &&& s2.pc == s.pc
            }
        }),
{
}

/// The data address space is the data ROM followed by RAM.
pub proof fn lemma_data_address_space(m: MemoryState, address: u16)
    requires
        m.well_formed(),
    ensures
        m.read(address) == (m.data_rom + m.ram)[address as int],
{
}

/// A loaded cartridge: program word `a` is bytes `2a` (high) and `2a + 1` (low) of the
/// image; data address `a` below `$8000` reads bytes `131072 + 2a` and `131072 + 2a + 1`;
/// RAM reads as zero. The image is 128 KB of program then 64 KB of data.
pub proof fn lemma_cartridge_contents(bytes: Seq<u8>, address: u16)
    requires
        bytes.len() == CARTRIDGE_SIZE,
    ensures
        CARTRIDGE_SIZE == 2 * 65536 + 2 * 32768,
        cartridge_memory(bytes).well_formed(),
        cartridge_memory(bytes).program_word(address) == bytes[2 * address] * 256 + bytes[2
            * address + 1],
        address < 0x8000 ==> cartridge_memory(bytes).read(address) == bytes[131072 + 2
            * address] * 256 + bytes[131072 + 2 * address + 1],
        address >= 0x8000 ==> cartridge_memory(bytes).read(address) == 0,
{
    let a = address as int;
    let hi = bytes[2 * a] as int;
    let lo = bytes[2 * a + 1] as int;
    assert(0 <= hi * 256 + lo < 0x10000);
    if a < 0x8000 {
        let dhi = bytes[131072 + 2 * a] as int;
        let dlo = bytes[131072 + 2 * a + 1] as int;
        assert(0 <= dhi * 256 + dlo < 0x10000);
        assert(2 * (65536 + a) == 131072 + 2 * a);
    }
}

/// A reset CPU: every register holds zero, PC is `$0000`, both flags are clear.
pub proof fn lemma_reset_state()
    ensures
        CpuState::initial().well_formed(),
        forall|j: int| 0 <= j < 16 ==> CpuState::initial().reg(j) == 0,
        CpuState::initial().pc == 0,
        !CpuState::initial().carry,
        !CpuState::initial().overflow,
{
}

/// A step that fails ends the frame at once, with that error and the machine as it was.
pub proof fn lemma_frame_stops_at_error(s: CpuState, m: MemoryState, n: nat)
    requires
        n > 0,
        step_outcome(s, m).2 is Err,
    ensures
        step_outcome(s, m).2 matches Err(e) && frame_outcome(s, m, n) == (
            s,
            m,
            Err::<(), MemoryError>(e),
        ),
{
    crate::laws::lemma_failed_step_changes_nothing(s, m);
}

/// The frame timer: after work that took less than a frame the sleep makes up the rest,
/// so work plus sleep is exactly 16,683,333 ns; after work that took a frame or more
/// there is no sleep.
pub proof fn lemma_frame_timing(elapsed_nanos: u64)
    ensures
        elapsed_nanos < 16_683_333 ==> elapsed_nanos + frame_rest(elapsed_nanos) == 16_683_333,
        elapsed_nanos >= 16_683_333 ==> frame_rest(elapsed_nanos) == 0,
{
}

} // verus!
