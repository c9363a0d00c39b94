use crate::cpu::{Cpu, InstructionResult};
use crate::error::MemoryError;
use crate::isa::{frame_outcome, CpuState};
use crate::memory::Memory;
use vstd::prelude::*;

verus! {

/// Instructions executed per video frame unless a frame is given another length.
pub const INSTRUCTIONS_PER_FRAME: u32 = 34_440;

/// Length of one video frame in nanoseconds (16.6833 ms).
pub const FRAME_DURATION_NANOS: u64 = 16_683_333;

/// The whole machine: CPU and memory.
pub struct Computer {
    pub cpu: Cpu,
    pub memory: Memory,
}

/// The number of instructions a frame runs: the given count, or
/// [`INSTRUCTIONS_PER_FRAME`] when none is given.
pub open spec fn frame_length(instruction_count: Option<u32>) -> nat {
    match instruction_count {
        Some(n) => n as nat,
        None => INSTRUCTIONS_PER_FRAME as nat,
    }
}

impl Computer {
    /// A computer with a freshly reset CPU and the given memory.
    pub fn new(memory: Memory) -> (r: Computer)
        ensures
            r.cpu@ == CpuState::initial(),
            r.memory == memory,
    {
        Computer { cpu: Cpu::new(), memory }
    }

    /// Executes one frame: up to `instruction_count` instructions (34,440 by default),
    /// stopping after an END instruction or at the first memory error, which is returned.
    pub fn execute_frame(&mut self, instruction_count: Option<u32>) -> (r: Result<(), MemoryError>)
        ensures
            (final(self).cpu@, final(self).memory@, r) == frame_outcome(
                old(self).cpu@,
                old(self).memory@,
                frame_length(instruction_count),
            ),
    {
        let count = match instruction_count {
            Some(n) => n,
            None => INSTRUCTIONS_PER_FRAME,
        };
        let ghost start_cpu = self.cpu@;
        let ghost start_memory = self.memory@;
        let mut i: u32 = 0;
        while i < count
            invariant
                i <= count,
                count == frame_length(instruction_count),
                start_cpu == old(self).cpu@,
                start_memory == old(self).memory@,
                frame_outcome(start_cpu, start_memory, count as nat) == frame_outcome(
                    self.cpu@,
                    self.memory@,
                    (count - i) as nat,
                ),
            decreases count - i,
        {
            let instruction_result = self.cpu.step(&mut self.memory);
            match instruction_result {
                Err(e) => {
                    return Err(e);
                },
                Ok(InstructionResult::Halt) => {
                    return Ok(());
                },
                Ok(_) => {},
            }
            i += 1;
        }
        Ok(())
    }
}

/// The rest of a frame after `elapsed_nanos` of work, or nothing when the work took the
/// whole frame or longer.
pub open spec fn frame_rest(elapsed_nanos: u64) -> u64 {
    if elapsed_nanos < FRAME_DURATION_NANOS {
        (FRAME_DURATION_NANOS - elapsed_nanos) as u64
    } else {
        0
    }
}

/// How long to sleep after a frame whose work took `elapsed_nanos`: the rest of the
/// frame, or nothing when the work took the whole frame or longer.
pub fn frame_sleep_nanos(elapsed_nanos: u64) -> (r: u64)
    ensures
        r == frame_rest(elapsed_nanos),
{
    if elapsed_nanos < FRAME_DURATION_NANOS {
        FRAME_DURATION_NANOS - elapsed_nanos
    } else {
        0
    }
}

} // verus!
