use crate::error::{CartridgeError, MemoryError};
use vstd::prelude::*;

verus! {

/// Words of program ROM (64 KW).
pub const PROGRAM_ROM_WORDS: usize = 65536;

/// Words of cartridge data ROM (32 KW), mapped at data addresses `$0000-$7FFF`.
pub const DATA_ROM_WORDS: usize = 32768;

/// Words of console RAM (32 KW), mapped at data addresses `$8000-$FFFF`.
pub const RAM_WORDS: usize = 32768;

/// First data address that lies in RAM; everything below is read-only data ROM.
pub const RAM_START: u16 = 0x8000;

/// Exact size in bytes of a cartridge image: 128 KB program ROM then 64 KB data ROM.
pub const CARTRIDGE_SIZE: usize = 196608;

/// The Harvard memory of the machine. All memory is word-addressable.
pub struct Memory {
    /// Program ROM (64 KW), the program address space `$0000-$FFFF`.
    pub program_rom: [u16; 65536],
    /// Cartridge data ROM (32 KW), data addresses `$0000-$7FFF`.
    pub data_rom: [u16; 32768],
    /// Console RAM (32 KW), data addresses `$8000-$FFFF`
    /// (`$8000-$EFFF` general RAM, `$F000-$FFFF` I/O memory).
    pub ram: [u16; 32768],
}

/// Mathematical model of [`Memory`]: its three regions as sequences of words.
pub struct MemoryState {
    pub program_rom: Seq<u16>,
    pub data_rom: Seq<u16>,
    pub ram: Seq<u16>,
}

impl MemoryState {
    /// The regions have the sizes that the hardware fixes.
    pub open spec fn well_formed(self) -> bool {
        &&& self.program_rom.len() == PROGRAM_ROM_WORDS
        &&& self.data_rom.len() == DATA_ROM_WORDS
        &&& self.ram.len() == RAM_WORDS
    }

    /// The word at `address` of the program address space.
    pub open spec fn program_word(self, address: u16) -> u16 {
        self.program_rom[address as int]
    }

    /// The word that a read of data address `address` sees.
    pub open spec fn read(self, address: u16) -> u16 {
        if address < RAM_START {
            self.data_rom[address as int]
        } else {
            self.ram[address - RAM_START]
        }
    }

    /// Whether data address `address` may be written (it lies in RAM).
    pub open spec fn is_writable(self, address: u16) -> bool {
        address >= RAM_START
    }

    /// The memory after a successful write of `value` to RAM address `address`.
    pub open spec fn write(self, address: u16, value: u16) -> MemoryState {
        MemoryState {
            program_rom: self.program_rom,
            data_rom: self.data_rom,
            ram: self.ram.update(address - RAM_START, value),
        }
    }
}

impl View for Memory {
    type V = MemoryState;

    open spec fn view(&self) -> MemoryState {
        MemoryState { program_rom: self.program_rom@, data_rom: self.data_rom@, ram: self.ram@ }
    }
}

/// The outcome of a write to data memory: the memory afterwards and the result.
pub open spec fn write_outcome(m: MemoryState, address: u16, value: u16) -> (
    MemoryState,
    Result<(), MemoryError>,
) {
    if m.is_writable(address) {
        (m.write(address, value), Ok(()))
    } else {
        (m, Err(MemoryError::ReadOnly(address)))
    }
}

impl Memory {
    /// Every memory's model has the fixed region sizes.
    pub proof fn lemma_view_well_formed(&self)
        ensures
            self@.well_formed(),
    {
    }

    /// Reads a word from program ROM. Every 16-bit address is valid.
    pub fn read_program(&self, address: u16) -> (r: Result<u16, MemoryError>)
        ensures
            r == Ok::<u16, MemoryError>(self@.program_word(address)),
    {
        Ok(self.program_rom[address as usize])
    }

    /// Reads a word from data space: `$0000-$7FFF` is data ROM, `$8000-$FFFF` is RAM.
    pub fn read_data(&self, address: u16) -> (r: u16)
        ensures
            r == self@.read(address),
    {
        if address <= 0x7FFF {
            self.data_rom[address as usize]
        } else {
            self.ram[(address - 0x8000) as usize]
        }
    }

    /// Writes a word to data space. Only RAM (`$8000-$FFFF`) can be written; a write
    /// to data ROM fails with `ReadOnly(address)` and changes nothing.
    pub fn write_data(&mut self, address: u16, value: u16) -> (r: Result<(), MemoryError>)
        ensures
            (final(self)@, r) == write_outcome(old(self)@, address, value),
    {
        if address <= 0x7FFF {
            Err(MemoryError::ReadOnly(address))
        } else {
            let index = (address - 0x8000) as usize;
            self.ram[index] = value;
            Ok(())
        }
    }
}

} // verus!

verus! {

/// The big-endian word at word index `i` of a byte image: its most significant byte
/// comes first.
pub open spec fn be_word(bytes: Seq<u8>, i: int) -> u16 {
    (bytes[2 * i] * 256 + bytes[2 * i + 1]) as u16
}

/// The memory that a cartridge image of the right size describes: program ROM from
/// its first 128 KB, data ROM from the next 64 KB, and RAM cleared to zero.
pub open spec fn cartridge_memory(bytes: Seq<u8>) -> MemoryState {
    MemoryState {
        program_rom: Seq::new(PROGRAM_ROM_WORDS as nat, |i: int| be_word(bytes, i)),
        data_rom: Seq::new(DATA_ROM_WORDS as nat, |i: int| be_word(bytes, PROGRAM_ROM_WORDS + i)),
        ram: Seq::new(RAM_WORDS as nat, |i: int| 0u16),
    }
}

/// Builds the memory of a cartridge from the outcome of reading its file.
///
/// A failed read gives `Io` with the read's error; an image of any size other than
/// 196608 bytes gives `InvalidSize` with that size; otherwise the memory of
/// [`cartridge_memory`].
pub fn load_cartridge_into_memory(contents: Result<Vec<u8>, std::io::Error>) -> (r: Result<
    Memory,
    CartridgeError,
>)
    ensures
        match contents {
            Err(e) => r == Err::<Memory, CartridgeError>(CartridgeError::Io(e)),
            Ok(bytes) => if bytes@.len() == CARTRIDGE_SIZE {
                r matches Ok(m) && m@ == cartridge_memory(bytes@)
            } else {
                r == Err::<Memory, CartridgeError>(CartridgeError::InvalidSize(bytes@.len() as usize))
            },
        },
{
    let data = match contents {
        Err(e) => {
            return Err(CartridgeError::Io(e));
        },
        Ok(data) => data,
    };
    if data.len() != CARTRIDGE_SIZE {
        return Err(CartridgeError::InvalidSize(data.len()));
    }
    let mut program_rom = [0u16; 65536];
    let mut i: usize = 0;
    while i < PROGRAM_ROM_WORDS
        invariant
            i <= PROGRAM_ROM_WORDS,
            data@.len() == CARTRIDGE_SIZE,
            forall|j: int| 0 <= j < i ==> program_rom@[j] == be_word(data@, j),
        decreases PROGRAM_ROM_WORDS - i,
    {
        let hi = data[2 * i];
        let lo = data[2 * i + 1];
        program_rom[i] = (hi as u16) * 256 + (lo as u16);
        i += 1;
    }
    let mut data_rom = [0u16; 32768];
    let mut k: usize = 0;
    while k < DATA_ROM_WORDS
        invariant
            k <= DATA_ROM_WORDS,
            data@.len() == CARTRIDGE_SIZE,
            forall|j: int| 0 <= j < k ==> data_rom@[j] == be_word(data@, PROGRAM_ROM_WORDS + j),
        decreases DATA_ROM_WORDS - k,
    {
        let base = 2 * (PROGRAM_ROM_WORDS + k);
        let hi = data[base];
        let lo = data[base + 1];
        data_rom[k] = (hi as u16) * 256 + (lo as u16);
        k += 1;
    }
    let ram = [0u16; 32768];
    let memory = Memory { program_rom, data_rom, ram };
    assert(memory@.program_rom =~= cartridge_memory(data@).program_rom);
    assert(memory@.data_rom =~= cartridge_memory(data@).data_rom);
    assert(memory@.ram =~= cartridge_memory(data@).ram);
    Ok(memory)
}

} // verus!
