use vstd::prelude::*;

verus! {

/// The standard library's I/O error, carried through unexamined.
#[verifier::external_type_specification]
#[verifier::external_body]
pub struct ExIoError(std::io::Error);

/// Errors raised by a data-memory access.
#[derive(Debug, PartialEq, Eq, Structural, Clone, Copy)]
pub enum MemoryError {
    /// A write was aimed at the read-only cartridge data ROM (`$0000-$7FFF`).
    ReadOnly(u16),
}

/// Errors raised while loading a cartridge image.
#[derive(Debug)]
pub enum CartridgeError {
    /// The cartridge file could not be read.
    Io(std::io::Error),
    /// The cartridge image does not hold exactly 196608 bytes; carries the size it has.
    InvalidSize(usize),
}

} // verus!
