//! Flags of an open, as the C library of the machine numbers them.
use vstd::prelude::*;

verus! {

/// The flags of an open that are read or set here. Their values differ between machines.
#[derive(Debug, Clone, Copy, PartialEq, Eq, Structural)]
pub struct OpenBits {
    /// Mask of the access mode.
    pub access_mode: i32,
    /// Access mode of a reader.
    pub read_only: i32,
    /// Access mode of a reader and writer.
    pub read_write: i32,
    /// The file is emptied when it is opened.
    pub truncate: i32,
}

/// `libc::O_ACCMODE`, `libc::O_RDONLY`, `libc::O_RDWR` and `libc::O_TRUNC`. Their values are
/// those of the machine, and the contract gives none of them. It claims what holds of every
/// machine for which `libc` has all four: the mask keeps the mode of a reader, tells that of a
/// reader and writer from it, and the mode of a reader does not truncate.
#[verifier::external_body]
fn machine_bits() -> (bits: OpenBits)
    ensures
        bits.consistent(),
{
    OpenBits {
        access_mode: libc::O_ACCMODE,
        read_only: libc::O_RDONLY,
        read_write: libc::O_RDWR,
        truncate: libc::O_TRUNC,
    }
}

impl OpenBits {
    /// The mask keeps the mode of a reader and tells the other mode from it, and the mode of a
    /// reader does not truncate.
    pub open spec fn consistent(self) -> bool {
        &&& (self.read_only & self.access_mode) == self.read_only
        &&& (self.read_write & self.access_mode) != self.read_only
        &&& (self.read_only & self.truncate) == 0
    }

    /// The flags of the machine that the library runs on.
    pub fn machine() -> (bits: OpenBits)
        ensures
            bits.consistent(),
    {
        machine_bits()
    }
}

/// Whether an open can change the file: it is not for reading alone, or it truncates.
pub open spec fn writes(flags: i32, bits: OpenBits) -> bool {
    (flags & bits.access_mode) != bits.read_only || truncates(flags, bits)
}

/// Whether an open empties the file.
pub open spec fn truncates(flags: i32, bits: OpenBits) -> bool {
    (flags & bits.truncate) != 0
}

/// Whether an open can change the file.
pub fn is_write_open(flags: i32, bits: &OpenBits) -> (yes: bool)
    ensures
        yes == writes(flags, *bits),
{
    (flags & bits.access_mode) != bits.read_only || (flags & bits.truncate) != 0
}

/// Whether an open empties the file.
pub fn is_truncating_open(flags: i32, bits: &OpenBits) -> (yes: bool)
    ensures
        yes == truncates(flags, *bits),
{
    (flags & bits.truncate) != 0
}

} // verus!
