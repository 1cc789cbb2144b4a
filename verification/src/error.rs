//! The ways in which assembling a disk image can fail.

use vstd::prelude::*;

verus! {

/// Why an image could not be assembled. Every failure is final: nothing is
/// retried and nothing is downgraded to a warning.
#[derive(Clone, Copy, Debug, PartialEq, Eq, Structural)]
pub enum Error {
    /// Creating the output, reading the kernel or writing the image failed,
    /// or the kernel source did not deliver the length it announced.
    Io,
    /// The bootloader executable is not a structurally sound ELF file.
    MalformedElf,
    /// The bootloader executable has no section of the requested name.
    SectionNotFound,
    /// The kernel's length does not fit the 32-bit field of the info block.
    KernelTooLarge,
}

} // verus!
