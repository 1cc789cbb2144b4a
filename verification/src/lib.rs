//! Assembles a bootable flat disk image for a bare-metal kernel: the
//! bootloader payload taken from a section of an ELF executable, a 512-byte
//! block that records the kernel's length, the kernel itself, and zero
//! padding up to the next sector boundary.

pub mod composer;
pub mod elf;
pub mod endian;
pub mod error;
pub mod info_block;
pub mod layout;

use crate::composer::create_disk_image;
use crate::elf::{build_bootloader, extracted, BOOTLOADER_SECTION};
use crate::error::Error;
use crate::info_block::{create_kernel_info_block, info_block_bytes};
use crate::layout::disk_image;
use vstd::prelude::*;
use vstd::string::StringSliceAdditionalSpecFns;

verus! {

/// The image of a kernel and of the bootloader executable that is to load
/// it. A kernel that is too long for the info block is refused before the
/// bootloader executable is looked at.
pub open spec fn assembled(kernel: Seq<u8>, bootloader_elf: Seq<u8>) -> Result<Seq<u8>, Error> {
    if kernel.len() > u32::MAX {
        Err(Error::KernelTooLarge)
    } else {
        match extracted(bootloader_elf, BOOTLOADER_SECTION.spec_bytes()) {
            Err(error) => Err(error),
            Ok(bootloader) => Ok(
                disk_image(bootloader, info_block_bytes(kernel.len() as u32), kernel),
            ),
        }
    }
}

/// Assembles the disk image of a kernel in memory: encodes the kernel info
/// block, extracts the bootloader's payload from the bootloader executable,
/// and composes the image of the three.
pub fn run(kernel: &[u8], bootloader_elf: &[u8]) -> (result: Result<Vec<u8>, Error>)
    ensures
        match result {
            Ok(image) => assembled(kernel@, bootloader_elf@) == Ok::<Seq<u8>, Error>(image@),
            Err(error) => assembled(kernel@, bootloader_elf@) == Err::<Seq<u8>, Error>(error),
        },
{
    let kernel_info_block = match create_kernel_info_block(kernel.len() as u64) {
        Ok(block) => block,
        Err(error) => {
            return Err(error);
        },
    };
    let bootloader = match build_bootloader(bootloader_elf) {
        Ok(bootloader) => bootloader,
        Err(error) => {
            return Err(error);
        },
    };
    Ok(create_disk_image(kernel, kernel_info_block, bootloader.as_slice()))
}

} // verus!
