//! The byte layout of a disk image: the bootloader, the kernel info block,
//! the kernel, and zeros up to the next sector boundary.

use vstd::prelude::*;

verus! {

/// The sector size that the loading firmware assumes, in bytes.
pub const SECTOR_SIZE: usize = 512;

/// The number of zero bytes that follow a kernel of `kernel_len` bytes, so
/// that the kernel and its padding together fill whole sectors.
pub open spec fn padding_len(kernel_len: int) -> int {
    (512 - kernel_len % 512) % 512
}

/// A run of `len` zero bytes.
pub open spec fn zeros(len: int) -> Seq<u8> {
    Seq::new(len as nat, |i: int| 0u8)
}

/// The image of the given parts: each part starts where the one before it
/// ends, and the padding comes last.
pub open spec fn disk_image(bootloader: Seq<u8>, info_block: Seq<u8>, kernel: Seq<u8>) -> Seq<u8> {
    bootloader + info_block + kernel + zeros(padding_len(kernel.len() as int))
}

/// The padding is shorter than a sector, there is none exactly where the
/// kernel ends on a sector boundary, and kernel and padding together fill
/// whole sectors.
pub proof fn lemma_padding(kernel_len: int)
    requires
        0 <= kernel_len,
    ensures
        0 <= padding_len(kernel_len) <= 511,
        padding_len(kernel_len) == 0 <==> kernel_len % 512 == 0,
        (kernel_len + padding_len(kernel_len)) % 512 == 0,
{
}

/// The length of an image is the sum of the lengths of its parts, and what
/// follows the bootloader fills whole sectors.
pub proof fn lemma_image_len(bootloader: Seq<u8>, info_block: Seq<u8>, kernel: Seq<u8>)
    requires
        info_block.len() == 512,
    ensures
        disk_image(bootloader, info_block, kernel).len() == bootloader.len() + 512 + kernel.len()
            + padding_len(kernel.len() as int),
        (disk_image(bootloader, info_block, kernel).len() - bootloader.len()) % 512 == 0,
{
    lemma_padding(kernel.len() as int);
}

/// Where each part lies in the image: the bootloader at the start, the info
/// block right after it, the kernel right after the block, and zeros from
/// the kernel's end to the image's end.
pub proof fn lemma_image_parts(bootloader: Seq<u8>, info_block: Seq<u8>, kernel: Seq<u8>)
    ensures
        ({
            let image = disk_image(bootloader, info_block, kernel);
            let block_at = bootloader.len() as int;
            let kernel_at = block_at + info_block.len();
            let padding_at = kernel_at + kernel.len();
            &&& image.subrange(0, block_at) == bootloader
            &&& image.subrange(block_at, kernel_at) == info_block
            &&& image.subrange(kernel_at, padding_at) == kernel
            &&& forall|i: int| padding_at <= i < image.len() ==> image[i] == 0
        }),
{
    lemma_padding(kernel.len() as int);
    let image = disk_image(bootloader, info_block, kernel);
    let block_at = bootloader.len() as int;
    let kernel_at = block_at + info_block.len();
    let padding_at = kernel_at + kernel.len();
    assert(image.subrange(0, block_at) =~= bootloader);
    assert(image.subrange(block_at, kernel_at) =~= info_block);
    assert(image.subrange(kernel_at, padding_at) =~= kernel);
}

/// Computes the padding after a kernel of `kernel_size` bytes.
pub fn padding_size(kernel_size: u64) -> (padding: usize)
    ensures
        padding == padding_len(kernel_size as int),
        0 <= padding <= 511,
        padding == 0 <==> kernel_size % 512 == 0,
        (kernel_size + padding) % 512 == 0,
{
    let sector: u64 = SECTOR_SIZE as u64;
    let rest: u64 = kernel_size % sector;
    let padding: u64 = (sector - rest) % sector;
    padding as usize
}

} // verus!
