//! The kernel info block: the sector that follows the bootloader and tells
//! the first-stage loader how many bytes of kernel to load.

use crate::endian::{
    le_bytes, lemma_le_bytes_of_u32_at, lemma_le_bytes_round_trip, read_u32, u32_at, Encoding,
};
use crate::error::Error;
use crate::layout::zeros;
use byteorder::ByteOrder;
use vstd::prelude::*;

verus! {

/// The size of the kernel info block, in bytes.
pub const BLOCK_SIZE: usize = 512;

/// The bytes of the info block of a kernel of `kernel_size` bytes: the size,
/// least significant byte first, then zeros up to the block's end.
pub open spec fn info_block_bytes(kernel_size: u32) -> Seq<u8> {
    le_bytes(kernel_size) + zeros(508)
}

/// A kernel info block. Its first four bytes hold the kernel's length in
/// little-endian order; every other byte is reserved and zero.
#[derive(Clone, Copy, Debug)]
pub struct KernelInfoBlock {
    bytes: [u8; BLOCK_SIZE],
}

impl View for KernelInfoBlock {
    type V = Seq<u8>;

    closed spec fn view(&self) -> Seq<u8> {
        self.bytes@
    }
}

impl KernelInfoBlock {
    #[verifier::type_invariant]
    spec fn reserved_bytes_are_zero(self) -> bool {
        forall|i: int| 4 <= i < 512 ==> self.bytes@[i] == 0
    }

    /// The kernel length that the block records.
    pub open spec fn spec_kernel_size(&self) -> int {
        u32_at(self@, 0, Encoding::Little)
    }

    /// Every block is 512 bytes long.
    pub proof fn lemma_len(&self)
        ensures
            self@.len() == 512,
    {
    }

    /// The block's 512 bytes, as they are written to the image.
    pub fn as_bytes(&self) -> (bytes: &[u8])
        ensures
            bytes@ == self@,
            bytes@.len() == 512,
    {
        self.bytes.as_slice()
    }

    /// Decodes the kernel length from the block's first four bytes.
    pub fn kernel_size(&self) -> (size: u32)
        ensures
            size == self.spec_kernel_size(),
            self@ == info_block_bytes(size),
    {
        proof {
            use_type_invariant(self);
            lemma_le_bytes_of_u32_at(self@, 0);
            assert(self@ =~= info_block_bytes(self.spec_kernel_size() as u32));
        }
        read_u32(self.bytes.as_slice(), 0, Encoding::Little)
    }
}

/// `byteorder::LittleEndian::write_u32`, which stores `value` in the first
/// four bytes of the buffer, least significant byte first, and leaves the
/// rest of the buffer as it was. It wants a buffer of at least four bytes,
/// which the block is.
#[verifier::external_body]
fn write_u32_le(block: &mut [u8; BLOCK_SIZE], value: u32)
    ensures
        final(block)@ == le_bytes(value) + old(block)@.skip(4),
{
    byteorder::LittleEndian::write_u32(block, value);
}

/// Encodes the info block of a kernel of `kernel_size` bytes. A kernel whose
/// length does not fit 32 bits cannot be loaded and gets no block.
pub fn create_kernel_info_block(kernel_size: u64) -> (result: Result<KernelInfoBlock, Error>)
    ensures
        match result {
            Ok(block) => {
                &&& kernel_size <= u32::MAX
                &&& block@ == info_block_bytes(kernel_size as u32)
                &&& block.spec_kernel_size() == kernel_size
                &&& forall|i: int| 4 <= i < 512 ==> block@[i] == 0
            },
            Err(error) => kernel_size > u32::MAX && error == Error::KernelTooLarge,
        },
{
    if kernel_size > 0xffff_ffff {
        return Err(Error::KernelTooLarge);
    }
    let size: u32 = kernel_size as u32;
    let mut bytes: [u8; BLOCK_SIZE] = [0u8; BLOCK_SIZE];
    write_u32_le(&mut bytes, size);
    proof {
        lemma_le_bytes_round_trip(size);
        assert(bytes@ =~= info_block_bytes(size));
    }
    Ok(KernelInfoBlock { bytes })
}

} // verus!
