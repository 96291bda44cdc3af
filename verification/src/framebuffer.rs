//! The framebuffer initializer: it validates the pixel format, computes the
//! buffer's size, asks the address mapper for the region, and writes the
//! test pattern into the mapped buffer.

use vstd::prelude::*;
use crate::mapper::{AddressMapper, MapError, VirtualAddress};
use crate::table::FramebufferDescriptor;

verus! {

/// The only pixel depth that the initializer accepts.
pub const SUPPORTED_BITS_PER_PIXEL: u8 = 32;

/// A framebuffer that has been made accessible: `size` bytes at `address`.
#[derive(Clone, Copy, Debug, PartialEq, Eq, Structural)]
pub struct Mapping {
    pub address: VirtualAddress,
    pub size: usize,
}

/// What the initializer has done with a descriptor.
#[derive(Clone, Copy, Debug, PartialEq, Eq)]
pub enum Preparation {
    /// The descriptor's depth is not supported: nothing was mapped.
    UnsupportedDepth(u8),
    /// The framebuffer is mapped and waits for the test pattern.
    Mapped(Mapping),
}

/// A failure of the initializer that the boot cannot survive.
#[derive(Clone, Copy, Debug, PartialEq, Eq)]
pub enum InitError {
    /// The buffer's size does not fit a machine word.
    SizeOverflow,
    /// The address mapper refused the request.
    Mapping(MapError),
}

/// The number of bytes of the framebuffer that `descriptor` describes:
/// its stride times its number of lines.
pub open spec fn buffer_len(descriptor: FramebufferDescriptor) -> int {
    descriptor.bytes_per_line as int * descriptor.y_resolution as int
}

/// The buffer's size as a machine word, or `None` where it does not fit one.
pub fn buffer_size(descriptor: &FramebufferDescriptor) -> (r: Option<usize>)
    ensures
        buffer_len(*descriptor) <= usize::MAX ==> r == Some(buffer_len(*descriptor) as usize),
        buffer_len(*descriptor) > usize::MAX ==> r is None,
{
    let stride: u64 = descriptor.bytes_per_line as u64;
    let lines: u64 = descriptor.y_resolution as u64;
    assert(stride * lines <= 0xffff_ffff * 0xffff_ffff) by (nonlinear_arith)
        requires
            stride <= 0xffff_ffff,
            lines <= 0xffff_ffff,
    ;
    let bytes: u64 = stride * lines;
    if bytes <= usize::MAX as u64 {
        Some(bytes as usize)
    } else {
        None
    }
}

/// The byte of the test pattern at `offset`.
pub open spec fn pattern_byte(offset: int) -> u8 {
    (offset % 256) as u8
}

/// The test pattern over a buffer of `len` bytes.
pub open spec fn test_pattern(len: nat) -> Seq<u8> {
    Seq::new(len, |offset: int| pattern_byte(offset))
}

/// Writes the test pattern over the whole of `buffer`: afterwards the byte
/// at every offset `i` is `i mod 256`.
pub fn fill_test_pattern(buffer: &mut [u8])
    ensures
        final(buffer)@ == test_pattern(old(buffer)@.len()),
{
    let len: usize = buffer.len();
    let mut i: usize = 0;
    while i < len
        invariant
            i <= len,
            buffer@.len() == len,
            len == old(buffer)@.len(),
            forall|j: int| 0 <= j < i ==> buffer@[j] == pattern_byte(j),
        decreases len - i,
    {
        buffer[i] = (i % 256) as u8;
        i = i + 1;
    }
    assert(buffer@ =~= test_pattern(len as nat));
}

/// The mapper and the answer that `prepare` comes to for `descriptor`.
pub open spec fn prepare_spec<M: AddressMapper>(mapper: M, descriptor: FramebufferDescriptor) -> (M, Result<Preparation, InitError>) {
    if descriptor.bits_per_pixel != SUPPORTED_BITS_PER_PIXEL {
        (mapper, Ok(Preparation::UnsupportedDepth(descriptor.bits_per_pixel)))
    } else if buffer_len(descriptor) > usize::MAX {
        (mapper, Err(InitError::SizeOverflow))
    } else {
        let size = buffer_len(descriptor) as usize;
        let (after, answer) = mapper.map_spec(descriptor.physical_address, size);
        match answer {
            Ok(address) => (after, Ok(Preparation::Mapped(Mapping { address, size }))),
            Err(error) => (after, Err(InitError::Mapping(error))),
        }
    }
}

/// Validates `descriptor` and maps its framebuffer.
///
/// A depth other than 32 bits per pixel is reported and nothing is asked of
/// the mapper. Otherwise the mapper is asked, once, for
/// `bytes_per_line * y_resolution` bytes at the descriptor's physical
/// address; its refusal, or a size beyond a machine word, is an error.
pub fn prepare<M: AddressMapper>(descriptor: &FramebufferDescriptor, mapper: &mut M) -> (r: Result<Preparation, InitError>)
    ensures
        (*final(mapper), r) == prepare_spec(*old(mapper), *descriptor),
        final(mapper).granularity() == old(mapper).granularity(),
{
    if descriptor.bits_per_pixel != SUPPORTED_BITS_PER_PIXEL {
        return Ok(Preparation::UnsupportedDepth(descriptor.bits_per_pixel));
    }
    match buffer_size(descriptor) {
        None => Err(InitError::SizeOverflow),
        Some(size) => match mapper.map(descriptor.physical_address, size) {
            Ok(address) => Ok(Preparation::Mapped(Mapping { address, size })),
            Err(error) => Err(InitError::Mapping(error)),
        },
    }
}

} // verus!
