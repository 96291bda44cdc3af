//! The address mapping capability and its identity implementation.

use vstd::prelude::*;

verus! {

/// An address on the physical bus.
#[derive(Clone, Copy, Debug, PartialEq, Eq, Structural)]
pub struct PhysicalAddress(pub usize);

/// An address usable by the running code.
#[derive(Clone, Copy, Debug, PartialEq, Eq, Structural)]
pub struct VirtualAddress(pub usize);

/// Why a mapper could not serve a request.
#[derive(Clone, Copy, Debug, PartialEq, Eq, Structural)]
pub enum MapError {
    /// No room is left to establish the mapping.
    OutOfMappingSpace,
    /// The request does not respect the mapper's granularity.
    InvalidAlignment,
}

/// The granularity of the identity mapper, in bytes.
pub const PAGE_SIZE: usize = 4096;

/// A capability that makes physical memory accessible at a virtual address.
///
/// Every mapper is modelled as a deterministic function of its own state:
/// `map_spec` and `unmap_spec` give the state and the answer that a request
/// leads to, and the executable methods are held to them.
pub trait AddressMapper: Sized {
    /// The page granularity that the mapper reports.
    spec fn granularity(&self) -> usize;

    /// The mapper and the answer after a request to map `size` bytes at `physical`.
    spec fn map_spec(&self, physical: PhysicalAddress, size: usize) -> (Self, Result<VirtualAddress, MapError>);

    /// The mapper and the answer after a request to release `address`.
    spec fn unmap_spec(&self, address: VirtualAddress) -> (Self, Result<(), MapError>);

    /// Requests that `size` bytes starting at `physical` be made accessible.
    fn map(&mut self, physical: PhysicalAddress, size: usize) -> (r: Result<VirtualAddress, MapError>)
        ensures
            (*final(self), r) == old(self).map_spec(physical, size),
            final(self).granularity() == old(self).granularity(),
    ;

    /// Releases the mapping at `address`.
    fn unmap(&mut self, address: VirtualAddress) -> (r: Result<(), MapError>)
        ensures
            (*final(self), r) == old(self).unmap_spec(address),
            final(self).granularity() == old(self).granularity(),
    ;

    /// The granularity by which callers size and align their requests.
    fn page_size(&self) -> (n: usize)
        ensures
            n == self.granularity(),
            n > 0,
    ;
}

/// The mapper of a machine without page tables: every virtual address is
/// the physical address of the same number.
#[derive(Clone, Copy, Debug, PartialEq, Eq, Structural)]
pub struct IdentityMapper;

impl IdentityMapper {
    /// Maps a page-aligned request. Always succeeds, with the address
    /// numerically unchanged; `size` plays no part.
    pub fn map_aligned(&mut self, address: PhysicalAddress, size: usize) -> (r: Result<VirtualAddress, MapError>)
        ensures
            r == Ok::<VirtualAddress, MapError>(VirtualAddress(address.0)),
            *final(self) == *old(self),
    {
        Ok(VirtualAddress(address.0))
    }

    /// Releases a page-aligned mapping. Always succeeds and does nothing,
    /// whether or not `address` was ever mapped.
    pub fn unmap_aligned(&mut self, address: VirtualAddress) -> (r: Result<(), MapError>)
        ensures
            r == Ok::<(), MapError>(()),
            *final(self) == *old(self),
    {
        Ok(())
    }
}

impl AddressMapper for IdentityMapper {
    open spec fn granularity(&self) -> usize {
        PAGE_SIZE
    }

    open spec fn map_spec(&self, physical: PhysicalAddress, size: usize) -> (Self, Result<VirtualAddress, MapError>) {
        (*self, Ok(VirtualAddress(physical.0)))
    }

    open spec fn unmap_spec(&self, address: VirtualAddress) -> (Self, Result<(), MapError>) {
        (*self, Ok(()))
    }

    fn map(&mut self, physical: PhysicalAddress, size: usize) -> (r: Result<VirtualAddress, MapError>) {
        self.map_aligned(physical, size)
    }

    fn unmap(&mut self, address: VirtualAddress) -> (r: Result<(), MapError>) {
        self.unmap_aligned(address)
    }

    fn page_size(&self) -> (n: usize) {
        PAGE_SIZE
    }
}

/// Round trip through the identity mapper: a request for `size > 0` bytes at
/// `physical` is answered with the virtual address of the same number, and
/// releasing that address afterwards succeeds.
pub proof fn lemma_identity_round_trip(mapper: IdentityMapper, physical: PhysicalAddress, size: usize)
    requires
        size > 0,
    ensures
        mapper.map_spec(physical, size).1 == Ok::<VirtualAddress, MapError>(VirtualAddress(physical.0)),
        mapper.map_spec(physical, size).0.unmap_spec(VirtualAddress(physical.0)).1 == Ok::<(), MapError>(()),
{
}

/// Releasing through the identity mapper succeeds for every address,
/// mapped before or not, and leaves the mapper as it was.
pub proof fn lemma_identity_unmap_always_succeeds(mapper: IdentityMapper, address: VirtualAddress)
    ensures
        mapper.unmap_spec(address) == (mapper, Ok::<(), MapError>(())),
{
}

} // verus!
