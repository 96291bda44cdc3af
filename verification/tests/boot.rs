use earlyboot::boot::{BootState, FramebufferCapture, Initialization, Orchestrator};
use earlyboot::framebuffer::{InitError, Mapping};
use earlyboot::mapper::{AddressMapper, IdentityMapper, MapError, PhysicalAddress, VirtualAddress};
use earlyboot::table::{enumerate, FramebufferDescriptor, MemoryRange, TableEntry, Visitor};

/// Panics when asked to map or to unmap.
struct UntouchableMapper;

impl AddressMapper for UntouchableMapper {
    fn granularity(&self) -> usize {
        4096
    }

    fn map_spec(&self, _physical: PhysicalAddress, _size: usize) -> (Self, Result<VirtualAddress, MapError>) {
        unreachable!()
    }

    fn unmap_spec(&self, _address: VirtualAddress) -> (Self, Result<(), MapError>) {
        unreachable!()
    }

    fn map(&mut self, physical: PhysicalAddress, size: usize) -> Result<VirtualAddress, MapError> {
        panic!("map({:?}, {}) was called", physical, size)
    }

    fn unmap(&mut self, address: VirtualAddress) -> Result<(), MapError> {
        panic!("unmap({:?}) was called", address)
    }

    fn page_size(&self) -> usize {
        4096
    }
}

/// Refuses every request.
struct FullMapper {
    requests: usize,
}

impl AddressMapper for FullMapper {
    fn granularity(&self) -> usize {
        4096
    }

    fn map_spec(&self, _physical: PhysicalAddress, _size: usize) -> (Self, Result<VirtualAddress, MapError>) {
        unreachable!()
    }

    fn unmap_spec(&self, _address: VirtualAddress) -> (Self, Result<(), MapError>) {
        unreachable!()
    }

    fn map(&mut self, _physical: PhysicalAddress, _size: usize) -> Result<VirtualAddress, MapError> {
        self.requests += 1;
        Err(MapError::OutOfMappingSpace)
    }

    fn unmap(&mut self, _address: VirtualAddress) -> Result<(), MapError> {
        Ok(())
    }

    fn page_size(&self) -> usize {
        4096
    }
}

fn framebuffer(x_resolution: u32, bits_per_pixel: u8) -> FramebufferDescriptor {
    FramebufferDescriptor {
        physical_address: PhysicalAddress(0xe000_0000),
        x_resolution,
        y_resolution: 600,
        bytes_per_line: 3200,
        bits_per_pixel,
    }
}

fn memory() -> TableEntry {
    TableEntry::MemoryRanges(vec![MemoryRange { start: 0, length: 0xa_0000 }])
}

fn other(kind: u32) -> TableEntry {
    TableEntry::Other { kind, size: 8 }
}

#[test]
fn a_new_boot_is_enumerating() {
    let boot = Orchestrator::new();
    assert_eq!(boot.state(), BootState::Enumerating);
    assert_eq!(boot.framebuffer(), None);
    assert_eq!(boot.pending(), None);
}

#[test]
fn capture_starts_empty_and_never_fails() {
    let mut capture = FramebufferCapture::new();
    assert_eq!(capture.latest, None);
    assert_eq!(capture.visit(&other(7)), Ok(()));
    assert_eq!(capture.latest, None);
    assert_eq!(capture.visit(&memory()), Ok(()));
    assert_eq!(capture.latest, None);
    assert_eq!(capture.visit(&TableEntry::Framebuffer(framebuffer(640, 16))), Ok(()));
    assert_eq!(capture.latest, Some(framebuffer(640, 16)));
    assert_eq!(capture.visit(&other(8)), Ok(()));
    assert_eq!(capture.latest, Some(framebuffer(640, 16)));
}

#[test]
fn last_write_wins() {
    let entries = vec![
        other(1),
        TableEntry::Framebuffer(framebuffer(640, 32)),
        memory(),
        TableEntry::Framebuffer(framebuffer(800, 24)),
        other(2),
        TableEntry::Framebuffer(framebuffer(1024, 32)),
        memory(),
        other(3),
    ];
    let mut capture = FramebufferCapture::new();
    assert_eq!(enumerate(&entries, &mut capture), Ok(()));
    assert_eq!(capture.latest, Some(framebuffer(1024, 32)));

    let mut boot = Orchestrator::new();
    boot.enumerate(&entries);
    assert_eq!(boot.framebuffer(), Some(framebuffer(1024, 32)));
    assert_eq!(boot.state(), BootState::Initializing);
}

#[test]
fn last_write_wins_for_every_number_of_framebuffers() {
    for n in 0..6u32 {
        let mut entries = vec![memory()];
        for i in 0..n {
            entries.push(TableEntry::Framebuffer(framebuffer(100 + i, 32)));
            entries.push(other(i));
        }
        let mut boot = Orchestrator::new();
        boot.enumerate(&entries);
        let expected = if n == 0 { None } else { Some(framebuffer(100 + n - 1, 32)) };
        assert_eq!(boot.framebuffer(), expected);
    }
}

#[test]
fn a_single_framebuffer_is_kept_wherever_it_stands() {
    for place in 0..4 {
        let mut entries = vec![other(1), memory(), other(2)];
        entries.insert(place, TableEntry::Framebuffer(framebuffer(800, 32)));
        let mut boot = Orchestrator::new();
        boot.enumerate(&entries);
        assert_eq!(boot.framebuffer(), Some(framebuffer(800, 32)));
    }
}

#[test]
fn no_framebuffer_path() {
    let entries = vec![other(1), memory(), other(2)];
    let mut boot = Orchestrator::new();
    boot.enumerate(&entries);
    assert_eq!(boot.framebuffer(), None);
    let mut mapper = UntouchableMapper;
    assert_eq!(boot.initialize(&mut mapper), Ok(Initialization::NoFramebuffer));
    assert_eq!(boot.state(), BootState::Halted);
    assert_eq!(boot.pending(), None);
}

#[test]
fn no_entries_at_all() {
    let mut boot = Orchestrator::new();
    boot.enumerate(&[]);
    assert_eq!(boot.state(), BootState::Initializing);
    let mut mapper = UntouchableMapper;
    assert_eq!(boot.initialize(&mut mapper), Ok(Initialization::NoFramebuffer));
    assert_eq!(boot.state(), BootState::Halted);
}

#[test]
fn unsupported_depth_halts_without_mapping() {
    let entries = vec![TableEntry::Framebuffer(framebuffer(800, 24))];
    let mut boot = Orchestrator::new();
    boot.enumerate(&entries);
    let mut mapper = UntouchableMapper;
    assert_eq!(boot.initialize(&mut mapper), Ok(Initialization::UnsupportedDepth(24)));
    assert_eq!(boot.state(), BootState::Halted);
    assert_eq!(boot.pending(), None);
    assert_eq!(boot.framebuffer(), Some(framebuffer(800, 24)));
}

#[test]
fn the_depth_of_the_last_framebuffer_decides() {
    let entries = vec![
        TableEntry::Framebuffer(framebuffer(800, 32)),
        TableEntry::Framebuffer(framebuffer(800, 16)),
    ];
    let mut boot = Orchestrator::new();
    boot.enumerate(&entries);
    let mut mapper = UntouchableMapper;
    assert_eq!(boot.initialize(&mut mapper), Ok(Initialization::UnsupportedDepth(16)));
}

#[test]
fn a_supported_framebuffer_is_mapped_and_painted() {
    let entries = vec![memory(), TableEntry::Framebuffer(framebuffer(800, 32)), other(9)];
    let mut boot = Orchestrator::new();
    boot.enumerate(&entries);
    let mut mapper = IdentityMapper;
    let mapping = Mapping { address: VirtualAddress(0xe000_0000), size: 1_920_000 };
    assert_eq!(boot.initialize(&mut mapper), Ok(Initialization::Mapped(mapping)));
    assert_eq!(boot.state(), BootState::Initializing);
    assert_eq!(boot.pending(), Some(mapping));

    let mut buffer = vec![0x55u8; mapping.size];
    boot.write_pattern(&mut buffer);
    assert_eq!(boot.state(), BootState::Halted);
    assert_eq!(boot.pending(), None);
    assert_eq!(buffer[0], 0);
    assert_eq!(buffer[255], 255);
    assert_eq!(buffer[256], 0);
    assert_eq!(buffer[1_919_999], 255);
    assert!(buffer.iter().enumerate().all(|(offset, byte)| *byte as usize == offset % 256));
}

#[test]
fn a_refusal_of_the_mapper_is_fatal() {
    let entries = vec![TableEntry::Framebuffer(framebuffer(800, 32))];
    let mut boot = Orchestrator::new();
    boot.enumerate(&entries);
    let mut mapper = FullMapper { requests: 0 };
    assert_eq!(boot.initialize(&mut mapper), Err(InitError::Mapping(MapError::OutOfMappingSpace)));
    assert_eq!(mapper.requests, 1);
    assert_eq!(boot.state(), BootState::Initializing);
    assert_eq!(boot.pending(), None);
}
