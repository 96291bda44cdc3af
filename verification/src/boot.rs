//! The boot orchestrator: it captures the framebuffer that the firmware
//! reports, initializes it, and halts.

use vstd::prelude::*;
use crate::framebuffer::{fill_test_pattern, prepare, prepare_spec, test_pattern, InitError, Mapping, Preparation};
use crate::mapper::AddressMapper;
use crate::table::{enumerate, walk, FramebufferDescriptor, TableEntry, Visitor};

verus! {

/// The descriptor of the last framebuffer entry among `entries`, if there
/// is any.
pub open spec fn last_framebuffer(entries: Seq<TableEntry>) -> Option<FramebufferDescriptor>
    decreases entries.len(),
{
    if entries.len() == 0 {
        None
    } else {
        match entries.last() {
            TableEntry::Framebuffer(descriptor) => Some(descriptor),
            _ => last_framebuffer(entries.drop_last()),
        }
    }
}

/// The accumulator of an enumeration: it keeps the descriptor of the most
/// recent framebuffer entry that it has visited.
#[derive(Clone, Copy, Debug, PartialEq, Eq)]
pub struct FramebufferCapture {
    pub latest: Option<FramebufferDescriptor>,
}

impl FramebufferCapture {
    /// A capture that has seen no framebuffer yet.
    pub fn new() -> (capture: Self)
        ensures
            capture.latest is None,
    {
        FramebufferCapture { latest: None }
    }
}

impl Visitor for FramebufferCapture {
    type Error = ();

    open spec fn step(&self, entry: &TableEntry) -> (Self, Result<(), ()>) {
        match *entry {
            TableEntry::Framebuffer(descriptor) => (FramebufferCapture { latest: Some(descriptor) }, Ok(())),
            _ => (*self, Ok(())),
        }
    }

    /// Records a framebuffer entry over whatever was recorded before, lets
    /// every other entry pass, and never fails.
    fn visit(&mut self, entry: &TableEntry) -> (r: Result<(), ()>) {
        match entry {
            TableEntry::Framebuffer(descriptor) => {
                self.latest = Some(*descriptor);
            },
            _ => {},
        }
        Ok(())
    }
}

/// Last write wins: an enumeration of `entries` never fails on a capture,
/// and leaves it with the descriptor of the last framebuffer entry,
/// whatever other entries stand between, before or after the framebuffer
/// entries; with no framebuffer entry the capture is as it was.
pub proof fn lemma_last_write_wins(capture: FramebufferCapture, entries: Seq<TableEntry>)
    ensures
        walk(capture, entries).1 is Ok,
        walk(capture, entries).0.latest == match last_framebuffer(entries) {
            Some(descriptor) => Some(descriptor),
            None => capture.latest,
        },
    decreases entries.len(),
{
    if entries.len() > 0 {
        let front = entries.drop_last();
        let back = seq![entries.last()];
        lemma_last_write_wins(capture, front);
        assert(front + back =~= entries);
        crate::table::lemma_walk_concat(capture, front, back);
        let before = walk(capture, front).0;
        assert(back.skip(1).len() == 0);
        assert(walk(before, back) == walk(before.step(&back[0]).0, back.skip(1)));
    }
}

/// Where the last framebuffer entry stands: `last_framebuffer` gives the
/// descriptor of `entries[i]` when that is a framebuffer entry and none
/// follows it.
pub proof fn lemma_last_framebuffer_at(entries: Seq<TableEntry>, i: int)
    requires
        0 <= i < entries.len(),
        entries[i] is Framebuffer,
        forall|j: int| i < j < entries.len() ==> !(#[trigger] entries[j] is Framebuffer),
    ensures
        last_framebuffer(entries) == Some(entries[i]->Framebuffer_0),
    decreases entries.len(),
{
    if i < entries.len() - 1 {
        let front = entries.drop_last();
        assert(!(entries[entries.len() - 1] is Framebuffer));
        assert forall|j: int| i < j < front.len() implies !(#[trigger] front[j] is Framebuffer) by {
            assert(front[j] == entries[j]);
        }
        assert(front[i] == entries[i]);
        lemma_last_framebuffer_at(front, i);
    }
}

/// Without a framebuffer entry among `entries` there is no last one.
pub proof fn lemma_last_framebuffer_none(entries: Seq<TableEntry>)
    requires
        forall|j: int| 0 <= j < entries.len() ==> !(#[trigger] entries[j] is Framebuffer),
    ensures
        last_framebuffer(entries) is None,
    decreases entries.len(),
{
    if entries.len() > 0 {
        let front = entries.drop_last();
        assert(!(entries[entries.len() - 1] is Framebuffer));
        assert forall|j: int| 0 <= j < front.len() implies !(#[trigger] front[j] is Framebuffer) by {
            assert(front[j] == entries[j]);
        }
        lemma_last_framebuffer_none(front);
    }
}

/// The stage that the boot has reached. There is no way back from a stage,
/// and none out of `Halted`.
#[derive(Clone, Copy, Debug, PartialEq, Eq, Structural)]
pub enum BootState {
    /// The configuration entries are being enumerated.
    Enumerating,
    /// The captured framebuffer, if any, is being initialized.
    Initializing,
    /// Nothing is left to do.
    Halted,
}

/// What the initializing stage has come to.
#[derive(Clone, Copy, Debug, PartialEq, Eq)]
pub enum Initialization {
    /// No framebuffer was reported: the boot has halted.
    NoFramebuffer,
    /// The framebuffer's depth, given here, is not supported: the boot has
    /// halted without mapping anything.
    UnsupportedDepth(u8),
    /// The framebuffer is mapped and waits for the test pattern.
    Mapped(Mapping),
}

/// The boot state machine.
#[derive(Debug)]
pub struct Orchestrator {
    state: BootState,
    captured: Option<FramebufferDescriptor>,
    pending: Option<Mapping>,
}

/// The mapper, the answer and the stage that `Orchestrator::initialize`
/// comes to with the framebuffer `captured`.
pub open spec fn initialize_spec<M: AddressMapper>(mapper: M, captured: Option<FramebufferDescriptor>) -> (M, Result<Initialization, InitError>, BootState) {
    match captured {
        None => (mapper, Ok(Initialization::NoFramebuffer), BootState::Halted),
        Some(descriptor) => match prepare_spec(mapper, descriptor) {
            (after, Ok(Preparation::UnsupportedDepth(depth))) => (after, Ok(Initialization::UnsupportedDepth(depth)), BootState::Halted),
            (after, Ok(Preparation::Mapped(mapping))) => (after, Ok(Initialization::Mapped(mapping)), BootState::Initializing),
            (after, Err(error)) => (after, Err(error), BootState::Initializing),
        },
    }
}

impl Orchestrator {
    /// The stage that the boot has reached.
    pub closed spec fn state_spec(&self) -> BootState {
        self.state
    }

    /// The framebuffer that has been captured, if any.
    pub closed spec fn framebuffer_spec(&self) -> Option<FramebufferDescriptor> {
        self.captured
    }

    /// The mapped framebuffer that waits for the test pattern, if any.
    pub closed spec fn pending_spec(&self) -> Option<Mapping> {
        self.pending
    }

    /// An orchestrator at the start of the boot: enumerating, with no
    /// framebuffer captured and nothing mapped.
    pub fn new() -> (boot: Self)
        ensures
            boot.state_spec() == BootState::Enumerating,
            boot.framebuffer_spec() is None,
            boot.pending_spec() is None,
    {
        Orchestrator { state: BootState::Enumerating, captured: None, pending: None }
    }

    /// The stage that the boot has reached.
    #[verifier::when_used_as_spec(state_spec)]
    pub fn state(&self) -> (state: BootState)
        ensures
            state == self.state_spec(),
    {
        self.state
    }

    /// The framebuffer that has been captured, if any.
    #[verifier::when_used_as_spec(framebuffer_spec)]
    pub fn framebuffer(&self) -> (captured: Option<FramebufferDescriptor>)
        ensures
            captured == self.framebuffer_spec(),
    {
        self.captured
    }

    /// The mapped framebuffer that waits for the test pattern, if any.
    #[verifier::when_used_as_spec(pending_spec)]
    pub fn pending(&self) -> (pending: Option<Mapping>)
        ensures
            pending == self.pending_spec(),
    {
        self.pending
    }

    /// The enumerating stage: runs a fresh capture over `entries`, keeps the
    /// descriptor of the last framebuffer entry among them, and moves on to
    /// the initializing stage.
    pub fn enumerate(&mut self, entries: &[TableEntry])
        requires
            old(self).state() == BootState::Enumerating,
        ensures
            final(self).state() == BootState::Initializing,
            final(self).framebuffer() == last_framebuffer(entries@),
            final(self).pending() == old(self).pending(),
    {
        let mut capture = FramebufferCapture::new();
        proof {
            lemma_last_write_wins(capture, entries@);
        }
        let _ = enumerate(entries, &mut capture);
        self.captured = capture.latest;
        self.state = BootState::Initializing;
    }

    /// The initializing stage.
    ///
    /// Without a captured framebuffer, or with one of an unsupported depth,
    /// the mapper is left alone and the boot halts. Otherwise the mapper is
    /// asked for the framebuffer's region; the mapping then waits for
    /// `write_pattern`. An error leaves the boot in the initializing stage
    /// for good.
    pub fn initialize<M: AddressMapper>(&mut self, mapper: &mut M) -> (r: Result<Initialization, InitError>)
        requires
            old(self).state() == BootState::Initializing,
            old(self).pending() is None,
        ensures
            (*final(mapper), r, final(self).state()) == initialize_spec(*old(mapper), old(self).framebuffer()),
            final(mapper).granularity() == old(mapper).granularity(),
            final(self).framebuffer() == old(self).framebuffer(),
            final(self).pending() == match r {
                Ok(Initialization::Mapped(mapping)) => Some(mapping),
                _ => None,
            },
    {
        match self.captured {
            None => {
                self.state = BootState::Halted;
                Ok(Initialization::NoFramebuffer)
            },
            Some(descriptor) => match prepare(&descriptor, mapper) {
                Ok(Preparation::UnsupportedDepth(depth)) => {
                    self.state = BootState::Halted;
                    Ok(Initialization::UnsupportedDepth(depth))
                },
                Ok(Preparation::Mapped(mapping)) => {
                    self.pending = Some(mapping);
                    Ok(Initialization::Mapped(mapping))
                },
                Err(error) => Err(error),
            },
        }
    }

    /// The end of the initializing stage: writes the test pattern over
    /// `buffer`, which is the mapped framebuffer seen as bytes, and halts.
    pub fn write_pattern(&mut self, buffer: &mut [u8])
        requires
            old(self).state() == BootState::Initializing,
            old(self).pending() matches Some(mapping) && old(buffer)@.len() == mapping.size,
        ensures
            final(buffer)@ == test_pattern(old(buffer)@.len()),
            final(self).state() == BootState::Halted,
            final(self).framebuffer() == old(self).framebuffer(),
            final(self).pending() is None,
    {
        fill_test_pattern(buffer);
        self.pending = None;
        self.state = BootState::Halted;
    }
}

/// Depth gate: with a captured framebuffer of any depth but 32 bits per
/// pixel, the initializing stage reports that depth, halts, and leaves the
/// mapper as it was: nothing is mapped.
pub proof fn lemma_unsupported_depth_maps_nothing<M: AddressMapper>(mapper: M, descriptor: FramebufferDescriptor)
    requires
        descriptor.bits_per_pixel != 32,
    ensures
        prepare_spec(mapper, descriptor) == (mapper, Ok::<Preparation, InitError>(Preparation::UnsupportedDepth(descriptor.bits_per_pixel))),
        initialize_spec(mapper, Some(descriptor)) == (
            mapper,
            Ok::<Initialization, InitError>(Initialization::UnsupportedDepth(descriptor.bits_per_pixel)),
            BootState::Halted,
        ),
{
}

/// Headless boot: after an enumeration without any framebuffer entry, the
/// initializing stage halts and leaves the mapper as it was: nothing is
/// mapped.
pub proof fn lemma_no_framebuffer_maps_nothing<M: AddressMapper>(mapper: M, entries: Seq<TableEntry>)
    requires
        forall|j: int| 0 <= j < entries.len() ==> !(#[trigger] entries[j] is Framebuffer),
    ensures
        walk(FramebufferCapture { latest: None }, entries).0.latest is None,
        initialize_spec(mapper, last_framebuffer(entries)) == (
            mapper,
            Ok::<Initialization, InitError>(Initialization::NoFramebuffer),
            BootState::Halted,
        ),
{
    lemma_last_framebuffer_none(entries);
    lemma_last_write_wins(FramebufferCapture { latest: None }, entries);
}

/// A framebuffer of 32 bits per pixel whose size fits a machine word is
/// asked of the mapper with exactly `bytes_per_line * y_resolution` bytes
/// at its physical address, and what the mapper answers decides the rest.
pub proof fn lemma_supported_depth_maps_the_buffer<M: AddressMapper>(mapper: M, descriptor: FramebufferDescriptor)
    requires
        descriptor.bits_per_pixel == 32,
        descriptor.bytes_per_line * descriptor.y_resolution <= usize::MAX,
    ensures
        ({
            let size = (descriptor.bytes_per_line * descriptor.y_resolution) as usize;
            let (after, answer) = mapper.map_spec(descriptor.physical_address, size);
            initialize_spec(mapper, Some(descriptor)) == match answer {
                Ok(address) => (
                    after,
                    Ok::<Initialization, InitError>(Initialization::Mapped(Mapping { address, size })),
                    BootState::Initializing,
                ),
                Err(error) => (after, Err::<Initialization, InitError>(InitError::Mapping(error)), BootState::Initializing),
            }
        }),
{
}

} // verus!
