//! Platform configuration entries and the protocol by which they are
//! handed, one at a time and in order, to a visitor.

use vstd::prelude::*;
use crate::mapper::PhysicalAddress;

verus! {

/// One range of the platform's memory map.
#[derive(Clone, Copy, Debug, PartialEq, Eq, Structural)]
pub struct MemoryRange {
    pub start: u64,
    pub length: u64,
}

/// The geometry and place of a linear framebuffer, as the firmware reports it.
#[derive(Clone, Copy, Debug, PartialEq, Eq, Structural)]
pub struct FramebufferDescriptor {
    pub physical_address: PhysicalAddress,
    pub x_resolution: u32,
    pub y_resolution: u32,
    pub bytes_per_line: u32,
    pub bits_per_pixel: u8,
}

/// One decoded record of the firmware's configuration structure.
#[derive(Debug, PartialEq, Eq)]
pub enum TableEntry {
    /// The memory map.
    MemoryRanges(Vec<MemoryRange>),
    /// A framebuffer that the firmware has set up.
    Framebuffer(FramebufferDescriptor),
    /// Any other record, kept by its tag and size for diagnostics only.
    Other { kind: u32, size: u32 },
}

/// The logic that is run on every entry of an enumeration.
///
/// A visitor is modelled as a deterministic function of its own state:
/// `step` gives the state and the verdict that visiting an entry leads to.
pub trait Visitor: Sized {
    /// What a failed visit reports.
    type Error;

    /// The visitor and its verdict after it has visited `entry`.
    spec fn step(&self, entry: &TableEntry) -> (Self, Result<(), Self::Error>);

    /// Visits one entry. An `Err` asks the enumeration to stop.
    fn visit(&mut self, entry: &TableEntry) -> (r: Result<(), Self::Error>)
        ensures
            (*final(self), r) == old(self).step(entry),
    ;
}

/// The visitor and the result that an enumeration of `entries` ends with:
/// the entries are visited from the first on, and the first failed visit
/// ends the enumeration with that failure.
pub open spec fn walk<V: Visitor>(visitor: V, entries: Seq<TableEntry>) -> (V, Result<(), V::Error>)
    decreases entries.len(),
{
    if entries.len() == 0 {
        (visitor, Ok(()))
    } else {
        let (next, verdict) = visitor.step(&entries[0]);
        if verdict is Err {
            (next, verdict)
        } else {
            walk(next, entries.skip(1))
        }
    }
}

/// Hands each of `entries` to `visitor`, once and in order, until a visit
/// fails; that failure is returned as the visitor gave it, and no later
/// entry is visited.
pub fn enumerate<V: Visitor>(entries: &[TableEntry], visitor: &mut V) -> (r: Result<(), V::Error>)
    ensures
        (*final(visitor), r) == walk(*old(visitor), entries@),
{
    let mut i: usize = 0;
    assert(entries@.skip(0) =~= entries@);
    while i < entries.len()
        invariant
            i <= entries@.len(),
            walk(*old(visitor), entries@) == walk(*visitor, entries@.skip(i as int)),
        decreases entries@.len() - i,
    {
        let verdict = visitor.visit(&entries[i]);
        proof {
            let rest = entries@.skip(i as int);
            assert(rest[0] == entries@[i as int]);
            assert(rest.skip(1) =~= entries@.skip(i + 1));
        }
        if verdict.is_err() {
            return verdict;
        }
        i = i + 1;
    }
    Ok(())
}

/// Abort on the first error: when the visit of `entries[k]` is the first one
/// to fail, the enumeration ends with that failure and with the visitor as
/// that visit left it, and both are the same whatever entries follow `k`.
pub proof fn lemma_abort_on_error<V: Visitor>(visitor: V, entries: Seq<TableEntry>, k: int, others: Seq<TableEntry>)
    requires
        0 <= k < entries.len(),
        walk(visitor, entries.take(k)).1 is Ok,
        walk(visitor, entries.take(k)).0.step(&entries[k]).1 is Err,
    ensures
        walk(visitor, entries) == walk(visitor, entries.take(k)).0.step(&entries[k]),
        walk(visitor, entries.take(k + 1) + others) == walk(visitor, entries),
{
    lemma_walk_stops(visitor, entries, k);
    let longer = entries.take(k + 1) + others;
    assert(longer.take(k) =~= entries.take(k));
    assert(longer[k] == entries[k]);
    lemma_walk_stops(visitor, longer, k);
}

/// The enumeration of `entries` goes no further than the first failed visit.
proof fn lemma_walk_stops<V: Visitor>(visitor: V, entries: Seq<TableEntry>, k: int)
    requires
        0 <= k < entries.len(),
        walk(visitor, entries.take(k)).1 is Ok,
        walk(visitor, entries.take(k)).0.step(&entries[k]).1 is Err,
    ensures
        walk(visitor, entries) == walk(visitor, entries.take(k)).0.step(&entries[k]),
    decreases k,
{
    if k == 0 {
        assert(entries.take(0).len() == 0);
    } else {
        let (next, verdict) = visitor.step(&entries[0]);
        let prefix = entries.take(k);
        assert(prefix[0] == entries[0]);
        assert(prefix.skip(1) =~= entries.skip(1).take(k - 1));
        assert(entries.skip(1)[k - 1] == entries[k]);
        lemma_walk_stops(next, entries.skip(1), k - 1);
    }
}

/// The enumeration visits every entry when no visit fails: the walk over
/// `front + back` is the walk over `back` by the visitor that the walk over
/// `front` has left.
pub proof fn lemma_walk_concat<V: Visitor>(visitor: V, front: Seq<TableEntry>, back: Seq<TableEntry>)
    requires
        walk(visitor, front).1 is Ok,
    ensures
        walk(visitor, front + back) == walk(walk(visitor, front).0, back),
    decreases front.len(),
{
    if front.len() == 0 {
        assert(front + back =~= back);
    } else {
        let (next, verdict) = visitor.step(&front[0]);
        assert((front + back)[0] == front[0]);
        assert((front + back).skip(1) =~= front.skip(1) + back);
        lemma_walk_concat(next, front.skip(1), back);
    }
}

} // verus!
