//! The byte-level allocation capability and the vocabulary of its contract.

use crate::layout::Layout;
use vstd::prelude::*;

verus! {

/// A request could not be satisfied.
#[derive(Clone, Copy, Debug, PartialEq, Eq, Structural)]
pub struct AllocError;

/// The handle of the sentinel block: what a request of size zero gets. No
/// live block ever carries it.
pub const DANGLING: usize = usize::MAX;

/// A handle together with the number of usable bytes behind it.
#[derive(Clone, Copy, Debug, PartialEq, Eq, Structural)]
pub struct Block {
    pub handle: usize,
    pub size: usize,
}

impl Block {
    pub open spec fn is_dangling(self) -> bool {
        self.handle == DANGLING && self.size == 0
    }

    /// The sentinel block of size zero; it cannot be read or released.
    pub fn dangling() -> (b: Block)
        ensures
            b.is_dangling(),
    {
        Block { handle: DANGLING, size: 0 }
    }
}

/// What an allocator holds under one live handle.
pub struct Region {
    pub bytes: Seq<u8>,
    pub align: usize,
}

/// `block` is what a request for `layout` handed out and has not been released
/// since: the sentinel for size zero, else a live region of exactly that size
/// and alignment.
pub open spec fn occupies(blocks: Map<usize, Region>, block: Block, layout: Layout) -> bool {
    if layout.spec_size() == 0 {
        block.is_dangling()
    } else {
        &&& block.handle != DANGLING
        &&& block.size == layout.spec_size()
        &&& blocks.contains_key(block.handle)
        &&& blocks[block.handle].bytes.len() == layout.spec_size()
        &&& blocks[block.handle].align == layout.spec_align()
    }
}

/// The bytes behind `block`; none behind the sentinel.
pub open spec fn contents(blocks: Map<usize, Region>, block: Block) -> Seq<u8> {
    if block.is_dangling() {
        Seq::empty()
    } else {
        blocks[block.handle].bytes
    }
}

/// The regions left once `block`, requested with `layout`, is given back.
pub open spec fn released(blocks: Map<usize, Region>, block: Block, layout: Layout) -> Map<
    usize,
    Region,
> {
    if layout.spec_size() == 0 {
        blocks
    } else {
        blocks.remove(block.handle)
    }
}

/// `after` is `base` with one new region for `block`, of the size and
/// alignment of `layout`, under a handle that `base` does not use; for size
/// zero, `block` is the sentinel and nothing changes.
pub open spec fn placed(
    base: Map<usize, Region>,
    after: Map<usize, Region>,
    block: Block,
    layout: Layout,
) -> bool {
    if layout.spec_size() == 0 {
        block.is_dangling() && after == base
    } else {
        &&& block.handle != DANGLING
        &&& block.size == layout.spec_size()
        &&& !base.contains_key(block.handle)
        &&& after.contains_key(block.handle)
        &&& after == base.insert(block.handle, after[block.handle])
        &&& after[block.handle].bytes.len() == layout.spec_size()
        &&& after[block.handle].align == layout.spec_align()
    }
}

/// Every byte of `s` from `from` on is zero.
pub open spec fn zero_from(s: Seq<u8>, from: int) -> bool {
    forall|i: int| from <= i < s.len() ==> s[i] == 0
}

/// The outcome of a fresh request for `layout`: a placed block, or an error
/// that changed nothing. Size zero always succeeds.
pub open spec fn allocated(
    before: Map<usize, Region>,
    after: Map<usize, Region>,
    layout: Layout,
    r: Result<Block, AllocError>,
) -> bool {
    match r {
        Ok(b) => placed(before, after, b, layout),
        Err(_) => after == before && layout.spec_size() > 0,
    }
}

/// The outcome of moving `block` from `old_layout` to `new_layout`: on success
/// the old region is gone, the new one is placed (possibly under the same
/// handle) and its first `kept` bytes are those of the old one; on error
/// nothing changed.
pub open spec fn resized(
    before: Map<usize, Region>,
    after: Map<usize, Region>,
    block: Block,
    old_layout: Layout,
    new_layout: Layout,
    kept: int,
    r: Result<Block, AllocError>,
) -> bool {
    match r {
        Ok(nb) => {
            &&& placed(released(before, block, old_layout), after, nb, new_layout)
            &&& contents(after, nb).take(kept) == contents(before, block).take(kept)
        },
        Err(_) => after == before,
    }
}

/// A source of byte regions. Each region is named by a handle; `blocks` is
/// the map from live handles to their contents and alignment.
pub trait Allocator {
    spec fn blocks(&self) -> Map<usize, Region>;

    /// A new region of `layout.size()` bytes, whose contents are unspecified.
    fn allocate(&mut self, layout: Layout) -> (r: Result<Block, AllocError>)
        ensures
            allocated(old(self).blocks(), final(self).blocks(), layout, r),
    ;

    /// A new region of `layout.size()` bytes, all zero.
    fn allocate_zeroed(&mut self, layout: Layout) -> (r: Result<Block, AllocError>)
        ensures
            allocated(old(self).blocks(), final(self).blocks(), layout, r),
            r matches Ok(b) ==> zero_from(contents(final(self).blocks(), b), 0),
    ;

    /// Gives `block` back. The sentinel is accepted and changes nothing.
    fn deallocate(&mut self, block: Block, layout: Layout)
        requires
            occupies(old(self).blocks(), block, layout),
        ensures
            final(self).blocks() == released(old(self).blocks(), block, layout),
    ;

    /// Enlarges `block` to `new_layout`, keeping its first `old_layout.size()`
    /// bytes; the rest is unspecified. A block of size zero is allocated anew.
    fn grow(&mut self, block: Block, old_layout: Layout, new_layout: Layout) -> (r: Result<
        Block,
        AllocError,
    >)
        requires
            new_layout.spec_size() >= old_layout.spec_size(),
            occupies(old(self).blocks(), block, old_layout),
        ensures
            resized(
                old(self).blocks(),
                final(self).blocks(),
                block,
                old_layout,
                new_layout,
                old_layout.spec_size() as int,
                r,
            ),
            new_layout.spec_size() == 0 ==> r is Ok,
    ;

    /// As `grow`, and every byte past `old_layout.size()` is zero.
    fn grow_zeroed(&mut self, block: Block, old_layout: Layout, new_layout: Layout) -> (r: Result<
        Block,
        AllocError,
    >)
        requires
            new_layout.spec_size() >= old_layout.spec_size(),
            occupies(old(self).blocks(), block, old_layout),
        ensures
            resized(
                old(self).blocks(),
                final(self).blocks(),
                block,
                old_layout,
                new_layout,
                old_layout.spec_size() as int,
                r,
            ),
            new_layout.spec_size() == 0 ==> r is Ok,
            r matches Ok(nb) ==> zero_from(
                contents(final(self).blocks(), nb),
                old_layout.spec_size() as int,
            ),
    ;

    /// Reduces `block` to `new_layout`, keeping its first `new_layout.size()`
    /// bytes. With the alignment unchanged the block is cut in place: same
    /// handle, no copy, no failure. Size zero gives the sentinel.
    fn shrink(&mut self, block: Block, old_layout: Layout, new_layout: Layout) -> (r: Result<
        Block,
        AllocError,
    >)
        requires
            new_layout.spec_size() <= old_layout.spec_size(),
            occupies(old(self).blocks(), block, old_layout),
        ensures
            resized(
                old(self).blocks(),
                final(self).blocks(),
                block,
                old_layout,
                new_layout,
                new_layout.spec_size() as int,
                r,
            ),
            new_layout.spec_size() == 0 ==> r is Ok,
            new_layout.spec_size() > 0 && new_layout.spec_align() == old_layout.spec_align()
                ==> (r matches Ok(nb) && nb.handle == block.handle),
    ;
}


/// A request of size zero hands out the sentinel; deallocating it is
/// accepted, and the pair leaves the allocator as it was.
pub proof fn lemma_zero_size_round_trip(
    before: Map<usize, Region>,
    after: Map<usize, Region>,
    layout: Layout,
    r: Result<Block, AllocError>,
)
    requires
        layout.spec_size() == 0,
        allocated(before, after, layout, r),
    ensures
        r matches Ok(b) && b.is_dangling() && occupies(after, b, layout),
        released(after, r->Ok_0, layout) == before,
{
}

/// A successful grow keeps all of the old contents, in place at the start of
/// the new block, whether or not the block moved.
pub proof fn lemma_grow_keeps_contents(
    before: Map<usize, Region>,
    after: Map<usize, Region>,
    block: Block,
    old_layout: Layout,
    new_layout: Layout,
    nb: Block,
)
    requires
        old_layout.spec_size() <= new_layout.spec_size(),
        occupies(before, block, old_layout),
        resized(
            before,
            after,
            block,
            old_layout,
            new_layout,
            old_layout.spec_size() as int,
            Ok(nb),
        ),
    ensures
        contents(after, nb).len() == new_layout.spec_size(),
        contents(after, nb).take(old_layout.spec_size() as int) == contents(before, block),
{
    assert(contents(before, block).take(old_layout.spec_size() as int) =~= contents(
        before,
        block,
    ));
}

} // verus!
