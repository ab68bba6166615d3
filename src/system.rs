//! The allocator backed by the global heap. Each region is a byte vector of
//! its own; a handle is the region's index in a table, and a slot is handed
//! out again only after its region was given back.

use crate::alloc_trait::{
    allocated, contents, occupies, placed, released, resized, zero_from, AllocError, Allocator,
    Block, Region, DANGLING,
};
use crate::layout::Layout;
use vstd::prelude::*;

verus! {

struct Stored {
    bytes: Vec<u8>,
    align: usize,
}

spec fn region_of(s: Stored) -> Region {
    Region { bytes: s.bytes@, align: s.align }
}

spec fn blocks_of(slots: Seq<Option<Stored>>) -> Map<usize, Region> {
    Map::new(
        |h: usize| (h as int) < slots.len() && slots[h as int] is Some,
        |h: usize| region_of(slots[h as int]->Some_0),
    )
}

proof fn lemma_blocks_update(slots: Seq<Option<Stored>>, h: usize, v: Option<Stored>)
    requires
        (h as int) < slots.len(),
    ensures
        v is None ==> blocks_of(slots.update(h as int, v)) == blocks_of(slots).remove(h),
        v matches Some(s) ==> blocks_of(slots.update(h as int, v)) == blocks_of(slots).insert(
            h,
            region_of(s),
        ),
{
    match v {
        Some(s) => {
            assert(blocks_of(slots.update(h as int, v)) =~= blocks_of(slots).insert(
                h,
                region_of(s),
            ));
        },
        None => {
            assert(blocks_of(slots.update(h as int, v)) =~= blocks_of(slots).remove(h));
        },
    }
}

proof fn lemma_blocks_push(slots: Seq<Option<Stored>>, s: Stored)
    requires
        slots.len() < DANGLING,
    ensures
        !blocks_of(slots).contains_key(slots.len() as usize),
        blocks_of(slots.push(Some(s))) == blocks_of(slots).insert(
            slots.len() as usize,
            region_of(s),
        ),
{
    assert(blocks_of(slots.push(Some(s))) =~= blocks_of(slots).insert(
        slots.len() as usize,
        region_of(s),
    ));
}

/// Appends zeros to `v` until it holds `n` bytes.
fn extend_zeroed(v: &mut Vec<u8>, n: usize)
    requires
        old(v)@.len() <= n,
    ensures
        final(v)@.len() == n,
        final(v)@.take(old(v)@.len() as int) == old(v)@,
        zero_from(final(v)@, old(v)@.len() as int),
{
    let ghost orig = v@;
    while v.len() < n
        invariant
            orig.len() <= v@.len() <= n,
            v@.take(orig.len() as int) == orig,
            zero_from(v@, orig.len() as int),
        decreases n - v@.len(),
    {
        v.push(0);
        assert(v@.take(orig.len() as int) =~= orig);
    }
}

/// `n` zero bytes, or `None` where the global heap cannot provide them.
fn zeroed_bytes(n: usize) -> (r: Option<Vec<u8>>)
    ensures
        r matches Some(v) ==> v@.len() == n && zero_from(v@, 0),
{
    let mut v: Vec<u8> = Vec::new();
    if v.try_reserve(n).is_err() {
        return None;
    }
    extend_zeroed(&mut v, n);
    Some(v)
}

/// The global-heap allocator.
pub struct System {
    slots: Vec<Option<Stored>>,
    /// Handles given back, to be handed out again; each is checked to be
    /// empty before reuse.
    free: Vec<usize>,
}

impl System {
    /// An allocator that holds no region.
    pub fn new() -> (s: System)
        ensures
            s.blocks() == Map::<usize, Region>::empty(),
    {
        let s = System { slots: Vec::new(), free: Vec::new() };
        assert(s.blocks() =~= Map::<usize, Region>::empty());
        s
    }

    /// Takes the region under `h` out of the table.
    fn take_slot(&mut self, h: usize) -> (s: Stored)
        requires
            old(self).blocks().contains_key(h),
        ensures
            final(self).blocks() == old(self).blocks().remove(h),
            region_of(s) == old(self).blocks()[h],
            final(self).slots@.len() == old(self).slots@.len(),
    {
        let ghost before = self.slots@;
        let mut cur: Option<Stored> = None;
        self.slots.set_and_swap(h, &mut cur);
        proof {
            lemma_blocks_update(before, h, None);
        }
        cur.unwrap()
    }

    /// Puts `s` under the handle `h`, which holds nothing.
    fn put_slot(&mut self, h: usize, s: Stored)
        requires
            (h as int) < old(self).slots@.len(),
        ensures
            final(self).blocks() == old(self).blocks().insert(h, region_of(s)),
            final(self).slots@.len() == old(self).slots@.len(),
    {
        let ghost before = self.slots@;
        self.slots.set(h, Some(s));
        proof {
            lemma_blocks_update(before, h, Some(self.slots@[h as int]->Some_0));
        }
    }

    /// The bytes of a live region.
    pub fn bytes(&self, block: Block) -> (r: &[u8])
        requires
            self.blocks().contains_key(block.handle),
        ensures
            r@ == self.blocks()[block.handle].bytes,
    {
        self.slots[block.handle].as_ref().unwrap().bytes.as_slice()
    }

    /// Stores `value` at `offset` in a live region.
    pub fn write(&mut self, block: Block, offset: usize, value: u8)
        requires
            old(self).blocks().contains_key(block.handle),
            offset < old(self).blocks()[block.handle].bytes.len(),
        ensures
            final(self).blocks() == old(self).blocks().insert(
                block.handle,
                Region {
                    bytes: old(self).blocks()[block.handle].bytes.update(offset as int, value),
                    align: old(self).blocks()[block.handle].align,
                },
            ),
    {
        let mut s = self.take_slot(block.handle);
        s.bytes.set(offset, value);
        self.put_slot(block.handle, s);
        proof {
            assert(old(self).blocks().remove(block.handle).insert(block.handle, region_of(s))
                =~= old(self).blocks().insert(block.handle, region_of(s)));
        }
    }

    /// A new zero-filled region; the sentinel for size zero.
    fn alloc_impl(&mut self, layout: Layout) -> (r: Result<Block, AllocError>)
        ensures
            allocated(old(self).blocks(), final(self).blocks(), layout, r),
            r matches Ok(b) ==> zero_from(contents(final(self).blocks(), b), 0),
    {
        let size = layout.size();
        if size == 0 {
            return Ok(Block::dangling());
        }
        let bytes = match zeroed_bytes(size) {
            Some(b) => b,
            None => {
                return Err(AllocError);
            },
        };
        let stored = Stored { bytes, align: layout.align() };
        if let Some(h) = self.free.pop() {
            if h < self.slots.len() && self.slots[h].is_none() {
                self.put_slot(h, stored);
                return Ok(Block { handle: h, size });
            }
        }
        let h = self.slots.len();
        if h == DANGLING {
            return Err(AllocError);
        }
        let ghost before = self.slots@;
        self.slots.push(Some(stored));
        proof {
            let s = self.slots@[h as int]->Some_0;
            assert(self.slots@ == before.push(Some(s)));
            lemma_blocks_push(before, s);
        }
        Ok(Block { handle: h, size })
    }

    /// Moves `block` into a fresh region for `new_layout`, copying its first
    /// `kept` bytes; the rest of the new region is zero.
    fn relocate(&mut self, block: Block, old_layout: Layout, new_layout: Layout, kept: usize) -> (r:
        Result<Block, AllocError>)
        requires
            old_layout.spec_size() > 0,
            new_layout.spec_size() > 0,
            kept <= old_layout.spec_size(),
            kept <= new_layout.spec_size(),
            occupies(old(self).blocks(), block, old_layout),
        ensures
            resized(
                old(self).blocks(),
                final(self).blocks(),
                block,
                old_layout,
                new_layout,
                kept as int,
                r,
            ),
            r matches Ok(nb) ==> zero_from(contents(final(self).blocks(), nb), kept as int),
    {
        let ghost before = self.blocks();
        let nb = match self.alloc_impl(new_layout) {
            Ok(b) => b,
            Err(e) => {
                return Err(e);
            },
        };
        let src = self.take_slot(block.handle);
        let mut dst = self.take_slot(nb.handle);
        let ghost zeros = dst.bytes@;
        let mut i: usize = 0;
        while i < kept
            invariant
                i <= kept,
                kept <= src.bytes@.len(),
                kept <= dst.bytes@.len(),
                dst.bytes@.len() == zeros.len(),
                dst.align == new_layout.spec_align(),
                dst.bytes@.take(i as int) == src.bytes@.take(i as int),
                zero_from(zeros, 0),
                forall|j: int| kept <= j < zeros.len() ==> dst.bytes@[j] == zeros[j],
            decreases kept - i,
        {
            let byte = src.bytes[i];
            dst.bytes.set(i, byte);
            i = i + 1;
            assert(dst.bytes@.take(i as int) =~= src.bytes@.take(i as int));
        }
        let ghost fin = region_of(dst);
        self.put_slot(nb.handle, dst);
        proof {
            assert(self.blocks() =~= before.remove(block.handle).insert(nb.handle, fin));
            assert(contents(self.blocks(), nb) == fin.bytes);
            assert(contents(before, block) == src.bytes@);
            assert(fin.bytes.take(kept as int) == src.bytes@.take(kept as int));
            assert forall|j: int| kept <= j < fin.bytes.len() implies fin.bytes[j] == 0 by {
                assert(fin.bytes[j] == zeros[j]);
            }
        }
        Ok(nb)
    }

    /// Gives back the region of `block`; nothing for the sentinel.
    fn release(&mut self, block: Block, layout: Layout)
        requires
            occupies(old(self).blocks(), block, layout),
        ensures
            final(self).blocks() == released(old(self).blocks(), block, layout),
    {
        if layout.size() != 0 {
            let _gone = self.take_slot(block.handle);
            self.free.push(block.handle);
        }
    }

    /// Grows in place when the alignment is unchanged, else moves; the added
    /// bytes are zero either way.
    fn grow_impl(&mut self, block: Block, old_layout: Layout, new_layout: Layout) -> (r: Result<
        Block,
        AllocError,
    >)
        requires
            new_layout.spec_size() >= old_layout.spec_size(),
            occupies(old(self).blocks(), block, old_layout),
        ensures
            resized(
                old(self).blocks(),
                final(self).blocks(),
                block,
                old_layout,
                new_layout,
                old_layout.spec_size() as int,
                r,
            ),
            new_layout.spec_size() == 0 ==> r is Ok,
            r matches Ok(nb) ==> zero_from(
                contents(final(self).blocks(), nb),
                old_layout.spec_size() as int,
            ),
    {
        let old_size = old_layout.size();
        let new_size = new_layout.size();
        if old_size == 0 {
            let r = self.alloc_impl(new_layout);
            proof {
                if let Ok(nb) = r {
                    assert(contents(self.blocks(), nb).take(0) =~= contents(old(self).blocks(), block).take(0));
                }
            }
            return r;
        }
        if new_layout.align() != old_layout.align() {
            return self.relocate(block, old_layout, new_layout, old_size);
        }
        let ghost before = self.blocks();
        let h = block.handle;
        let mut s = self.take_slot(h);
        if s.bytes.try_reserve(new_size - old_size).is_err() {
            self.put_slot(h, s);
            proof {
                assert(self.blocks() =~= before);
            }
            return Err(AllocError);
        }
        let ghost old_bytes = s.bytes@;
        extend_zeroed(&mut s.bytes, new_size);
        let ghost fin = region_of(s);
        self.put_slot(h, s);
        proof {
            assert(self.blocks() =~= before.remove(h).insert(h, fin));
            assert(old_bytes.take(old_size as int) =~= old_bytes);
            assert(contents(self.blocks(), Block { handle: h, size: new_size }) == fin.bytes);
        }
        Ok(Block { handle: h, size: new_size })
    }
}

impl Allocator for System {
    closed spec fn blocks(&self) -> Map<usize, Region> {
        blocks_of(self.slots@)
    }

    fn allocate(&mut self, layout: Layout) -> (r: Result<Block, AllocError>) {
        self.alloc_impl(layout)
    }

    fn allocate_zeroed(&mut self, layout: Layout) -> (r: Result<Block, AllocError>) {
        self.alloc_impl(layout)
    }

    fn deallocate(&mut self, block: Block, layout: Layout) {
        self.release(block, layout)
    }

    fn grow(&mut self, block: Block, old_layout: Layout, new_layout: Layout) -> (r: Result<
        Block,
        AllocError,
    >) {
        self.grow_impl(block, old_layout, new_layout)
    }

    fn grow_zeroed(&mut self, block: Block, old_layout: Layout, new_layout: Layout) -> (r: Result<
        Block,
        AllocError,
    >) {
        self.grow_impl(block, old_layout, new_layout)
    }

    fn shrink(&mut self, block: Block, old_layout: Layout, new_layout: Layout) -> (r: Result<
        Block,
        AllocError,
    >) {
        let new_size = new_layout.size();
        if new_size == 0 {
            self.release(block, old_layout);
            let nb = Block::dangling();
            proof {
                assert(contents(self.blocks(), nb).take(0) =~= contents(old(self).blocks(), block).take(0));
            }
            return Ok(nb);
        }
        if new_layout.align() != old_layout.align() {
            return self.relocate(block, old_layout, new_layout, new_size);
        }
        let ghost before = self.blocks();
        let h = block.handle;
        let mut s = self.take_slot(h);
        let ghost old_bytes = s.bytes@;
        s.bytes.truncate(new_size);
        let ghost fin = region_of(s);
        self.put_slot(h, s);
        proof {
            assert(self.blocks() =~= before.remove(h).insert(h, fin));
            assert(contents(self.blocks(), Block { handle: h, size: new_size }) == fin.bytes);
            assert(fin.bytes.take(new_size as int) =~= old_bytes.take(new_size as int));
        }
        Ok(Block { handle: h, size: new_size })
    }
}

} // verus!
