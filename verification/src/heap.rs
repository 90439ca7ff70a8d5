//! First-fit region allocator with per-block size headers.
//!
//! The modem firmware asks its host for heap memory from two places: private
//! RAM for its own bookkeeping, and the transmit part of the memory region it
//! shares with the coprocessor.  One [`RegionAllocator`] instance serves each
//! region, and the two must never cross-allocate.
//!
//! The allocator hands out addresses from a fixed region.  Every block is
//! sized as the caller's request plus a one-word header, rounded up to the
//! word size; the header records the total block size so that a later
//! [`RegionAllocator::free`] can restore exactly the layout chosen at
//! allocation time.  Allocation is first-fit over an address-ordered list of
//! free blocks; freeing re-inserts the block and merges it with any adjacent
//! free neighbour, so a free exactly undoes the allocation that produced the
//! pointer.

use vstd::prelude::*;

verus! {

/// Alignment and header size, in bytes, of every allocated block.
pub const WORD_SIZE: usize = 4;

/// A contiguous span of region memory: either a free block on the free list
/// or a live allocation (whose `addr` is the header address and whose `size`
/// is the total block size, header included).
#[derive(Clone, Copy, Debug)]
pub struct Block {
    /// First address of the block.
    pub addr: usize,
    /// Length of the block in bytes.
    pub size: usize,
}

/// First-fit allocator over one fixed memory region.
pub struct RegionAllocator {
    base: usize,
    size: usize,
    holes: Vec<Block>,
    allocs: Vec<Block>,
}

/// The smallest multiple of the word size that is at least `n`.
pub open spec fn round_up_word(n: int) -> int {
    ((n + (WORD_SIZE - 1)) / (WORD_SIZE as int)) * (WORD_SIZE as int)
}

/// Total block size backing a request of `requested` bytes: the payload plus
/// the size header, rounded up to the word size.
pub open spec fn total_size_of(requested: int) -> int {
    round_up_word(requested + WORD_SIZE)
}

/// Two spans do not share any address.
pub open spec fn blocks_disjoint(a: Block, b: Block) -> bool {
    a.addr + a.size <= b.addr || b.addr + b.size <= a.addr
}

/// Index of the first free block that can hold `total` bytes.
pub open spec fn ff_index(holes: Seq<Block>, total: int) -> Option<int>
    decreases holes.len(),
{
    if holes.len() == 0 {
        None
    } else if holes[0].size >= total {
        Some(0int)
    } else {
        match ff_index(holes.drop_first(), total) {
            None => None,
            Some(j) => Some(j + 1),
        }
    }
}

/// Index of the first live allocation whose header sits at `header`.
pub open spec fn find_alloc(allocs: Seq<Block>, header: int) -> Option<int>
    decreases allocs.len(),
{
    if allocs.len() == 0 {
        None
    } else if allocs[0].addr == header {
        Some(0int)
    } else {
        match find_alloc(allocs.drop_first(), header) {
            None => None,
            Some(j) => Some(j + 1),
        }
    }
}

/// Number of free blocks that start at or before `addr`; the position at
/// which a block at `addr` is inserted into the address-ordered free list.
pub open spec fn ins_pos(holes: Seq<Block>, addr: int) -> int
    decreases holes.len(),
{
    if holes.len() == 0 {
        0
    } else if addr < holes[0].addr {
        0
    } else {
        1 + ins_pos(holes.drop_first(), addr)
    }
}

/// The free list after giving block `b` back: `b` is inserted in address
/// order and merged with the free neighbour on either side when adjacent.
pub open spec fn insert_coalesced(holes: Seq<Block>, b: Block) -> Seq<Block> {
    let p = ins_pos(holes, b.addr as int);
    let merge_pred = p > 0 && holes[p - 1].addr + holes[p - 1].size == b.addr;
    let merge_succ = p < holes.len() && b.addr + b.size == holes[p].addr;
    if merge_pred && merge_succ {
        holes.update(
            p - 1,
            Block {
                addr: holes[p - 1].addr,
                size: (holes[p - 1].size + b.size + holes[p].size) as usize,
            },
        ).remove(p)
    } else if merge_pred {
        holes.update(
            p - 1,
            Block { addr: holes[p - 1].addr, size: (holes[p - 1].size + b.size) as usize },
        )
    } else if merge_succ {
        holes.update(p, Block { addr: b.addr, size: (b.size + holes[p].size) as usize })
    } else {
        holes.insert(p, b)
    }
}

impl RegionAllocator {
    /// First address of the managed region.
    pub closed spec fn spec_base(self) -> int {
        self.base as int
    }

    /// Length of the managed region in bytes.
    pub closed spec fn spec_size(self) -> int {
        self.size as int
    }

    /// The free list, in address order.
    pub closed spec fn holes_view(self) -> Seq<Block> {
        self.holes@
    }

    /// The live allocations: header address and total block size of each,
    /// in allocation order.  This is the model of the size headers written
    /// in front of every payload.
    pub closed spec fn allocs_view(self) -> Seq<Block> {
        self.allocs@
    }

    /// A span that lies inside the region, word-aligned and non-empty.
    pub open spec fn block_in_region(self, b: Block) -> bool {
        &&& self.spec_base() <= b.addr
        &&& b.addr + b.size <= self.spec_base() + self.spec_size()
        &&& (b.addr as int) % (WORD_SIZE as int) == 0
        &&& (b.size as int) % (WORD_SIZE as int) == 0
        &&& b.size > 0
    }

    /// Allocator invariant: region bounds fit the address space; free blocks
    /// are in-region, address-ordered and separated (adjacent free blocks
    /// have been merged); live allocations are in-region, at least one word
    /// long, and no two spans -- free or allocated -- overlap.
    pub open spec fn wf(self) -> bool {
        &&& self.spec_base() % (WORD_SIZE as int) == 0
        &&& self.spec_size() % (WORD_SIZE as int) == 0
        &&& self.spec_base() + self.spec_size() <= usize::MAX as int
        &&& forall|i: int|
            0 <= i < self.holes_view().len() ==> self.block_in_region(#[trigger] self.holes_view()[i])
        &&& forall|i: int, j: int|
            0 <= i < j < self.holes_view().len() ==> #[trigger] self.holes_view()[i].addr
                + self.holes_view()[i].size < #[trigger] self.holes_view()[j].addr
        &&& forall|i: int|
            0 <= i < self.allocs_view().len() ==> self.block_in_region(
                #[trigger] self.allocs_view()[i],
            )
        &&& forall|i: int, j: int|
            0 <= i < j < self.allocs_view().len() ==> blocks_disjoint(
                #[trigger] self.allocs_view()[i],
                #[trigger] self.allocs_view()[j],
            )
        &&& forall|i: int, j: int|
            0 <= i < self.holes_view().len() && 0 <= j < self.allocs_view().len()
                ==> blocks_disjoint(
                #[trigger] self.holes_view()[i],
                #[trigger] self.allocs_view()[j],
            )
    }

    /// `ptr` is a payload address handed out by this allocator and not yet
    /// freed: one word past the header of some live allocation.
    pub open spec fn is_payload(self, ptr: usize) -> bool {
        exists|i: int|
            0 <= i < self.allocs_view().len() && #[trigger] self.allocs_view()[i].addr
                + WORD_SIZE == ptr
    }

    /// Create an allocator over the region `[base, base + size)`, with the
    /// whole region as one free block.
    pub fn new(base: usize, size: usize) -> (r: RegionAllocator)
        requires
            base as int % (WORD_SIZE as int) == 0,
            size as int % (WORD_SIZE as int) == 0,
            base + size <= usize::MAX,
        ensures
            r.wf(),
            r.spec_base() == base,
            r.spec_size() == size,
            r.allocs_view() == Seq::<Block>::empty(),
            size > 0 ==> r.holes_view() == seq![Block { addr: base, size }],
            size == 0 ==> r.holes_view() == Seq::<Block>::empty(),
    {
        let mut holes: Vec<Block> = Vec::new();
        if size > 0 {
            holes.push(Block { addr: base, size });
        }
        let r = RegionAllocator { base, size, holes, allocs: Vec::new() };
        proof {
            if size > 0 {
                assert(r.holes_view() =~= seq![Block { addr: base, size }]);
            } else {
                assert(r.holes_view() =~= Seq::<Block>::empty());
            }
            assert(r.allocs_view() =~= Seq::<Block>::empty());
        }
        r
    }

    /// What a successful or failed allocation does to the allocator: on the
    /// first free block that fits, the block's front becomes the new
    /// allocation and the remainder (if any) stays free; with no fitting
    /// block nothing changes.
    pub open spec fn allocate_post(pre: RegionAllocator, requested: int, post: RegionAllocator, r: Option<usize>) -> bool {
        let total = total_size_of(requested);
        &&& post.spec_base() == pre.spec_base()
        &&& post.spec_size() == pre.spec_size()
        &&& match ff_index(pre.holes_view(), total) {
            None => {
                &&& r is None
                &&& post.holes_view() == pre.holes_view()
                &&& post.allocs_view() == pre.allocs_view()
            },
            Some(i) => {
                let h = pre.holes_view()[i];
                &&& r == Some((h.addr + WORD_SIZE) as usize)
                &&& post.allocs_view() == pre.allocs_view().push(
                    Block { addr: h.addr, size: total as usize },
                )
                &&& post.holes_view() == if h.size == total {
                    pre.holes_view().remove(i)
                } else {
                    pre.holes_view().update(
                        i,
                        Block { addr: (h.addr + total) as usize, size: (h.size - total) as usize },
                    )
                }
            },
        }
    }

    /// Allocate `requested` bytes; returns the payload address, or `None`
    /// when no free block can hold the request (the caller treats `None` as
    /// out-of-memory).  The request never fails for any other reason.
    pub fn allocate(&mut self, requested: usize) -> (r: Option<usize>)
        requires
            old(self).wf(),
        ensures
            final(self).wf(),
            RegionAllocator::allocate_post(*old(self), requested as int, *final(self), r),
            r is None <==> (forall|i: int|
                0 <= i < old(self).holes_view().len()
                    ==> (#[trigger] old(self).holes_view()[i]).size < total_size_of(
                    requested as int,
                )),
            r is Some ==> final(self).is_payload(r->Some_0),
    {
        proof {
            lemma_ff_index_none_iff(self.holes_view(), total_size_of(requested as int));
            lemma_round_up_props(requested + WORD_SIZE);
        }
        if requested > usize::MAX - (WORD_SIZE + WORD_SIZE - 1) {
            // The padded request does not even fit in the address space, so
            // no free block can hold it.
            proof {
                assert forall|i: int| 0 <= i < self.holes_view().len() implies
                    (#[trigger] self.holes_view()[i]).size < total_size_of(requested as int) by {
                    assert(self.holes_view()[i].size <= usize::MAX);
                }
            }
            return None;
        }
        let total: usize = (requested + WORD_SIZE + (WORD_SIZE - 1)) / WORD_SIZE * WORD_SIZE;
        assert(total == total_size_of(requested as int));
        let ghost pre = *self;
        let mut i: usize = 0;
        while i < self.holes.len()
            invariant
                *self == pre,
                pre == *old(self),
                self.wf(),
                total as int == total_size_of(requested as int),
                (total as int) % (WORD_SIZE as int) == 0,
                total >= WORD_SIZE,
                0 <= i <= self.holes_view().len(),
                forall|k: int| 0 <= k < i ==> (#[trigger] self.holes_view()[k]).size < total,
            decreases self.holes.len() - i,
        {
            if self.holes[i].size >= total {
                proof {
                    lemma_ff_index_at(self.holes_view(), total as int, i as int);
                }
                let h = self.holes[i];
                self.allocs.push(Block { addr: h.addr, size: total });
                if h.size == total {
                    self.holes.remove(i);
                } else {
                    self.holes.remove(i);
                    self.holes.insert(i, Block { addr: h.addr + total, size: h.size - total });
                    proof {
                        assert(self.holes@ =~= pre.holes@.update(
                            i as int,
                            Block { addr: (h.addr + total) as usize, size: (h.size - total) as usize },
                        ));
                    }
                }
                proof {
                    lemma_allocate_wf(pre, *self, i as int, total as int);
                    assert(final(self).is_payload((h.addr + WORD_SIZE) as usize)) by {
                        assert(self.allocs_view()[self.allocs_view().len() - 1].addr + WORD_SIZE
                            == h.addr + WORD_SIZE);
                    }
                }
                return Some(h.addr + WORD_SIZE);
            }
            i = i + 1;
        }
        proof {
            lemma_ff_index_at(self.holes_view(), total as int, self.holes_view().len() as int);
            lemma_ff_index_none_iff(self.holes_view(), total as int);
        }
        None
    }

    /// What freeing the payload at `ptr` does: the allocation whose header
    /// sits one word before `ptr` is dropped from the live set and its whole
    /// block returns to the free list, merged with adjacent free blocks.
    pub open spec fn free_post(pre: RegionAllocator, ptr: usize, post: RegionAllocator) -> bool {
        &&& post.spec_base() == pre.spec_base()
        &&& post.spec_size() == pre.spec_size()
        &&& match find_alloc(pre.allocs_view(), ptr - WORD_SIZE) {
            None => post.holes_view() == pre.holes_view() && post.allocs_view()
                == pre.allocs_view(),
            Some(i) => {
                &&& post.allocs_view() == pre.allocs_view().remove(i)
                &&& post.holes_view() == insert_coalesced(
                    pre.holes_view(),
                    pre.allocs_view()[i],
                )
            },
        }
    }

    /// Return the payload at `ptr` to the region.  `ptr` must be a payload
    /// address previously handed out by [`RegionAllocator::allocate`] on
    /// this same instance and not yet freed; the size recorded at
    /// allocation time decides how much memory is released.
    pub fn free(&mut self, ptr: usize)
        requires
            old(self).wf(),
            old(self).is_payload(ptr),
        ensures
            final(self).wf(),
            RegionAllocator::free_post(*old(self), ptr, *final(self)),
    {
        let ghost pre = *self;
        let header: usize = ptr - WORD_SIZE;
        // Find the recorded allocation.
        let mut i: usize = 0;
        let n = self.allocs.len();
        while i < n
            invariant
                *self == pre,
                pre == *old(self),
                self.wf(),
                n == self.allocs_view().len(),
                0 <= i <= n,
                forall|k: int| 0 <= k < i ==> (#[trigger] self.allocs_view()[k]).addr != header,
                pre.is_payload(ptr),
                ptr >= WORD_SIZE,
                header == ptr - WORD_SIZE,
            decreases n - i,
        {
            if self.allocs[i].addr == header {
                proof {
                    lemma_find_alloc_at(self.allocs_view(), header as int, i as int);
                }
                let b = self.allocs[i];
                self.allocs.remove(i);
                proof {
                    let ii = i as int;
                    assert forall|k: int| 0 <= k < self.allocs_view().len() implies blocks_disjoint(
                        #[trigger] self.allocs_view()[k],
                        b,
                    ) by {
                        if k < ii {
                            assert(self.allocs_view()[k] == pre.allocs_view()[k]);
                            assert(blocks_disjoint(pre.allocs_view()[k], pre.allocs_view()[ii]));
                        } else {
                            assert(self.allocs_view()[k] == pre.allocs_view()[k + 1]);
                            assert(blocks_disjoint(pre.allocs_view()[ii], pre.allocs_view()[k + 1]));
                        }
                    }
                    assert forall|k: int| 0 <= k < self.allocs_view().len() implies pre.block_in_region(
                        #[trigger] self.allocs_view()[k],
                    ) by {
                        if k < ii {
                            assert(self.allocs_view()[k] == pre.allocs_view()[k]);
                        } else {
                            assert(self.allocs_view()[k] == pre.allocs_view()[k + 1]);
                        }
                    }
                    assert forall|k: int, l: int|
                        0 <= k < l < self.allocs_view().len() implies blocks_disjoint(
                        #[trigger] self.allocs_view()[k],
                        #[trigger] self.allocs_view()[l],
                    ) by {
                        let k0 = if k < ii { k } else { k + 1 };
                        let l0 = if l < ii { l } else { l + 1 };
                        assert(self.allocs_view()[k] == pre.allocs_view()[k0]);
                        assert(self.allocs_view()[l] == pre.allocs_view()[l0]);
                        assert(blocks_disjoint(pre.allocs_view()[k0], pre.allocs_view()[l0]));
                    }
                    assert forall|k: int, l: int|
                        0 <= k < self.holes_view().len() && 0 <= l < self.allocs_view().len()
                        implies blocks_disjoint(
                        #[trigger] self.holes_view()[k],
                        #[trigger] self.allocs_view()[l],
                    ) by {
                        let l0 = if l < ii { l } else { l + 1 };
                        assert(self.allocs_view()[l] == pre.allocs_view()[l0]);
                        assert(blocks_disjoint(pre.holes_view()[k], pre.allocs_view()[l0]));
                    }
                }
                self.insert_hole(Ghost(pre), b);
                return ;
            }
            i = i + 1;
        }
        proof {
            // Contradiction: the requires said some allocation matches.
            let j = choose|j: int|
                0 <= j < pre.allocs_view().len() && #[trigger] pre.allocs_view()[j].addr
                    + WORD_SIZE == ptr;
            assert(pre.allocs_view()[j].addr == header);
            assert(false);
        }
    }

    /// Insert block `b` (just removed from the allocation list of `pre`)
    /// into the free list, merging with adjacent free blocks.
    fn insert_hole(&mut self, Ghost(pre): Ghost<RegionAllocator>, b: Block)
        requires
            old(self).spec_base() == pre.spec_base(),
            old(self).spec_size() == pre.spec_size(),
            old(self).holes_view() == pre.holes_view(),
            pre.wf(),
            pre.block_in_region(b),
            forall|i: int|
                0 <= i < pre.holes_view().len() ==> blocks_disjoint(
                    #[trigger] pre.holes_view()[i],
                    b,
                ),
            forall|i: int|
                0 <= i < old(self).allocs_view().len() ==> blocks_disjoint(
                    #[trigger] old(self).allocs_view()[i],
                    b,
                ),
            forall|i: int|
                0 <= i < old(self).allocs_view().len() ==> pre.block_in_region(
                    #[trigger] old(self).allocs_view()[i],
                ),
            forall|i: int, j: int|
                0 <= i < j < old(self).allocs_view().len() ==> blocks_disjoint(
                    #[trigger] old(self).allocs_view()[i],
                    #[trigger] old(self).allocs_view()[j],
                ),
            forall|i: int, j: int|
                0 <= i < old(self).holes_view().len() && 0 <= j < old(self).allocs_view().len()
                    ==> blocks_disjoint(
                    #[trigger] old(self).holes_view()[i],
                    #[trigger] old(self).allocs_view()[j],
                ),
        ensures
            final(self).wf(),
            final(self).spec_base() == old(self).spec_base(),
            final(self).spec_size() == old(self).spec_size(),
            final(self).allocs_view() == old(self).allocs_view(),
            final(self).holes_view() == insert_coalesced(old(self).holes_view(), b),
    {
        let ghost holes0 = self.holes@;
        // Find the insertion position: past every free block that starts at
        // or before `b`.
        let mut p: usize = 0;
        let n = self.holes.len();
        while p < n && self.holes[p].addr <= b.addr
            invariant
                self.holes@ == holes0,
                n == holes0.len(),
                0 <= p <= n,
                forall|k: int| 0 <= k < p ==> (#[trigger] holes0[k]).addr <= b.addr,
            decreases n - p,
        {
            p = p + 1;
        }
        proof {
            lemma_ins_pos_skip(holes0, b.addr as int, p as int);
            if p < n {
                assert(holes0.skip(p as int)[0] == holes0[p as int]);
                assert(b.addr < holes0[p as int].addr);
                assert(ins_pos(holes0.skip(p as int), b.addr as int) == 0);
            } else {
                assert(holes0.skip(p as int) =~= Seq::<Block>::empty());
            }
            assert(ins_pos(holes0, b.addr as int) == p);
        }
        let ghost pi = p as int;
        let merge_pred = p > 0 && {
            let ph = self.holes[p - 1];
            ph.addr + ph.size == b.addr
        };
        let merge_succ = p < self.holes.len() && b.addr + b.size == self.holes[p].addr;
        if merge_pred && merge_succ {
            let pred = self.holes[p - 1];
            let succ = self.holes[p];
            let merged = Block { addr: pred.addr, size: pred.size + b.size + succ.size };
            self.holes.remove(p - 1);
            self.holes.insert(p - 1, merged);
            self.holes.remove(p);
            proof {
                assert(self.holes@ =~= holes0.update(pi - 1, merged).remove(pi));
            }
        } else if merge_pred {
            let pred = self.holes[p - 1];
            let merged = Block { addr: pred.addr, size: pred.size + b.size };
            self.holes.remove(p - 1);
            self.holes.insert(p - 1, merged);
            proof {
                assert(self.holes@ =~= holes0.update(pi - 1, merged));
            }
        } else if merge_succ {
            let succ = self.holes[p];
            let merged = Block { addr: b.addr, size: b.size + succ.size };
            self.holes.remove(p);
            self.holes.insert(p, merged);
            proof {
                assert(self.holes@ =~= holes0.update(pi, merged));
            }
        } else {
            self.holes.insert(p, b);
        }
        proof {
            lemma_insert_hole_wf(pre, *old(self), *self, b, pi);
        }
    }

    /// Executable mirror of [`RegionAllocator::is_payload`]: does `ptr`
    /// point at a live payload of this allocator?
    pub fn owns_payload(&self, ptr: usize) -> (r: bool)
        ensures
            r == self.is_payload(ptr),
    {
        let mut i: usize = 0;
        let n = self.allocs.len();
        while i < n
            invariant
                n == self.allocs_view().len(),
                0 <= i <= n,
                forall|k: int|
                    0 <= k < i ==> (#[trigger] self.allocs_view()[k]).addr + WORD_SIZE != ptr,
            decreases n - i,
        {
            if ptr >= WORD_SIZE && self.allocs[i].addr == ptr - WORD_SIZE {
                return true;
            }
            proof {
                if self.allocs_view()[i as int].addr + WORD_SIZE == ptr {
                    assert(ptr >= WORD_SIZE);
                    assert(false);
                }
            }
            i = i + 1;
        }
        false
    }

    /// Total number of free bytes left in the region.
    pub fn free_bytes(&self) -> (r: usize)
        requires
            self.wf(),
        ensures
            r as int == sum_sizes(self.holes_view()),
    {
        proof {
            lemma_sum_sizes_bounded(*self, self.holes_view().len() as int);
        }
        let mut total: usize = 0;
        let mut i: usize = 0;
        let n = self.holes.len();
        while i < n
            invariant
                self.wf(),
                n == self.holes_view().len(),
                0 <= i <= n,
                total as int == sum_sizes(self.holes_view().take(i as int)),
                total as int <= self.spec_size(),
            decreases n - i,
        {
            proof {
                assert(self.holes_view().take(i as int + 1).drop_last() =~= self.holes_view().take(
                    i as int,
                ));
                assert(self.holes_view().take(i as int + 1).last() == self.holes_view()[i as int]);
                lemma_sum_sizes_bounded(*self, i as int + 1);
            }
            total = total + self.holes[i].size;
            i = i + 1;
        }
        proof {
            assert(self.holes_view().take(n as int) =~= self.holes_view());
        }
        total
    }
}

/// Allocator round-trip law: allocating any size the region can hold and
/// immediately freeing the returned pointer restores the free list and the
/// allocation records exactly as they were, and a further allocation of the
/// same size receives the same address again.
pub proof fn lemma_allocate_free_round_trip(
    pre: RegionAllocator,
    mid: RegionAllocator,
    post: RegionAllocator,
    requested: int,
    p: usize,
)
    requires
        pre.wf(),
        requested >= 0,
        RegionAllocator::allocate_post(pre, requested, mid, Some(p)),
        RegionAllocator::free_post(mid, p, post),
    ensures
        post.holes_view() == pre.holes_view(),
        post.allocs_view() == pre.allocs_view(),
        post.spec_base() == pre.spec_base(),
        post.spec_size() == pre.spec_size(),
        forall|next: RegionAllocator, r: Option<usize>|
            RegionAllocator::allocate_post(post, requested, next, r) ==> r == Some(p),
{
    let total = total_size_of(requested);
    lemma_round_up_props(requested + WORD_SIZE);
    lemma_ff_index_none_iff(pre.holes_view(), total);
    let i = ff_index(pre.holes_view(), total)->Some_0;
    let h = pre.holes_view()[i];
    let nb = Block { addr: h.addr, size: total as usize };
    assert(p == h.addr + WORD_SIZE);
    assert(mid.allocs_view() == pre.allocs_view().push(nb));
    // The freed header is found at the freshly pushed record: no older
    // record can share its address, since every live allocation is disjoint
    // from the free block the new one was carved from.
    let n0 = pre.allocs_view().len() as int;
    assert forall|k: int| 0 <= k < n0 implies (#[trigger] mid.allocs_view()[k]).addr
        != h.addr by {
        assert(mid.allocs_view()[k] == pre.allocs_view()[k]);
        assert(blocks_disjoint(pre.holes_view()[i], pre.allocs_view()[k]));
        assert(pre.block_in_region(pre.allocs_view()[k]));
    }
    assert(mid.allocs_view()[n0].addr == h.addr);
    lemma_find_alloc_at(mid.allocs_view(), h.addr as int, n0);
    assert(find_alloc(mid.allocs_view(), p - WORD_SIZE) == Some(n0));
    assert(post.allocs_view() =~= pre.allocs_view());
    // The freed block goes back exactly where it was carved out.
    let mh = mid.holes_view();
    assert forall|k: int| 0 <= k < i implies (#[trigger] mh[k]).addr <= nb.addr by {
        assert(mh[k] == pre.holes_view()[k]);
        assert(pre.holes_view()[k].addr + pre.holes_view()[k].size < h.addr);
        assert(pre.block_in_region(pre.holes_view()[k]));
    }
    lemma_ins_pos_skip(mh, nb.addr as int, i);
    if h.size == total {
        // The whole free block was consumed; it is re-inserted unmerged.
        assert(mh =~= pre.holes_view().remove(i));
        if i < mh.len() {
            assert(mh.skip(i)[0] == mh[i]);
            assert(mh[i] == pre.holes_view()[i + 1]);
            assert(h.addr + h.size < pre.holes_view()[i + 1].addr);
            assert(nb.addr < mh[i].addr);
        } else {
            assert(mh.skip(i) =~= Seq::<Block>::empty());
        }
        assert(ins_pos(mh, nb.addr as int) == i);
        if i > 0 {
            assert(mh[i - 1] == pre.holes_view()[i - 1]);
            assert(pre.holes_view()[i - 1].addr + pre.holes_view()[i - 1].size < h.addr);
        }
        if i < mh.len() {
            assert(nb.addr + nb.size < mh[i].addr);
        }
        assert(post.holes_view() == mh.insert(i, nb));
        assert(nb == h);
        assert(post.holes_view() =~= pre.holes_view());
    } else {
        // The block is merged back with the shrunken remainder in front of
        // which it was carved.
        let rb = Block { addr: (h.addr + total) as usize, size: (h.size - total) as usize };
        assert(mh =~= pre.holes_view().update(i, rb));
        assert(mh.skip(i)[0] == mh[i]);
        assert(mh[i] == rb);
        assert(nb.addr < rb.addr);
        assert(ins_pos(mh, nb.addr as int) == i);
        if i > 0 {
            assert(mh[i - 1] == pre.holes_view()[i - 1]);
            assert(pre.holes_view()[i - 1].addr + pre.holes_view()[i - 1].size < h.addr);
        }
        assert(nb.addr + nb.size == rb.addr);
        let merged = Block { addr: nb.addr, size: (nb.size + rb.size) as usize };
        assert(post.holes_view() == mh.update(i, merged));
        assert(merged == h);
        assert(post.holes_view() =~= pre.holes_view());
    }
    // A repeated allocation of the same size lands on the same block again.
    assert forall|next: RegionAllocator, r: Option<usize>|
        RegionAllocator::allocate_post(post, requested, next, r) implies r == Some(p) by {
        assert(ff_index(post.holes_view(), total) == ff_index(pre.holes_view(), total));
    }
}

/// The sum of block sizes is non-negative.
proof fn lemma_sum_sizes_nonneg(blocks: Seq<Block>)
    ensures
        sum_sizes(blocks) >= 0,
    decreases blocks.len(),
{
    if blocks.len() > 0 {
        lemma_sum_sizes_nonneg(blocks.drop_last());
    }
}

/// Each block's size is at most the sum of all sizes.
proof fn lemma_sum_sizes_ge_each(blocks: Seq<Block>, i: int)
    requires
        0 <= i < blocks.len(),
    ensures
        blocks[i].size <= sum_sizes(blocks),
    decreases blocks.len(),
{
    if i + 1 < blocks.len() {
        lemma_sum_sizes_ge_each(blocks.drop_last(), i);
        assert(blocks.drop_last()[i] == blocks[i]);
    } else {
        lemma_sum_sizes_nonneg(blocks.drop_last());
    }
}

/// Allocator exhaustion law: a request larger than the total free capacity
/// of the region is refused with `None`; the allocator never answers it
/// with an overlapping or dangling block.
pub proof fn lemma_exhaustion(
    pre: RegionAllocator,
    post: RegionAllocator,
    requested: int,
    r: Option<usize>,
)
    requires
        pre.wf(),
        RegionAllocator::allocate_post(pre, requested, post, r),
        sum_sizes(pre.holes_view()) < total_size_of(requested),
    ensures
        r is None,
        post.holes_view() == pre.holes_view(),
        post.allocs_view() == pre.allocs_view(),
{
    let total = total_size_of(requested);
    assert forall|i: int| 0 <= i < pre.holes_view().len() implies (
    #[trigger] pre.holes_view()[i]).size < total by {
        lemma_sum_sizes_ge_each(pre.holes_view(), i);
    }
    lemma_ff_index_none_iff(pre.holes_view(), total);
}

/// Cross-region isolation law: two well-formed allocators over disjoint
/// regions never recognise each other's pointers -- a payload handed out by
/// one is no live payload of the other, so a free against the wrong region
/// is rejected by its size records.
pub proof fn lemma_cross_region_isolation(a: RegionAllocator, b: RegionAllocator, ptr: usize)
    requires
        a.wf(),
        b.wf(),
        a.spec_base() + a.spec_size() <= b.spec_base() || b.spec_base() + b.spec_size()
            <= a.spec_base(),
        a.is_payload(ptr),
    ensures
        !b.is_payload(ptr),
{
    let i = choose|i: int|
        0 <= i < a.allocs_view().len() && #[trigger] a.allocs_view()[i].addr + WORD_SIZE == ptr;
    assert(a.block_in_region(a.allocs_view()[i]));
    assert forall|j: int|
        0 <= j < b.allocs_view().len() implies (#[trigger] b.allocs_view()[j]).addr + WORD_SIZE
        != ptr by {
        assert(b.block_in_region(b.allocs_view()[j]));
    }
}

/// Rounding up to the word size yields a word-aligned value at most three
/// bytes past the input.
proof fn lemma_round_up_props(n: int)
    requires
        n >= 0,
    ensures
        round_up_word(n) % (WORD_SIZE as int) == 0,
        n <= round_up_word(n) < n + WORD_SIZE,
{
    let q = (n + 3) / 4;
    assert(q * 4 % 4 == 0) by (nonlinear_arith);
    vstd::arithmetic::div_mod::lemma_fundamental_div_mod(n + 3, 4);
    vstd::arithmetic::div_mod::lemma_mod_bound(n + 3, 4);
}

/// Sum of the sizes of a sequence of blocks.
pub open spec fn sum_sizes(blocks: Seq<Block>) -> int
    decreases blocks.len(),
{
    if blocks.len() == 0 {
        0
    } else {
        sum_sizes(blocks.drop_last()) + blocks.last().size
    }
}

/// In a well-formed allocator the free blocks of any prefix sum to at most
/// the region size: they are ordered, separated and inside the region.
proof fn lemma_sum_sizes_bounded(a: RegionAllocator, k: int)
    requires
        a.wf(),
        0 <= k <= a.holes_view().len(),
    ensures
        k > 0 ==> sum_sizes(a.holes_view().take(k)) <= a.holes_view()[k - 1].addr
            + a.holes_view()[k - 1].size - a.spec_base(),
        sum_sizes(a.holes_view().take(k)) <= a.spec_size(),
    decreases k,
{
    if k > 0 {
        lemma_sum_sizes_bounded(a, k - 1);
        assert(a.holes_view().take(k).drop_last() =~= a.holes_view().take(k - 1));
        assert(a.holes_view().take(k).last() == a.holes_view()[k - 1]);
    }
}

/// `ff_index` returns the index whose earlier blocks are all too small and
/// whose own block fits; scanning forward therefore lands exactly on it.
proof fn lemma_ff_index_at(holes: Seq<Block>, total: int, i: int)
    requires
        0 <= i <= holes.len(),
        forall|k: int| 0 <= k < i ==> (#[trigger] holes[k]).size < total,
        i < holes.len() ==> holes[i].size >= total,
    ensures
        i < holes.len() ==> ff_index(holes, total) == Some(i),
        i == holes.len() ==> ff_index(holes, total) is None,
    decreases holes.len(),
{
    if holes.len() > 0 {
        if holes[0].size >= total {
            assert(i == 0);
        } else {
            assert(forall|k: int|
                0 <= k < i - 1 ==> (#[trigger] holes.drop_first()[k]).size < total);
            lemma_ff_index_at(holes.drop_first(), total, i - 1);
        }
    }
}

/// No free block fits exactly when `ff_index` finds nothing.
proof fn lemma_ff_index_none_iff(holes: Seq<Block>, total: int)
    ensures
        ff_index(holes, total) is None <==> (forall|i: int|
            0 <= i < holes.len() ==> (#[trigger] holes[i]).size < total),
        ff_index(holes, total) matches Some(i) ==> 0 <= i < holes.len() && holes[i].size >= total
            && (forall|k: int| 0 <= k < i ==> (#[trigger] holes[k]).size < total),
    decreases holes.len(),
{
    if holes.len() > 0 {
        lemma_ff_index_none_iff(holes.drop_first(), total);
        if !(holes[0].size >= total) {
            assert(forall|k: int|
                1 <= k < holes.len() ==> holes.drop_first()[k - 1] == #[trigger] holes[k]);
        }
    }
}

/// `find_alloc` finds the first index whose block starts at `header`.
proof fn lemma_find_alloc_at(allocs: Seq<Block>, header: int, i: int)
    requires
        0 <= i < allocs.len(),
        forall|k: int| 0 <= k < i ==> (#[trigger] allocs[k]).addr != header,
        allocs[i].addr == header,
    ensures
        find_alloc(allocs, header) == Some(i),
    decreases allocs.len(),
{
    if i > 0 {
        assert(forall|k: int|
            0 <= k < i - 1 ==> (#[trigger] allocs.drop_first()[k]).addr != header);
        lemma_find_alloc_at(allocs.drop_first(), header, i - 1);
    }
}

/// Unrolling `ins_pos` over a scanned prefix whose blocks all start at or
/// before `addr`.
proof fn lemma_ins_pos_skip(holes: Seq<Block>, addr: int, p: int)
    requires
        0 <= p <= holes.len(),
        forall|k: int| 0 <= k < p ==> (#[trigger] holes[k]).addr <= addr,
    ensures
        ins_pos(holes, addr) == ins_pos(holes.skip(p), addr) + p,
    decreases p,
{
    if p > 0 {
        lemma_ins_pos_skip(holes, addr, p - 1);
        let s = holes.skip(p - 1);
        assert(s[0] == holes[p - 1]);
        assert(!(addr < s[0].addr));
        assert(s.drop_first() =~= holes.skip(p));
    } else {
        assert(holes.skip(0) =~= holes);
    }
}

/// Every index before `ins_pos` starts at or before `addr`; every index from
/// `ins_pos` on starts after it (under address ordering the latter needs
/// only the first).
proof fn lemma_ins_pos_bounds(holes: Seq<Block>, addr: int)
    ensures
        0 <= ins_pos(holes, addr) <= holes.len(),
        forall|k: int| 0 <= k < ins_pos(holes, addr) ==> (#[trigger] holes[k]).addr <= addr,
        ins_pos(holes, addr) < holes.len() ==> holes[ins_pos(holes, addr)].addr > addr,
    decreases holes.len(),
{
    if holes.len() > 0 && !(addr < holes[0].addr) {
        lemma_ins_pos_bounds(holes.drop_first(), addr);
        assert(forall|k: int|
            1 <= k < holes.len() ==> holes.drop_first()[k - 1] == #[trigger] holes[k]);
    }
}

/// Allocation preserves the invariant: the block taken from the front of
/// free block `i` stays disjoint from everything the free block was
/// disjoint from, and the shrunken or removed free block keeps the list
/// ordered and separated.
proof fn lemma_allocate_wf(pre: RegionAllocator, post: RegionAllocator, i: int, total: int)
    requires
        pre.wf(),
        0 <= i < pre.holes_view().len(),
        total % (WORD_SIZE as int) == 0,
        total >= WORD_SIZE,
        pre.holes_view()[i].size >= total,
        post.spec_base() == pre.spec_base(),
        post.spec_size() == pre.spec_size(),
        post.allocs_view() == pre.allocs_view().push(
            Block { addr: pre.holes_view()[i].addr, size: total as usize },
        ),
        post.holes_view() == if pre.holes_view()[i].size == total {
            pre.holes_view().remove(i)
        } else {
            pre.holes_view().update(
                i,
                Block {
                    addr: (pre.holes_view()[i].addr + total) as usize,
                    size: (pre.holes_view()[i].size - total) as usize,
                },
            )
        },
    ensures
        post.wf(),
{
    let h = pre.holes_view()[i];
    let nb = Block { addr: h.addr, size: total as usize };
    assert(pre.block_in_region(h));
    assert(post.block_in_region(nb));
    // The new allocation is disjoint from every old allocation and from
    // every other free block, because the whole free block was.
    assert forall|j: int| 0 <= j < pre.allocs_view().len() implies blocks_disjoint(
        nb,
        #[trigger] pre.allocs_view()[j],
    ) by {
        assert(blocks_disjoint(pre.holes_view()[i], pre.allocs_view()[j]));
    }
    if h.size == total {
        let nh = pre.holes_view().remove(i);
        assert forall|k: int| 0 <= k < nh.len() implies post.block_in_region(
            #[trigger] nh[k],
        ) by {
            if k < i {
                assert(nh[k] == pre.holes_view()[k]);
            } else {
                assert(nh[k] == pre.holes_view()[k + 1]);
            }
        }
        assert forall|k: int, l: int| 0 <= k < l < nh.len() implies (#[trigger] nh[k]).addr
            + nh[k].size < (#[trigger] nh[l]).addr by {
            let k0 = if k < i { k } else { k + 1 };
            let l0 = if l < i { l } else { l + 1 };
            assert(nh[k] == pre.holes_view()[k0]);
            assert(nh[l] == pre.holes_view()[l0]);
        }
        assert forall|k: int, l: int|
            0 <= k < nh.len() && 0 <= l < post.allocs_view().len() implies blocks_disjoint(
            #[trigger] nh[k],
            #[trigger] post.allocs_view()[l],
        ) by {
            let k0 = if k < i { k } else { k + 1 };
            assert(nh[k] == pre.holes_view()[k0]);
            if l < pre.allocs_view().len() {
                assert(blocks_disjoint(pre.holes_view()[k0], pre.allocs_view()[l]));
            } else {
                assert(post.allocs_view()[l] == nb);
                if k0 < i {
                    assert(pre.holes_view()[k0].addr + pre.holes_view()[k0].size
                        < pre.holes_view()[i].addr);
                } else {
                    assert(pre.holes_view()[i].addr + pre.holes_view()[i].size
                        < pre.holes_view()[k0].addr);
                }
            }
        }
    } else {
        let rb = Block { addr: (h.addr + total) as usize, size: (h.size - total) as usize };
        let nh = pre.holes_view().update(i, rb);
        assert forall|k: int| 0 <= k < nh.len() implies post.block_in_region(
            #[trigger] nh[k],
        ) by {
            if k != i {
                assert(nh[k] == pre.holes_view()[k]);
            }
        }
        assert forall|k: int, l: int| 0 <= k < l < nh.len() implies (#[trigger] nh[k]).addr
            + nh[k].size < (#[trigger] nh[l]).addr by {
            if k != i {
                assert(nh[k] == pre.holes_view()[k]);
            }
            if l != i {
                assert(nh[l] == pre.holes_view()[l]);
            }
        }
        assert forall|k: int, l: int|
            0 <= k < nh.len() && 0 <= l < post.allocs_view().len() implies blocks_disjoint(
            #[trigger] nh[k],
            #[trigger] post.allocs_view()[l],
        ) by {
            if l < pre.allocs_view().len() {
                assert(blocks_disjoint(pre.holes_view()[k], pre.allocs_view()[l]));
                if k == i {
                    assert(blocks_disjoint(nh[k], post.allocs_view()[l]));
                }
            } else {
                assert(post.allocs_view()[l] == nb);
                if k != i {
                    assert(blocks_disjoint(pre.holes_view()[k], pre.holes_view()[i]));
                }
            }
        }
    }
    assert forall|k: int, l: int| 0 <= k < l < post.allocs_view().len() implies blocks_disjoint(
        #[trigger] post.allocs_view()[k],
        #[trigger] post.allocs_view()[l],
    ) by {
        if l < pre.allocs_view().len() {
            assert(blocks_disjoint(pre.allocs_view()[k], pre.allocs_view()[l]));
        } else {
            assert(post.allocs_view()[l] == nb);
            assert(blocks_disjoint(nb, pre.allocs_view()[k]));
        }
    }
}

/// Context shared by the four coalescing cases: the free list is the
/// well-formed one of `pre`; `b` is in-region, word-sized, disjoint from
/// every free block and from every allocation of `post`; the allocations
/// of `post` are themselves in-region and pairwise disjoint; and `p` is
/// the insertion position, so blocks before it end at or before `b` and
/// blocks from it on start at or after `b`'s end.
spec fn insert_ctx(pre: RegionAllocator, post: RegionAllocator, b: Block, p: int) -> bool {
    &&& pre.wf()
    &&& pre.block_in_region(b)
    &&& post.spec_base() == pre.spec_base()
    &&& post.spec_size() == pre.spec_size()
    &&& forall|i: int|
        0 <= i < post.allocs_view().len() ==> blocks_disjoint(
            #[trigger] post.allocs_view()[i],
            b,
        )
    &&& forall|i: int|
        0 <= i < post.allocs_view().len() ==> pre.block_in_region(
            #[trigger] post.allocs_view()[i],
        )
    &&& forall|i: int, j: int|
        0 <= i < j < post.allocs_view().len() ==> blocks_disjoint(
            #[trigger] post.allocs_view()[i],
            #[trigger] post.allocs_view()[j],
        )
    &&& forall|i: int, j: int|
        0 <= i < pre.holes_view().len() && 0 <= j < post.allocs_view().len()
            ==> blocks_disjoint(
            #[trigger] pre.holes_view()[i],
            #[trigger] post.allocs_view()[j],
        )
    &&& 0 <= p <= pre.holes_view().len()
    &&& forall|k: int|
        0 <= k < p ==> (#[trigger] pre.holes_view()[k]).addr + pre.holes_view()[k].size
            <= b.addr
    &&& forall|k: int|
        p <= k < pre.holes_view().len() ==> b.addr + b.size
            <= (#[trigger] pre.holes_view()[k]).addr
}

/// Coalescing case: `b` bridges the free blocks on both sides, which merge
/// into one.
proof fn lemma_insert_merge_both(pre: RegionAllocator, post: RegionAllocator, b: Block, p: int)
    requires
        insert_ctx(pre, post, b, p),
        0 < p < pre.holes_view().len(),
        pre.holes_view()[p - 1].addr + pre.holes_view()[p - 1].size == b.addr,
        b.addr + b.size == pre.holes_view()[p].addr,
        post.holes_view() == pre.holes_view().update(
            p - 1,
            Block {
                addr: pre.holes_view()[p - 1].addr,
                size: (pre.holes_view()[p - 1].size + b.size + pre.holes_view()[p].size) as usize,
            },
        ).remove(p),
    ensures
        post.wf(),
{
    let holes = pre.holes_view();
    let nh = post.holes_view();
    let merged = Block {
        addr: holes[p - 1].addr,
        size: (holes[p - 1].size + b.size + holes[p].size) as usize,
    };
    assert(holes[p - 1].addr + (holes[p - 1].size + b.size + holes[p].size) == holes[p].addr
        + holes[p].size);
    assert(holes[p].addr + holes[p].size <= usize::MAX as int);
    assert(merged.addr + merged.size == holes[p].addr + holes[p].size);
    assert forall|k: int| 0 <= k < nh.len() implies post.block_in_region(#[trigger] nh[k]) by {
        if k < p - 1 {
            assert(nh[k] == holes[k]);
        } else if k == p - 1 {
            assert(nh[k] == merged);
        } else {
            assert(nh[k] == holes[k + 1]);
        }
    }
    assert forall|k: int, l: int| 0 <= k < l < nh.len() implies (#[trigger] nh[k]).addr
        + nh[k].size < (#[trigger] nh[l]).addr by {
        if k == p - 1 {
            assert(nh[k] == merged);
            assert(nh[l] == holes[l + 1]);
            assert(holes[p].addr + holes[p].size < holes[l + 1].addr);
        } else {
            let k0 = if k < p - 1 { k } else { k + 1 };
            assert(nh[k] == holes[k0]);
            if l == p - 1 {
                assert(nh[l] == merged);
                assert(holes[k0].addr + holes[k0].size < holes[p - 1].addr);
            } else {
                let l0 = if l < p - 1 { l } else { l + 1 };
                assert(nh[l] == holes[l0]);
            }
        }
    }
    assert forall|k: int, l: int|
        0 <= k < nh.len() && 0 <= l < post.allocs_view().len() implies blocks_disjoint(
        #[trigger] nh[k],
        #[trigger] post.allocs_view()[l],
    ) by {
        let a = post.allocs_view()[l];
        assert(blocks_disjoint(b, a));
        if k < p - 1 {
            assert(nh[k] == holes[k]);
            assert(blocks_disjoint(holes[k], a));
        } else if k == p - 1 {
            assert(blocks_disjoint(holes[p - 1], a));
            assert(blocks_disjoint(holes[p], a));
            assert(blocks_disjoint(nh[k], a));
        } else {
            assert(nh[k] == holes[k + 1]);
            assert(blocks_disjoint(holes[k + 1], a));
        }
    }
}

/// Coalescing case: `b` extends the free block just before it.
proof fn lemma_insert_merge_pred(pre: RegionAllocator, post: RegionAllocator, b: Block, p: int)
    requires
        insert_ctx(pre, post, b, p),
        0 < p,
        pre.holes_view()[p - 1].addr + pre.holes_view()[p - 1].size == b.addr,
        !(p < pre.holes_view().len() && b.addr + b.size == pre.holes_view()[p].addr),
        post.holes_view() == pre.holes_view().update(
            p - 1,
            Block {
                addr: pre.holes_view()[p - 1].addr,
                size: (pre.holes_view()[p - 1].size + b.size) as usize,
            },
        ),
    ensures
        post.wf(),
{
    let holes = pre.holes_view();
    let nh = post.holes_view();
    let merged = Block { addr: holes[p - 1].addr, size: (holes[p - 1].size + b.size) as usize };
    assert(merged.addr + merged.size == b.addr + b.size);
    assert forall|k: int| 0 <= k < nh.len() implies post.block_in_region(#[trigger] nh[k]) by {
        if k != p - 1 {
            assert(nh[k] == holes[k]);
        }
    }
    assert forall|k: int, l: int| 0 <= k < l < nh.len() implies (#[trigger] nh[k]).addr
        + nh[k].size < (#[trigger] nh[l]).addr by {
        if k != p - 1 {
            assert(nh[k] == holes[k]);
        }
        if l != p - 1 {
            assert(nh[l] == holes[l]);
        }
        if l == p - 1 {
            assert(holes[k].addr + holes[k].size < holes[p - 1].addr);
        }
        if k == p - 1 {
            assert(b.addr + b.size <= holes[l].addr);
            assert(holes[l].addr != b.addr + b.size);
        }
    }
    assert forall|k: int, l: int|
        0 <= k < nh.len() && 0 <= l < post.allocs_view().len() implies blocks_disjoint(
        #[trigger] nh[k],
        #[trigger] post.allocs_view()[l],
    ) by {
        let a = post.allocs_view()[l];
        assert(blocks_disjoint(b, a));
        assert(blocks_disjoint(holes[k], a));
        if k == p - 1 {
            assert(blocks_disjoint(nh[k], a));
        }
    }
}

/// Coalescing case: `b` extends the free block just after it.
proof fn lemma_insert_merge_succ(pre: RegionAllocator, post: RegionAllocator, b: Block, p: int)
    requires
        insert_ctx(pre, post, b, p),
        p < pre.holes_view().len(),
        b.addr + b.size == pre.holes_view()[p].addr,
        !(p > 0 && pre.holes_view()[p - 1].addr + pre.holes_view()[p - 1].size == b.addr),
        post.holes_view() == pre.holes_view().update(
            p,
            Block { addr: b.addr, size: (b.size + pre.holes_view()[p].size) as usize },
        ),
    ensures
        post.wf(),
{
    let holes = pre.holes_view();
    let nh = post.holes_view();
    let merged = Block { addr: b.addr, size: (b.size + holes[p].size) as usize };
    assert(merged.addr + merged.size == holes[p].addr + holes[p].size);
    assert forall|k: int| 0 <= k < nh.len() implies post.block_in_region(#[trigger] nh[k]) by {
        if k != p {
            assert(nh[k] == holes[k]);
        }
    }
    assert forall|k: int, l: int| 0 <= k < l < nh.len() implies (#[trigger] nh[k]).addr
        + nh[k].size < (#[trigger] nh[l]).addr by {
        if k != p {
            assert(nh[k] == holes[k]);
        }
        if l != p {
            assert(nh[l] == holes[l]);
        }
        if k == p {
            assert(holes[p].addr + holes[p].size < holes[l].addr);
        }
        if l == p {
            assert(holes[k].addr + holes[k].size <= b.addr);
            assert(holes[k].addr + holes[k].size != b.addr);
        }
    }
    assert forall|k: int, l: int|
        0 <= k < nh.len() && 0 <= l < post.allocs_view().len() implies blocks_disjoint(
        #[trigger] nh[k],
        #[trigger] post.allocs_view()[l],
    ) by {
        let a = post.allocs_view()[l];
        assert(blocks_disjoint(b, a));
        assert(blocks_disjoint(holes[k], a));
        if k == p {
            assert(blocks_disjoint(nh[k], a));
        }
    }
}

/// Coalescing case: `b` touches no free neighbour and is inserted alone.
proof fn lemma_insert_no_merge(pre: RegionAllocator, post: RegionAllocator, b: Block, p: int)
    requires
        insert_ctx(pre, post, b, p),
        !(p > 0 && pre.holes_view()[p - 1].addr + pre.holes_view()[p - 1].size == b.addr),
        !(p < pre.holes_view().len() && b.addr + b.size == pre.holes_view()[p].addr),
        post.holes_view() == pre.holes_view().insert(p, b),
    ensures
        post.wf(),
{
    let holes = pre.holes_view();
    let nh = post.holes_view();
    assert forall|k: int| 0 <= k < nh.len() implies post.block_in_region(#[trigger] nh[k]) by {
        if k < p {
            assert(nh[k] == holes[k]);
        } else if k == p {
            assert(nh[k] == b);
        } else {
            assert(nh[k] == holes[k - 1]);
        }
    }
    assert forall|k: int, l: int| 0 <= k < l < nh.len() implies (#[trigger] nh[k]).addr
        + nh[k].size < (#[trigger] nh[l]).addr by {
        if k < p {
            assert(nh[k] == holes[k]);
        } else if k == p {
            assert(nh[k] == b);
        } else {
            assert(nh[k] == holes[k - 1]);
        }
        if l < p {
            assert(nh[l] == holes[l]);
        } else if l == p {
            assert(nh[l] == b);
        } else {
            assert(nh[l] == holes[l - 1]);
        }
        if l == p {
            // The block before b ends strictly before it: it is not the
            // adjacent predecessor, and blocks before that end earlier
            // still.
            assert(holes[k].addr + holes[k].size <= b.addr);
            if holes[k].addr + holes[k].size == b.addr {
                if k < p - 1 {
                    assert(holes[k].addr + holes[k].size < holes[p - 1].addr);
                    assert(holes[p - 1].addr + holes[p - 1].size <= b.addr);
                    assert(false);
                }
            }
        }
        if k == p {
            assert(b.addr + b.size <= holes[l - 1].addr);
            if b.addr + b.size == holes[l - 1].addr {
                if l - 1 > p {
                    assert(holes[p].addr + holes[p].size < holes[l - 1].addr);
                    assert(b.addr + b.size <= holes[p].addr);
                    assert(false);
                }
            }
        }
    }
    assert forall|k: int, l: int|
        0 <= k < nh.len() && 0 <= l < post.allocs_view().len() implies blocks_disjoint(
        #[trigger] nh[k],
        #[trigger] post.allocs_view()[l],
    ) by {
        let a = post.allocs_view()[l];
        if k < p {
            assert(nh[k] == holes[k]);
            assert(blocks_disjoint(holes[k], a));
        } else if k == p {
            assert(blocks_disjoint(b, a));
        } else {
            assert(nh[k] == holes[k - 1]);
            assert(blocks_disjoint(holes[k - 1], a));
        }
    }
}

/// Re-inserting a freed block preserves the invariant in all four merge
/// cases.
proof fn lemma_insert_hole_wf(
    pre: RegionAllocator,
    mid: RegionAllocator,
    post: RegionAllocator,
    b: Block,
    p: int,
)
    requires
        pre.wf(),
        pre.block_in_region(b),
        mid.spec_base() == pre.spec_base(),
        mid.spec_size() == pre.spec_size(),
        mid.holes_view() == pre.holes_view(),
        post.spec_base() == pre.spec_base(),
        post.spec_size() == pre.spec_size(),
        post.allocs_view() == mid.allocs_view(),
        forall|i: int|
            0 <= i < pre.holes_view().len() ==> blocks_disjoint(
                #[trigger] pre.holes_view()[i],
                b,
            ),
        forall|i: int|
            0 <= i < mid.allocs_view().len() ==> blocks_disjoint(
                #[trigger] mid.allocs_view()[i],
                b,
            ),
        forall|i: int|
            0 <= i < mid.allocs_view().len() ==> pre.block_in_region(
                #[trigger] mid.allocs_view()[i],
            ),
        forall|i: int, j: int|
            0 <= i < j < mid.allocs_view().len() ==> blocks_disjoint(
                #[trigger] mid.allocs_view()[i],
                #[trigger] mid.allocs_view()[j],
            ),
        forall|i: int, j: int|
            0 <= i < pre.holes_view().len() && 0 <= j < mid.allocs_view().len()
                ==> blocks_disjoint(
                #[trigger] pre.holes_view()[i],
                #[trigger] mid.allocs_view()[j],
            ),
        p == ins_pos(pre.holes_view(), b.addr as int),
        post.holes_view() == insert_coalesced(pre.holes_view(), b),
    ensures
        post.wf(),
{
    let holes = pre.holes_view();
    lemma_ins_pos_bounds(holes, b.addr as int);
    // Each free block before position p ends at or before b; each at or
    // after p starts at or after b's end.
    assert forall|k: int| 0 <= k < p implies (#[trigger] holes[k]).addr + holes[k].size
        <= b.addr by {
        assert(blocks_disjoint(holes[k], b));
    }
    assert forall|k: int| p <= k < holes.len() implies b.addr + b.size
        <= (#[trigger] holes[k]).addr by {
        assert(blocks_disjoint(holes[k], b));
        if k > p {
            assert(holes[p].addr + holes[p].size < holes[k].addr);
        }
        if holes[k].addr + holes[k].size <= b.addr {
            if k == p {
                assert(holes[k].addr > b.addr);
            } else {
                assert(holes[p].addr <= holes[k].addr);
            }
            assert(false);
        }
    }
    assert(insert_ctx(pre, post, b, p));
    let merge_pred = p > 0 && holes[p - 1].addr + holes[p - 1].size == b.addr;
    let merge_succ = p < holes.len() && b.addr + b.size == holes[p].addr;
    if merge_pred && merge_succ {
        lemma_insert_merge_both(pre, post, b, p);
    } else if merge_pred {
        lemma_insert_merge_pred(pre, post, b, p);
    } else if merge_succ {
        lemma_insert_merge_succ(pre, post, b, p);
    } else {
        lemma_insert_no_merge(pre, post, b, p);
    }
}

} // verus!
