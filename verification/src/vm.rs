//! Sv39 page tables: the three-level radix tree that maps virtual pages to
//! physical pages, built and read in software.
//!
//! An [`AddressSpace`] owns the page-table pages of one translation tree.
//! Each page is an array of 512 entries together with the physical address
//! the page was allocated at; entries of the upper two levels point to other
//! pages by that address.  [`AddressSpace::lookup`] states what the hardware
//! walk finds for a virtual address, and every function that changes the tree
//! says what becomes of it.
use vstd::prelude::*;
use linked_list_allocator::Heap;
use core::alloc::Layout;
use crate::memolayout::{KernelImage, KERNELBASE, PHYSTOP, TRAMPOLINE, UART};
use crate::sv39::{
    child, depth, entry, grown, grown_by_one, holds, in_range, is_link, leaf_pte, leaf_written,
    lemma_child, lemma_child_none, lemma_index_of, lemma_leaf_table_same_page,
    lemma_leaf_written_wf, lemma_linked_leaf, lemma_linked_lookup, lemma_linked_wf, lemma_map_step,
    lemma_map_walked, lemma_pte_encoding, lemma_px_split, lemma_slot_lookup, lemma_tree_pages,
    lemma_tree_root, lemma_walk_shape, linked, lookup, mapped_upto, missing_link, phys_add,
    range_offset, range_ok, same_page, slot_of, tree_wf, usable,
};
use crate::riscv::{
    make_satp, pa2pte, pg_round_down, pte2pa, pte_flags, pte_valid, px, sfence_vma, spec_make_satp,
    spec_pg_round_down, spec_pte2pa, spec_pte_flags, spec_pte_valid, spec_px, w_satp, wrote, Csr,
    Hart, HartOp, MAXPA, MAXVA, PGSIZE, PTE_R, PTE_V, PTE_W, PTE_X,
};

verus! {

/// Why a page-table operation stopped, or why a test did not admit what
/// was asked.  The kernel treats all but [`VmError::NotFound`] as fatal and
/// halts the hart.
#[derive(Clone, Copy, Debug, PartialEq, Eq, Structural)]
pub enum VmError {
    /// The walk met a missing table and was told not to allocate.
    NotFound,
    /// The virtual address, or the end of the range, is at or above `MAXVA`.
    VaOutOfRange,
    /// A range of zero bytes was given.
    EmptyRange,
    /// A page of the range already had a valid entry.
    Remap,
    /// The allocator had no page left, or none this tree can hold.
    OutOfMemory,
    /// The image is too large for one page.
    ImageTooLarge,
}

/// One page-table page: 512 entries of 64 bits.
pub struct PageTable {
    pub ptes: [u64; 512],
}

/// A page-table page together with where it lies in physical memory and
/// which level of the tree it serves (2 is the root, 0 holds leaf entries).
pub struct TableNode {
    pub pa: u64,
    pub level: usize,
    pub table: PageTable,
}

/// Names one entry of a tree: the page that holds it and its index there.
#[derive(Clone, Copy, Debug, PartialEq, Eq, Structural)]
pub struct PteSlot {
    pub node: usize,
    pub index: usize,
}

/// A page of memory that belongs to an address space, with what it holds.
pub struct Frame {
    pub pa: u64,
    pub bytes: Vec<u8>,
}

/// One address space: its page-table tree, root first, and the pages of
/// memory that were allocated for it.
pub struct AddressSpace {
    nodes: Vec<TableNode>,
    frames: Vec<Frame>,
}

/// `linked_list_allocator::Heap`, the heap that hands out physical pages.
/// Nothing of what it holds is visible here.
#[verifier::external_type_specification]
#[verifier::external_body]
pub struct ExHeap(linked_list_allocator::Heap);

/// Calls `Heap::allocate_first_fit` of `linked_list_allocator` for one page:
/// a block of `size` bytes aligned to `align`, both of which must be 4096.
/// It hands back the block's address.  Trusted: the address is not null
/// and is a multiple of 4096, as the allocator's documentation promises of
/// a successful allocation with that alignment.  Nothing is claimed about
/// when the heap has room.
#[verifier::external_body]
fn heap_allocate(heap: &mut Heap, size: usize, align: usize) -> (r: Option<usize>)
    requires
        size == 4096,
        align == 4096,
    ensures
        r matches Some(addr) ==> addr != 0 && addr % 4096 == 0,
{
    let layout = Layout::from_size_align(size, align).ok()?;
    let block = heap.allocate_first_fit(layout).ok()?;
    Some(block.as_ptr() as usize)
}

/// Takes one page from the heap.  `None` means the heap is exhausted.
pub fn kalloc(heap: &mut Heap) -> (r: Option<u64>)
    ensures
        r matches Some(pa) ==> pa != 0 && pa % 4096 == 0,
{
    match heap_allocate(heap, 4096, 4096) {
        None => None,
        Some(addr) => Some(addr as u64),
    }
}

/// The contents of the page of memory at physical address `pa`: those of the
/// frame that was added last, if several lie there.
pub open spec fn frame_at(frames: Seq<Frame>, pa: u64) -> Option<Seq<u8>>
    decreases frames.len(),
{
    if frames.len() == 0 {
        None
    } else if frames.last().pa == pa {
        Some(frames.last().bytes@)
    } else {
        frame_at(frames.drop_last(), pa)
    }
}

/// A tree that consists of a root page with no entry.
pub open spec fn empty_tree(nodes: Seq<TableNode>) -> bool {
    &&& nodes.len() == 1
    &&& nodes[0].level == 2
    &&& forall|a: int| 0 <= a < 512 ==> #[trigger] entry(nodes, 0, a) == 0
}

/// Every frame holds one page of bytes.
pub open spec fn frames_wf(frames: Seq<Frame>) -> bool {
    forall|i: int| 0 <= i < frames.len() ==> (#[trigger] frames[i]).bytes@.len() == 4096
}

/// A mapped address has a leaf entry, and the entry is the translation.
pub proof fn lemma_mapped_slot(pgtbl: &AddressSpace, va: u64)
    requires
        pgtbl.wf(),
    ensures
        pgtbl.lookup(va) is Some ==> pgtbl.slot(va) is Some,
        pgtbl.slot(va) matches Some(s) ==> pgtbl.is_leaf_slot(s) && pgtbl.lookup(va) == (
        if spec_pte_valid(pgtbl.pte(s)) {
            Some(pgtbl.pte(s))
        } else {
            None
        }),
{
    lemma_slot_lookup(pgtbl.nodes(), va);
}

impl AddressSpace {
    /// The pages of the tree, root first.
    pub closed spec fn nodes(&self) -> Seq<TableNode> {
        self.nodes@
    }

    /// The invariant of the tree; see [`tree_wf`].
    pub open spec fn wf(&self) -> bool {
        self.nodes().len() <= usize::MAX && tree_wf(self.nodes()) && frames_wf(self.frames())
    }

    /// The pages of memory that belong to the address space.
    pub closed spec fn frames(&self) -> Seq<Frame> {
        self.frames@
    }

    /// The byte that a load from `va` finds: the address must be mapped, to
    /// a page of memory that belongs to the address space.
    pub open spec fn byte_at(&self, va: u64) -> Option<u8> {
        match self.lookup(va) {
            None => None,
            Some(e) => match frame_at(self.frames(), spec_pte2pa(e)) {
                None => None,
                Some(bytes) => Some(bytes[(va % 4096) as int]),
            },
        }
    }

    /// The valid leaf entry that translates `va`, if there is one.
    pub open spec fn lookup(&self, va: u64) -> Option<u64> {
        lookup(self.nodes(), va)
    }

    /// The leaf entry that the walk for `va` ends at, valid or not.
    pub open spec fn slot(&self, va: u64) -> Option<PteSlot> {
        slot_of(self.nodes(), va)
    }

    /// The value of the entry that `slot` names.
    pub open spec fn pte(&self, slot: PteSlot) -> u64 {
        entry(self.nodes(), slot.node as int, slot.index as int)
    }

    /// Whether `slot` names a leaf entry of this tree.
    pub open spec fn is_leaf_slot(&self, slot: PteSlot) -> bool {
        &&& slot.node < self.nodes().len()
        &&& slot.index < 512
        &&& self.nodes()[slot.node as int].level == 0
    }

    /// The physical address of the root page.
    pub open spec fn root_pa(&self) -> u64 {
        self.nodes()[0].pa
    }

    /// The physical address of the root page.
    pub fn root(&self) -> (pa: u64)
        requires
            self.wf(),
        ensures
            pa == self.root_pa(),
            pa % 4096 == 0,
            pa < MAXPA,
    {
        proof {
            lemma_tree_root(self.nodes());
            lemma_tree_pages(self.nodes(), 0);
        }
        self.nodes[0].pa
    }

    /// How many page-table pages the tree holds.
    pub fn page_count(&self) -> (n: usize)
        ensures
            n == self.nodes().len(),
    {
        self.nodes.len()
    }

    /// Page number `i` of the tree, for whoever copies the tree to the
    /// memory that the hardware walks.
    pub fn table(&self, i: usize) -> (node: &TableNode)
        requires
            i < self.nodes().len(),
        ensures
            *node == self.nodes()[i as int],
    {
        &self.nodes[i]
    }

    /// How many pages of memory belong to the address space.
    pub fn frame_count(&self) -> (n: usize)
        ensures
            n == self.frames().len(),
    {
        self.frames.len()
    }

    /// Page of memory number `i` of the address space.
    pub fn frame(&self, i: usize) -> (frame: &Frame)
        requires
            i < self.frames().len(),
        ensures
            *frame == self.frames()[i as int],
    {
        &self.frames[i]
    }

    /// Finds the page of the tree that lies at physical address `pa`.
    fn find_node(&self, pa: u64) -> (r: Option<usize>)
        ensures
            match r {
                Some(j) => j < self.nodes().len() && self.nodes()[j as int].pa == pa,
                None => !holds(self.nodes(), pa),
            },
    {
        let mut j: usize = 0;
        while j < self.nodes.len()
            invariant
                j <= self.nodes.len(),
                forall|k: int| 0 <= k < j ==> (#[trigger] self.nodes@[k]).pa != pa,
            decreases self.nodes.len() - j,
        {
            if self.nodes[j].pa == pa {
                return Some(j);
            }
            j += 1;
        }
        None
    }

    /// Follows entry `a` of page `n` one level down.
    fn descend(&self, n: usize, a: usize) -> (r: Option<usize>)
        requires
            self.wf(),
            n < self.nodes().len(),
            a < 512,
            self.nodes()[n as int].level >= 1,
        ensures
            match r {
                Some(c) => child(self.nodes(), n as int, a as int) == Some(c as int) && 0 < c
                    < self.nodes().len() && self.nodes()[c as int].level + 1
                    == self.nodes()[n as int].level,
                None => child(self.nodes(), n as int, a as int) is None && !spec_pte_valid(
                    entry(self.nodes(), n as int, a as int),
                ),
            },
    {
        let e: u64 = self.nodes[n].table.ptes[a];
        if !pte_valid(e) {
            proof {
                lemma_child_none(self.nodes(), n as int, a as int);
            }
            return None;
        }
        proof {
            assert(is_link(self.nodes(), n as int, a as int));
            lemma_child(self.nodes(), n as int, a as int);
            lemma_tree_root(self.nodes());
        }
        let c = self.find_node(pte2pa(e));
        proof {
            if c is Some {
                lemma_index_of(self.nodes(), c.unwrap() as int);
            }
            lemma_index_of(self.nodes(), child(self.nodes(), n as int, a as int).unwrap());
            reveal(child);
        }
        c
    }

    /// The walk without allocation: the leaf entry for `va`, if all the
    /// tables on the way exist.
    pub fn find_slot(&self, va: u64) -> (r: Option<PteSlot>)
        requires
            self.wf(),
        ensures
            r == self.slot(va),
            r matches Some(s) ==> self.is_leaf_slot(s),
    {
        if va >= MAXVA {
            return None;
        }
        proof {
            lemma_tree_root(self.nodes());
        }
        match self.descend(0, px(2, va)) {
            None => None,
            Some(n1) => match self.descend(n1, px(1, va)) {
                None => None,
                Some(n0) => Some(PteSlot { node: n0, index: px(0, va) }),
            },
        }
    }

    /// Reads the entry that `slot` names.
    pub fn read_pte(&self, slot: PteSlot) -> (e: u64)
        requires
            slot.node < self.nodes().len(),
            slot.index < 512,
        ensures
            e == self.pte(slot),
    {
        self.nodes[slot.node].table.ptes[slot.index]
    }

    /// A tree that consists of an empty root page at `root`.  The address
    /// must be page-aligned and below `MAXPA`.
    pub fn new(root: u64) -> (r: Result<AddressSpace, VmError>)
        ensures
            match r {
                Ok(space) => root % 4096 == 0 && root < MAXPA && space.wf() && space.root_pa()
                    == root && empty_tree(space.nodes()) && space.frames().len() == 0
                    && forall|va: u64| space.lookup(va) is None && space.slot(va) is None,
                Err(e) => e == VmError::OutOfMemory && !(root % 4096 == 0 && root < MAXPA),
            },
    {
        if root % PGSIZE != 0 || root >= MAXPA {
            return Err(VmError::OutOfMemory);
        }
        let mut nodes: Vec<TableNode> = Vec::new();
        nodes.push(TableNode { pa: root, level: 2, table: PageTable { ptes: [0u64; 512] } });
        let space = AddressSpace { nodes, frames: Vec::new() };
        proof {
            let s = space.nodes();
            assert(tree_wf(s)) by {
                reveal(tree_wf);
                assert forall|i: int, a: int| #[trigger] is_link(s, i, a) implies false by {
                    assert(entry(s, 0, a) == 0);
                }
            }
            assert forall|va: u64| space.lookup(va) is None && space.slot(va) is None by {
                assert(entry(s, 0, spec_px(2, va)) == 0);
                lemma_child_none(s, 0, spec_px(2, va));
                reveal(lookup);
            }
        }
        Ok(space)
    }

    /// Extends the way to `va` by one table, using the page the allocator
    /// handed out (`None` if it had none): the page becomes a zeroed table,
    /// and the entry at which the walk for `va` stopped gets its address
    /// and the valid bit.  Where the way is already complete nothing
    /// changes.  A page is refused, with [`VmError::OutOfMemory`], if it
    /// is not page-aligned, lies at or above `MAXPA`, or is already part of
    /// this tree.
    pub fn install(&mut self, va: u64, page: Option<u64>) -> (r: Result<(), VmError>)
        requires
            old(self).wf(),
            va < MAXVA,
        ensures
            final(self).wf(),
            forall|v: u64| final(self).lookup(v) == old(self).lookup(v),
            forall|v: u64| old(self).slot(v) is Some ==> final(self).slot(v) == old(self).slot(v),
            final(self).root_pa() == old(self).root_pa(),
            final(self).frames() == old(self).frames(),
            old(self).slot(va) is Some ==> r is Ok && final(self).nodes() == old(self).nodes(),
            old(self).slot(va) is None ==> match r {
                Ok(()) => page is Some && usable(old(self).nodes(), page.unwrap()) && depth(
                    final(self).nodes(),
                    va,
                ) == depth(old(self).nodes(), va) + 1 && final(self).nodes().len() == old(
                    self,
                ).nodes().len() + 1 && linked(
                    old(self).nodes(),
                    final(self).nodes(),
                    missing_link(old(self).nodes(), va).0,
                    missing_link(old(self).nodes(), va).1,
                    page.unwrap(),
                ),
                Err(e) => e == VmError::OutOfMemory && !(page is Some && usable(
                    old(self).nodes(),
                    page.unwrap(),
                )) && final(self).nodes() == old(self).nodes(),
            },
    {
        let a2 = px(2, va);
        let a1 = px(1, va);
        let mut parent: usize = 0;
        let mut index: usize = a2;
        proof {
            lemma_tree_root(self.nodes());
            lemma_walk_shape(self.nodes(), va);
        }
        match self.descend(0, a2) {
            None => {},
            Some(n1) => match self.descend(n1, a1) {
                Some(_) => {
                    return Ok(());
                },
                None => {
                    parent = n1;
                    index = a1;
                },
            },
        }
        let pa: u64 = match page {
            None => {
                return Err(VmError::OutOfMemory);
            },
            Some(pa) => pa,
        };
        if pa % PGSIZE != 0 || pa >= MAXPA || self.find_node(pa).is_some() {
            return Err(VmError::OutOfMemory);
        }
        let level: usize = self.nodes[parent].level - 1;
        let link: u64 = pa2pte(pa) | PTE_V;
        proof {
            lemma_pte_encoding(pa, 0);
        }
        self.nodes.push(TableNode { pa, level, table: PageTable { ptes: [0u64; 512] } });
        self.nodes[parent].table.ptes[index] = link;
        let count = self.nodes.len();
        proof {
            let s0 = old(self).nodes();
            let s2 = self.nodes();
            assert(linked(s0, s2, parent as int, index as int, pa));
            lemma_linked_wf(s0, s2, parent as int, index as int, pa);
            assert forall|v: u64| lookup(s2, v) == lookup(s0, v) by {
                lemma_linked_lookup(s0, s2, parent as int, index as int, pa, v);
            }
            assert forall|v: u64| slot_of(s0, v) is Some implies slot_of(s2, v) == slot_of(
                s0,
                v,
            ) by {
                lemma_linked_lookup(s0, s2, parent as int, index as int, pa, v);
            }
            lemma_linked_lookup(s0, s2, parent as int, index as int, pa, va);
        }
        Ok(())
    }

    /// Finds the frame that holds the page of memory at `pa`.
    fn find_frame(&self, pa: u64) -> (r: Option<usize>)
        ensures
            match r {
                Some(i) => i < self.frames().len() && self.frames()[i as int].pa == pa && frame_at(
                    self.frames(),
                    pa,
                ) == Some(self.frames()[i as int].bytes@),
                None => frame_at(self.frames(), pa) is None,
            },
    {
        let mut i: usize = self.frames.len();
        proof {
            assert(self.frames@.subrange(0, i as int) =~= self.frames@);
        }
        while i > 0
            invariant
                i <= self.frames.len(),
                frame_at(self.frames@, pa) == frame_at(self.frames@.subrange(0, i as int), pa),
            decreases i,
        {
            proof {
                let part = self.frames@.subrange(0, i as int);
                assert(part.last() == self.frames@[i - 1]);
                assert(part.drop_last() =~= self.frames@.subrange(0, i - 1));
            }
            if self.frames[i - 1].pa == pa {
                return Some(i - 1);
            }
            i -= 1;
        }
        proof {
            assert(self.frames@.subrange(0, 0).len() == 0);
        }
        None
    }

    /// Translates `va` as the hardware would: the physical address of the
    /// page it is mapped to and the flags of the mapping.
    pub fn translate(&self, va: u64) -> (r: Option<(u64, u64)>)
        requires
            self.wf(),
        ensures
            r == match self.lookup(va) {
                Some(e) => Some((spec_pte2pa(e), spec_pte_flags(e))),
                None => None,
            },
    {
        proof {
            lemma_mapped_slot(self, va);
        }
        match self.find_slot(va) {
            None => None,
            Some(slot) => {
                let e = self.read_pte(slot);
                if pte_valid(e) {
                    Some((pte2pa(e), pte_flags(e)))
                } else {
                    None
                }
            },
        }
    }

    /// Loads the byte at `va` from the memory of the address space.
    pub fn read_byte(&self, va: u64) -> (r: Option<u8>)
        requires
            self.wf(),
        ensures
            r == self.byte_at(va),
    {
        match self.translate(va) {
            None => None,
            Some((pa, _)) => match self.find_frame(pa) {
                None => None,
                Some(i) => {
                    let off = (va % PGSIZE) as usize;
                    Some(self.frames[i].bytes[off])
                },
            },
        }
    }

    /// Adds a page of memory to the address space.
    fn add_frame(&mut self, pa: u64, bytes: Vec<u8>)
        requires
            old(self).wf(),
            bytes@.len() == 4096,
        ensures
            final(self).wf(),
            final(self).nodes() == old(self).nodes(),
            final(self).frames() == old(self).frames().push(Frame { pa, bytes }),
            frame_at(final(self).frames(), pa) == Some(bytes@),
    {
        self.frames.push(Frame { pa, bytes });
        proof {
            assert(self.frames@.last().pa == pa);
        }
    }

    /// Sets the leaf entry that `slot` names.
    fn set_leaf(&mut self, slot: PteSlot, e: u64)
        requires
            old(self).wf(),
            old(self).is_leaf_slot(slot),
        ensures
            final(self).wf(),
            final(self).root_pa() == old(self).root_pa(),
            final(self).frames() == old(self).frames(),
            leaf_written(
                old(self).nodes(),
                final(self).nodes(),
                slot.node as int,
                slot.index as int,
                e,
            ),
    {
        self.nodes[slot.node].table.ptes[slot.index] = e;
        proof {
            lemma_leaf_written_wf(
                old(self).nodes(),
                self.nodes(),
                slot.node as int,
                slot.index as int,
                e,
            );
        }
    }
}

/// Tests that the walk can be made for `va`: the address must be below
/// `MAXVA`.  The kernel halts on an error.
pub fn check_va(va: u64) -> (r: Result<(), VmError>)
    ensures
        r is Ok <==> va < MAXVA,
        r matches Err(e) ==> e == VmError::VaOutOfRange,
{
    if va >= MAXVA {
        Err(VmError::VaOutOfRange)
    } else {
        Ok(())
    }
}

/// Finds the leaf entry for `va`, the page-table walk done in software.
/// The address must be below `MAXVA`, which [`check_va`] tests.
///
/// With `alloc` set, each table that is missing on the way is allocated
/// from `heap`, zeroed and linked in, the upper one first; without it the
/// tree and the heap are left untouched and a missing table gives
/// [`VmError::NotFound`].  No translation changes either way.
#[verifier::rlimit(50)]
pub fn walk(pgtbl: &mut AddressSpace, heap: &mut Heap, va: u64, alloc: bool) -> (r: Result<
    PteSlot,
    VmError,
>)
    requires
        old(pgtbl).wf(),
        va < MAXVA,
    ensures
        final(pgtbl).wf(),
        final(pgtbl).root_pa() == old(pgtbl).root_pa(),
        final(pgtbl).frames() == old(pgtbl).frames(),
        forall|v: u64| final(pgtbl).lookup(v) == old(pgtbl).lookup(v),
        forall|v: u64| old(pgtbl).slot(v) is Some ==> final(pgtbl).slot(v) == old(pgtbl).slot(v),
        !alloc ==> final(pgtbl).nodes() == old(pgtbl).nodes() && *final(heap) == *old(heap),
        r matches Ok(s) ==> final(pgtbl).slot(va) == Some(s) && final(pgtbl).is_leaf_slot(s),
        old(pgtbl).slot(va) is Some ==> r == Ok::<PteSlot, VmError>(old(pgtbl).slot(va).unwrap())
            && final(pgtbl).nodes() == old(pgtbl).nodes() && *final(heap) == *old(heap),
        r == Err::<PteSlot, VmError>(VmError::NotFound) <==> !alloc && old(pgtbl).slot(va) is None,
        r matches Err(e) ==> e == VmError::NotFound || (e == VmError::OutOfMemory && alloc && old(
            pgtbl,
        ).slot(va) is None),
        // What an allocating walk builds: as many tables as were missing,
        // each zeroed and linked where the walk stopped; a leaf table that
        // is new holds no entry.
        alloc && r is Ok ==> grown(
            old(pgtbl).nodes(),
            final(pgtbl).nodes(),
            va,
            2 - depth(old(pgtbl).nodes(), va),
        ) && final(pgtbl).nodes().len() == old(pgtbl).nodes().len() + 2 - depth(
            old(pgtbl).nodes(),
            va,
        ),
        r matches Ok(s) ==> (alloc && old(pgtbl).slot(va) is None ==> final(pgtbl).pte(s) == 0),
        // Where the heap runs out, at most the upper table has been added.
        r == Err::<PteSlot, VmError>(VmError::OutOfMemory) ==> final(pgtbl).nodes() == old(
            pgtbl,
        ).nodes() || (depth(old(pgtbl).nodes(), va) == 0 && grown_by_one(
            old(pgtbl).nodes(),
            final(pgtbl).nodes(),
            va,
        )),
{
    proof {
        lemma_walk_shape(pgtbl.nodes(), va);
    }
    if alloc {
        if pgtbl.find_slot(va).is_none() {
            let page = kalloc(heap);
            match pgtbl.install(va, page) {
                Err(e) => {
                    return Err(e);
                },
                Ok(()) => {},
            }
            let ghost mid = pgtbl.nodes();
            proof {
                lemma_walk_shape(mid, va);
                assert(grown_by_one(old(pgtbl).nodes(), mid, va));
                if depth(old(pgtbl).nodes(), va) == 1 {
                    lemma_linked_leaf(old(pgtbl).nodes(), mid, va, page.unwrap());
                }
            }
            if pgtbl.find_slot(va).is_none() {
                let page = kalloc(heap);
                match pgtbl.install(va, page) {
                    Err(e) => {
                        return Err(e);
                    },
                    Ok(()) => {},
                }
                proof {
                    assert(grown_by_one(mid, pgtbl.nodes(), va));
                    lemma_linked_leaf(mid, pgtbl.nodes(), va, page.unwrap());
                }
            }
        }
        proof {
            lemma_walk_shape(pgtbl.nodes(), va);
        }
    }
    match pgtbl.find_slot(va) {
        Some(s) => Ok(s),
        None => Err(VmError::NotFound),
    }
}

/// A range that `mappages` admits: it is not empty, it ends below `MAXVA`,
/// and none of its pages is mapped.
pub open spec fn mappable(pgtbl: &AddressSpace, va: u64, sz: u64) -> bool {
    range_ok(va, sz) && forall|v: u64| in_range(va, sz, v) ==> (#[trigger] pgtbl.lookup(v)) is None
}

/// What the test of a range comes to: the first of the reasons for which
/// `mappages` does not admit it.
pub open spec fn spec_check_range(pgtbl: &AddressSpace, va: u64, sz: u64) -> Result<(), VmError> {
    if sz == 0 {
        Err(VmError::EmptyRange)
    } else if va + sz - 1 >= MAXVA {
        Err(VmError::VaOutOfRange)
    } else if !mappable(pgtbl, va, sz) {
        Err(VmError::Remap)
    } else {
        Ok(())
    }
}

/// Addresses of one page are translated alike.
pub proof fn lemma_page_lookup(pgtbl: &AddressSpace, x: u64, y: u64)
    requires
        same_page(x, y),
    ensures
        pgtbl.lookup(x) == pgtbl.lookup(y),
        pgtbl.slot(x) == pgtbl.slot(y),
{
    reveal(lookup);
    lemma_px_split(x);
    lemma_px_split(y);
    if x < MAXVA && y < MAXVA {
        lemma_leaf_table_same_page(pgtbl.nodes(), x, y);
    }
}

/// Tests that `mappages` admits the range of `sz` bytes from `va`: that it
/// is not empty, ends below `MAXVA`, and touches no page that is mapped.
/// The kernel halts on an error: to map a page twice is a mistake of the
/// kernel's, not something to recover from.
#[verifier::rlimit(50)]
pub fn check_range(pgtbl: &AddressSpace, va: u64, sz: u64) -> (r: Result<(), VmError>)
    requires
        pgtbl.wf(),
    ensures
        r == spec_check_range(pgtbl, va, sz),
        r is Ok <==> mappable(pgtbl, va, sz),
{
    if sz == 0 {
        return Err(VmError::EmptyRange);
    }
    if va >= MAXVA || sz - 1 >= MAXVA - va {
        return Err(VmError::VaOutOfRange);
    }
    let first: u64 = pg_round_down(va);
    let last: u64 = pg_round_down(va + (sz - 1));
    let mut cur: u64 = first;
    loop
        invariant
            range_ok(va, sz),
            pgtbl.wf(),
            first == spec_pg_round_down(va),
            last == spec_pg_round_down((va + sz - 1) as u64),
            first <= cur <= last,
            cur % 4096 == 0,
            forall|v: u64| first <= v < cur ==> (#[trigger] pgtbl.lookup(v)) is None,
        decreases last - cur,
    {
        if pgtbl.translate(cur).is_some() {
            proof {
                assert(in_range(va, sz, cur));
            }
            return Err(VmError::Remap);
        }
        proof {
            assert forall|v: u64| first <= v < cur + 4096 implies (#[trigger] pgtbl.lookup(v))
                is None by {
                if v >= cur {
                    lemma_page_lookup(pgtbl, v, cur);
                }
            }
        }
        if cur == last {
            proof {
                assert forall|v: u64| in_range(va, sz, v) implies (#[trigger] pgtbl.lookup(v))
                    is None by {
                    assert(first <= v < cur + 4096);
                }
            }
            return Ok(());
        }
        cur = cur + PGSIZE;
    }
}

/// `mappages` stopped for want of memory at the page that starts at
/// `stop`, whose leaf table was missing: the pages of the range before it
/// are mapped as asked, and every other translation is as it was.
pub open spec fn stopped_at(
    before: &AddressSpace,
    after: &AddressSpace,
    va: u64,
    pa: u64,
    sz: u64,
    perm: u64,
    stop: u64,
) -> bool {
    &&& in_range(va, sz, stop)
    &&& stop % 4096 == 0
    &&& before.slot(stop) is None
    &&& mapped_upto(
        before.nodes(),
        after.nodes(),
        va,
        pa,
        perm,
        spec_pg_round_down(va),
        stop as int,
    )
}

/// What `mappages` leaves behind: how the tree `after` the call and the
/// result `r` relate to the tree `before` it and to the arguments.
#[verifier::opaque]
pub open spec fn mapped(
    before: &AddressSpace,
    after: &AddressSpace,
    va: u64,
    pa: u64,
    sz: u64,
    perm: u64,
    r: Result<(), VmError>,
) -> bool {
    // The range was one that `mappages` admits.
    &&& mappable(before, va, sz)
    // The root stays where it is, and so does the memory.
    &&& after.root_pa() == before.root_pa()
    &&& after.frames() == before.frames()
    // No mapping that was there is changed.
    &&& forall|v: u64|
        #![trigger before.lookup(v)]
        #![trigger after.lookup(v)]
        before.lookup(v) is Some ==> after.lookup(v) == before.lookup(v)
    // A mapping that appears lies in the range and is the one asked for.
    &&& forall|v: u64|
        before.lookup(v) is None && (#[trigger] after.lookup(v)) is Some ==> in_range(va, sz, v)
            && after.lookup(v) == Some(leaf_pte(phys_add(pa, range_offset(va, v)), perm))
    // Leaf tables stay where they are.
    &&& forall|v: u64| #[trigger] before.slot(v) is Some ==> after.slot(v) == before.slot(v)
    // On success the whole range is mapped as asked.
    &&& r is Ok ==> forall|v: u64|
        #![trigger before.lookup(v)]
        #![trigger after.lookup(v)]
        in_range(va, sz, v) ==> after.lookup(v) == Some(
            leaf_pte(phys_add(pa, range_offset(va, v)), perm),
        )
    // The only failure is for want of memory, at a page of the range whose
    // leaf table was missing.
    &&& r matches Err(e) ==> e == VmError::OutOfMemory && exists|stop: u64| #[trigger]
        stopped_at(before, after, va, pa, sz, perm, stop)
    // Where every leaf table exists, the call succeeds.
    &&& (forall|v: u64| in_range(va, sz, v) ==> (#[trigger] before.slot(v)) is Some) ==> r is Ok
}

/// Maps the pages that the `sz` bytes from `va` touch to consecutive
/// physical pages starting at the page of `pa`, each with the permission
/// bits `perm`.  Neither `va` nor `sz` need be page-aligned.
///
/// The range must not be empty, must end below `MAXVA`, and must touch no
/// page that is mapped; [`check_range`] tests that.  A table that cannot
/// be allocated stops the work with [`VmError::OutOfMemory`]; the pages
/// before it stay mapped.  An entry that was valid before the call is never
/// changed.
#[verifier::rlimit(50)]
pub fn mappages(
    pgtbl: &mut AddressSpace,
    heap: &mut Heap,
    va: u64,
    pa: u64,
    sz: u64,
    perm: u64,
) -> (r: Result<(), VmError>)
    requires
        old(pgtbl).wf(),
        mappable(old(pgtbl), va, sz),
    ensures
        final(pgtbl).wf(),
        mapped(old(pgtbl), final(pgtbl), va, pa, sz, perm, r),
{
    let first: u64 = pg_round_down(va);
    let last: u64 = pg_round_down(va + (sz - 1));
    let mut cur: u64 = first;
    proof {
        assert forall|v: u64| in_range(va, sz, v) implies (#[trigger] lookup(
            old(pgtbl).nodes(),
            v,
        )) is None by {
            lemma_unmapped(old(pgtbl), va, sz, v);
        }
    }
    loop
        invariant
            range_ok(va, sz),
            forall|v: u64|
                in_range(va, sz, v) ==> (#[trigger] lookup(old(pgtbl).nodes(), v)) is None,
            first == spec_pg_round_down(va),
            last == spec_pg_round_down((va + sz - 1) as u64),
            first <= cur <= last,
            cur % 4096 == 0,
            pgtbl.wf(),
            pgtbl.root_pa() == old(pgtbl).root_pa(),
            pgtbl.frames() == old(pgtbl).frames(),
            mapped_upto(old(pgtbl).nodes(), pgtbl.nodes(), va, pa, perm, first, cur as int),
        decreases last - cur,
    {
        let ghost start = pgtbl.nodes();
        let walked_slot = walk_to_leaf(pgtbl, heap, cur);
        proof {
            lemma_map_walked(
                old(pgtbl).nodes(),
                start,
                pgtbl.nodes(),
                va,
                pa,
                perm,
                first,
                cur as int,
            );
            assert(in_range(va, sz, cur));
        }
        let slot = match walked_slot {
            Ok(s) => s,
            Err(e) => {
                proof {
                    assert(slot_of(old(pgtbl).nodes(), cur) is None);
                    lemma_mapped_stopped(old(pgtbl), pgtbl, va, pa, sz, perm, cur);
                }
                return Err(e);
            },
        };
        proof {
            // The page is not mapped, so its leaf entry is not valid.
            lemma_slot_lookup(pgtbl.nodes(), cur);
            assert(lookup(old(pgtbl).nodes(), cur) is None);
            assert(lookup(pgtbl.nodes(), cur) == lookup(old(pgtbl).nodes(), cur));
        }
        let off: u64 = cur - first;
        let target: u64 = if off > u64::MAX - pa {
            off - (u64::MAX - pa) - 1
        } else {
            pa + off
        };
        let e: u64 = pa2pte(target) | perm | PTE_V;
        let ghost walked = pgtbl.nodes();
        pgtbl.set_leaf(slot, e);
        proof {
            lemma_map_step(
                old(pgtbl).nodes(),
                walked,
                pgtbl.nodes(),
                va,
                pa,
                perm,
                first,
                cur,
                slot,
                e,
            );
        }
        if cur == last {
            proof {
                lemma_mapped_done(old(pgtbl), pgtbl, va, pa, sz, perm);
            }
            return Ok(());
        }
        cur = cur + PGSIZE;
    }
}

/// The allocating walk, as `mappages` needs it: it changes no translation
/// and moves no leaf table, and it fails only where the leaf table was
/// missing.
fn walk_to_leaf(pgtbl: &mut AddressSpace, heap: &mut Heap, va: u64) -> (r: Result<PteSlot, VmError>)
    requires
        old(pgtbl).wf(),
        va < MAXVA,
    ensures
        final(pgtbl).wf(),
        final(pgtbl).root_pa() == old(pgtbl).root_pa(),
        final(pgtbl).frames() == old(pgtbl).frames(),
        forall|v: u64| #[trigger]
            lookup(final(pgtbl).nodes(), v) == lookup(old(pgtbl).nodes(), v),
        forall|v: u64| #[trigger]
            slot_of(old(pgtbl).nodes(), v) is Some ==> slot_of(final(pgtbl).nodes(), v) == slot_of(
                old(pgtbl).nodes(),
                v,
            ),
        r matches Ok(s) ==> slot_of(final(pgtbl).nodes(), va) == Some(s),
        r matches Err(e) ==> e == VmError::OutOfMemory && slot_of(old(pgtbl).nodes(), va) is None,
{
    let r = walk(pgtbl, heap, va, true);
    proof {
        assert forall|v: u64| #[trigger]
            lookup(pgtbl.nodes(), v) == lookup(old(pgtbl).nodes(), v) by {
            assert(pgtbl.lookup(v) == old(pgtbl).lookup(v));
        }
        assert forall|v: u64| #[trigger] slot_of(old(pgtbl).nodes(), v) is Some implies slot_of(
            pgtbl.nodes(),
            v,
        ) == slot_of(old(pgtbl).nodes(), v) by {
            assert(old(pgtbl).slot(v) is Some ==> pgtbl.slot(v) == old(pgtbl).slot(v));
        }
    }
    r
}

/// A page of a range that `mappages` admits is not mapped.
proof fn lemma_unmapped(pgtbl: &AddressSpace, va: u64, sz: u64, v: u64)
    requires
        mappable(pgtbl, va, sz),
        in_range(va, sz, v),
    ensures
        pgtbl.lookup(v) is None,
        range_ok(va, sz),
{
}

/// `mappages` has kept its word when it stops for want of memory.
proof fn lemma_mapped_stopped(
    before: &AddressSpace,
    after: &AddressSpace,
    va: u64,
    pa: u64,
    sz: u64,
    perm: u64,
    stop: u64,
)
    requires
        mappable(before, va, sz),
        after.root_pa() == before.root_pa(),
        after.frames() == before.frames(),
        stopped_at(before, after, va, pa, sz, perm, stop),
    ensures
        mapped(before, after, va, pa, sz, perm, Err(VmError::OutOfMemory)),
{
    reveal(mapped);
    let first = spec_pg_round_down(va);
    assert forall|v: u64|
        before.lookup(v) is None && (#[trigger] after.lookup(v)) is Some implies in_range(va, sz, v)
        && after.lookup(v) == Some(leaf_pte(phys_add(pa, range_offset(va, v)), perm)) by {
        assert(first <= v < stop);
    }
    assert forall|v: u64| #[trigger] before.slot(v) is Some implies after.slot(v) == before.slot(
        v,
    ) by {
        assert(slot_of(before.nodes(), v) is Some);
    }
}

/// `mappages` has kept its word when it has done the last page.
proof fn lemma_mapped_done(
    before: &AddressSpace,
    after: &AddressSpace,
    va: u64,
    pa: u64,
    sz: u64,
    perm: u64,
)
    requires
        mappable(before, va, sz),
        after.root_pa() == before.root_pa(),
        after.frames() == before.frames(),
        mapped_upto(
            before.nodes(),
            after.nodes(),
            va,
            pa,
            perm,
            spec_pg_round_down(va),
            spec_pg_round_down((va + sz - 1) as u64) + 4096,
        ),
    ensures
        mapped(before, after, va, pa, sz, perm, Ok(())),
{
    reveal(mapped);
    let first = spec_pg_round_down(va);
    let end = spec_pg_round_down((va + sz - 1) as u64) + 4096;
    assert forall|v: u64| in_range(va, sz, v) <==> first <= v < end by {}
    assert forall|v: u64| #[trigger] before.slot(v) is Some implies after.slot(v) == before.slot(
        v,
    ) by {
        assert(slot_of(before.nodes(), v) is Some);
    }
}

/// What a successful `mappages` of whole pages comes to: the pages from
/// `va` to `va + sz` were not mapped and are now mapped to the pages from
/// `pa` on, and no other translation has changed.
pub proof fn lemma_mapped_range(
    before: &AddressSpace,
    after: &AddressSpace,
    va: u64,
    pa: u64,
    sz: u64,
    perm: u64,
    r: Result<(), VmError>,
)
    requires
        mapped(before, after, va, pa, sz, perm, r),
        r is Ok,
        va % 4096 == 0,
        sz % 4096 == 0,
        pa + sz - 4096 <= u64::MAX,
    ensures
        sz > 0,
        va + sz <= MAXVA,
        after.root_pa() == before.root_pa(),
        after.frames() == before.frames(),
        forall|v: u64|
            #![trigger before.lookup(v)]
            #![trigger after.lookup(v)]
            if va <= v < va + sz {
                before.lookup(v) is None && after.lookup(v) == Some(
                    leaf_pte((pa + (spec_pg_round_down(v) - va)) as u64, perm),
                )
            } else {
                after.lookup(v) == before.lookup(v)
            },
        forall|v: u64| #[trigger] before.slot(v) is Some ==> after.slot(v) == before.slot(v),
{
    reveal(mapped);
    assert forall|v: u64|
        #![trigger before.lookup(v)]
        #![trigger after.lookup(v)]
        if va <= v < va + sz {
            before.lookup(v) is None && after.lookup(v) == Some(
                leaf_pte((pa + (spec_pg_round_down(v) - va)) as u64, perm),
            )
        } else {
            after.lookup(v) == before.lookup(v)
        } by {
        if va <= v < va + sz {
            assert(in_range(va, sz, v));
            assert(range_offset(va, v) == spec_pg_round_down(v) - va);
            assert(phys_add(pa, range_offset(va, v)) == pa + (spec_pg_round_down(v) - va));
        } else {
            assert(!in_range(va, sz, v));
            if before.lookup(v) is None {
                if after.lookup(v) is Some {
                    assert(in_range(va, sz, v));
                }
            }
        }
    }
}

/// What a failed `mappages` of one page comes to: no translation has
/// changed, and the table for the page's entry was missing and the heap had
/// no page for it.
pub proof fn lemma_mapped_page_failed(
    before: &AddressSpace,
    after: &AddressSpace,
    va: u64,
    pa: u64,
    perm: u64,
    e: VmError,
)
    requires
        mapped(before, after, va, pa, PGSIZE, perm, Err(e)),
        va % 4096 == 0,
    ensures
        after.root_pa() == before.root_pa(),
        after.frames() == before.frames(),
        forall|v: u64| #[trigger] after.lookup(v) == before.lookup(v),
        forall|v: u64| #[trigger] before.slot(v) is Some ==> after.slot(v) == before.slot(v),
        e == VmError::OutOfMemory,
        before.slot(va) is None,
{
    reveal(mapped);
    let stop = choose|stop: u64| #[trigger] stopped_at(before, after, va, pa, PGSIZE, perm, stop);
    assert(stopped_at(before, after, va, pa, PGSIZE, perm, stop));
    assert(stop == va);
    assert forall|v: u64| #[trigger] after.lookup(v) == before.lookup(v) by {
        assert(lookup(after.nodes(), v) == lookup(before.nodes(), v));
    }
}

/// What every `mappages` keeps: the root, the memory, each mapping that was
/// there, and each leaf table; and that it fails for want of memory only.
pub proof fn lemma_mapped_keeps(
    before: &AddressSpace,
    after: &AddressSpace,
    va: u64,
    pa: u64,
    sz: u64,
    perm: u64,
    r: Result<(), VmError>,
)
    requires
        mapped(before, after, va, pa, sz, perm, r),
    ensures
        after.root_pa() == before.root_pa(),
        after.frames() == before.frames(),
        forall|v: u64|
            before.lookup(v) is Some ==> #[trigger] after.lookup(v) == before.lookup(v),
        forall|v: u64| #[trigger] before.slot(v) is Some ==> after.slot(v) == before.slot(v),
        r matches Err(e) ==> e == VmError::OutOfMemory,
        (forall|v: u64| in_range(va, sz, v) ==> (#[trigger] before.slot(v)) is Some) ==> r is Ok,
{
    reveal(mapped);
}

/// `mappages` for the kernel's own address space, where a failure halts
/// the boot.
pub fn kvmmap(
    pgtbl: &mut AddressSpace,
    heap: &mut Heap,
    va: u64,
    pa: u64,
    sz: u64,
    perm: u64,
) -> (r: Result<(), VmError>)
    requires
        old(pgtbl).wf(),
        mappable(old(pgtbl), va, sz),
    ensures
        final(pgtbl).wf(),
        mapped(old(pgtbl), final(pgtbl), va, pa, sz, perm, r),
{
    mappages(pgtbl, heap, va, pa, sz, perm)
}

/// What the kernel's address space translates `v` to: the console's
/// registers read-write, the kernel's text read-execute, the rest of RAM
/// read-write, each at its own physical address, and the trampoline page
/// read-execute at the top.
pub open spec fn kernel_map(image: &KernelImage, v: u64) -> Option<u64> {
    if UART <= v < UART + PGSIZE {
        Some(leaf_pte(UART, PTE_R | PTE_W))
    } else if KERNELBASE <= v < image.etext {
        Some(leaf_pte(spec_pg_round_down(v), PTE_R | PTE_X))
    } else if image.etext <= v < PHYSTOP {
        Some(leaf_pte(spec_pg_round_down(v), PTE_R | PTE_W))
    } else if TRAMPOLINE <= v < MAXVA {
        Some(leaf_pte(image.trampoline, PTE_R | PTE_X))
    } else {
        None
    }
}

/// The kernel's text ends on a page boundary inside RAM.
pub open spec fn text_ok(image: &KernelImage) -> bool {
    KERNELBASE < image.etext < PHYSTOP && image.etext % 4096 == 0
}

/// What `kvmmake` asks of the tree: nothing is mapped where the kernel's
/// mappings go.
pub open spec fn kernel_room(pgtbl: &AddressSpace, image: &KernelImage) -> bool {
    forall|v: u64| kernel_map(image, v) is Some ==> (#[trigger] pgtbl.lookup(v)) is None
}

/// Tests what `kvmmake` asks for: that the kernel's text ends on a page
/// boundary inside RAM, and that nothing is mapped where the kernel's
/// mappings go.  The kernel halts on `false`.
#[verifier::rlimit(50)]
pub fn check_kernel_room(pgtbl: &AddressSpace, image: &KernelImage) -> (ok: bool)
    requires
        pgtbl.wf(),
    ensures
        ok == (text_ok(image) && kernel_room(pgtbl, image)),
{
    let etext = image.etext;
    if !(KERNELBASE < etext && etext < PHYSTOP && etext % PGSIZE == 0) {
        return false;
    }
    let console = check_range(pgtbl, UART, PGSIZE);
    let text = check_range(pgtbl, KERNELBASE, etext - KERNELBASE);
    let data = check_range(pgtbl, etext, PHYSTOP - etext);
    let trampoline = check_range(pgtbl, TRAMPOLINE, PGSIZE);
    let ok = console.is_ok() && text.is_ok() && data.is_ok() && trampoline.is_ok();
    proof {
        if ok {
            assert forall|v: u64| kernel_map(image, v) is Some implies (#[trigger] pgtbl.lookup(
                v,
            )) is None by {
                lemma_kernel_ranges(image, v);
            }
        } else {
            if kernel_room(pgtbl, image) {
                assert forall|v: u64| in_range(UART, PGSIZE, v) implies (#[trigger] pgtbl.lookup(
                    v,
                )) is None by {
                    lemma_kernel_ranges(image, v);
                }
                assert forall|v: u64|
                    in_range(KERNELBASE, (etext - KERNELBASE) as u64, v) implies (
                #[trigger] pgtbl.lookup(v)) is None by {
                    lemma_kernel_ranges(image, v);
                }
                assert forall|v: u64|
                    in_range(etext, (PHYSTOP - etext) as u64, v) implies (#[trigger] pgtbl.lookup(
                    v,
                )) is None by {
                    lemma_kernel_ranges(image, v);
                }
                assert forall|v: u64| in_range(TRAMPOLINE, PGSIZE, v) implies (
                #[trigger] pgtbl.lookup(v)) is None by {
                    lemma_kernel_ranges(image, v);
                }
            }
        }
    }
    ok
}

/// Which of the kernel's four ranges an address lies in.
pub proof fn lemma_kernel_ranges(image: &KernelImage, v: u64)
    requires
        text_ok(image),
    ensures
        range_ok(UART, PGSIZE),
        range_ok(KERNELBASE, (image.etext - KERNELBASE) as u64),
        range_ok(image.etext, (PHYSTOP - image.etext) as u64),
        range_ok(TRAMPOLINE, PGSIZE),
        in_range(UART, PGSIZE, v) <==> UART <= v < UART + PGSIZE,
        in_range(KERNELBASE, (image.etext - KERNELBASE) as u64, v) <==> KERNELBASE <= v
            < image.etext,
        in_range(image.etext, (PHYSTOP - image.etext) as u64, v) <==> image.etext <= v < PHYSTOP,
        in_range(TRAMPOLINE, PGSIZE, v) <==> TRAMPOLINE <= v < MAXVA,
        kernel_map(image, v) is Some <==> (UART <= v < UART + PGSIZE || KERNELBASE <= v < PHYSTOP
            || TRAMPOLINE <= v < MAXVA),
{
}

/// Whether `v` lies in the kernel's range number `k`: the console's
/// registers, the kernel's text, the rest of RAM, the trampoline.
pub open spec fn in_kernel_range(image: &KernelImage, k: int, v: u64) -> bool {
    if k == 0 {
        UART <= v < UART + PGSIZE
    } else if k == 1 {
        KERNELBASE <= v < image.etext
    } else if k == 2 {
        image.etext <= v < PHYSTOP
    } else {
        TRAMPOLINE <= v < MAXVA
    }
}

/// What is handed to `mappages` for the kernel's range number `k`: the
/// virtual address, the physical address, the size and the permissions.
pub open spec fn kernel_args(image: &KernelImage, k: int) -> (u64, u64, u64, u64) {
    if k == 0 {
        (UART, UART, PGSIZE, PTE_R | PTE_W)
    } else if k == 1 {
        (KERNELBASE, KERNELBASE, (image.etext - KERNELBASE) as u64, PTE_R | PTE_X)
    } else if k == 2 {
        (image.etext, image.etext, (PHYSTOP - image.etext) as u64, PTE_R | PTE_W)
    } else {
        (TRAMPOLINE, image.trampoline, PGSIZE, PTE_R | PTE_X)
    }
}

/// The kernel's range number `k` is a range of whole pages, `v` lies in it
/// exactly if `mappages` takes it to, and it is mapped there as
/// [`kernel_map`] says.
proof fn lemma_kernel_args(image: &KernelImage, k: int, v: u64)
    requires
        text_ok(image),
        0 <= k < 4,
    ensures
        range_ok(kernel_args(image, k).0, kernel_args(image, k).2),
        kernel_args(image, k).0 % 4096 == 0,
        kernel_args(image, k).2 % 4096 == 0,
        kernel_args(image, k).1 + kernel_args(image, k).2 - 4096 <= u64::MAX,
        in_range(kernel_args(image, k).0, kernel_args(image, k).2, v) <==> in_kernel_range(
            image,
            k,
            v,
        ),
        in_kernel_range(image, k, v) <==> kernel_args(image, k).0 <= v < kernel_args(image, k).0
            + kernel_args(image, k).2,
        in_kernel_range(image, k, v) ==> kernel_map(image, v) is Some && kernel_map(image, v)
            == Some(
            leaf_pte(
                (kernel_args(image, k).1 + (spec_pg_round_down(v) - kernel_args(image, k).0))
                    as u64,
                kernel_args(image, k).3,
            ),
        ),
{
}

/// Maps the kernel's range number `k`.
#[verifier::rlimit(50)]
fn kvmmap_range(pgtbl: &mut AddressSpace, heap: &mut Heap, image: &KernelImage, k: usize) -> (r:
    Result<(), VmError>)
    requires
        old(pgtbl).wf(),
        text_ok(image),
        k < 4,
        forall|v: u64| in_kernel_range(image, k as int, v) ==> (#[trigger] old(pgtbl).lookup(v))
            is None,
    ensures
        final(pgtbl).wf(),
        final(pgtbl).root_pa() == old(pgtbl).root_pa(),
        final(pgtbl).frames() == old(pgtbl).frames(),
        forall|v: u64|
            old(pgtbl).lookup(v) is Some ==> #[trigger] final(pgtbl).lookup(v) == old(pgtbl).lookup(
                v,
            ),
        forall|v: u64| #[trigger]
            old(pgtbl).slot(v) is Some ==> final(pgtbl).slot(v) == old(pgtbl).slot(v),
        r is Ok ==> forall|v: u64|
            #![trigger final(pgtbl).lookup(v)]
            if in_kernel_range(image, k as int, v) {
                final(pgtbl).lookup(v) == kernel_map(image, v)
            } else {
                final(pgtbl).lookup(v) == old(pgtbl).lookup(v)
            },
        r matches Err(e) ==> e == VmError::OutOfMemory,
        (forall|v: u64| in_kernel_range(image, k as int, v) ==> (#[trigger] old(pgtbl).slot(v))
            is Some) ==> r is Ok,
{
    let etext = image.etext;
    let (va, pa, sz, perm): (u64, u64, u64, u64) = if k == 0 {
        // The console's registers.
        (UART, UART, PGSIZE, PTE_R | PTE_W)
    } else if k == 1 {
        // The kernel's text, executable and read-only.
        (KERNELBASE, KERNELBASE, etext - KERNELBASE, PTE_R | PTE_X)
    } else if k == 2 {
        // The kernel's data and the rest of RAM.
        (etext, etext, PHYSTOP - etext, PTE_R | PTE_W)
    } else {
        // The trampoline, at the highest virtual address.
        (TRAMPOLINE, image.trampoline, PGSIZE, PTE_R | PTE_X)
    };
    proof {
        assert((va, pa, sz, perm) == kernel_args(image, k as int));
        lemma_kernel_args(image, k as int, 0);
        assert forall|v: u64| in_range(va, sz, v) implies (#[trigger] pgtbl.lookup(v)) is None by {
            lemma_kernel_args(image, k as int, v);
        }
    }
    let r = kvmmap(pgtbl, heap, va, pa, sz, perm);
    proof {
        lemma_kernel_range_mapped(old(pgtbl), pgtbl, image, k as int, r);
    }
    r
}

/// What mapping the kernel's range number `k` comes to.
#[verifier::rlimit(50)]
proof fn lemma_kernel_range_mapped(
    before: &AddressSpace,
    after: &AddressSpace,
    image: &KernelImage,
    k: int,
    r: Result<(), VmError>,
)
    requires
        text_ok(image),
        0 <= k < 4,
        mapped(
            before,
            after,
            kernel_args(image, k).0,
            kernel_args(image, k).1,
            kernel_args(image, k).2,
            kernel_args(image, k).3,
            r,
        ),
    ensures
        after.root_pa() == before.root_pa(),
        after.frames() == before.frames(),
        forall|v: u64|
            before.lookup(v) is Some ==> #[trigger] after.lookup(v) == before.lookup(v),
        forall|v: u64| #[trigger] before.slot(v) is Some ==> after.slot(v) == before.slot(v),
        r is Ok ==> forall|v: u64|
            #![trigger after.lookup(v)]
            if in_kernel_range(image, k, v) {
                after.lookup(v) == kernel_map(image, v)
            } else {
                after.lookup(v) == before.lookup(v)
            },
        r matches Err(e) ==> e == VmError::OutOfMemory,
        (forall|v: u64| in_kernel_range(image, k, v) ==> (#[trigger] before.slot(v)) is Some)
            ==> r is Ok,
{
    let va = kernel_args(image, k).0;
    let pa = kernel_args(image, k).1;
    let sz = kernel_args(image, k).2;
    let perm = kernel_args(image, k).3;
    lemma_mapped_keeps(before, after, va, pa, sz, perm, r);
    lemma_kernel_args(image, k, 0);
    if forall|v: u64| in_kernel_range(image, k, v) ==> (#[trigger] before.slot(v)) is Some {
        assert forall|v: u64| in_range(va, sz, v) implies (#[trigger] before.slot(v)) is Some by {
            lemma_kernel_args(image, k, v);
        }
    }
    if r is Ok {
        lemma_mapped_range(before, after, va, pa, sz, perm, r);
        assert forall|v: u64| #![trigger after.lookup(v)] if in_kernel_range(image, k, v) {
            after.lookup(v) == kernel_map(image, v)
        } else {
            after.lookup(v) == before.lookup(v)
        } by {
            lemma_kernel_args(image, k, v);
            let was = before.lookup(v);
        }
    }
}

/// Adds the kernel's mappings to `pgtbl`, in this order: the console's
/// registers, the kernel's text, the rest of RAM, the trampoline.  The
/// kernel's text must end on a page boundary inside RAM, and nothing may be
/// mapped where the mappings go; [`check_kernel_room`] tests that.  The
/// first range for which the heap runs out stops the work.
#[verifier::rlimit(50)]
pub fn kvmmake(pgtbl: &mut AddressSpace, heap: &mut Heap, image: &KernelImage) -> (r: Result<
    (),
    VmError,
>)
    requires
        old(pgtbl).wf(),
        text_ok(image),
        kernel_room(old(pgtbl), image),
    ensures
        final(pgtbl).wf(),
        final(pgtbl).root_pa() == old(pgtbl).root_pa(),
        final(pgtbl).frames() == old(pgtbl).frames(),
        forall|v: u64|
            old(pgtbl).lookup(v) is Some ==> #[trigger] final(pgtbl).lookup(v) == old(pgtbl).lookup(
                v,
            ),
        r is Ok ==> forall|v: u64|
            #![trigger final(pgtbl).lookup(v)]
            match kernel_map(image, v) {
                Some(e) => final(pgtbl).lookup(v) == Some(e),
                None => final(pgtbl).lookup(v) == old(pgtbl).lookup(v),
            },
        r matches Err(e) ==> e == VmError::OutOfMemory,
        // Where every leaf table that the mappings need exists, the call
        // succeeds.
        (forall|v: u64| kernel_map(image, v) is Some ==> (#[trigger] old(pgtbl).slot(v)) is Some)
            ==> r is Ok,
{
    let mut k: usize = 0;
    while k < 4
        invariant
            k <= 4,
            text_ok(image),
            pgtbl.wf(),
            pgtbl.root_pa() == old(pgtbl).root_pa(),
            pgtbl.frames() == old(pgtbl).frames(),
            kernel_room(old(pgtbl), image),
            forall|v: u64|
                old(pgtbl).lookup(v) is Some ==> #[trigger] pgtbl.lookup(v) == old(pgtbl).lookup(v),
            forall|v: u64| #[trigger]
                old(pgtbl).slot(v) is Some ==> pgtbl.slot(v) == old(pgtbl).slot(v),
            forall|v: u64|
                #![trigger pgtbl.lookup(v)]
                if exists|j: int| 0 <= j < k && in_kernel_range(image, j, v) {
                    pgtbl.lookup(v) == kernel_map(image, v)
                } else {
                    pgtbl.lookup(v) == old(pgtbl).lookup(v)
                },
        decreases 4 - k,
    {
        let ghost entered = *pgtbl;
        proof {
            assert forall|v: u64| in_kernel_range(image, k as int, v) implies (
            #[trigger] pgtbl.lookup(v)) is None by {
                lemma_kernel_ranges(image, v);
                assert(old(pgtbl).lookup(v) is None);
            }
            if forall|v: u64|
                kernel_map(image, v) is Some ==> (#[trigger] old(pgtbl).slot(v)) is Some {
                assert forall|v: u64| in_kernel_range(image, k as int, v) implies (
                #[trigger] pgtbl.slot(v)) is Some by {
                    lemma_kernel_ranges(image, v);
                    assert(old(pgtbl).slot(v) is Some);
                }
            }
        }
        match kvmmap_range(pgtbl, heap, image, k) {
            Err(e) => {
                proof {
                    lemma_chain(old(pgtbl), &entered, pgtbl);
                }
                return Err(e);
            },
            Ok(()) => {},
        }
        proof {
            lemma_chain(old(pgtbl), &entered, pgtbl);
            assert forall|v: u64| #[trigger] old(pgtbl).slot(v) is Some implies pgtbl.slot(v)
                == old(pgtbl).slot(v) by {
                assert(entered.slot(v) == old(pgtbl).slot(v));
            }
            assert forall|v: u64| #![trigger pgtbl.lookup(v)] if exists|j: int|
                0 <= j < k + 1 && in_kernel_range(image, j, v) {
                pgtbl.lookup(v) == kernel_map(image, v)
            } else {
                pgtbl.lookup(v) == old(pgtbl).lookup(v)
            } by {
                lemma_kernel_ranges(image, v);
                let before = entered.lookup(v);
                if in_kernel_range(image, k as int, v) {
                    assert(0 <= k < k + 1 && in_kernel_range(image, k as int, v));
                } else if exists|j: int| 0 <= j < k + 1 && in_kernel_range(image, j, v) {
                    let j = choose|j: int| 0 <= j < k + 1 && in_kernel_range(image, j, v);
                    assert(0 <= j < k && in_kernel_range(image, j, v));
                }
            }
        }
        k += 1;
    }
    proof {
        assert forall|v: u64| #![trigger pgtbl.lookup(v)] match kernel_map(image, v) {
            Some(e) => pgtbl.lookup(v) == Some(e),
            None => pgtbl.lookup(v) == old(pgtbl).lookup(v),
        } by {
            lemma_kernel_ranges(image, v);
            if kernel_map(image, v) is Some {
                let j: int = if UART <= v < UART + PGSIZE {
                    0
                } else if KERNELBASE <= v < image.etext {
                    1
                } else if image.etext <= v < PHYSTOP {
                    2
                } else {
                    3
                };
                assert(0 <= j < 4 && in_kernel_range(image, j, v));
            }
        }
    }
    Ok(())
}

/// Mappings that are kept by each of two steps are kept by both.
proof fn lemma_chain(a: &AddressSpace, b: &AddressSpace, c: &AddressSpace)
    requires
        forall|v: u64| a.lookup(v) is Some ==> #[trigger] b.lookup(v) == a.lookup(v),
        forall|v: u64| b.lookup(v) is Some ==> #[trigger] c.lookup(v) == b.lookup(v),
    ensures
        forall|v: u64| a.lookup(v) is Some ==> #[trigger] c.lookup(v) == a.lookup(v),
{
    assert forall|v: u64| a.lookup(v) is Some implies #[trigger] c.lookup(v) == a.lookup(v) by {
        assert(b.lookup(v) == a.lookup(v));
    }
}

/// Builds the kernel's address space: a fresh root page from `heap`, and
/// in it the mappings of [`kernel_map`] and no others.  The kernel's text
/// must end on a page boundary inside RAM, which [`KernelImage::check`]
/// tests among other things.
pub fn kvminit(heap: &mut Heap, image: &KernelImage) -> (r: Result<AddressSpace, VmError>)
    requires
        text_ok(image),
    ensures
        match r {
            Ok(kernel) => kernel.wf() && kernel.frames().len() == 0 && forall|v: u64| #[trigger]
                kernel.lookup(v) == kernel_map(image, v),
            Err(e) => e == VmError::OutOfMemory,
        },
{
    let mut kernel = match uvmcreate(heap) {
        Err(e) => {
            return Err(e);
        },
        Ok(space) => space,
    };
    match kvmmake(&mut kernel, heap, image) {
        Err(e) => Err(e),
        Ok(()) => Ok(kernel),
    }
}

/// Turns on translation through the kernel's page table on this hart:
/// writes the root into `satp` and flushes the cached translations.
pub fn kvminithart(h: &mut Hart, kernel: &AddressSpace)
    requires
        kernel.wf(),
    ensures
        wrote(
            old(h),
            final(h),
            (Hart {
                satp: spec_make_satp(kernel.root_pa()),
                tlb_satp: spec_make_satp(kernel.root_pa()),
                ..*old(h)
            }),
            seq![HartOp::Write(Csr::Satp, spec_make_satp(kernel.root_pa())), HartOp::Fence],
        ),
{
    w_satp(h, make_satp(kernel.root()));
    sfence_vma(h);
    proof {
        assert(h.log@ =~= old(h).log@ + seq![
            HartOp::Write(Csr::Satp, spec_make_satp(kernel.root_pa())),
            HartOp::Fence,
        ]);
    }
}

/// Creates an address space with nothing mapped: a zeroed root page from
/// `heap`.
pub fn uvmcreate(heap: &mut Heap) -> (r: Result<AddressSpace, VmError>)
    ensures
        match r {
            Ok(space) => space.wf() && space.frames().len() == 0 && empty_tree(space.nodes())
                && forall|v: u64| space.lookup(v) is None && space.slot(v) is None,
            Err(e) => e == VmError::OutOfMemory,
        },
{
    match kalloc(heap) {
        None => Err(VmError::OutOfMemory),
        Some(root) => AddressSpace::new(root),
    }
}

/// The flags of a page of user memory: readable, writable, executable, and
/// open to user mode.
pub const USER_PAGE: u64 = 0x1E;

/// One page that starts with the bytes of `src` and is zero after them.
pub open spec fn spec_page_image(src: Seq<u8>) -> Seq<u8> {
    Seq::new(
        4096,
        |i: int|
            if i < src.len() {
                src[i]
            } else {
                0u8
            },
    )
}

/// Builds a page that starts with the bytes of `src` and is zero after them.
pub fn page_image(src: &[u8]) -> (page: Vec<u8>)
    requires
        src@.len() <= 4096,
    ensures
        page@ == spec_page_image(src@),
{
    let mut page: Vec<u8> = Vec::new();
    let mut i: usize = 0;
    while i < 4096
        invariant
            i <= 4096,
            src@.len() <= 4096,
            page@.len() == i,
            forall|k: int|
                0 <= k < i ==> #[trigger] page@[k] == (if k < src@.len() {
                    src@[k]
                } else {
                    0u8
                }),
        decreases 4096 - i,
    {
        if i < src.len() {
            page.push(src[i]);
        } else {
            page.push(0u8);
        }
        i += 1;
    }
    proof {
        assert(page@ =~= spec_page_image(src@));
    }
    page
}

/// Whether the allocator handed out a page that can hold memory of an
/// address space: it is page-aligned and lies below `MAXPA`.
pub open spec fn page_usable(page: Option<u64>) -> bool {
    match page {
        Some(pa) => pa % 4096 == 0 && pa < MAXPA,
        None => false,
    }
}

/// What `uvminit_page` does with the page it is handed.
pub open spec fn program_loaded(
    before: &AddressSpace,
    after: &AddressSpace,
    src: Seq<u8>,
    r: Result<(), VmError>,
) -> bool {
    &&& after.root_pa() == before.root_pa()
    &&& forall|v: u64| #[trigger] after.lookup(v) == before.lookup(v) || (r is Ok && v < 4096)
    &&& match r {
        // The page belongs to the address space now, holds the program,
        // and is mapped at address 0 for user mode.
        Ok(()) => {
            let frame = after.frames().last();
            &&& after.frames() == before.frames().push(frame)
            &&& frame.pa % 4096 == 0
            &&& frame.pa < MAXPA
            &&& frame.bytes@ == spec_page_image(src)
            &&& forall|v: u64|
                v < 4096 ==> #[trigger] after.lookup(v) == Some(leaf_pte(frame.pa, USER_PAGE))
                    && after.byte_at(v) == Some(spec_page_image(src)[v as int])
        },
        Err(e) => after.frames() == before.frames() && (e == VmError::ImageTooLarge || e
            == VmError::OutOfMemory),
    }
}

/// Loads the first program into the page that the allocator handed out
/// (`None` if it had none): the page gets the bytes of `src` and zeros
/// after them, and is mapped at virtual address 0 for user mode.  Nothing
/// may be mapped there yet.
///
/// A program of a page or more is refused.  So is a page that is not
/// page-aligned or lies at or above `MAXPA`, with
/// [`VmError::OutOfMemory`].  After that the call fails only if the table
/// for address 0 is missing and the heap has no page for it.
#[verifier::rlimit(50)]
pub fn uvminit_page(
    pgtbl: &mut AddressSpace,
    heap: &mut Heap,
    src: &[u8],
    page: Option<u64>,
) -> (r: Result<(), VmError>)
    requires
        old(pgtbl).wf(),
        forall|v: u64| v < 4096 ==> (#[trigger] old(pgtbl).lookup(v)) is None,
    ensures
        final(pgtbl).wf(),
        program_loaded(old(pgtbl), final(pgtbl), src@, r),
        r == Err::<(), VmError>(VmError::ImageTooLarge) <==> src@.len() >= 4096,
        src@.len() >= 4096 || !page_usable(page) ==> r is Err && final(pgtbl).nodes() == old(
            pgtbl,
        ).nodes() && *final(heap) == *old(heap),
        r is Ok ==> page == Some(final(pgtbl).frames().last().pa),
        r is Err && src@.len() < 4096 && page_usable(page) ==> old(pgtbl).slot(0) is None,
        // With a program that fits, a page that can be used and the table
        // for address 0 in place, the call succeeds.
        src@.len() < 4096 && page_usable(page) && old(pgtbl).slot(0) is Some ==> r is Ok,
{
    if src.len() >= 4096 {
        return Err(VmError::ImageTooLarge);
    }
    let mem: u64 = match page {
        None => {
            return Err(VmError::OutOfMemory);
        },
        Some(mem) => mem,
    };
    if mem % PGSIZE != 0 || mem >= MAXPA {
        return Err(VmError::OutOfMemory);
    }
    let bytes = page_image(src);
    proof {
        assert forall|v: u64| in_range(0, PGSIZE, v) implies (#[trigger] pgtbl.lookup(v))
            is None by {
            assert(v < 4096);
        }
    }
    let r = mappages(pgtbl, heap, 0, mem, PGSIZE, USER_PAGE);
    proof {
        lemma_mapped_keeps(old(pgtbl), pgtbl, 0, mem, PGSIZE, USER_PAGE, r);
        if old(pgtbl).slot(0) is Some {
            assert forall|v: u64| in_range(0, PGSIZE, v) implies (#[trigger] old(pgtbl).slot(v))
                is Some by {
                lemma_page_lookup(old(pgtbl), v, 0);
            }
        }
    }
    match r {
        Err(e) => {
            proof {
                lemma_mapped_page_failed(old(pgtbl), pgtbl, 0, mem, USER_PAGE, e);
            }
            Err(e)
        },
        Ok(()) => {
            let ghost linked = *pgtbl;
            pgtbl.add_frame(mem, bytes);
            proof {
                lemma_mapped_range(old(pgtbl), &linked, 0, mem, PGSIZE, USER_PAGE, r);
                lemma_pte_encoding(mem, USER_PAGE);
                assert forall|v: u64| v < 4096 implies #[trigger] pgtbl.lookup(v) == Some(
                    leaf_pte(mem, USER_PAGE),
                ) && pgtbl.byte_at(v) == Some(spec_page_image(src@)[v as int]) by {
                    assert(linked.lookup(v) == Some(leaf_pte(mem, USER_PAGE)));
                    assert(pgtbl.lookup(v) == linked.lookup(v));
                }
                assert forall|v: u64| #[trigger]
                    pgtbl.lookup(v) == old(pgtbl).lookup(v) || v < 4096 by {
                    assert(pgtbl.lookup(v) == linked.lookup(v));
                }
            }
            Ok(())
        },
    }
}

/// Loads the first program into an address space: a fresh page of memory
/// from `heap`, mapped at virtual address 0 for user mode, that starts with
/// the bytes of `src`.  Nothing may be mapped at address 0 yet.  The
/// program must be smaller than a page.
pub fn uvminit(pgtbl: &mut AddressSpace, heap: &mut Heap, src: &[u8]) -> (r: Result<(), VmError>)
    requires
        old(pgtbl).wf(),
        forall|v: u64| v < 4096 ==> (#[trigger] old(pgtbl).lookup(v)) is None,
    ensures
        final(pgtbl).wf(),
        program_loaded(old(pgtbl), final(pgtbl), src@, r),
        r == Err::<(), VmError>(VmError::ImageTooLarge) <==> src@.len() >= 4096,
        src@.len() >= 4096 ==> final(pgtbl).nodes() == old(pgtbl).nodes(),
{
    let page = if src.len() >= 4096 {
        None
    } else {
        kalloc(heap)
    };
    uvminit_page(pgtbl, heap, src, page)
}

/// Mapping and walking agree.  Once `mappages` has mapped the pages from
/// the page-aligned `va` to the page-aligned physical address `pa`, with
/// flag bits `perm`, the walk for `va` ends at a valid leaf entry whose
/// address is `pa` and whose flags are `perm` and the valid bit, no more
/// and no less.
pub proof fn law_map_then_walk(
    before: &AddressSpace,
    after: &AddressSpace,
    va: u64,
    pa: u64,
    sz: u64,
    perm: u64,
    r: Result<(), VmError>,
)
    requires
        after.wf(),
        mapped(before, after, va, pa, sz, perm, r),
        r is Ok,
        va % 4096 == 0,
        pa % 4096 == 0,
        perm < 1024,
    ensures
        before.lookup(va) is None,
        after.slot(va) is Some,
        after.is_leaf_slot(after.slot(va).unwrap()),
        spec_pte_valid(after.pte(after.slot(va).unwrap())),
        spec_pte2pa(after.pte(after.slot(va).unwrap())) == pa,
        spec_pte_flags(after.pte(after.slot(va).unwrap())) == perm | PTE_V,
{
    reveal(mapped);
    assert(in_range(va, sz, va));
    assert(range_offset(va, va) == 0);
    assert(after.lookup(va) == Some(leaf_pte(pa, perm)));
    lemma_mapped_slot(after, va);
    lemma_pte_encoding(pa, perm);
}

/// A page is never mapped twice.  When a range has been mapped with
/// success, `mappages` does not admit any range that shares a page with
/// it: the test of such a range fails, with [`VmError::Remap`] unless the
/// range is refused for itself.
pub proof fn law_remap_rejected(
    s0: &AddressSpace,
    s1: &AddressSpace,
    va1: u64,
    pa1: u64,
    sz1: u64,
    perm1: u64,
    r1: Result<(), VmError>,
    va2: u64,
    sz2: u64,
    shared: u64,
)
    requires
        mapped(s0, s1, va1, pa1, sz1, perm1, r1),
        r1 is Ok,
        in_range(va1, sz1, shared),
        in_range(va2, sz2, shared),
    ensures
        !mappable(s1, va2, sz2),
        spec_check_range(s1, va2, sz2) is Err,
        range_ok(va2, sz2) ==> spec_check_range(s1, va2, sz2) == Err::<(), VmError>(
            VmError::Remap,
        ),
{
    reveal(mapped);
    assert(s1.lookup(shared) is Some);
}

} // verus!
