//! Reclaiming the bootloader's memory: which pages move, in which order, and what the page
//! tables look like afterwards.
use vstd::prelude::*;

verus! {

/// Bytes in one page and one physical frame.
pub const PAGE_SIZE: u64 = 4096;

/// Virtual base of the permanent window: physical address `p` is reachable at `PHYS_OFFSET + p`.
pub const PHYS_OFFSET: u64 = 0xFFFF_8000_0000_0000;

/// Physical addresses the window can represent lie below this bound.
pub const PHYS_WINDOW_END: u64 = 0x0000_4000_0000_0000;

/// Permissions of a page-table entry that matter here.
#[derive(Clone, Copy, Debug, PartialEq, Eq, Structural)]
pub struct PageEntryFlags {
    pub writable: bool,
    pub no_execute: bool,
}

/// The permissions every reclaimed page receives: writable, and non-executable where the CPU
/// supports no-execute.
pub open spec fn default_flags(nx: bool) -> PageEntryFlags {
    PageEntryFlags { writable: true, no_execute: nx }
}

impl PageEntryFlags {
    pub fn default_for(nx: bool) -> (r: PageEntryFlags)
        ensures
            r == default_flags(nx),
    {
        PageEntryFlags { writable: true, no_execute: nx }
    }
}

/// Type tag of a memory-map range.
#[derive(Clone, Copy, Debug, PartialEq, Eq, Structural)]
pub enum MemoryType {
    Available,
    Reserved,
    Loader,
    Kernel,
}

/// One contiguous physical range of the boot memory map.
#[derive(Clone, Copy, Debug, PartialEq, Eq, Structural)]
pub struct MemoryDescriptor {
    pub phys_start: u64,
    pub num_pages: u64,
    pub memory_type: MemoryType,
}

/// What the bootloader hands over: its memory map and whether no-execute is enabled.
#[derive(Clone, Debug)]
pub struct BootInfo {
    pub mmap: Vec<MemoryDescriptor>,
    pub nx: bool,
}

/// End (exclusive) of the range a descriptor covers.
pub open spec fn phys_end(d: MemoryDescriptor) -> int {
    d.phys_start + d.num_pages * PAGE_SIZE
}

/// A range is reclaimed when the loader owns it and it ends below the window's bound.
pub open spec fn qualifies(d: MemoryDescriptor) -> bool {
    d.memory_type == MemoryType::Loader && phys_end(d) < PHYS_WINDOW_END
}

/// Physical address of page `i` of a range.
pub open spec fn page_phys(d: MemoryDescriptor, i: int) -> int {
    d.phys_start + i * PAGE_SIZE
}

/// One change to the page tables.
#[derive(Clone, Copy, Debug, PartialEq, Eq, Structural)]
pub enum PageOp {
    /// Remove the mapping at `virt`.
    Unmap { virt: u64 },
    /// Map `virt` to the frame at `phys` with `flags`.
    MapTo { virt: u64, phys: u64, flags: PageEntryFlags },
}

impl PageOp {
    pub open spec fn target(self) -> u64 {
        match self {
            PageOp::Unmap { virt } => virt,
            PageOp::MapTo { virt, .. } => virt,
        }
    }

    pub open spec fn is_map(self) -> bool {
        self is MapTo
    }
}

/// The two changes for page `i` of a range: drop the identity alias, then map the frame at its
/// place in the window.
pub open spec fn page_ops(d: MemoryDescriptor, i: int, flags: PageEntryFlags) -> Seq<PageOp> {
    seq![
        PageOp::Unmap { virt: page_phys(d, i) as u64 },
        PageOp::MapTo {
            virt: (PHYS_OFFSET + page_phys(d, i)) as u64,
            phys: page_phys(d, i) as u64,
            flags,
        },
    ]
}

/// The changes for a range's first `n` pages, in page order.
pub open spec fn range_ops(d: MemoryDescriptor, n: nat, flags: PageEntryFlags) -> Seq<PageOp>
    decreases n,
{
    if n == 0 {
        seq![]
    } else {
        range_ops(d, (n - 1) as nat, flags) + page_ops(d, n - 1, flags)
    }
}

/// Every change reclamation makes, in order: the qualifying ranges in map order, each page by page.
pub open spec fn reclaim_ops(descs: Seq<MemoryDescriptor>, flags: PageEntryFlags) -> Seq<PageOp>
    decreases descs.len(),
{
    if descs.len() == 0 {
        seq![]
    } else {
        let prev = reclaim_ops(descs.drop_last(), flags);
        if qualifies(descs.last()) {
            prev + range_ops(descs.last(), descs.last().num_pages as nat, flags)
        } else {
            prev
        }
    }
}

impl MemoryDescriptor {
    /// Whether reclamation moves this range.
    pub fn is_reclaimable(&self) -> (r: bool)
        ensures
            r == qualifies(*self),
    {
        match self.memory_type {
            MemoryType::Loader => {
                if self.num_pages > PHYS_WINDOW_END / PAGE_SIZE {
                    false
                } else {
                    let len = self.num_pages * PAGE_SIZE;
                    self.phys_start < PHYS_WINDOW_END - len
                }
            },
            _ => false,
        }
    }
}

/// The changes reclamation makes for `boot`'s memory map, in order.
pub fn reclaim_operations(boot: &BootInfo) -> (r: Vec<PageOp>)
    ensures
        r@ == reclaim_ops(boot.mmap@, default_flags(boot.nx)),
{
    let flags = PageEntryFlags::default_for(boot.nx);
    let mut out: Vec<PageOp> = Vec::new();
    let n = boot.mmap.len();
    let mut i: usize = 0;
    while i < n
        invariant
            n == boot.mmap@.len(),
            i <= n,
            flags == default_flags(boot.nx),
            out@ == reclaim_ops(boot.mmap@.take(i as int), flags),
        decreases n - i,
    {
        let d = boot.mmap[i];
        assert(boot.mmap@.take(i + 1).drop_last() =~= boot.mmap@.take(i as int));
        if d.is_reclaimable() {
            let base = out.len();
            let ghost prev = out@;
            let mut page: u64 = 0;
            while page < d.num_pages
                invariant
                    qualifies(d),
                    page <= d.num_pages,
                    out@ == prev + range_ops(d, page as nat, flags),
                decreases d.num_pages - page,
            {
                assert(page * PAGE_SIZE <= d.num_pages * PAGE_SIZE) by (nonlinear_arith)
                    requires
                        page <= d.num_pages,
                ;
                let phys = d.phys_start + page * PAGE_SIZE;
                out.push(PageOp::Unmap { virt: phys });
                out.push(PageOp::MapTo { virt: PHYS_OFFSET + phys, phys, flags });
                assert(out@ =~= prev + range_ops(d, (page + 1) as nat, flags));
                page = page + 1;
            }
        }
        i = i + 1;
    }
    assert(boot.mmap@.take(n as int) =~= boot.mmap@);
    out
}

/// A model of the page tables: each mapped virtual address to its frame and permissions.
pub type PageTable = Map<u64, (u64, PageEntryFlags)>;

/// The page tables after one change.
pub open spec fn apply_op(pt: PageTable, op: PageOp) -> PageTable {
    match op {
        PageOp::Unmap { virt } => pt.remove(virt),
        PageOp::MapTo { virt, phys, flags } => pt.insert(virt, (phys, flags)),
    }
}

/// The page tables after a sequence of changes, applied in order.
pub open spec fn apply_ops(pt: PageTable, ops: Seq<PageOp>) -> PageTable
    decreases ops.len(),
{
    if ops.len() == 0 {
        pt
    } else {
        apply_op(apply_ops(pt, ops.drop_last()), ops.last())
    }
}

/// Unmaps touch the identity region; maps put a frame of that region at its window address.
pub open spec fn op_well_formed(op: PageOp, flags: PageEntryFlags) -> bool {
    match op {
        PageOp::Unmap { virt } => virt < PHYS_WINDOW_END,
        PageOp::MapTo { virt, phys, flags: f } => phys < PHYS_WINDOW_END && virt == PHYS_OFFSET
            + phys && f == flags,
    }
}

pub open spec fn ops_well_formed(ops: Seq<PageOp>, flags: PageEntryFlags) -> bool {
    forall|k: int| 0 <= k < ops.len() ==> op_well_formed(#[trigger] ops[k], flags)
}

/// Some change in `ops` that maps (`map`) or unmaps (`!map`) the address `v`.
pub open spec fn touches(ops: Seq<PageOp>, v: u64, map: bool) -> bool {
    exists|k: int| 0 <= k < ops.len() && #[trigger] ops[k].target() == v && ops[k].is_map() == map
}

/// What a well-formed sequence leaves at each address: a mapped address holds its frame, an
/// address only unmapped is empty, any other keeps what it had.
proof fn lemma_apply_ops(pt: PageTable, ops: Seq<PageOp>, flags: PageEntryFlags, v: u64)
    requires
        ops_well_formed(ops, flags),
    ensures
        touches(ops, v, true) ==> apply_ops(pt, ops).contains_key(v) && apply_ops(pt, ops)[v] == (
        (v - PHYS_OFFSET) as u64, flags),
        !touches(ops, v, true) && touches(ops, v, false) ==> !apply_ops(pt, ops).contains_key(v),
        !touches(ops, v, true) && !touches(ops, v, false) ==> apply_ops(pt, ops).contains_key(v)
            == pt.contains_key(v) && apply_ops(pt, ops)[v] == pt[v],
    decreases ops.len(),
{
    if ops.len() > 0 {
        let prev = ops.drop_last();
        let last = ops.last();
        let n = ops.len() - 1;
        assert(ops_well_formed(prev, flags)) by {
            assert forall|k: int| 0 <= k < prev.len() implies op_well_formed(#[trigger] prev[k], flags) by {
                assert(prev[k] == ops[k]);
            }
        }
        lemma_apply_ops(pt, prev, flags, v);
        assert(op_well_formed(ops[n], flags));
        if last.target() != v {
            if touches(ops, v, true) {
                let k = choose|k: int| 0 <= k < ops.len() && #[trigger] ops[k].target() == v && ops[k].is_map() == true;
                assert(prev[k].target() == v);
            }
            if touches(ops, v, false) {
                let k = choose|k: int| 0 <= k < ops.len() && #[trigger] ops[k].target() == v && ops[k].is_map() == false;
                assert(prev[k].target() == v);
            }
            if touches(prev, v, true) {
                let k = choose|k: int| 0 <= k < prev.len() && #[trigger] prev[k].target() == v && prev[k].is_map() == true;
                assert(ops[k].target() == v);
            }
            if touches(prev, v, false) {
                let k = choose|k: int| 0 <= k < prev.len() && #[trigger] prev[k].target() == v && prev[k].is_map() == false;
                assert(ops[k].target() == v);
            }
        } else if last.is_map() {
            assert(ops[n].target() == v);
        } else {
            assert(ops[n].target() == v);
            assert(!touches(ops, v, true)) by {
                if touches(ops, v, true) {
                    let k = choose|k: int| 0 <= k < ops.len() && #[trigger] ops[k].target() == v && ops[k].is_map() == true;
                    assert(op_well_formed(ops[k], flags));
                }
            }
        }
    }
}

/// The changes for the first `n` pages of a range: two per page, unmap first.
proof fn lemma_range_ops(d: MemoryDescriptor, n: nat, flags: PageEntryFlags)
    ensures
        range_ops(d, n, flags).len() == 2 * n,
        forall|i: int|
            0 <= i < n ==> range_ops(d, n, flags)[2 * i] == #[trigger] page_ops(d, i, flags)[0]
                && range_ops(d, n, flags)[2 * i + 1] == page_ops(d, i, flags)[1],
    decreases n,
{
    if n > 0 {
        lemma_range_ops(d, (n - 1) as nat, flags);
        let prev = range_ops(d, (n - 1) as nat, flags);
        assert forall|i: int| 0 <= i < n implies range_ops(d, n, flags)[2 * i] == #[trigger] page_ops(
            d,
            i,
            flags,
        )[0] && range_ops(d, n, flags)[2 * i + 1] == page_ops(d, i, flags)[1] by {
            if i < n - 1 {
                assert(prev[2 * i] == page_ops(d, i, flags)[0]);
            }
        }
    }
}

/// The changes for a qualifying range are well formed.
proof fn lemma_range_ops_well_formed(d: MemoryDescriptor, n: nat, flags: PageEntryFlags)
    requires
        qualifies(d),
        n <= d.num_pages,
    ensures
        ops_well_formed(range_ops(d, n, flags), flags),
    decreases n,
{
    if n > 0 {
        lemma_range_ops_well_formed(d, (n - 1) as nat, flags);
        let prev = range_ops(d, (n - 1) as nat, flags);
        let all = range_ops(d, n, flags);
        assert((n - 1) * PAGE_SIZE + PAGE_SIZE <= d.num_pages * PAGE_SIZE) by (nonlinear_arith)
            requires
                n <= d.num_pages,
                n >= 1,
        ;
        assert forall|k: int| 0 <= k < all.len() implies op_well_formed(#[trigger] all[k], flags) by {
            if k < prev.len() {
                assert(all[k] == prev[k]);
            }
        }
    }
}

/// Every change of reclamation is well formed.
proof fn lemma_reclaim_ops_well_formed(descs: Seq<MemoryDescriptor>, flags: PageEntryFlags)
    ensures
        ops_well_formed(reclaim_ops(descs, flags), flags),
    decreases descs.len(),
{
    if descs.len() > 0 {
        lemma_reclaim_ops_well_formed(descs.drop_last(), flags);
        let prev = reclaim_ops(descs.drop_last(), flags);
        let all = reclaim_ops(descs, flags);
        if qualifies(descs.last()) {
            let d = descs.last();
            lemma_range_ops_well_formed(d, d.num_pages as nat, flags);
            let tail = range_ops(d, d.num_pages as nat, flags);
            assert forall|k: int| 0 <= k < all.len() implies op_well_formed(#[trigger] all[k], flags) by {
                if k < prev.len() {
                    assert(all[k] == prev[k]);
                } else {
                    assert(all[k] == tail[k - prev.len()]);
                }
            }
        }
    }
}

/// The changes for a qualifying range stand in reclamation's sequence, in one block from `base`.
proof fn lemma_reclaim_ops_contains(descs: Seq<MemoryDescriptor>, j: int, flags: PageEntryFlags) -> (base: int)
    requires
        0 <= j < descs.len(),
        qualifies(descs[j]),
    ensures
        0 <= base,
        base + 2 * descs[j].num_pages <= reclaim_ops(descs, flags).len(),
        forall|k: int|
            0 <= k < 2 * descs[j].num_pages ==> reclaim_ops(descs, flags)[base + k] == #[trigger] range_ops(
                descs[j],
                descs[j].num_pages as nat,
                flags,
            )[k],
    decreases descs.len(),
{
    let d = descs[j];
    let prev = reclaim_ops(descs.drop_last(), flags);
    lemma_range_ops(d, d.num_pages as nat, flags);
    if j == descs.len() - 1 {
        prev.len() as int
    } else {
        assert(descs.drop_last()[j] == d);
        let base = lemma_reclaim_ops_contains(descs.drop_last(), j, flags);
        let all = reclaim_ops(descs, flags);
        assert forall|k: int| 0 <= k < 2 * d.num_pages implies all[base + k] == #[trigger] range_ops(
            d,
            d.num_pages as nat,
            flags,
        )[k] by {
            assert(prev[base + k] == range_ops(d, d.num_pages as nat, flags)[k]);
        }
        base
    }
}

/// After reclamation, each page of each qualifying range has lost its identity alias, and its
/// window address maps the same frame with the default permissions.
pub proof fn lemma_reclaimed_page(
    pt: PageTable,
    descs: Seq<MemoryDescriptor>,
    nx: bool,
    j: int,
    i: int,
)
    requires
        0 <= j < descs.len(),
        qualifies(descs[j]),
        0 <= i < descs[j].num_pages,
    ensures
        !apply_ops(pt, reclaim_ops(descs, default_flags(nx))).contains_key(
            page_phys(descs[j], i) as u64,
        ),
        apply_ops(pt, reclaim_ops(descs, default_flags(nx))).contains_key(
            (PHYS_OFFSET + page_phys(descs[j], i)) as u64,
        ),
        apply_ops(pt, reclaim_ops(descs, default_flags(nx)))[(PHYS_OFFSET + page_phys(descs[j], i)) as u64]
            == (page_phys(descs[j], i) as u64, default_flags(nx)),
{
    let flags = default_flags(nx);
    let ops = reclaim_ops(descs, flags);
    let d = descs[j];
    lemma_reclaim_ops_well_formed(descs, flags);
    let base = lemma_reclaim_ops_contains(descs, j, flags);
    lemma_range_ops(d, d.num_pages as nat, flags);
    assert(i * PAGE_SIZE + PAGE_SIZE <= d.num_pages * PAGE_SIZE) by (nonlinear_arith)
        requires
            i < d.num_pages,
    ;
    let id = page_phys(d, i) as u64;
    let win = (PHYS_OFFSET + page_phys(d, i)) as u64;
    assert(ops[base + 2 * i] == page_ops(d, i, flags)[0]);
    assert(ops[base + 2 * i + 1] == page_ops(d, i, flags)[1]);
    assert(ops[base + 2 * i].target() == id);
    assert(ops[base + 2 * i + 1].target() == win);
    lemma_apply_ops(pt, ops, flags, id);
    lemma_apply_ops(pt, ops, flags, win);
    assert(!touches(ops, id, true)) by {
        if touches(ops, id, true) {
            let k = choose|k: int| 0 <= k < ops.len() && #[trigger] ops[k].target() == id && ops[k].is_map() == true;
            assert(op_well_formed(ops[k], flags));
        }
    }
}

/// Running reclamation's changes a second time, on the tables the first run left, changes
/// nothing more.
pub proof fn lemma_reclaim_idempotent(pt: PageTable, descs: Seq<MemoryDescriptor>, nx: bool)
    ensures
        apply_ops(apply_ops(pt, reclaim_ops(descs, default_flags(nx))), reclaim_ops(descs, default_flags(nx)))
            == apply_ops(pt, reclaim_ops(descs, default_flags(nx))),
{
    let flags = default_flags(nx);
    let ops = reclaim_ops(descs, flags);
    let once = apply_ops(pt, ops);
    let twice = apply_ops(once, ops);
    lemma_reclaim_ops_well_formed(descs, flags);
    assert forall|v: u64| #[trigger] twice.contains_key(v) == once.contains_key(v) && (once.contains_key(v) ==> twice[v] == once[v]) by {
        lemma_apply_ops(pt, ops, flags, v);
        lemma_apply_ops(once, ops, flags, v);
    }
    assert(twice =~= once);
}

/// Reclamation's changes for two maps laid end to end are those of each, in order.
pub proof fn lemma_reclaim_ops_concat(a: Seq<MemoryDescriptor>, b: Seq<MemoryDescriptor>, flags: PageEntryFlags)
    ensures
        reclaim_ops(a + b, flags) == reclaim_ops(a, flags) + reclaim_ops(b, flags),
    decreases b.len(),
{
    if b.len() == 0 {
        assert(a + b =~= a);
        assert(reclaim_ops(a, flags) + reclaim_ops(b, flags) =~= reclaim_ops(a, flags));
    } else {
        assert((a + b).drop_last() =~= a + b.drop_last());
        assert((a + b).last() == b.last());
        lemma_reclaim_ops_concat(a, b.drop_last(), flags);
        let ra = reclaim_ops(a, flags);
        let rb = reclaim_ops(b.drop_last(), flags);
        if qualifies(b.last()) {
            let t = range_ops(b.last(), b.last().num_pages as nat, flags);
            assert(ra + rb + t =~= ra + (rb + t));
        }
    }
}

/// A range that does not qualify (not the loader's, or reaching the window's bound) leaves
/// reclamation's changes exactly as they are without it, wherever it stands in the map.
pub proof fn lemma_unqualified_untouched(
    a: Seq<MemoryDescriptor>,
    d: MemoryDescriptor,
    b: Seq<MemoryDescriptor>,
    flags: PageEntryFlags,
)
    requires
        !qualifies(d),
    ensures
        reclaim_ops(a + seq![d] + b, flags) == reclaim_ops(a + b, flags),
{
    lemma_reclaim_ops_concat(a + seq![d], b, flags);
    lemma_reclaim_ops_concat(a, seq![d], flags);
    lemma_reclaim_ops_concat(a, b, flags);
    assert(seq![d].drop_last() =~= Seq::<MemoryDescriptor>::empty());
    assert(seq![d].last() == d);
    assert(reclaim_ops(Seq::<MemoryDescriptor>::empty(), flags) =~= Seq::<PageOp>::empty());
    assert(reclaim_ops(seq![d], flags) =~= Seq::<PageOp>::empty());
    assert(reclaim_ops(a, flags) + reclaim_ops(seq![d], flags) =~= reclaim_ops(a, flags));
}

} // verus!
