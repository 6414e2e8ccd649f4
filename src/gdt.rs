//! The global descriptor table, the pointer record the CPU loads, and the register loads that
//! install it.
use vstd::prelude::*;

use crate::segment::{
    SegmentDescriptor, CODE_FLAGS, DATA_FLAGS, DESCRIPTOR_SIZE, KERNEL_CODE_ACCESS, KERNEL_CS,
    KERNEL_DATA_ACCESS, KERNEL_DS, MAX_DESCRIPTORS, USER_CODE_ACCESS, USER_DATA_ACCESS,
};

verus! {

/// Number of descriptors in the kernel's table.
pub const GDT_ENTRIES: usize = 5;

/// The table of segment descriptors, in the fixed order null, kernel code, kernel data,
/// user code, user data. Whoever places it in memory aligns it to a page.
#[derive(Clone, Copy, Debug)]
pub struct GlobalDescriptorTable {
    pub null: SegmentDescriptor,
    pub kernel_code: SegmentDescriptor,
    pub kernel_data: SegmentDescriptor,
    pub user_code: SegmentDescriptor,
    pub user_data: SegmentDescriptor,
}

impl GlobalDescriptorTable {
    /// The entries in table order.
    pub open spec fn entries(&self) -> Seq<SegmentDescriptor> {
        seq![self.null, self.kernel_code, self.kernel_data, self.user_code, self.user_data]
    }

    /// The kernel's table.
    pub fn new() -> (r: Self)
        ensures
            r.entries().len() == GDT_ENTRIES,
            r.entries()[0].raw == 0,
            r.kernel_code == SegmentDescriptor::flat_spec(KERNEL_CODE_ACCESS, CODE_FLAGS),
            r.kernel_data == SegmentDescriptor::flat_spec(KERNEL_DATA_ACCESS, DATA_FLAGS),
            r.user_code == SegmentDescriptor::flat_spec(USER_CODE_ACCESS, CODE_FLAGS),
            r.user_data == SegmentDescriptor::flat_spec(USER_DATA_ACCESS, DATA_FLAGS),
    {
        GlobalDescriptorTable {
            null: SegmentDescriptor::null(),
            kernel_code: SegmentDescriptor::kernel_code(),
            kernel_data: SegmentDescriptor::kernel_data(),
            user_code: SegmentDescriptor::user_code(),
            user_data: SegmentDescriptor::user_data(),
        }
    }

    /// The 64-bit images of the entries, in table order, as they lie in memory.
    pub fn raw_entries(&self) -> (r: [u64; 5])
        ensures
            r@.len() == self.entries().len(),
            forall|i: int| 0 <= i < r@.len() ==> r@[i] == #[trigger] self.entries()[i].raw,
    {
        let r = [
            self.null.raw,
            self.kernel_code.raw,
            self.kernel_data.raw,
            self.user_code.raw,
            self.user_data.raw,
        ];
        assert(r@ =~= seq![self.null.raw, self.kernel_code.raw, self.kernel_data.raw, self.user_code.raw, self.user_data.raw]);
        r
    }

    /// Size of the table in bytes.
    pub fn size_in_bytes(&self) -> (r: usize)
        ensures
            r == self.entries().len() * DESCRIPTOR_SIZE,
    {
        GDT_ENTRIES * DESCRIPTOR_SIZE
    }
}

/// Byte size minus one of a table of `entry_count` descriptors: what the pointer record holds.
pub open spec fn table_limit(entry_count: int) -> int {
    entry_count * DESCRIPTOR_SIZE - 1
}

/// The record the table register is loaded from: the table's size in bytes minus one, and its
/// linear address.
#[derive(Clone, Copy, Debug, PartialEq, Eq, Structural)]
pub struct GdtDescriptor {
    pub size: u16,
    pub offset: u64,
}

impl GdtDescriptor {
    /// The record for a table of `entry_count` descriptors at `offset`; `None` when no table of
    /// that many entries can be described (none at all, or more than 16 bits of size).
    pub fn for_entries(entry_count: usize, offset: u64) -> (r: Option<GdtDescriptor>)
        ensures
            r is Some <==> 1 <= entry_count <= MAX_DESCRIPTORS,
            r matches Some(d) ==> d.size == table_limit(entry_count as int) && d.offset == offset,
    {
        if entry_count == 0 || entry_count > MAX_DESCRIPTORS {
            None
        } else {
            Some(GdtDescriptor { size: (entry_count * DESCRIPTOR_SIZE - 1) as u16, offset })
        }
    }

    /// The record for the kernel's table at `offset`.
    pub fn new(offset: u64) -> (r: GdtDescriptor)
        ensures
            r == Self::new_spec(offset),
    {
        GdtDescriptor { size: (GDT_ENTRIES * DESCRIPTOR_SIZE - 1) as u16, offset }
    }

    pub open spec fn new_spec(offset: u64) -> GdtDescriptor {
        GdtDescriptor { size: table_limit(GDT_ENTRIES as int) as u16, offset }
    }

    /// The record for `table` placed at `offset`.
    pub fn for_table(table: &GlobalDescriptorTable, offset: u64) -> (r: GdtDescriptor)
        ensures
            r.size == table_limit(table.entries().len() as int),
            r.offset == offset,
    {
        let n = table.size_in_bytes();
        GdtDescriptor { size: (n - 1) as u16, offset }
    }
}

/// The pointer record, built on first use and kept from then on.
#[derive(Clone, Copy, Debug, PartialEq, Eq, Structural)]
pub enum GdtrCell {
    Uninitialized,
    Ready(GdtDescriptor),
}

impl GdtrCell {
    pub fn new() -> (r: GdtrCell)
        ensures
            r == GdtrCell::Uninitialized,
    {
        GdtrCell::Uninitialized
    }

    /// The cached record; on first use it is built for the table at `table_offset` and kept.
    /// Later calls return the kept record whatever offset they pass.
    pub fn force(&mut self, table_offset: u64) -> (r: GdtDescriptor)
        ensures
            *final(self) == GdtrCell::Ready(r),
            match *old(self) {
                GdtrCell::Ready(d) => r == d,
                GdtrCell::Uninitialized => r == GdtDescriptor::new_spec(table_offset),
            },
    {
        match *self {
            GdtrCell::Ready(d) => d,
            GdtrCell::Uninitialized => {
                let d = GdtDescriptor::new(table_offset);
                *self = GdtrCell::Ready(d);
                d
            },
        }
    }
}

/// What installing the table takes: the record to load into the table register, the selector
/// each data segment register (ds, es, fs, gs, ss) receives, and the code selector that the far
/// return puts into cs.
#[derive(Clone, Copy, Debug, PartialEq, Eq, Structural)]
pub struct SegmentLoad {
    pub gdtr: GdtDescriptor,
    pub data_selector: u16,
    pub code_selector: u16,
}

/// The loads that install the kernel's table at `table_offset`, taking the record from `cell`.
pub fn prepare_load(cell: &mut GdtrCell, table_offset: u64) -> (r: SegmentLoad)
    ensures
        *final(cell) == GdtrCell::Ready(r.gdtr),
        match *old(cell) {
            GdtrCell::Ready(d) => r.gdtr == d,
            GdtrCell::Uninitialized => r.gdtr == GdtDescriptor::new_spec(table_offset),
        },
        r.data_selector == KERNEL_DS,
        r.code_selector == KERNEL_CS,
{
    let gdtr = cell.force(table_offset);
    SegmentLoad { gdtr, data_selector: KERNEL_DS, code_selector: KERNEL_CS }
}

/// The record of the kernel's table holds the size of five descriptors minus one.
pub proof fn lemma_kernel_table_limit(offset: u64)
    ensures
        GdtDescriptor::new_spec(offset).size == 39,
        GdtDescriptor::new_spec(offset).size == table_limit(GDT_ENTRIES as int),
{
}

/// The kernel selectors name the kernel code and data entries of the table at ring 0.
pub proof fn lemma_kernel_selectors()
    ensures
        KERNEL_CS as int == crate::segment::selector_spec(
            crate::segment::KERNEL_CODE_INDEX as int,
            0,
        ),
        KERNEL_DS as int == crate::segment::selector_spec(
            crate::segment::KERNEL_DATA_INDEX as int,
            0,
        ),
{
}

} // verus!
