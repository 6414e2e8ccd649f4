//! Segment descriptors and selectors.
use vstd::prelude::*;

verus! {

/// Bytes in one segment descriptor.
pub const DESCRIPTOR_SIZE: usize = 8;

/// Largest number of descriptors a table can hold (its byte size minus one must fit in 16 bits).
pub const MAX_DESCRIPTORS: usize = 8192;

/// Access byte: the segment is present.
pub const ACCESS_PRESENT: u8 = 0x80;

/// Access byte: a code or data segment (not a system segment).
pub const ACCESS_CODE_DATA: u8 = 0x10;

/// Access byte: the segment is executable.
pub const ACCESS_EXECUTABLE: u8 = 0x08;

/// Access byte: readable (code) or writable (data).
pub const ACCESS_READ_WRITE: u8 = 0x02;

/// Access byte: descriptor privilege level 3, in bits 5 and 6.
pub const ACCESS_RING3: u8 = 0x60;

/// Flags nibble: the limit counts 4 KiB pages.
pub const FLAG_GRANULARITY: u8 = 0x8;

/// Flags nibble: 32-bit default operand size (data segments).
pub const FLAG_SIZE_32: u8 = 0x4;

/// Flags nibble: 64-bit code segment.
pub const FLAG_LONG_MODE: u8 = 0x2;

/// The 20-bit limit of a flat segment: with page granularity it spans the whole space.
pub const FLAT_LIMIT: u32 = 0xF_FFFF;

/// Access byte of the kernel code segment: present, ring 0, code, readable.
pub const KERNEL_CODE_ACCESS: u8 = ACCESS_PRESENT | ACCESS_CODE_DATA | ACCESS_EXECUTABLE
    | ACCESS_READ_WRITE;

/// Access byte of the kernel data segment: present, ring 0, data, writable.
pub const KERNEL_DATA_ACCESS: u8 = ACCESS_PRESENT | ACCESS_CODE_DATA | ACCESS_READ_WRITE;

/// Access byte of the user code segment: present, ring 3, code, readable.
pub const USER_CODE_ACCESS: u8 = ACCESS_PRESENT | ACCESS_RING3 | ACCESS_CODE_DATA
    | ACCESS_EXECUTABLE | ACCESS_READ_WRITE;

/// Access byte of the user data segment: present, ring 3, data, writable.
pub const USER_DATA_ACCESS: u8 = ACCESS_PRESENT | ACCESS_RING3 | ACCESS_CODE_DATA
    | ACCESS_READ_WRITE;

/// Flags of the code segments: page granularity, 64-bit.
pub const CODE_FLAGS: u8 = FLAG_GRANULARITY | FLAG_LONG_MODE;

/// Flags of the data segments: page granularity, 32-bit default size.
pub const DATA_FLAGS: u8 = FLAG_GRANULARITY | FLAG_SIZE_32;

/// Index of each descriptor in the table, in table order.
pub const NULL_INDEX: u16 = 0;

pub const KERNEL_CODE_INDEX: u16 = 1;

pub const KERNEL_DATA_INDEX: u16 = 2;

pub const USER_CODE_INDEX: u16 = 3;

pub const USER_DATA_INDEX: u16 = 4;

/// Selector of the kernel code segment; interrupt entry code relies on this value.
pub const KERNEL_CS: u16 = 0x08;

/// Selector of the kernel data segment.
pub const KERNEL_DS: u16 = 0x10;

/// The 64-bit image of a descriptor with the given base, limit, access byte and flags.
///
/// Layout: limit bits 0..16, base bits 16..40, access bits 40..48, limit bits 16..20 at
/// 48..52, flags at 52..56, base bits 24..32 at 56..64.
pub open spec fn encode(base: u32, limit: u32, access: u8, flags: u8) -> u64 {
    let limit_low = (limit & 0xFFFF) as u64;
    let limit_high = ((limit >> 16u32) & 0xF) as u64;
    let base_low = (base & 0xFF_FFFF) as u64;
    let base_high = (base >> 24u32) as u64;
    let flag_bits = (flags & 0xF) as u64;
    limit_low | (base_low << 16u64) | ((access as u64) << 40u64) | (limit_high << 48u64) | (
    flag_bits << 52u64) | (base_high << 56u64)
}

/// One 8-byte entry of the segmentation table.
#[derive(Clone, Copy, Debug, PartialEq, Eq, Structural)]
pub struct SegmentDescriptor {
    pub raw: u64,
}

/// A selector: the table index shifted past the table bit and the requested privilege level.
pub open spec fn selector_spec(index: int, rpl: int) -> int {
    index * 8 + rpl
}

/// Selector for entry `index` of the global table, requested privilege level `rpl`.
pub fn selector(index: u16, rpl: u8) -> (r: u16)
    requires
        (index as usize) < MAX_DESCRIPTORS,
        rpl < 4,
    ensures
        r as int == selector_spec(index as int, rpl as int),
{
    index * 8 + rpl as u16
}

impl SegmentDescriptor {
    /// The descriptor that a flat segment (base 0, full limit) with this access byte and flags has.
    pub open spec fn flat_spec(access: u8, flags: u8) -> SegmentDescriptor {
        SegmentDescriptor { raw: encode(0, FLAT_LIMIT, access, flags) }
    }

    /// Encodes a descriptor from its parts; the limit keeps its low 20 bits, the flags their low 4.
    pub fn from_parts(base: u32, limit: u32, access: u8, flags: u8) -> (r: SegmentDescriptor)
        ensures
            r.raw == encode(base, limit, access, flags),
    {
        let limit_low = (limit & 0xFFFF) as u64;
        let limit_high = ((limit >> 16u32) & 0xF) as u64;
        let base_low = (base & 0xFF_FFFF) as u64;
        let base_high = (base >> 24u32) as u64;
        let flag_bits = (flags & 0xF) as u64;
        let raw = limit_low | (base_low << 16u64) | ((access as u64) << 40u64) | (limit_high
            << 48u64) | (flag_bits << 52u64) | (base_high << 56u64);
        SegmentDescriptor { raw }
    }

    /// The all-zero descriptor that entry 0 must hold.
    pub fn null() -> (r: SegmentDescriptor)
        ensures
            r.raw == 0,
    {
        SegmentDescriptor { raw: 0 }
    }

    /// Ring 0, 64-bit, executable and readable.
    pub fn kernel_code() -> (r: SegmentDescriptor)
        ensures
            r == Self::flat_spec(KERNEL_CODE_ACCESS, CODE_FLAGS),
            r.raw == 0x00AF_9A00_0000_FFFF,
    {
        let r = Self::from_parts(0, FLAT_LIMIT, KERNEL_CODE_ACCESS, CODE_FLAGS);
        assert(encode(0, FLAT_LIMIT, KERNEL_CODE_ACCESS, CODE_FLAGS) == 0x00AF_9A00_0000_FFFFu64) by (bit_vector);
        r
    }

    /// Ring 0, writable data.
    pub fn kernel_data() -> (r: SegmentDescriptor)
        ensures
            r == Self::flat_spec(KERNEL_DATA_ACCESS, DATA_FLAGS),
            r.raw == 0x00CF_9200_0000_FFFF,
    {
        let r = Self::from_parts(0, FLAT_LIMIT, KERNEL_DATA_ACCESS, DATA_FLAGS);
        assert(encode(0, FLAT_LIMIT, KERNEL_DATA_ACCESS, DATA_FLAGS) == 0x00CF_9200_0000_FFFFu64) by (bit_vector);
        r
    }

    /// Ring 3, 64-bit, executable and readable.
    pub fn user_code() -> (r: SegmentDescriptor)
        ensures
            r == Self::flat_spec(USER_CODE_ACCESS, CODE_FLAGS),
            r.raw == 0x00AF_FA00_0000_FFFF,
    {
        let r = Self::from_parts(0, FLAT_LIMIT, USER_CODE_ACCESS, CODE_FLAGS);
        assert(encode(0, FLAT_LIMIT, USER_CODE_ACCESS, CODE_FLAGS) == 0x00AF_FA00_0000_FFFFu64) by (bit_vector);
        r
    }

    /// Ring 3, writable data.
    pub fn user_data() -> (r: SegmentDescriptor)
        ensures
            r == Self::flat_spec(USER_DATA_ACCESS, DATA_FLAGS),
            r.raw == 0x00CF_F200_0000_FFFF,
    {
        let r = Self::from_parts(0, FLAT_LIMIT, USER_DATA_ACCESS, DATA_FLAGS);
        assert(encode(0, FLAT_LIMIT, USER_DATA_ACCESS, DATA_FLAGS) == 0x00CF_F200_0000_FFFFu64) by (bit_vector);
        r
    }

    /// The access byte (bits 40..48).
    pub fn access(&self) -> (r: u8)
        ensures
            r as u64 == (self.raw >> 40u64) & 0xFF,
    {
        let raw = self.raw;
        assert((raw >> 40u64) & 0xFF <= 0xFF) by (bit_vector);
        ((raw >> 40u64) & 0xFF) as u8
    }

    /// The descriptor privilege level (bits 45..47).
    pub fn privilege_level(&self) -> (r: u8)
        ensures
            r as u64 == (self.raw >> 45u64) & 0x3,
            r < 4,
    {
        let raw = self.raw;
        assert((raw >> 45u64) & 0x3 < 4) by (bit_vector);
        ((raw >> 45u64) & 0x3) as u8
    }
}

/// Decoding an encoded descriptor gives back its access byte, and so its privilege level.
pub proof fn lemma_encode_access(base: u32, limit: u32, access: u8, flags: u8)
    ensures
        (encode(base, limit, access, flags) >> 40u64) & 0xFF == access as u64,
        (encode(base, limit, access, flags) >> 45u64) & 0x3 == ((access >> 5u8) & 0x3) as u64,
{
    assert((encode(base, limit, access, flags) >> 40u64) & 0xFF == access as u64) by (bit_vector);
    assert((encode(base, limit, access, flags) >> 45u64) & 0x3 == ((access >> 5u8) & 0x3) as u64)
        by (bit_vector);
}

} // verus!
