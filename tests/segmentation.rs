use kernel::gdt::{prepare_load, GdtDescriptor, GdtrCell, GlobalDescriptorTable, GDT_ENTRIES};
use kernel::segment::{
    selector, SegmentDescriptor, KERNEL_CODE_INDEX, KERNEL_CS, KERNEL_DATA_INDEX, KERNEL_DS,
    USER_CODE_INDEX, USER_DATA_INDEX,
};

#[test]
fn null_entry_is_all_zero() {
    let table = GlobalDescriptorTable::new();
    assert_eq!(table.null.raw, 0);
    assert_eq!(table.raw_entries()[0], 0);
}

#[test]
fn table_holds_flat_descriptors_in_order() {
    let table = GlobalDescriptorTable::new();
    assert_eq!(
        table.raw_entries(),
        [
            0,
            0x00AF_9A00_0000_FFFF,
            0x00CF_9200_0000_FFFF,
            0x00AF_FA00_0000_FFFF,
            0x00CF_F200_0000_FFFF
        ]
    );
    assert_eq!(table.size_in_bytes(), 40);
}

#[test]
fn descriptor_privilege_levels() {
    assert_eq!(SegmentDescriptor::kernel_code().privilege_level(), 0);
    assert_eq!(SegmentDescriptor::kernel_data().privilege_level(), 0);
    assert_eq!(SegmentDescriptor::user_code().privilege_level(), 3);
    assert_eq!(SegmentDescriptor::user_data().privilege_level(), 3);
    assert_eq!(SegmentDescriptor::kernel_code().access(), 0x9A);
    assert_eq!(SegmentDescriptor::null().access(), 0);
}

#[test]
fn from_parts_places_every_field() {
    let d = SegmentDescriptor::from_parts(0x1234_5678, 0xA_BCDE, 0x92, 0xC);
    assert_eq!(d.raw, 0x12CA_9234_5678_BCDE);
    // limit and flags keep only their low bits
    let e = SegmentDescriptor::from_parts(0, 0xFFFF_FFFF, 0, 0xFF);
    assert_eq!(e.raw, 0x00FF_0000_0000_FFFF);
}

#[test]
fn kernel_table_limit_is_five_entries_minus_one() {
    let d = GdtDescriptor::new(0xFFFF_8000_0010_0000);
    assert_eq!(d.size, 39);
    assert_eq!(d.size as usize, GDT_ENTRIES * 8 - 1);
    assert_eq!(d.offset, 0xFFFF_8000_0010_0000);
    let t = GdtDescriptor::for_table(&GlobalDescriptorTable::new(), 0x2000);
    assert_eq!(t, GdtDescriptor { size: 39, offset: 0x2000 });
}

#[test]
fn limit_follows_entry_count() {
    assert_eq!(GdtDescriptor::for_entries(1, 7), Some(GdtDescriptor { size: 7, offset: 7 }));
    assert_eq!(GdtDescriptor::for_entries(5, 0).unwrap().size, 39);
    assert_eq!(GdtDescriptor::for_entries(6, 0).unwrap().size, 47);
    assert_eq!(GdtDescriptor::for_entries(8192, 0).unwrap().size, 65535);
    assert_eq!(GdtDescriptor::for_entries(0, 0), None);
    assert_eq!(GdtDescriptor::for_entries(8193, 0), None);
}

#[test]
fn cell_builds_once_and_keeps_the_record() {
    let mut cell = GdtrCell::new();
    assert_eq!(cell, GdtrCell::Uninitialized);
    let first = cell.force(0x5000);
    assert_eq!(first, GdtDescriptor { size: 39, offset: 0x5000 });
    let second = cell.force(0x9000);
    assert_eq!(second, first);
    assert_eq!(cell, GdtrCell::Ready(first));
}

#[test]
fn selectors_name_table_entries() {
    assert_eq!(selector(KERNEL_CODE_INDEX, 0), KERNEL_CS);
    assert_eq!(selector(KERNEL_DATA_INDEX, 0), KERNEL_DS);
    assert_eq!(selector(USER_CODE_INDEX, 3), 0x1B);
    assert_eq!(selector(USER_DATA_INDEX, 3), 0x23);
    assert_eq!(selector(8191, 3), 0xFFFB);
}

#[test]
fn load_uses_kernel_selectors_and_cached_record() {
    let mut cell = GdtrCell::new();
    let plan = prepare_load(&mut cell, 0x7000);
    assert_eq!(plan.data_selector, 0x10);
    assert_eq!(plan.code_selector, 0x08);
    assert_eq!(plan.gdtr, GdtDescriptor { size: 39, offset: 0x7000 });
    let again = prepare_load(&mut cell, 0x8000);
    assert_eq!(again.gdtr.offset, 0x7000);
}
