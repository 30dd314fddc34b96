use wxwork_help::bytes::{find_first_match, read_le_word, usize_le_bytes};
use wxwork_help::memory::{
    find_objects_in_all_memory_by_vtable, get_precise_stack_range, is_readable_memory,
    search_memory_region_for_vtable, validate_object_at_address, MemoryRegionDescriptor,
    MEM_COMMIT, MEM_PRIVATE, PAGE_EXECUTE_READ, PAGE_EXECUTE_READWRITE, PAGE_READONLY,
    PAGE_READWRITE,
};

fn region(base: usize, size: usize, state: u32, protect: u32, mem_type: u32) -> MemoryRegionDescriptor {
    MemoryRegionDescriptor { base, size, state, protect, mem_type }
}

#[test]
fn le_round_trip() {
    let v: usize = 0xA1B2C3D4;
    let bytes = usize_le_bytes(v, 4);
    assert_eq!(bytes, vec![0xD4, 0xC3, 0xB2, 0xA1]);
    assert_eq!(read_le_word(&bytes, 0, 4), 0xA1B2C3D4u64);
}

#[test]
fn first_match_is_lowest() {
    let hay = b"xxabyaby";
    assert_eq!(find_first_match(hay, b"ab"), Some(2));
    assert_eq!(find_first_match(hay, b"aby"), Some(2));
    assert_eq!(find_first_match(hay, b"zz"), None);
    assert_eq!(find_first_match(hay, b"by"), Some(3));
    assert_eq!(find_first_match(b"ab", b"ab"), Some(0));
}

#[test]
fn readable_protections() {
    assert!(is_readable_memory(PAGE_READONLY));
    assert!(is_readable_memory(PAGE_READWRITE));
    assert!(is_readable_memory(PAGE_EXECUTE_READ));
    assert!(is_readable_memory(PAGE_EXECUTE_READWRITE));
    assert!(!is_readable_memory(0x01));
    assert!(!is_readable_memory(0x100));
    assert!(!is_readable_memory(0));
}

#[test]
fn region_scan_finds_aligned_slot() {
    let vtf: usize = 0xCAFE1000;
    let mut data = vec![0u8; 0x40];
    data[0x08..0x0C].copy_from_slice(&(vtf as u32).to_le_bytes());
    data[0x20..0x24].copy_from_slice(&(vtf as u32).to_le_bytes());
    let hits = search_memory_region_for_vtable(&data, 0x600000, vtf, 4);
    assert_eq!(hits, vec![0x600008, 0x600020]);
}

#[test]
fn region_scan_ignores_unaligned_partial_overlap() {
    let vtf: usize = 0xCAFE1000;
    let mut data = vec![0u8; 0x40];
    // the pattern sits at an unaligned offset: no aligned word equals it
    data[0x09..0x0D].copy_from_slice(&(vtf as u32).to_le_bytes());
    let hits = search_memory_region_for_vtable(&data, 0x600000, vtf, 4);
    assert!(hits.is_empty());
}

#[test]
fn region_scan_rejects_different_word() {
    let vtf: usize = 0xCAFE1000;
    let mut data = vec![0u8; 0x40];
    data[0x08..0x0C].copy_from_slice(&0xCAFE1001u32.to_le_bytes());
    let hits = search_memory_region_for_vtable(&data, 0x600000, vtf, 4);
    assert!(hits.is_empty());
}

#[test]
fn region_scan_rejects_null_table() {
    let data = vec![0u8; 0x40];
    let hits = search_memory_region_for_vtable(&data, 0x600000, 0, 4);
    assert!(hits.is_empty());
}

#[test]
fn validate_checks_exact_word() {
    let mut data = vec![0u8; 0x10];
    data[0..4].copy_from_slice(&0x1234u32.to_le_bytes());
    assert!(validate_object_at_address(&data, 0x1000, 0, 0x1234, 4));
    assert!(!validate_object_at_address(&data, 0x1000, 0, 0x1235, 4));
    assert!(!validate_object_at_address(&data, 0x1000, 4, 0x1234, 4));
}

#[test]
fn stack_range_walks_contiguous_committed_run() {
    let regions = vec![
        region(0x1000, 0x1000, MEM_COMMIT, PAGE_READWRITE, MEM_PRIVATE),
        region(0x2000, 0x1000, MEM_COMMIT, PAGE_READWRITE, MEM_PRIVATE),
        region(0x3000, 0x1000, MEM_COMMIT, PAGE_READWRITE, MEM_PRIVATE),
        // a gap, then an unrelated region
        region(0x8000, 0x1000, MEM_COMMIT, PAGE_READWRITE, MEM_PRIVATE),
    ];
    let (top, bottom) = get_precise_stack_range(&regions, 0x2800);
    assert_eq!(top, 0x4000);
    assert_eq!(bottom, 0x1000);
}

#[test]
fn stack_range_stops_at_uncommitted_neighbour() {
    let regions = vec![
        region(0x1000, 0x1000, 0x10000, PAGE_READWRITE, MEM_PRIVATE), // reserved, not committed
        region(0x2000, 0x1000, MEM_COMMIT, PAGE_READWRITE, MEM_PRIVATE),
        region(0x3000, 0x1000, 0x10000, PAGE_READWRITE, MEM_PRIVATE),
    ];
    let (top, bottom) = get_precise_stack_range(&regions, 0x2010);
    assert_eq!(top, 0x3000);
    assert_eq!(bottom, 0x2000);
}

#[test]
fn stack_range_empty_when_address_unmapped() {
    let regions = vec![region(0x1000, 0x1000, MEM_COMMIT, PAGE_READWRITE, MEM_PRIVATE)];
    assert_eq!(get_precise_stack_range(&regions, 0x9000), (0, 0));
}

#[test]
fn full_scan_filters_and_orders() {
    let vtf: usize = 0xBEEF2000;
    let word = (vtf as u32).to_le_bytes();
    let mut d0 = vec![0u8; 0x20];
    d0[0x04..0x08].copy_from_slice(&word);
    let mut d1 = vec![0u8; 0x20];
    d1[0x00..0x04].copy_from_slice(&word); // image-backed: must be skipped
    let mut d2 = vec![0u8; 0x20];
    d2[0x10..0x14].copy_from_slice(&word); // not readable: must be skipped
    let mut d3 = vec![0u8; 0x20];
    d3[0x08..0x0C].copy_from_slice(&word);
    let regions = vec![
        region(0x10000, 0x20, MEM_COMMIT, PAGE_READWRITE, MEM_PRIVATE),
        region(0x20000, 0x20, MEM_COMMIT, PAGE_READWRITE, 0x1000000), // image-backed
        region(0x30000, 0x20, MEM_COMMIT, 0x01, MEM_PRIVATE), // PAGE_NOACCESS
        region(0x40000, 0x20, MEM_COMMIT, PAGE_READONLY, MEM_PRIVATE),
    ];
    let datas = vec![d0, d1, d2, d3];
    let hits = find_objects_in_all_memory_by_vtable(&regions, &datas, 0x9000_0000, vtf, 4);
    assert_eq!(hits, vec![0x10004, 0x40008]);
}

#[test]
fn full_scan_skips_stack_overlap() {
    let vtf: usize = 0xBEEF2000;
    let word = (vtf as u32).to_le_bytes();
    let mut stack_data = vec![0u8; 0x20];
    stack_data[0x00..0x04].copy_from_slice(&word);
    let mut heap_data = vec![0u8; 0x20];
    heap_data[0x04..0x08].copy_from_slice(&word);
    let regions = vec![
        region(0x10000, 0x20, MEM_COMMIT, PAGE_READWRITE, MEM_PRIVATE), // the thread's stack
        region(0x40000, 0x20, MEM_COMMIT, PAGE_READWRITE, MEM_PRIVATE),
    ];
    let datas = vec![stack_data, heap_data];
    // sp inside the first region: its extent is excluded from the scan
    let hits = find_objects_in_all_memory_by_vtable(&regions, &datas, 0x10008, vtf, 4);
    assert_eq!(hits, vec![0x40004]);
}
