use wxwork_help::image::parse_image;
use wxwork_help::rtti::{
    build_locator_pattern, find_vtable_by_rtti_name, search_object_by_rtti,
    search_rtti_col_in_section, search_type_desc_in_section, search_vtf_in_section,
};
use wxwork_help::memory::{
    MemoryRegionDescriptor, MEM_COMMIT, MEM_PRIVATE, PAGE_READWRITE,
};
use wxwork_help::WxError;

const BASE: usize = 0x400000;
const DATA_VA: usize = 0x200;
const RDATA_VA: usize = 0x280;
const NAME_OFF: usize = 0x10;
const COL_OFF: usize = 0x08;
const VTF_PTR_OFF: usize = 0x20;

/// A minimal well-formed 32-bit image: two headers, a `.data` section with a
/// mangled name, and a `.rdata` section left blank for each test to fill.
fn build_image() -> Vec<u8> {
    let mut img = vec![0u8; 0x300];
    img[0] = 0x4D;
    img[1] = 0x5A;
    img[0x3C..0x40].copy_from_slice(&0x40u32.to_le_bytes());
    img[0x40..0x44].copy_from_slice(&0x4550u32.to_le_bytes());
    img[0x46..0x48].copy_from_slice(&2u16.to_le_bytes());
    let st = 0x40 + 248;
    img[st..st + 8].copy_from_slice(b".data\0\0\0");
    img[st + 8..st + 12].copy_from_slice(&0x40u32.to_le_bytes());
    img[st + 12..st + 16].copy_from_slice(&(DATA_VA as u32).to_le_bytes());
    let s2 = st + 40;
    img[s2..s2 + 8].copy_from_slice(b".rdata\0\0");
    img[s2 + 8..s2 + 12].copy_from_slice(&0x80u32.to_le_bytes());
    img[s2 + 12..s2 + 16].copy_from_slice(&(RDATA_VA as u32).to_le_bytes());
    let name = b".?AVFoo@@";
    img[DATA_VA + NAME_OFF..DATA_VA + NAME_OFF + name.len()].copy_from_slice(name);
    img
}

/// Completes the fixture with a locator record and a table pointer so that
/// the whole three-step pipeline succeeds.
fn build_linked_image() -> (Vec<u8>, usize) {
    let mut img = build_image();
    let td = BASE + DATA_VA + NAME_OFF - 8;
    let col = BASE + RDATA_VA + COL_OFF;
    img[RDATA_VA + COL_OFF + 12..RDATA_VA + COL_OFF + 16]
        .copy_from_slice(&(td as u32).to_le_bytes());
    img[RDATA_VA + VTF_PTR_OFF..RDATA_VA + VTF_PTR_OFF + 4]
        .copy_from_slice(&(col as u32).to_le_bytes());
    let vtf = BASE + RDATA_VA + VTF_PTR_OFF + 4;
    (img, vtf)
}

#[test]
fn parse_image_yields_exact_sections() {
    let img = build_image();
    let sections = parse_image(&img, 4).expect("well-formed image must parse");
    assert_eq!(sections.len(), 2);
    assert_eq!(sections[0].name, b".data\0\0\0".to_vec());
    assert_eq!(sections[0].virtual_address, DATA_VA);
    assert_eq!(sections[0].virtual_size, 0x40);
    assert_eq!(sections[1].name, b".rdata\0\0".to_vec());
    assert_eq!(sections[1].virtual_address, RDATA_VA);
    assert_eq!(sections[1].virtual_size, 0x80);
}

#[test]
fn parse_image_rejects_bad_first_signature() {
    let mut img = build_image();
    img[1] = 0x00;
    assert_eq!(parse_image(&img, 4).unwrap_err(), WxError::InvalidImage);
}

#[test]
fn parse_image_rejects_bad_second_signature() {
    let mut img = build_image();
    img[0x41] = 0x00;
    assert_eq!(parse_image(&img, 4).unwrap_err(), WxError::InvalidImage);
}

#[test]
fn parse_image_rejects_truncated_buffer() {
    let img = build_image();
    assert_eq!(parse_image(&img[..0x20], 4).unwrap_err(), WxError::InvalidImage);
}

#[test]
fn type_locator_finds_name_at_known_offset() {
    let mut buf = vec![0u8; 0x100];
    let name = b".?AVBar@@";
    let k = 0x37;
    buf[k..k + name.len()].copy_from_slice(name);
    let base = 0x1000;
    let r = search_type_desc_in_section(&buf, base, name, 4);
    assert_eq!(r, Some(base + k - 8));
    let r8 = search_type_desc_in_section(&buf, base, name, 8);
    assert_eq!(r8, Some(base + k - 16));
}

#[test]
fn type_locator_reports_absence() {
    let buf = vec![0u8; 0x100];
    assert_eq!(search_type_desc_in_section(&buf, 0x1000, b".?AVBar@@", 4), None);
}

#[test]
fn type_locator_takes_lower_of_two_occurrences() {
    let mut buf = vec![0u8; 0x100];
    let name = b".?AVBar@@";
    buf[0x60..0x60 + name.len()].copy_from_slice(name);
    buf[0x20..0x20 + name.len()].copy_from_slice(name);
    let r = search_type_desc_in_section(&buf, 0x1000, name, 4);
    assert_eq!(r, Some(0x1000 + 0x20 - 8));
}

#[test]
fn locator_matcher_finds_exact_pattern() {
    let mut buf = vec![0u8; 0x100];
    let pat = build_locator_pattern(1, 2, 0x12345678);
    assert_eq!(pat.len(), 16);
    let k = 0x44;
    buf[k..k + 16].copy_from_slice(&pat);
    let base = 0x2000;
    assert_eq!(search_rtti_col_in_section(&buf, base, 1, 2, 0x12345678), Some(base + k));
}

#[test]
fn locator_matcher_fails_on_any_single_byte_mutation() {
    let pat = build_locator_pattern(1, 2, 0x12345678);
    let k = 0x44;
    for m in 0..16 {
        let mut buf = vec![0u8; 0x100];
        buf[k..k + 16].copy_from_slice(&pat);
        buf[k + m] ^= 0x5A;
        assert_eq!(
            search_rtti_col_in_section(&buf, 0x2000, 1, 2, 0x12345678),
            None,
            "mutation at byte {} must break the match",
            m
        );
    }
}

#[test]
fn vtable_resolver_returns_word_after_pointer() {
    let mut buf = vec![0u8; 0x100];
    let col: usize = 0x400288;
    let k = 0x30;
    buf[k..k + 4].copy_from_slice(&(col as u32).to_le_bytes());
    let base = 0x3000;
    assert_eq!(search_vtf_in_section(&buf, base, col, 4), Some(base + k + 4));
}

#[test]
fn vtable_resolver_pointer_size_eight() {
    let mut buf = vec![0u8; 0x100];
    let col: usize = 0x1_0000_0288;
    let k = 0x38;
    buf[k..k + 8].copy_from_slice(&(col as u64).to_le_bytes());
    let base = 0x3000;
    assert_eq!(search_vtf_in_section(&buf, base, col, 8), Some(base + k + 8));
}

#[test]
fn full_pipeline_resolves_table() {
    let (img, vtf) = build_linked_image();
    let r = find_vtable_by_rtti_name(&img, BASE, b".?AVFoo@@", 0, 0, 4);
    assert_eq!(r, Some(vtf));
}

#[test]
fn full_pipeline_fails_without_locator_record() {
    let img = build_image();
    assert_eq!(find_vtable_by_rtti_name(&img, BASE, b".?AVFoo@@", 0, 0, 4), None);
}

#[test]
fn full_pipeline_fails_on_unknown_name() {
    let (img, _) = build_linked_image();
    assert_eq!(find_vtable_by_rtti_name(&img, BASE, b".?AVOther@@", 0, 0, 4), None);
}

#[test]
fn end_to_end_finds_single_instance() {
    let (img, vtf) = build_linked_image();
    let region_base: usize = 0x500000;
    let mut data = vec![0u8; 0x40];
    data[0x10..0x14].copy_from_slice(&(vtf as u32).to_le_bytes());
    let regions = vec![MemoryRegionDescriptor {
        base: region_base,
        size: 0x40,
        state: MEM_COMMIT,
        protect: PAGE_READWRITE,
        mem_type: MEM_PRIVATE,
    }];
    let datas = vec![data];
    let r = search_object_by_rtti(&img, BASE, b".?AVFoo@@", 0, 0, &regions, &datas, 0x7000_0000, 4);
    assert_eq!(r, Some(region_base + 0x10));
}

#[test]
fn end_to_end_reports_no_instance() {
    let (img, _) = build_linked_image();
    let regions = vec![MemoryRegionDescriptor {
        base: 0x500000,
        size: 0x40,
        state: MEM_COMMIT,
        protect: PAGE_READWRITE,
        mem_type: MEM_PRIVATE,
    }];
    let datas = vec![vec![0u8; 0x40]];
    let r = search_object_by_rtti(&img, BASE, b".?AVFoo@@", 0, 0, &regions, &datas, 0x7000_0000, 4);
    assert_eq!(r, None);
}
