//! Recovery of a virtual-dispatch-table address from a type's mangled name.
//!
//! Three byte-pattern scans run in sequence over the image's sections: the
//! type locator finds the mangled name and steps back to the type-descriptor
//! header; the locator-record matcher reconstructs the complete-object-locator
//! record that references that descriptor and finds it byte for byte; the
//! table resolver finds the pointer to that record, and the table itself is
//! the next machine word. Each scan takes the first (lowest) match.

use vstd::prelude::*;
use vstd::slice::slice_subrange;

use crate::bytes::{
    find_first_match, is_first_match, le_bytes, le_word, match_at, usize_le_bytes,
};
use crate::image::{
    image_ok, parse_image, section_parsed, spec_section_count, spec_section_off, Section,
};
use crate::memory::{
    find_objects_in_all_memory_by_vtable, object_hit, regions_wf, MemoryRegionDescriptor,
};

verus! {

/// A short name zero-padded to the 8 bytes of a section-name field.
pub open spec fn padded8(t: Seq<u8>) -> Seq<u8> {
    t + Seq::new((8 - t.len()) as nat, |i: int| 0u8)
}

/// Name field of section header `k`.
pub open spec fn sec_name_at(img: Seq<u8>, ptr_size: usize, k: int) -> Seq<u8> {
    img.subrange(spec_section_off(img, ptr_size, k), spec_section_off(img, ptr_size, k) + 8)
}

/// Virtual address stored in section header `k`.
pub open spec fn sec_va_at(img: Seq<u8>, ptr_size: usize, k: int) -> int {
    le_word(
        img.subrange(spec_section_off(img, ptr_size, k) + 12, spec_section_off(img, ptr_size, k) + 16),
    ) as int
}

/// Virtual size stored in section header `k`.
pub open spec fn sec_size_at(img: Seq<u8>, ptr_size: usize, k: int) -> int {
    le_word(
        img.subrange(spec_section_off(img, ptr_size, k) + 8, spec_section_off(img, ptr_size, k) + 12),
    ) as int
}

/// Section `k` carries the given (padded) name and its data lies inside the
/// snapshot buffer, so it can be scanned.
pub open spec fn sec_scannable(img: Seq<u8>, ptr_size: usize, k: int, name: Seq<u8>) -> bool {
    &&& 0 <= k < spec_section_count(img)
    &&& sec_name_at(img, ptr_size, k) == padded8(name)
    &&& sec_va_at(img, ptr_size, k) + sec_size_at(img, ptr_size, k) <= img.len()
}

/// The bytes of section `k`.
pub open spec fn sec_data_at(img: Seq<u8>, ptr_size: usize, k: int) -> Seq<u8> {
    img.subrange(
        sec_va_at(img, ptr_size, k),
        sec_va_at(img, ptr_size, k) + sec_size_at(img, ptr_size, k),
    )
}

/// Under the first-section, first-match policy, scanning the sections named
/// `name` for `pat` succeeds in section `k` at offset `i`: every earlier
/// section of that name holds no match, and `i` is the lowest match in `k`.
pub open spec fn found_in_sections(
    img: Seq<u8>,
    ptr_size: usize,
    name: Seq<u8>,
    pat: Seq<u8>,
    k: int,
    i: int,
) -> bool {
    &&& sec_scannable(img, ptr_size, k, name)
    &&& is_first_match(sec_data_at(img, ptr_size, k), pat, i)
    &&& forall|k2: int, j: int|
        0 <= k2 < k && sec_scannable(img, ptr_size, k2, name) ==> !(#[trigger] match_at(
            sec_data_at(img, ptr_size, k2),
            pat,
            j,
        ))
}

/// No section named `name` holds any match of `pat`.
pub open spec fn absent_from_sections(
    img: Seq<u8>,
    ptr_size: usize,
    name: Seq<u8>,
    pat: Seq<u8>,
) -> bool {
    forall|k: int, j: int|
        sec_scannable(img, ptr_size, k, name) ==> !(#[trigger] match_at(
            sec_data_at(img, ptr_size, k),
            pat,
            j,
        ))
}

/// Compares a section's stored 8-byte name field against a short name.
pub fn section_name_is(sec: &Section, target: &[u8]) -> (b: bool)
    requires
        sec.name@.len() == 8,
        target@.len() <= 8,
    ensures
        b == (sec.name@ == padded8(target@)),
{
    let tlen: usize = target.len();
    let mut j: usize = 0;
    while j < 8
        invariant
            j <= 8,
            sec.name@.len() == 8,
            tlen == target@.len(),
            tlen <= 8,
            forall|m: int| 0 <= m < j ==> sec.name@[m] == padded8(target@)[m],
        decreases 8 - j,
    {
        let expect: u8 = if j < tlen {
            target[j]
        } else {
            0
        };
        if sec.name[j] != expect {
            proof {
                assert(sec.name@[j as int] != padded8(target@)[j as int]);
            }
            return false;
        }
        j = j + 1;
    }
    proof {
        assert(sec.name@ =~= padded8(target@));
    }
    true
}

/// Scans the sections named `sec_name`, in file order, for the byte pattern
/// `pat`; returns the index of the first section with a match together with
/// the lowest match offset inside it.
fn find_in_named_sections(
    image: &[u8],
    ptr_size: usize,
    sections: &Vec<Section>,
    sec_name: &[u8],
    pat: &[u8],
) -> (r: Option<(usize, usize)>)
    requires
        ptr_size == 4 || ptr_size == 8,
        image_ok(image@, ptr_size),
        sec_name@.len() <= 8,
        sections@.len() == spec_section_count(image@),
        forall|k: int|
            0 <= k < sections@.len() ==> #[trigger] section_parsed(
                image@,
                ptr_size,
                k,
                sections@[k],
            ),
    ensures
        match r {
            Some(ki) => found_in_sections(
                image@,
                ptr_size,
                padded8(sec_name@),
                pat@,
                ki.0 as int,
                ki.1 as int,
            ),
            None => absent_from_sections(image@, ptr_size, padded8(sec_name@), pat@),
        },
{
    let len: usize = image.len();
    let n: usize = sections.len();
    let mut k: usize = 0;
    while k < n
        invariant
            k <= n,
            len == image@.len(),
            image_ok(image@, ptr_size),
            ptr_size == 4 || ptr_size == 8,
            sec_name@.len() <= 8,
            n == sections@.len(),
            sections@.len() == spec_section_count(image@),
            forall|m: int|
                0 <= m < sections@.len() ==> #[trigger] section_parsed(
                    image@,
                    ptr_size,
                    m,
                    sections@[m],
                ),
            forall|k2: int, j: int|
                0 <= k2 < k && sec_scannable(image@, ptr_size, k2, padded8(sec_name@)) ==> !(
                #[trigger] match_at(sec_data_at(image@, ptr_size, k2), pat@, j)),
        decreases n - k,
    {
        let sec = &sections[k];
        proof {
            assert(section_parsed(image@, ptr_size, k as int, sections@[k as int]));
            assert(spec_section_off(image@, ptr_size, k as int) + 40 <= image@.len());
            assert(sec.name@.len() == 8);
        }
        if section_name_is(sec, sec_name) {
            let va = sec.virtual_address;
            let sz = sec.virtual_size;
            if va <= len && sz <= len - va {
                let data = slice_subrange(image, va, va + sz);
                proof {
                    assert(data@ == sec_data_at(image@, ptr_size, k as int));
                }
                match find_first_match(data, pat) {
                    Some(i) => {
                        return Some((k, i));
                    },
                    None => {},
                }
            }
        }
        proof {
            assert(forall|j: int|
                sec_scannable(image@, ptr_size, k as int, padded8(sec_name@)) ==> !(
                #[trigger] match_at(sec_data_at(image@, ptr_size, k as int), pat@, j)));
        }
        k = k + 1;
    }
    None
}

/// In-memory layout of the expected complete-object-locator record: a zero
/// signature word, the table's offset in the complete class, the constructor
/// displacement, and the type-descriptor reference stored as a 32-bit field
/// (wider descriptor addresses are truncated, as the record stores them).
pub open spec fn spec_locator_pattern(offset_vtf: u32, offset_ctor: u32, td: nat) -> Seq<u8> {
    le_bytes(0, 4) + le_bytes(offset_vtf as nat, 4) + le_bytes(offset_ctor as nat, 4) + le_bytes(
        td,
        4,
    )
}

/// Builds the locator-record byte pattern for a byte-for-byte scan.
pub fn build_locator_pattern(offset_vtf: u32, offset_ctor: u32, type_desc_addr: usize) -> (r: Vec<
    u8,
>)
    ensures
        r@ == spec_locator_pattern(offset_vtf, offset_ctor, type_desc_addr as nat),
        r@.len() == 16,
{
    let mut r = usize_le_bytes(0, 4);
    let mut p1 = usize_le_bytes(offset_vtf as usize, 4);
    let mut p2 = usize_le_bytes(offset_ctor as usize, 4);
    let mut p3 = usize_le_bytes(type_desc_addr, 4);
    r.append(&mut p1);
    r.append(&mut p2);
    r.append(&mut p3);
    proof {
        crate::bytes::lemma_le_bytes_len(0, 4);
        crate::bytes::lemma_le_bytes_len(offset_vtf as nat, 4);
        crate::bytes::lemma_le_bytes_len(offset_ctor as nat, 4);
        crate::bytes::lemma_le_bytes_len(type_desc_addr as nat, 4);
        assert(r@ =~= spec_locator_pattern(offset_vtf, offset_ctor, type_desc_addr as nat));
    }
    r
}

/// Finds the first occurrence of `target_name` in a section's bytes and steps
/// back over the two leading pointer fields of the type-descriptor record to
/// its header address. `section_base` is the section's absolute address.
pub fn search_type_desc_in_section(
    section: &[u8],
    section_base: usize,
    target_name: &[u8],
    ptr_size: usize,
) -> (r: Option<usize>)
    requires
        ptr_size == 4 || ptr_size == 8,
        section_base >= 2 * ptr_size,
        section_base + section@.len() <= usize::MAX,
    ensures
        match r {
            Some(addr) => exists|i: int|
                #[trigger] is_first_match(section@, target_name@, i) && addr == section_base + i
                    - 2 * ptr_size,
            None => forall|i: int| !match_at(section@, target_name@, i),
        },
{
    match find_first_match(section, target_name) {
        Some(i) => {
            proof {
                assert(is_first_match(section@, target_name@, i as int));
            }
            Some(section_base + i - 2 * ptr_size)
        },
        None => None,
    }
}

/// Finds the first occurrence of the reconstructed locator record in a
/// section's bytes and returns its absolute address.
pub fn search_rtti_col_in_section(
    section: &[u8],
    section_base: usize,
    offset_vtf: u32,
    offset_ctor: u32,
    type_desc_addr: usize,
) -> (r: Option<usize>)
    requires
        section_base + section@.len() <= usize::MAX,
    ensures
        match r {
            Some(addr) => exists|i: int|
                #[trigger] is_first_match(
                    section@,
                    spec_locator_pattern(offset_vtf, offset_ctor, type_desc_addr as nat),
                    i,
                ) && addr == section_base + i,
            None => forall|i: int|
                !match_at(
                    section@,
                    spec_locator_pattern(offset_vtf, offset_ctor, type_desc_addr as nat),
                    i,
                ),
        },
{
    let pat = build_locator_pattern(offset_vtf, offset_ctor, type_desc_addr);
    match find_first_match(section, pat.as_slice()) {
        Some(i) => {
            proof {
                assert(is_first_match(
                    section@,
                    spec_locator_pattern(offset_vtf, offset_ctor, type_desc_addr as nat),
                    i as int,
                ));
            }
            Some(section_base + i)
        },
        None => None,
    }
}

/// Finds the first pointer-sized reference to the locator record in a
/// section's bytes; the table lies one machine word past that reference.
pub fn search_vtf_in_section(
    section: &[u8],
    section_base: usize,
    locator_addr: usize,
    ptr_size: usize,
) -> (r: Option<usize>)
    requires
        ptr_size == 4 || ptr_size == 8,
        section_base + section@.len() <= usize::MAX,
    ensures
        match r {
            Some(addr) => exists|i: int|
                #[trigger] is_first_match(
                    section@,
                    le_bytes(locator_addr as nat, ptr_size as nat),
                    i,
                ) && addr == section_base + i + ptr_size,
            None => forall|i: int|
                !match_at(section@, le_bytes(locator_addr as nat, ptr_size as nat), i),
        },
{
    let pat = usize_le_bytes(locator_addr, ptr_size);
    match find_first_match(section, pat.as_slice()) {
        Some(i) => {
            proof {
                crate::bytes::lemma_le_bytes_len(locator_addr as nat, ptr_size as nat);
                assert(is_first_match(
                    section@,
                    le_bytes(locator_addr as nat, ptr_size as nat),
                    i as int,
                ));
            }
            Some(section_base + i + ptr_size)
        },
        None => None,
    }
}

/// The mangled-name sections' name field: ".data".
pub open spec fn data_name() -> Seq<u8> {
    seq![0x2Eu8, 0x64u8, 0x61u8, 0x74u8, 0x61u8]
}

/// The read-only-data sections' name field: ".rdata".
pub open spec fn rdata_name() -> Seq<u8> {
    seq![0x2Eu8, 0x72u8, 0x64u8, 0x61u8, 0x74u8, 0x61u8]
}

fn data_name_vec() -> (r: Vec<u8>)
    ensures
        r@ == data_name(),
{
    let mut r: Vec<u8> = Vec::new();
    r.push(0x2E);
    r.push(0x64);
    r.push(0x61);
    r.push(0x74);
    r.push(0x61);
    proof {
        assert(r@ =~= data_name());
    }
    r
}

fn rdata_name_vec() -> (r: Vec<u8>)
    ensures
        r@ == rdata_name(),
{
    let mut r: Vec<u8> = Vec::new();
    r.push(0x2E);
    r.push(0x72);
    r.push(0x64);
    r.push(0x61);
    r.push(0x74);
    r.push(0x61);
    proof {
        assert(r@ =~= rdata_name());
    }
    r
}

/// The type locator yields descriptor address `td` for `name`: some `.data`
/// section holds the first match of the name at `i`, and `td` steps back over
/// the record's two leading pointer fields.
pub open spec fn type_desc_found(
    img: Seq<u8>,
    ptr_size: usize,
    base: usize,
    name: Seq<u8>,
    td: int,
) -> bool {
    exists|k: int, i: int|
        #[trigger] found_in_sections(img, ptr_size, padded8(data_name()), name, k, i) && td == base
            + sec_va_at(img, ptr_size, k) + i - 2 * ptr_size
}

/// No scannable `.data` section holds the mangled name.
pub open spec fn type_desc_absent(img: Seq<u8>, ptr_size: usize, name: Seq<u8>) -> bool {
    absent_from_sections(img, ptr_size, padded8(data_name()), name)
}

/// The locator-record matcher yields record address `col` for the descriptor
/// `td` from some `.rdata` section.
pub open spec fn locator_found(
    img: Seq<u8>,
    ptr_size: usize,
    base: usize,
    offset_vtf: u32,
    offset_ctor: u32,
    td: nat,
    col: int,
) -> bool {
    exists|k: int, i: int|
        #[trigger] found_in_sections(
            img,
            ptr_size,
            padded8(rdata_name()),
            spec_locator_pattern(offset_vtf, offset_ctor, td),
            k,
            i,
        ) && col == base + sec_va_at(img, ptr_size, k) + i
}

/// No scannable `.rdata` section holds the reconstructed locator record.
pub open spec fn locator_absent(
    img: Seq<u8>,
    ptr_size: usize,
    offset_vtf: u32,
    offset_ctor: u32,
    td: nat,
) -> bool {
    absent_from_sections(
        img,
        ptr_size,
        padded8(rdata_name()),
        spec_locator_pattern(offset_vtf, offset_ctor, td),
    )
}

/// The table resolver yields table address `vtf` for locator record `col`:
/// some `.rdata` section holds the first pointer-sized reference to `col`,
/// and the table is the next machine word.
pub open spec fn vtf_found(
    img: Seq<u8>,
    ptr_size: usize,
    base: usize,
    col: nat,
    vtf: int,
) -> bool {
    exists|k: int, i: int|
        #[trigger] found_in_sections(
            img,
            ptr_size,
            padded8(rdata_name()),
            le_bytes(col, ptr_size as nat),
            k,
            i,
        ) && vtf == base + sec_va_at(img, ptr_size, k) + i + ptr_size
}

/// No scannable `.rdata` section holds a pointer-sized reference to `col`.
pub open spec fn vtf_absent(img: Seq<u8>, ptr_size: usize, col: nat) -> bool {
    absent_from_sections(img, ptr_size, padded8(rdata_name()), le_bytes(col, ptr_size as nat))
}

/// The three-step resolution succeeds on this image and yields table address
/// `vtf`: the headers are valid and a descriptor and locator-record chain
/// leads to `vtf`.
pub open spec fn vtable_resolved(
    img: Seq<u8>,
    ptr_size: usize,
    base: usize,
    name: Seq<u8>,
    offset_vtf: u32,
    offset_ctor: u32,
    vtf: usize,
) -> bool {
    image_ok(img, ptr_size) && exists|td: int, col: int|
        #![trigger locator_found(img, ptr_size, base, offset_vtf, offset_ctor, td as nat, col)]
        type_desc_found(img, ptr_size, base, name, td) && locator_found(
            img,
            ptr_size,
            base,
            offset_vtf,
            offset_ctor,
            td as nat,
            col,
        ) && vtf_found(img, ptr_size, base, col as nat, vtf as int)
}

/// The three-step resolution fails on this image: bad headers, or the chain
/// breaks at the descriptor, the locator record, or the table reference.
pub open spec fn vtable_unresolvable(
    img: Seq<u8>,
    ptr_size: usize,
    base: usize,
    name: Seq<u8>,
    offset_vtf: u32,
    offset_ctor: u32,
) -> bool {
    ||| !image_ok(img, ptr_size)
    ||| type_desc_absent(img, ptr_size, name)
    ||| exists|td: int|
        #[trigger] type_desc_found(img, ptr_size, base, name, td) && locator_absent(
            img,
            ptr_size,
            offset_vtf,
            offset_ctor,
            td as nat,
        )
    ||| exists|td: int, col: int|
        #![trigger locator_found(img, ptr_size, base, offset_vtf, offset_ctor, td as nat, col)]
        type_desc_found(img, ptr_size, base, name, td) && locator_found(
            img,
            ptr_size,
            base,
            offset_vtf,
            offset_ctor,
            td as nat,
            col,
        ) && vtf_absent(img, ptr_size, col as nat)
}

/// Resolves a table address from a type's mangled name: validates the image,
/// locates the type descriptor in `.data`, the locator record referencing it
/// in `.rdata`, and the table reference in `.rdata`, each under the
/// first-section, first-match policy. `base` is the module's load address,
/// `image` a snapshot of the mapped module starting at `base`.
pub fn find_vtable_by_rtti_name(
    image: &[u8],
    base: usize,
    rtti_name: &[u8],
    offset_vtf: u32,
    offset_ctor: u32,
    ptr_size: usize,
) -> (r: Option<usize>)
    requires
        ptr_size == 4 || ptr_size == 8,
        base >= 2 * ptr_size,
        base + image@.len() <= usize::MAX,
    ensures
        match r {
            Some(vtf) => vtable_resolved(
                image@,
                ptr_size,
                base,
                rtti_name@,
                offset_vtf,
                offset_ctor,
                vtf,
            ),
            None => vtable_unresolvable(image@, ptr_size, base, rtti_name@, offset_vtf, offset_ctor),
        },
{
    let sections = match parse_image(image, ptr_size) {
        Ok(s) => s,
        Err(_) => {
            return None;
        },
    };
    let dname = data_name_vec();
    let rname = rdata_name_vec();
    let len: usize = image.len();

    // first step: the type descriptor, from the mangled name in `.data`
    let td: usize = match find_in_named_sections(
        image,
        ptr_size,
        &sections,
        dname.as_slice(),
        rtti_name,
    ) {
        Some(ki) => {
            let (k, i) = ki;
            proof {
                assert(section_parsed(image@, ptr_size, k as int, sections@[k as int]));
                assert(sec_va_at(image@, ptr_size, k as int) + i <= image@.len());
            }
            let va = sections[k].virtual_address;
            let t = base + va + i - 2 * ptr_size;
            proof {
                assert(type_desc_found(image@, ptr_size, base, rtti_name@, t as int));
            }
            t
        },
        None => {
            return None;
        },
    };

    // second step: the locator record referencing it, in `.rdata`
    let pat_col = build_locator_pattern(offset_vtf, offset_ctor, td);
    let col: usize = match find_in_named_sections(
        image,
        ptr_size,
        &sections,
        rname.as_slice(),
        pat_col.as_slice(),
    ) {
        Some(ki) => {
            let (k, i) = ki;
            proof {
                assert(section_parsed(image@, ptr_size, k as int, sections@[k as int]));
                assert(sec_va_at(image@, ptr_size, k as int) + i <= image@.len());
            }
            let va = sections[k].virtual_address;
            let c = base + va + i;
            proof {
                assert(locator_found(
                    image@,
                    ptr_size,
                    base,
                    offset_vtf,
                    offset_ctor,
                    td as nat,
                    c as int,
                ));
            }
            c
        },
        None => {
            return None;
        },
    };

    // third step: the pointer to the record, in `.rdata`; the table follows it
    let pat_vtf = usize_le_bytes(col, ptr_size);
    match find_in_named_sections(
        image,
        ptr_size,
        &sections,
        rname.as_slice(),
        pat_vtf.as_slice(),
    ) {
        Some(ki) => {
            let (k, i) = ki;
            proof {
                assert(section_parsed(image@, ptr_size, k as int, sections@[k as int]));
                assert(sec_va_at(image@, ptr_size, k as int) + i + ptr_size <= image@.len());
            }
            let va = sections[k].virtual_address;
            let v = base + va + i + ptr_size;
            proof {
                let tdi: int = td as int;
                let coli: int = col as int;
                assert(type_desc_found(image@, ptr_size, base, rtti_name@, tdi));
                assert(locator_found(
                    image@,
                    ptr_size,
                    base,
                    offset_vtf,
                    offset_ctor,
                    tdi as nat,
                    coli,
                ));
                assert(vtf_found(image@, ptr_size, base, coli as nat, v as int));
            }
            Some(v)
        },
        None => None,
    }
}

/// Resolves the table address for a type's mangled name and then scans the
/// process-memory snapshot for instances pointing at it, returning the first
/// (lowest-addressed) validated instance. An empty scan is a normal outcome,
/// reported as `None`.
pub fn search_object_by_rtti(
    image: &[u8],
    base: usize,
    rtti_name: &[u8],
    offset_vtf: u32,
    offset_ctor: u32,
    regions: &Vec<MemoryRegionDescriptor>,
    datas: &Vec<Vec<u8>>,
    sp: usize,
    ptr_size: usize,
) -> (r: Option<usize>)
    requires
        ptr_size == 4 || ptr_size == 8,
        base >= 2 * ptr_size,
        base + image@.len() <= usize::MAX,
        regions_wf(regions@),
        datas@.len() == regions@.len(),
        forall|m: int| 0 <= m < regions@.len() ==> (#[trigger] datas@[m])@.len() == regions@[m].size,
    ensures
        match r {
            Some(obj) => exists|vtf: usize|
                #[trigger] vtable_resolved(
                    image@,
                    ptr_size,
                    base,
                    rtti_name@,
                    offset_vtf,
                    offset_ctor,
                    vtf,
                ) && object_hit(regions@, datas@, sp, vtf, ptr_size, obj as int) && (forall|a: int|
                    a < obj ==> !object_hit(regions@, datas@, sp, vtf, ptr_size, a)),
            None => vtable_unresolvable(image@, ptr_size, base, rtti_name@, offset_vtf, offset_ctor)
                || exists|vtf: usize|
                #[trigger] vtable_resolved(
                    image@,
                    ptr_size,
                    base,
                    rtti_name@,
                    offset_vtf,
                    offset_ctor,
                    vtf,
                ) && (forall|a: int| !object_hit(regions@, datas@, sp, vtf, ptr_size, a)),
        },
{
    let vtf = match find_vtable_by_rtti_name(
        image,
        base,
        rtti_name,
        offset_vtf,
        offset_ctor,
        ptr_size,
    ) {
        Some(v) => v,
        None => {
            return None;
        },
    };
    let objects = find_objects_in_all_memory_by_vtable(regions, datas, sp, vtf, ptr_size);
    if objects.len() > 0 {
        let obj = objects[0];
        proof {
            assert forall|a: int| a < obj implies !object_hit(
                regions@,
                datas@,
                sp,
                vtf,
                ptr_size,
                a,
            ) by {
                if object_hit(regions@, datas@, sp, vtf, ptr_size, a) {
                    let k = choose|k: int|
                        #[trigger] crate::memory::region_scannable(regions@, k, sp)
                            && crate::memory::valid_slot(
                            datas@[k]@,
                            regions@[k].base,
                            a - regions@[k].base,
                            vtf,
                            ptr_size,
                        );
                    assert(0 <= a && a <= usize::MAX);
                    let au = a as usize;
                    assert(object_hit(regions@, datas@, sp, vtf, ptr_size, au as int));
                    assert(objects@.contains(au));
                    let m = choose|m: int| 0 <= m < objects@.len() && objects@[m] == au;
                    if m > 0 {
                        assert(objects@[0] < objects@[m]);
                    }
                    assert(false);
                }
            }
        }
        Some(obj)
    } else {
        proof {
            assert forall|a: int| !object_hit(regions@, datas@, sp, vtf, ptr_size, a) by {
                if object_hit(regions@, datas@, sp, vtf, ptr_size, a) {
                    let k = choose|k: int|
                        #[trigger] crate::memory::region_scannable(regions@, k, sp)
                            && crate::memory::valid_slot(
                            datas@[k]@,
                            regions@[k].base,
                            a - regions@[k].base,
                            vtf,
                            ptr_size,
                        );
                    assert(0 <= a && a <= usize::MAX);
                    let au = a as usize;
                    assert(object_hit(regions@, datas@, sp, vtf, ptr_size, au as int));
                    assert(objects@.contains(au));
                    assert(false);
                }
            }
        }
        None
    }
}

} // verus!
