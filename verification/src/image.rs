//! Validation of a loaded module's executable-image headers and recovery of
//! its section table.
//!
//! The caller snapshots the mapped image into a byte buffer; this module
//! checks the two header signatures and yields the named section descriptors
//! in file order. `ptr_size` selects the header layout of the target module
//! (4 for a 32-bit image, 8 for a 64-bit one), independent of the host.

use vstd::prelude::*;

use crate::bytes::{copy_bytes, le_word, read_le_word};
use crate::WxError;

verus! {

/// A section descriptor: its 8-byte zero-padded name, its module-relative
/// virtual address and its virtual size.
#[derive(Debug)]
pub struct Section {
    pub name: Vec<u8>,
    pub virtual_address: usize,
    pub virtual_size: usize,
}

/// Size of the combined signature + file header + optional header block that
/// precedes the section table, for the given target pointer width.
pub open spec fn spec_nt_headers_size(ptr_size: usize) -> int {
    if ptr_size == 4 {
        248
    } else {
        264
    }
}

/// Offset of the second (section-table-bearing) header, read from the first.
pub open spec fn spec_e_lfanew(img: Seq<u8>) -> int {
    le_word(img.subrange(0x3C, 0x40)) as int
}

/// Number of sections the second header announces.
pub open spec fn spec_section_count(img: Seq<u8>) -> int {
    le_word(img.subrange(spec_e_lfanew(img) + 6, spec_e_lfanew(img) + 8)) as int
}

/// The buffer carries both valid signatures and is large enough to hold the
/// headers and the whole announced section table.
pub open spec fn image_ok(img: Seq<u8>, ptr_size: usize) -> bool {
    &&& img.len() >= 0x40
    &&& le_word(img.subrange(0, 2)) == 0x5A4D
    &&& spec_e_lfanew(img) + 8 <= img.len()
    &&& le_word(img.subrange(spec_e_lfanew(img), spec_e_lfanew(img) + 4)) == 0x4550
    &&& spec_e_lfanew(img) + spec_nt_headers_size(ptr_size) + 40 * spec_section_count(img)
        <= img.len()
}

/// Byte offset of section header `i` inside the image.
pub open spec fn spec_section_off(img: Seq<u8>, ptr_size: usize, i: int) -> int {
    spec_e_lfanew(img) + spec_nt_headers_size(ptr_size) + 40 * i
}

/// `sec` holds exactly what section header `i` of the image stores: the name
/// field, the virtual address and the virtual size.
pub open spec fn section_parsed(img: Seq<u8>, ptr_size: usize, i: int, sec: Section) -> bool {
    let off = spec_section_off(img, ptr_size, i);
    &&& sec.name@ == img.subrange(off, off + 8)
    &&& sec.virtual_address == le_word(img.subrange(off + 12, off + 16))
    &&& sec.virtual_size == le_word(img.subrange(off + 8, off + 12))
}

/// Validates the image headers and returns the section list in file order.
///
/// Fails with `InvalidImage` exactly when a signature is wrong or the buffer
/// is too small to hold what the headers announce.
pub fn parse_image(image: &[u8], ptr_size: usize) -> (r: Result<Vec<Section>, WxError>)
    requires
        ptr_size == 4 || ptr_size == 8,
    ensures
        match r {
            Ok(sections) => {
                &&& image_ok(image@, ptr_size)
                &&& sections@.len() == spec_section_count(image@)
                &&& forall|i: int|
                    0 <= i < sections@.len() ==> #[trigger] section_parsed(
                        image@,
                        ptr_size,
                        i,
                        sections@[i],
                    )
            },
            Err(e) => e == WxError::InvalidImage && !image_ok(image@, ptr_size),
        },
{
    let len: usize = image.len();
    if len < 0x40 {
        return Err(WxError::InvalidImage);
    }
    let dos_magic = read_le_word(image, 0, 2);
    if dos_magic != 0x5A4D {
        return Err(WxError::InvalidImage);
    }
    let e_lfanew_w = read_le_word(image, 0x3C, 4);
    proof {
        crate::bytes::lemma_le_word_bound(image@.subrange(0x3C, 0x40));
        reveal_with_fuel(crate::bytes::pow256, 5);
    }
    let e_lfanew: usize = e_lfanew_w as usize;
    if e_lfanew > len - 8 {
        return Err(WxError::InvalidImage);
    }
    let nt_sig = read_le_word(image, e_lfanew, 4);
    if nt_sig != 0x4550 {
        return Err(WxError::InvalidImage);
    }
    let count_w = read_le_word(image, e_lfanew + 6, 2);
    proof {
        crate::bytes::lemma_le_word_bound(image@.subrange(e_lfanew + 6, e_lfanew + 8));
        reveal_with_fuel(crate::bytes::pow256, 3);
    }
    let count: usize = count_w as usize;
    let nt_size: usize = if ptr_size == 4 {
        248
    } else {
        264
    };
    // table must fit: e_lfanew + nt_size + 40 * count <= len
    let tail: usize = nt_size + 40 * count;
    if tail > len - e_lfanew {
        return Err(WxError::InvalidImage);
    }
    let table: usize = e_lfanew + nt_size;
    let mut sections: Vec<Section> = Vec::new();
    let mut i: usize = 0;
    while i < count
        invariant
            i <= count,
            image_ok(image@, ptr_size),
            len == image@.len(),
            count < 0x10000,
            table == spec_e_lfanew(image@) + spec_nt_headers_size(ptr_size),
            count == spec_section_count(image@),
            table + 40 * count <= len,
            sections@.len() == i,
            forall|k: int|
                0 <= k < i ==> #[trigger] section_parsed(image@, ptr_size, k, sections@[k]),
        decreases count - i,
    {
        let off = table + 40 * i;
        let name = copy_bytes(image, off, 8);
        let vsize_w = read_le_word(image, off + 8, 4);
        let va_w = read_le_word(image, off + 12, 4);
        proof {
            crate::bytes::lemma_le_word_bound(image@.subrange(off + 8, off + 12));
            crate::bytes::lemma_le_word_bound(image@.subrange(off + 12, off + 16));
            reveal_with_fuel(crate::bytes::pow256, 5);
        }
        sections.push(
            Section {
                name,
                virtual_address: va_w as usize,
                virtual_size: vsize_w as usize,
            },
        );
        i = i + 1;
    }
    Ok(sections)
}

} // verus!
