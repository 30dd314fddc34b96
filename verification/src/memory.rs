//! Scanning a process's committed private memory for object instances that
//! point at a resolved dispatch table.
//!
//! The caller enumerates the address space with the platform's region-query
//! primitive and snapshots each region's attributes (and, for regions worth
//! scanning, its bytes); everything here then runs over those plain values:
//! the stack-extent walk, the region filter, and the aligned slot scan with
//! per-candidate validation.

use vstd::prelude::*;

use crate::bytes::{le_word, read_le_word};

verus! {

/// Two distinct offsets aligned to a positive stride lie at least one stride
/// apart.
proof fn lemma_aligned_gap(i: int, j: int, p: int)
    requires
        p > 0,
        i % p == 0,
        j % p == 0,
        i < j,
    ensures
        i + p <= j,
{
    let qi = i / p;
    let qj = j / p;
    vstd::arithmetic::div_mod::lemma_fundamental_div_mod(i, p);
    vstd::arithmetic::div_mod::lemma_fundamental_div_mod(j, p);
    assert(qi < qj) by (nonlinear_arith)
        requires
            p > 0,
            p * qi < p * qj,
    ;
    assert(p * qi + p <= p * qj) by (nonlinear_arith)
        requires
            p > 0,
            qi < qj,
    ;
}

/// Region state: backed by physical storage.
pub const MEM_COMMIT: u32 = 0x1000;

/// Region kind: private, not mapped from a file or image.
pub const MEM_PRIVATE: u32 = 0x20000;

pub const PAGE_READONLY: u32 = 0x02;

pub const PAGE_READWRITE: u32 = 0x04;

pub const PAGE_EXECUTE_READ: u32 = 0x20;

pub const PAGE_EXECUTE_READWRITE: u32 = 0x40;

/// Attributes of one address-space region, as the platform query reports
/// them; used only to filter scan candidates.
#[derive(Clone, Copy, PartialEq, Eq, Structural, Debug)]
pub struct MemoryRegionDescriptor {
    pub base: usize,
    pub size: usize,
    pub state: u32,
    pub protect: u32,
    pub mem_type: u32,
}

/// The protection admits reading: one of the four readable page protections.
pub open spec fn spec_is_readable(protect: u32) -> bool {
    protect == PAGE_READONLY || protect == PAGE_READWRITE || protect == PAGE_EXECUTE_READ
        || protect == PAGE_EXECUTE_READWRITE
}

/// Whether a protection value admits reading.
pub fn is_readable_memory(protect: u32) -> (b: bool)
    ensures
        b == spec_is_readable(protect),
{
    match protect {
        PAGE_READONLY | PAGE_READWRITE | PAGE_EXECUTE_READ | PAGE_EXECUTE_READWRITE => true,
        _ => false,
    }
}

/// `addr` lies inside the region.
pub open spec fn region_contains(r: MemoryRegionDescriptor, addr: int) -> bool {
    r.base <= addr < r.base + r.size
}

/// A region-query snapshot is coherent: regions are non-empty, end inside the
/// address space, and are listed low to high without overlap.
pub open spec fn regions_wf(rs: Seq<MemoryRegionDescriptor>) -> bool {
    &&& forall|m: int|
        0 <= m < rs.len() ==> 1 <= (#[trigger] rs[m]).size && rs[m].base + rs[m].size <= usize::MAX
    &&& forall|m1: int, m2: int|
        0 <= m1 < m2 < rs.len() ==> (#[trigger] rs[m1]).base + rs[m1].size <= (#[trigger] rs[m2]).base
}

/// Offset `i` of a region's bytes holds a validated object slot: it is
/// machine-word aligned, the stored word equals the table address, and
/// neither the slot's own address nor the stored word is null.
pub open spec fn valid_slot(
    data: Seq<u8>,
    region_base: usize,
    i: int,
    vtable: usize,
    ptr_size: usize,
) -> bool {
    &&& 0 <= i
    &&& i + ptr_size <= data.len()
    &&& i % (ptr_size as int) == 0
    &&& region_base + i != 0
    &&& le_word(data.subrange(i, i + ptr_size)) == vtable as nat
    &&& vtable != 0
}

/// Validates one aligned candidate: the slot address must be non-null and
/// the word stored there must equal the expected table address exactly (a
/// null table never validates).
pub fn validate_object_at_address(
    data: &[u8],
    region_base: usize,
    i: usize,
    expected_vtable: usize,
    ptr_size: usize,
) -> (b: bool)
    requires
        ptr_size == 4 || ptr_size == 8,
        i + ptr_size <= data@.len(),
        region_base + i <= usize::MAX,
    ensures
        b == (region_base + i != 0 && le_word(data@.subrange(i as int, i + ptr_size))
            == expected_vtable as nat && expected_vtable != 0),
{
    if region_base + i == 0 {
        return false;
    }
    let w = read_le_word(data, i, ptr_size);
    proof {
        crate::bytes::lemma_le_word_bound(data@.subrange(i as int, i + ptr_size));
        crate::bytes::lemma_pow256_increases(ptr_size as nat, 8);
        reveal_with_fuel(crate::bytes::pow256, 9);
    }
    w == expected_vtable as u64 && expected_vtable != 0
}

/// Scans one region's bytes at machine-word stride for validated slots whose
/// stored word equals `vtable_addr`; returns their absolute addresses in
/// ascending order, exactly the validated slots and nothing else.
pub fn search_memory_region_for_vtable(
    data: &[u8],
    region_base: usize,
    vtable_addr: usize,
    ptr_size: usize,
) -> (r: Vec<usize>)
    requires
        ptr_size == 4 || ptr_size == 8,
        region_base + data@.len() <= usize::MAX,
    ensures
        forall|m1: int, m2: int| 0 <= m1 < m2 < r@.len() ==> r@[m1] < r@[m2],
        forall|m: int|
            0 <= m < r@.len() ==> valid_slot(
                data@,
                region_base,
                #[trigger] r@[m] - region_base,
                vtable_addr,
                ptr_size,
            ) && region_base <= r@[m],
        forall|i: int|
            #[trigger] valid_slot(data@, region_base, i, vtable_addr, ptr_size) ==> r@.contains(
                (region_base + i) as usize,
            ),
{
    let len: usize = data.len();
    let mut r: Vec<usize> = Vec::new();
    if len < ptr_size {
        proof {
            assert(forall|i: int|
                valid_slot(data@, region_base, i, vtable_addr, ptr_size) ==> i + ptr_size
                    <= data@.len());
        }
        return r;
    }
    let mut i: usize = 0;
    while i <= len - ptr_size
        invariant
            ptr_size == 4 || ptr_size == 8,
            len == data@.len(),
            ptr_size <= len,
            region_base + len <= usize::MAX,
            i % ptr_size == 0,
            forall|m1: int, m2: int| 0 <= m1 < m2 < r@.len() ==> r@[m1] < r@[m2],
            forall|m: int|
                0 <= m < r@.len() ==> valid_slot(
                    data@,
                    region_base,
                    #[trigger] r@[m] - region_base,
                    vtable_addr,
                    ptr_size,
                ) && region_base <= r@[m] && r@[m] < region_base + i,
            forall|j: int|
                j < i && #[trigger] valid_slot(data@, region_base, j, vtable_addr, ptr_size)
                    ==> r@.contains((region_base + j) as usize),
        decreases len - i,
    {
        let ghost r0 = r@;
        let hit = validate_object_at_address(data, region_base, i, vtable_addr, ptr_size);
        if hit {
            r.push(region_base + i);
        }
        proof {
            if hit {
                assert forall|x: usize| r0.contains(x) implies r@.contains(x) by {
                    let m = choose|m: int| 0 <= m < r0.len() && r0[m] == x;
                    assert(r@[m] == x);
                }
                assert(r@[r@.len() - 1] == (region_base + i) as usize);
                assert(r@.contains((region_base + i) as usize));
            }
            assert(hit == valid_slot(data@, region_base, i as int, vtable_addr, ptr_size));
            assert forall|j: int|
                i < j < i + ptr_size implies !valid_slot(
                data@,
                region_base,
                j,
                vtable_addr,
                ptr_size,
            ) by {
                if j % (ptr_size as int) == 0 {
                    lemma_aligned_gap(i as int, j, ptr_size as int);
                }
            }
        }
        i = i + ptr_size;
    }
    proof {
        assert(forall|j: int|
            #[trigger] valid_slot(data@, region_base, j, vtable_addr, ptr_size) ==> j < i);
    }
    r
}

/// The upper end of the contiguous committed run that contains region `k`:
/// the walk climbs while the next region starts exactly where this one ends
/// and is committed, then reports that last region's end.
pub open spec fn spec_stack_top(rs: Seq<MemoryRegionDescriptor>, k: int) -> int
    decreases rs.len() - k,
        when 0 <= k < rs.len()
{
    if k + 1 < rs.len() && rs[k + 1].base == rs[k].base + rs[k].size && rs[k + 1].state
        == MEM_COMMIT {
        spec_stack_top(rs, k + 1)
    } else {
        rs[k].base + rs[k].size
    }
}

/// The lower end of the contiguous committed run that contains region `k`;
/// a run that reaches address zero reports zero.
pub open spec fn spec_stack_bottom(rs: Seq<MemoryRegionDescriptor>, k: int) -> int
    decreases k,
        when 0 <= k < rs.len()
{
    if rs[k].base == 0 {
        0
    } else if k > 0 && rs[k - 1].base + rs[k - 1].size == rs[k].base && rs[k - 1].state
        == MEM_COMMIT {
        spec_stack_bottom(rs, k - 1)
    } else {
        rs[k].base as int
    }
}

/// The extent `(top, bottom)` of the calling thread's stack, derived from a
/// live stack address `sp`: the contiguous committed run around the region
/// holding `sp`. When no region holds `sp`, or that region is not committed,
/// the extent is empty at address zero.
pub open spec fn spec_stack_range(rs: Seq<MemoryRegionDescriptor>, sp: usize) -> (int, int) {
    if exists|k: int| 0 <= k < rs.len() && region_contains(rs[k], sp as int) {
        let k = choose|k: int| 0 <= k < rs.len() && region_contains(rs[k], sp as int);
        if rs[k].state == MEM_COMMIT {
            (spec_stack_top(rs, k), spec_stack_bottom(rs, k))
        } else {
            (0, 0)
        }
    } else {
        (0, 0)
    }
}

/// At most one region of a coherent snapshot contains an address.
pub proof fn lemma_containing_unique(rs: Seq<MemoryRegionDescriptor>, addr: int, k1: int, k2: int)
    requires
        regions_wf(rs),
        0 <= k1 < rs.len(),
        0 <= k2 < rs.len(),
        region_contains(rs[k1], addr),
        region_contains(rs[k2], addr),
    ensures
        k1 == k2,
{
    if k1 < k2 {
        assert(rs[k1].base + rs[k1].size <= rs[k2].base);
    }
    if k2 < k1 {
        assert(rs[k2].base + rs[k2].size <= rs[k1].base);
    }
}

/// Finds the region of the snapshot that contains `addr`, the model of one
/// platform region query.
pub fn region_containing(regions: &Vec<MemoryRegionDescriptor>, addr: usize) -> (r: Option<usize>)
    ensures
        match r {
            Some(k) => k < regions@.len() && region_contains(regions@[k as int], addr as int),
            None => forall|k: int|
                0 <= k < regions@.len() ==> !region_contains(#[trigger] regions@[k], addr as int),
        },
{
    let n: usize = regions.len();
    let mut k: usize = 0;
    while k < n
        invariant
            k <= n,
            n == regions@.len(),
            forall|m: int| 0 <= m < k ==> !region_contains(#[trigger] regions@[m], addr as int),
        decreases n - k,
    {
        let r = &regions[k];
        if r.base <= addr && addr - r.base < r.size {
            return Some(k);
        }
        k = k + 1;
    }
    None
}

/// Walks the committed regions around a live stack address and returns the
/// stack extent as `(top, bottom)`; `(0, 0)` when `sp` lies in no committed
/// region. Candidate regions overlapping this extent are excluded from the
/// object scan.
pub fn get_precise_stack_range(regions: &Vec<MemoryRegionDescriptor>, sp: usize) -> (r: (
    usize,
    usize,
))
    requires
        regions_wf(regions@),
    ensures
        r.0 == spec_stack_range(regions@, sp).0,
        r.1 == spec_stack_range(regions@, sp).1,
{
    let n: usize = regions.len();
    let k0 = match region_containing(regions, sp) {
        Some(k) => k,
        None => {
            return (0, 0);
        },
    };
    proof {
        let kc = choose|k: int|
            0 <= k < regions@.len() && region_contains(regions@[k], sp as int);
        lemma_containing_unique(regions@, sp as int, k0 as int, kc);
    }
    if regions[k0].state != MEM_COMMIT {
        return (0, 0);
    }
    // upward: follow exactly-adjacent committed regions
    let mut k: usize = k0;
    while k + 1 < n && regions[k + 1].base == regions[k].base + regions[k].size && regions[k
        + 1].state == MEM_COMMIT
        invariant
            regions_wf(regions@),
            n == regions@.len(),
            k0 <= k < n,
            spec_stack_top(regions@, k0 as int) == spec_stack_top(regions@, k as int),
        decreases n - k,
    {
        k = k + 1;
    }
    let top: usize = regions[k].base + regions[k].size;
    proof {
        assert(top == spec_stack_top(regions@, k0 as int));
    }
    // downward: follow exactly-adjacent committed regions
    let mut k2: usize = k0;
    while regions[k2].base != 0 && k2 > 0 && regions[k2 - 1].base + regions[k2 - 1].size
        == regions[k2].base && regions[k2 - 1].state == MEM_COMMIT
        invariant
            regions_wf(regions@),
            n == regions@.len(),
            k2 <= k0 < n,
            spec_stack_bottom(regions@, k0 as int) == spec_stack_bottom(regions@, k2 as int),
        decreases k2,
    {
        k2 = k2 - 1;
    }
    let bottom: usize = regions[k2].base;
    proof {
        assert(bottom == spec_stack_bottom(regions@, k0 as int));
    }
    (top, bottom)
}

/// Region `k` survives the scan filter: committed, readable, privately
/// backed, and not overlapping the calling thread's stack extent.
pub open spec fn region_scannable(rs: Seq<MemoryRegionDescriptor>, k: int, sp: usize) -> bool {
    let stack = spec_stack_range(rs, sp);
    &&& 0 <= k < rs.len()
    &&& rs[k].state == MEM_COMMIT
    &&& spec_is_readable(rs[k].protect)
    &&& rs[k].mem_type == MEM_PRIVATE
    &&& !(rs[k].base < stack.0 && rs[k].base + rs[k].size > stack.1)
}

/// Absolute address `addr` is a validated object slot in some region that
/// survives the scan filter.
pub open spec fn object_hit(
    rs: Seq<MemoryRegionDescriptor>,
    datas: Seq<Vec<u8>>,
    sp: usize,
    vtable: usize,
    ptr_size: usize,
    addr: int,
) -> bool {
    exists|k: int|
        #[trigger] region_scannable(rs, k, sp) && valid_slot(
            datas[k]@,
            rs[k].base,
            addr - rs[k].base,
            vtable,
            ptr_size,
        )
}

/// Scans every committed, readable, privately backed region that does not
/// overlap the calling thread's stack extent (derived from `sp`) for
/// validated slots holding `vtable_addr`. Returns all hits in ascending
/// address order: exactly the validated slots of the surviving regions.
pub fn find_objects_in_all_memory_by_vtable(
    regions: &Vec<MemoryRegionDescriptor>,
    datas: &Vec<Vec<u8>>,
    sp: usize,
    vtable_addr: usize,
    ptr_size: usize,
) -> (r: Vec<usize>)
    requires
        ptr_size == 4 || ptr_size == 8,
        regions_wf(regions@),
        datas@.len() == regions@.len(),
        forall|m: int| 0 <= m < regions@.len() ==> (#[trigger] datas@[m])@.len() == regions@[m].size,
    ensures
        forall|m1: int, m2: int| 0 <= m1 < m2 < r@.len() ==> r@[m1] < r@[m2],
        forall|m: int|
            0 <= m < r@.len() ==> object_hit(
                regions@,
                datas@,
                sp,
                vtable_addr,
                ptr_size,
                #[trigger] r@[m] as int,
            ),
        forall|addr: usize|
            #[trigger] object_hit(regions@, datas@, sp, vtable_addr, ptr_size, addr as int)
                ==> r@.contains(addr),
{
    let n: usize = regions.len();
    let stack = get_precise_stack_range(regions, sp);
    let top = stack.0;
    let bottom = stack.1;
    let mut r: Vec<usize> = Vec::new();
    let mut hi: usize = 0;
    let mut k: usize = 0;
    while k < n
        invariant
            k <= n,
            n == regions@.len(),
            ptr_size == 4 || ptr_size == 8,
            regions_wf(regions@),
            datas@.len() == regions@.len(),
            forall|m: int|
                0 <= m < regions@.len() ==> (#[trigger] datas@[m])@.len() == regions@[m].size,
            top == spec_stack_range(regions@, sp).0,
            bottom == spec_stack_range(regions@, sp).1,
            forall|m1: int, m2: int| 0 <= m1 < m2 < r@.len() ==> r@[m1] < r@[m2],
            forall|m: int|
                0 <= m < r@.len() ==> object_hit(
                    regions@,
                    datas@,
                    sp,
                    vtable_addr,
                    ptr_size,
                    #[trigger] r@[m] as int,
                ),
            forall|m: int| 0 <= m < r@.len() ==> #[trigger] r@[m] < hi,
            k < n ==> hi <= regions@[k as int].base,
            forall|addr: usize, j: int|
                0 <= j < k && region_scannable(regions@, j, sp) && #[trigger] valid_slot(
                    datas@[j]@,
                    regions@[j].base,
                    addr - regions@[j].base,
                    vtable_addr,
                    ptr_size,
                ) ==> r@.contains(addr),
        decreases n - k,
    {
        let reg = &regions[k];
        let mut skip = true;
        if reg.state == MEM_COMMIT && is_readable_memory(reg.protect) && reg.mem_type
            == MEM_PRIVATE {
            if !(reg.base < top && reg.size > 0 && reg.base + reg.size > bottom) {
                skip = false;
            }
        }
        if !skip {
            proof {
                assert(region_scannable(regions@, k as int, sp));
            }
            let ghost r0 = r@;
            let data = &datas[k];
            let mut found = search_memory_region_for_vtable(
                data.as_slice(),
                reg.base,
                vtable_addr,
                ptr_size,
            );
            let ghost f0 = found@;
            r.append(&mut found);
            hi = reg.base + reg.size;
            proof {
                assert(r@ == r0 + f0);
                assert forall|m: int| 0 <= m < r@.len() implies object_hit(
                    regions@,
                    datas@,
                    sp,
                    vtable_addr,
                    ptr_size,
                    r@[m] as int,
                ) && r@[m] < hi by {
                    if m < r0.len() {
                        assert(r@[m] == r0[m]);
                    } else {
                        let i = r@[m] - regions@[k as int].base;
                        assert(valid_slot(
                            datas@[k as int]@,
                            regions@[k as int].base,
                            i,
                            vtable_addr,
                            ptr_size,
                        ));
                    }
                }
                assert forall|addr: usize, j: int|
                    0 <= j < k + 1 && region_scannable(regions@, j, sp) && #[trigger] valid_slot(
                        datas@[j]@,
                        regions@[j].base,
                        addr - regions@[j].base,
                        vtable_addr,
                        ptr_size,
                    ) implies r@.contains(addr) by {
                    if j < k {
                        assert(r0.contains(addr));
                        let m = choose|m: int| 0 <= m < r0.len() && r0[m] == addr;
                        assert(r@[m] == addr);
                    } else {
                        let i = addr - regions@[k as int].base;
                        assert(f0.contains((regions@[k as int].base + i) as usize));
                        let m = choose|m: int| 0 <= m < f0.len() && f0[m] == addr;
                        assert(r@[r0.len() + m] == addr);
                    }
                }
            }
        } else {
            proof {
                assert(!region_scannable(regions@, k as int, sp));
            }
        }
        proof {
            if k + 1 < n {
                assert(regions@[k as int].base + regions@[k as int].size <= regions@[k + 1].base);
            }
        }
        k = k + 1;
    }
    r
}

} // verus!
