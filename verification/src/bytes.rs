//! Little-endian machine words and first-match byte-pattern search over
//! untyped buffers.
//!
//! Every structure this library locates (headers, locator records, table
//! pointers, object slots) is found by reconstructing its exact byte image
//! and scanning for it, so these primitives carry the whole search logic.

use vstd::prelude::*;

verus! {

/// The little-endian encoding of `v` in exactly `n` bytes (high bytes of `v`
/// beyond `n` are dropped, which is how a stored field truncates).
pub open spec fn le_bytes(v: nat, n: nat) -> Seq<u8>
    decreases n,
{
    if n == 0 {
        Seq::empty()
    } else {
        seq![(v % 256) as u8] + le_bytes(v / 256, (n - 1) as nat)
    }
}

/// The value of a little-endian byte sequence.
pub open spec fn le_word(b: Seq<u8>) -> nat
    decreases b.len(),
{
    if b.len() == 0 {
        0
    } else {
        b[0] as nat + 256 * le_word(b.subrange(1, b.len() as int))
    }
}

/// 256 to the `n`-th power, the number of values of an `n`-byte word.
pub open spec fn pow256(n: nat) -> nat
    decreases n,
{
    if n == 0 {
        1
    } else {
        256 * pow256((n - 1) as nat)
    }
}

pub proof fn lemma_le_bytes_len(v: nat, n: nat)
    ensures
        le_bytes(v, n).len() == n,
    decreases n,
{
    if n > 0 {
        lemma_le_bytes_len(v / 256, (n - 1) as nat);
    }
}

pub proof fn lemma_le_word_bound(b: Seq<u8>)
    ensures
        le_word(b) < pow256(b.len()),
    decreases b.len(),
{
    if b.len() > 0 {
        lemma_le_word_bound(b.subrange(1, b.len() as int));
    }
}

/// `pat` occurs in `hay` starting at offset `i`.
pub open spec fn match_at(hay: Seq<u8>, pat: Seq<u8>, i: int) -> bool {
    &&& 0 <= i
    &&& i + pat.len() <= hay.len()
    &&& forall|j: int| 0 <= j < pat.len() ==> hay[i + j] == pat[j]
}

/// Writes `v` as `n` little-endian bytes.
pub fn usize_le_bytes(v: usize, n: usize) -> (r: Vec<u8>)
    requires
        n <= 8,
    ensures
        r@ == le_bytes(v as nat, n as nat),
        r@.len() == n,
{
    let mut r: Vec<u8> = Vec::new();
    let mut cur: usize = v;
    let mut i: usize = 0;
    proof {
        lemma_le_bytes_len(v as nat, n as nat);
    }
    while i < n
        invariant
            i <= n,
            n <= 8,
            r@.len() == i,
            le_bytes(v as nat, n as nat) =~= r@ + le_bytes(cur as nat, (n - i) as nat),
        decreases n - i,
    {
        r.push((cur % 256) as u8);
        cur = cur / 256;
        i = i + 1;
        proof {
            assert(le_bytes(v as nat, n as nat) =~= r@ + le_bytes(cur as nat, (n - i) as nat));
        }
    }
    proof {
        assert(r@ =~= le_bytes(v as nat, n as nat));
    }
    r
}

/// Reads the `n`-byte little-endian word stored at offset `i` of `data`.
pub fn read_le_word(data: &[u8], i: usize, n: usize) -> (w: u64)
    requires
        n <= 8,
        i + n <= data@.len(),
    ensures
        w as nat == le_word(data@.subrange(i as int, i + n)),
{
    let dlen: usize = data.len();
    let mut w: u64 = 0;
    let mut k: usize = n;
    while k > 0
        invariant
            k <= n,
            n <= 8,
            dlen == data@.len(),
            i + n <= dlen,
            w as nat == le_word(data@.subrange(i + k, i + n)),
            (w as nat) < pow256((n - k) as nat),
        decreases k,
    {
        proof {
            assert(pow256((n - k) as nat) <= pow256(7)) by {
                lemma_pow256_increases((n - k) as nat, 7);
            }
            reveal_with_fuel(pow256, 9);
            assert(pow256(7) == 0x100000000000000);
        }
        let b = data[i + k - 1];
        w = w * 256 + (b as u64);
        k = k - 1;
        proof {
            let s = data@.subrange(i + k, i + n);
            assert(s.subrange(1, s.len() as int) =~= data@.subrange(i + k + 1, i + n));
        }
    }
    proof {
        assert(data@.subrange(i as int, i + n) =~= data@.subrange(i + 0, i + n));
    }
    w
}

pub proof fn lemma_pow256_increases(a: nat, b: nat)
    requires
        a <= b,
    ensures
        pow256(a) <= pow256(b),
    decreases b,
{
    if a < b && b > 0 {
        lemma_pow256_increases(a, (b - 1) as nat);
    }
}

/// Compares `pat` against `hay` at offset `i`.
pub fn bytes_match_at(hay: &[u8], pat: &[u8], i: usize) -> (b: bool)
    requires
        i + pat@.len() <= hay@.len(),
    ensures
        b == match_at(hay@, pat@, i as int),
{
    let hlen: usize = hay.len();
    let plen: usize = pat.len();
    let mut j: usize = 0;
    while j < plen
        invariant
            j <= plen,
            plen == pat@.len(),
            hlen == hay@.len(),
            i + plen <= hlen,
            forall|k: int| 0 <= k < j ==> hay@[i + k] == pat@[k],
        decreases plen - j,
    {
        if hay[i + j] != pat[j] {
            return false;
        }
        j = j + 1;
    }
    true
}

/// `i` is the lowest offset at which `pat` occurs in `hay`.
pub open spec fn is_first_match(hay: Seq<u8>, pat: Seq<u8>, i: int) -> bool {
    match_at(hay, pat, i) && forall|j: int| 0 <= j < i ==> !match_at(hay, pat, j)
}

/// Copies `n` bytes of `data` starting at `off` into an owned vector.
pub fn copy_bytes(data: &[u8], off: usize, n: usize) -> (r: Vec<u8>)
    requires
        off + n <= data@.len(),
    ensures
        r@ == data@.subrange(off as int, off + n),
{
    let dlen: usize = data.len();
    let mut r: Vec<u8> = Vec::new();
    let mut j: usize = 0;
    while j < n
        invariant
            j <= n,
            dlen == data@.len(),
            off + n <= dlen,
            r@.len() == j,
            forall|k: int| 0 <= k < j ==> r@[k] == data@[off + k],
        decreases n - j,
    {
        r.push(data[off + j]);
        j = j + 1;
    }
    proof {
        assert(r@ =~= data@.subrange(off as int, off + n));
    }
    r
}

/// Finds the lowest offset at which `pat` occurs in `hay`: the first-match
/// policy every scan of this library follows.
pub fn find_first_match(hay: &[u8], pat: &[u8]) -> (r: Option<usize>)
    ensures
        match r {
            Some(i) => match_at(hay@, pat@, i as int) && forall|j: int|
                0 <= j < i ==> !match_at(hay@, pat@, j),
            None => forall|j: int| !match_at(hay@, pat@, j),
        },
{
    if pat.len() > hay.len() {
        return None;
    }
    let end = hay.len() - pat.len();
    let mut i: usize = 0;
    while i < end
        invariant
            i <= end,
            end == hay@.len() - pat@.len(),
            forall|j: int| 0 <= j < i ==> !match_at(hay@, pat@, j),
        decreases end - i,
    {
        if bytes_match_at(hay, pat, i) {
            return Some(i);
        }
        i = i + 1;
    }
    if bytes_match_at(hay, pat, end) {
        return Some(end);
    }
    None
}

} // verus!
