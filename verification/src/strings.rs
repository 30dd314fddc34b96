//! ABI-style string containers used to shuttle string values across a hook
//! boundary: a narrow byte string and a wide UTF-16 string, each with the
//! foreign small-buffer policy (short contents count as inline with a fixed
//! capacity, longer contents as heap-backed with capacity at least the
//! length).
//!
//! UTF-16 has no specification in the verifier's standard library, so the
//! two transcoding directions are named uninterpreted functions bound to the
//! standard library's implementations; UTF-8 uses the verifier's own
//! `encode_utf8`/`valid_utf8` model.

use vstd::prelude::*;
use vstd::utf8::{encode_utf8, valid_utf8};

verus! {

/// Failure of a string conversion.
#[derive(Clone, Copy, PartialEq, Eq, Structural, Debug)]
pub enum StrError {
    InvalidUtf16,
    InvalidUtf8,
}

/// The characters a UTF-16 unit sequence decodes to, if it is valid UTF-16;
/// a function of the units alone.
pub uninterp spec fn utf16_decode(u: Seq<u16>) -> Option<Seq<char>>;

/// The UTF-16 encoding of a character sequence; a function of the characters
/// alone.
pub uninterp spec fn utf16_of(s: Seq<char>) -> Seq<u16>;

/// Relies on std's `String::from_utf16`: it succeeds exactly on valid UTF-16
/// data and yields its decoding, which depends on the units alone.
#[verifier::external_body]
fn utf16_to_string(u: &[u16]) -> (r: Option<std::string::String>)
    ensures
        match r {
            Some(s) => utf16_decode(u@) == Some(s@),
            None => utf16_decode(u@) is None,
        },
        u@.len() == 0 ==> r is Some,
{
    match std::string::String::from_utf16(u) {
        Ok(s) => Some(s),
        Err(_) => None,
    }
}

/// Relies on `str::encode_utf16`: the UTF-16 encoding of the string, a
/// function of its characters alone; decoding it yields the string back.
#[verifier::external_body]
fn encode_utf16_units(s: &str) -> (r: Vec<u16>)
    ensures
        r@ == utf16_of(s@),
        utf16_decode(r@) == Some(s@),
        s@.len() == 0 ==> r@.len() == 0,
{
    s.encode_utf16().collect()
}

/// Relies on `str::from_utf8`: it succeeds exactly on valid UTF-8 and yields
/// the string whose bytes those are.
#[verifier::external_body]
fn utf8_to_string(b: &[u8]) -> (r: Option<std::string::String>)
    ensures
        match r {
            Some(s) => valid_utf8(b@) && encode_utf8(s@) == b@,
            None => !valid_utf8(b@),
        },
{
    match std::str::from_utf8(b) {
        Ok(s) => Some(s.to_owned()),
        Err(_) => None,
    }
}

fn copy_u16s(data: &[u16]) -> (r: Vec<u16>)
    ensures
        r@ == data@,
{
    let n: usize = data.len();
    let mut r: Vec<u16> = Vec::new();
    let mut j: usize = 0;
    while j < n
        invariant
            j <= n,
            n == data@.len(),
            r@.len() == j,
            forall|m: int| 0 <= m < j ==> r@[m] == data@[m],
        decreases n - j,
    {
        r.push(data[j]);
        j = j + 1;
    }
    proof {
        assert(r@ =~= data@);
    }
    r
}

/// A narrow (byte) string container: UTF-8 contents with the small-buffer
/// policy of the foreign string it models — up to 16 bytes count as inline
/// with capacity 16, longer contents as heap-backed.
#[derive(Debug)]
pub struct String {
    data: Vec<u8>,
    capacity: usize,
}

impl View for String {
    type V = Seq<u8>;

    closed spec fn view(&self) -> Seq<u8> {
        self.data@
    }
}

impl String {
    /// The container's reported capacity.
    pub closed spec fn spec_capacity(&self) -> usize {
        self.capacity
    }

    /// The small-buffer policy: short contents sit in the fixed inline
    /// buffer, longer ones on the heap with room for the whole content.
    pub open spec fn wf(&self) -> bool {
        if self@.len() <= 16 {
            self.spec_capacity() == 16
        } else {
            self.spec_capacity() >= self@.len()
        }
    }

    /// An empty string, inline.
    pub fn new() -> (r: String)
        ensures
            r@ == Seq::<u8>::empty(),
            r.wf(),
            r.spec_capacity() == 16,
    {
        String { data: Vec::new(), capacity: 16 }
    }

    /// Holds exactly the given bytes.
    pub fn from_bytes(bytes: &[u8]) -> (r: String)
        ensures
            r@ == bytes@,
            r.wf(),
    {
        let n: usize = bytes.len();
        let data = crate::bytes::copy_bytes(bytes, 0, n);
        let capacity: usize = if n <= 16 {
            16
        } else {
            n
        };
        proof {
            assert(bytes@.subrange(0, n as int) =~= bytes@);
        }
        String { data, capacity }
    }

    /// Holds the UTF-8 bytes of the given string.
    pub fn from_str(s: &str) -> (r: String)
        ensures
            r@ == encode_utf8(s@),
            r.wf(),
    {
        String::from_bytes(s.as_bytes())
    }

    /// Decodes UTF-16 units and holds the UTF-8 bytes of the result; fails
    /// exactly on invalid UTF-16.
    pub fn from_utf16(u: &[u16]) -> (r: Result<String, StrError>)
        ensures
            match r {
                Ok(a) => utf16_decode(u@) is Some && a@ == encode_utf8(utf16_decode(u@)->Some_0)
                    && a.wf(),
                Err(e) => e == StrError::InvalidUtf16 && utf16_decode(u@) is None,
            },
    {
        match utf16_to_string(u) {
            Some(s) => Ok(String::from_str(s.as_str())),
            None => Err(StrError::InvalidUtf16),
        }
    }

    /// The stored bytes.
    pub fn as_bytes(&self) -> (r: &[u8])
        ensures
            r@ == self@,
    {
        self.data.as_slice()
    }

    /// Decodes the stored bytes as UTF-8; fails exactly when they are not
    /// valid UTF-8.
    pub fn to_string(&self) -> (r: Result<std::string::String, StrError>)
        ensures
            match r {
                Ok(s) => valid_utf8(self@) && encode_utf8(s@) == self@,
                Err(e) => e == StrError::InvalidUtf8 && !valid_utf8(self@),
            },
    {
        match utf8_to_string(self.data.as_slice()) {
            Some(s) => Ok(s),
            None => Err(StrError::InvalidUtf8),
        }
    }

    /// Replaces the contents with the given bytes, re-applying the
    /// small-buffer policy.
    pub fn set_bytes(&mut self, bytes: &[u8])
        ensures
            final(self)@ == bytes@,
            final(self).wf(),
            final(self).spec_capacity() == if bytes@.len() <= 16 {
                16int
            } else {
                bytes@.len() as int
            },
    {
        let n: usize = bytes.len();
        let data = crate::bytes::copy_bytes(bytes, 0, n);
        proof {
            assert(bytes@.subrange(0, n as int) =~= bytes@);
        }
        self.data = data;
        self.capacity = if n <= 16 {
            16
        } else {
            n
        };
    }

    /// Replaces the contents with the UTF-8 bytes of the given string.
    pub fn set_str(&mut self, s: &str)
        ensures
            final(self)@ == encode_utf8(s@),
            final(self).wf(),
    {
        self.set_bytes(s.as_bytes());
    }

    /// Empties the container back to its inline state.
    pub fn clear(&mut self)
        ensures
            final(self)@ == Seq::<u8>::empty(),
            final(self).wf(),
            final(self).spec_capacity() == 16,
    {
        self.data = Vec::new();
        self.capacity = 16;
    }
}

/// A wide (UTF-16) string container with the small-buffer policy of the
/// foreign string it models — up to 8 units count as inline with capacity 8,
/// longer contents as heap-backed.
#[derive(Debug)]
pub struct WString {
    data: Vec<u16>,
    capacity: usize,
}

impl View for WString {
    type V = Seq<u16>;

    closed spec fn view(&self) -> Seq<u16> {
        self.data@
    }
}

impl WString {
    /// The container's reported capacity.
    pub closed spec fn spec_capacity(&self) -> usize {
        self.capacity
    }

    /// The small-buffer policy for wide contents.
    pub open spec fn wf(&self) -> bool {
        if self@.len() <= 8 {
            self.spec_capacity() == 8
        } else {
            self.spec_capacity() >= self@.len()
        }
    }

    /// An empty wide string, inline.
    pub fn new() -> (r: WString)
        ensures
            r@ == Seq::<u16>::empty(),
            r.wf(),
            r.spec_capacity() == 8,
    {
        WString { data: Vec::new(), capacity: 8 }
    }

    /// Holds the UTF-16 encoding of the given string.
    pub fn from_str(s: &str) -> (r: WString)
        ensures
            r@ == utf16_of(s@),
            utf16_decode(r@) == Some(s@),
            r.wf(),
    {
        let units = encode_utf16_units(s);
        WString::from_units(units.as_slice())
    }

    /// Holds exactly the given UTF-16 units, valid or not.
    pub fn from_utf16(utf16: &[u16]) -> (r: WString)
        ensures
            r@ == utf16@,
            r.wf(),
    {
        WString::from_units(utf16)
    }

    fn from_units(utf16: &[u16]) -> (r: WString)
        ensures
            r@ == utf16@,
            r.wf(),
    {
        let n: usize = utf16.len();
        let data = copy_u16s(utf16);
        let capacity: usize = if n <= 8 {
            8
        } else {
            n
        };
        WString { data, capacity }
    }

    /// The stored UTF-16 units.
    pub fn as_utf16(&self) -> (r: &[u16])
        ensures
            r@ == self@,
    {
        self.data.as_slice()
    }

    /// Decodes the stored units; fails exactly on invalid UTF-16.
    pub fn to_string(&self) -> (r: Result<std::string::String, StrError>)
        ensures
            match r {
                Ok(s) => utf16_decode(self@) == Some(s@),
                Err(e) => e == StrError::InvalidUtf16 && utf16_decode(self@) is None,
            },
    {
        match utf16_to_string(self.data.as_slice()) {
            Some(s) => Ok(s),
            None => Err(StrError::InvalidUtf16),
        }
    }

    /// Replaces the contents with the UTF-16 encoding of the given string.
    pub fn set_str(&mut self, s: &str)
        ensures
            final(self)@ == utf16_of(s@),
            utf16_decode(final(self)@) == Some(s@),
            final(self).wf(),
    {
        let units = encode_utf16_units(s);
        self.set_utf16(units.as_slice());
    }

    /// Replaces the contents with the given units, re-applying the
    /// small-buffer policy.
    pub fn set_utf16(&mut self, utf16: &[u16])
        ensures
            final(self)@ == utf16@,
            final(self).wf(),
            final(self).spec_capacity() == if utf16@.len() <= 8 {
                8int
            } else {
                utf16@.len() as int
            },
    {
        let n: usize = utf16.len();
        let data = copy_u16s(utf16);
        self.data = data;
        self.capacity = if n <= 8 {
            8
        } else {
            n
        };
    }

    /// Empties the container back to its inline state.
    pub fn clear(&mut self)
        ensures
            final(self)@ == Seq::<u16>::empty(),
            final(self).wf(),
            final(self).spec_capacity() == 8,
    {
        self.data = Vec::new();
        self.capacity = 8;
    }
}

/// The length in UTF-16 units of a wide buffer up to its first null unit:
/// the index of the first null, or zero when no null occurs.
pub open spec fn spec_nul_len(buf: Seq<u16>) -> int {
    if exists|i: int| 0 <= i < buf.len() && buf[i] == 0 {
        choose|i: int|
            0 <= i < buf.len() && buf[i] == 0 && forall|j: int| 0 <= j < i ==> buf[j] != 0
    } else {
        0
    }
}

/// Length of a wide buffer up to its first null unit; a buffer without a
/// null reports zero and is treated as empty.
pub fn nul_terminated_len(buf: &[u16]) -> (r: usize)
    ensures
        r == spec_nul_len(buf@),
        r <= buf@.len(),
{
    let n: usize = buf.len();
    let mut i: usize = 0;
    while i < n
        invariant
            i <= n,
            n == buf@.len(),
            forall|j: int| 0 <= j < i ==> buf@[j] != 0,
        decreases n - i,
    {
        if buf[i] == 0 {
            proof {
                let w = choose|w: int|
                    0 <= w < buf@.len() && buf@[w] == 0 && forall|j: int| 0 <= j < w ==> buf@[j]
                        != 0;
                assert(buf@[i as int] == 0);
                if w < i {
                    assert(buf@[w] != 0);
                }
                if i < w {
                    assert(buf@[i as int] != 0);
                }
            }
            return i;
        }
        i = i + 1;
    }
    proof {
        if exists|w: int| 0 <= w < buf@.len() && buf@[w] == 0 {
            let w = choose|w: int| 0 <= w < buf@.len() && buf@[w] == 0;
            assert(buf@[w] != 0);
        }
    }
    0
}

} // verus!
