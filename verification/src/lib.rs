//! Runtime introspection primitives for locating a live object instance in a
//! process image from its compile-time type identity, and for managing
//! function-interception hooks.
//!
//! The library works over plain byte buffers and region snapshots: the caller
//! reads foreign memory and hands the bytes in, so every search, match and
//! decision here is ordinary verified code.

use vstd::prelude::*;

pub mod bytes;
pub mod hooks;
pub mod image;
pub mod memory;
pub mod rtti;
pub mod strings;
pub mod version;

verus! {

/// The failure taxonomy of the library.
///
/// `InvalidImage` is a header-signature mismatch; `NotFound` means a name,
/// locator record or table pointer was absent from the scanned sections;
/// `NoInstanceFound` means the live scan matched nothing; the last two report
/// a hook slot that could not be rewritten and a foreign call that crashed.
#[derive(Clone, Copy, PartialEq, Eq, Structural, Debug)]
pub enum WxError {
    InvalidImage,
    NotFound,
    NoInstanceFound,
    HookCreationFailed,
    ForeignCallFailed,
}

} // verus!
