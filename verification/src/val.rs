//! The tagged value representation exchanged between host and guest.
//!
//! A [`Val`] is a small, freely copied scalar: either a self-contained
//! immediate, a typed error ([`Val::Status`]), or a handle into the host
//! object store ([`Val::Object`]). A handle is only meaningful relative to
//! the store of one host instance.

use vstd::prelude::*;
use crate::errors::Error;

verus! {

/// The tagged scalar value.
#[derive(Clone, Copy, Debug, PartialEq, Eq, Structural)]
pub enum Val {
    Bool(bool),
    Void,
    U32(u32),
    I32(i32),
    U64(u64),
    I64(i64),
    Timepoint(u64),
    Duration(u64),
    Status(Error),
    Object(u32),
}

/// Termination measure for walks over the object store: immediates are
/// ground, a handle sits above everything a well-formed store lets it
/// reference (a stored object only references strictly smaller handles).
pub open spec fn val_measure(v: Val) -> nat {
    match v {
        Val::Object(h) => h as nat + 1,
        _ => 0,
    }
}

/// Does the value reference only handles strictly below `bound`?
pub open spec fn val_ref_below(v: Val, bound: int) -> bool {
    match v {
        Val::Object(h) => h < bound,
        _ => true,
    }
}

/// Runtime check for [`val_ref_below`].
pub fn val_ref_below_exec(v: Val, bound: usize) -> (r: bool)
    ensures
        r == val_ref_below(v, bound as int),
{
    match v {
        Val::Object(h) => (h as usize) < bound,
        _ => true,
    }
}

} // verus!
