use vstd::prelude::*;

verus! {

/// The largest request body, in bytes, that may carry a new paste (256 KiB).
pub const MAX_BODY_BYTES: u64 = 262144;

/// Whether a request body of `len` bytes is small enough to reach the store.
pub fn admits_body(len: u64) -> (r: bool)
    ensures
        r == (len <= MAX_BODY_BYTES),
{
    len <= MAX_BODY_BYTES
}

} // verus!
