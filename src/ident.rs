use vstd::prelude::*;

verus! {

/// The length of a freshly drawn identifier.
pub const ID_LEN: usize = 8;

/// The characters an identifier is drawn from: ASCII letters, digits,
/// `_` and `-`, none of which needs escaping in a URL path.
pub open spec fn is_url_safe(c: char) -> bool {
    ('a' <= c && c <= 'z') || ('A' <= c && c <= 'Z') || ('0' <= c && c <= '9') || c == '_' || c
        == '-'
}

/// Every character of `s` is URL-safe.
pub open spec fn all_url_safe(s: Seq<char>) -> bool {
    forall|i: int| 0 <= i < s.len() ==> is_url_safe(#[trigger] s[i])
}

/// Relies on `nanoid::format` with `nanoid::rngs::default` as the source of
/// random bytes and `nanoid::alphabet::SAFE` as the alphabet: the result has
/// exactly `size` characters, each from that 64-symbol alphabet. `format`
/// draws `8 * size / 5` bytes per round and loops until it has `size`
/// characters, so it needs `size > 0` and `8 * size` must not overflow.
#[verifier::external_body]
pub(crate) fn random_id(size: usize) -> (r: String)
    requires
        0 < size <= usize::MAX / 8,
    ensures
        r@.len() == size,
        all_url_safe(r@),
{
    nanoid::format(nanoid::rngs::default, &nanoid::alphabet::SAFE, size)
}

} // verus!
