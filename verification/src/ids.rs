//! Fresh order identifiers.

use vstd::prelude::*;

verus! {

/// A fresh random 128-bit identifier rendered as 32 lowercase hex digits.
///
/// Relies on `uuid::Uuid::new_v4` for the randomness and on
/// `uuid::fmt::Simple` for the rendering, whose documentation fixes the
/// format at exactly 32 characters with no separators. Nothing is assumed
/// beyond the length: two calls may return anything of that shape.
#[verifier::external_body]
pub fn gen_id() -> (r: String)
    ensures
        r@.len() == 32,
{
    let mut buf = [0u8; 32];
    let s: &str = uuid::Uuid::new_v4().simple().encode_lower(&mut buf);
    s.to_string()
}

} // verus!
