use vstd::prelude::*;

verus! {

/// Relies on `uuid::Uuid::new_v4`: a freshly generated random identifier,
/// handed on as its 128-bit value. Nothing is promised of the value — every
/// caller must work for every outcome.
#[verifier::external_body]
pub(crate) fn random_uuid() -> u128 {
    uuid::Uuid::new_v4().as_u128()
}

} // verus!

verus! {

use crate::text::{hex_digits, hex32_append};

/// The text form of a 128-bit identifier: its 32 hexadecimal digits.
pub fn id_text(v: u128) -> (r: String)
    ensures
        r@ == hex_digits(v as int, 32),
{
    let mut out = String::new();
    hex32_append(&mut out, v);
    proof {
        assert(out@ =~= hex_digits(v as int, 32));
    }
    out
}

} // verus!
