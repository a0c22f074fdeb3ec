//! The calls that leave the verified code. Verus takes the contracts in this
//! file on trust: each states what the called function is documented to do.
use vstd::prelude::*;
use vstd::arithmetic::power::pow;
use vstd::string::StringSliceAdditionalSpecFns;
use vstd::utf8::valid_utf8;
use crate::text::is_valid_up_to;

verus! {

/// Calls `num::pow` on `u64`.
///
/// Trusted: `num::pow` raises `base` to the power `exp` by repeated squaring
/// and gives 1 for the exponent 0. Every product it forms on the way is a
/// power of `base` that is no larger than the result, so nothing overflows as
/// long as the result fits in a `u64`.
#[verifier::external_body]
pub(crate) fn pow_u64(base: u64, exp: usize) -> (r: u64)
    requires
        pow(base as int, exp as nat) <= u64::MAX,
    ensures
        r == pow(base as int, exp as nat),
{
    num::pow(base, exp)
}

/// Calls `std::str::from_utf8`.
///
/// Trusted: the call succeeds exactly where `bytes` is valid UTF-8, and the
/// string slice it gives is made of those bytes. Where it fails, the error's
/// `valid_up_to()` is handed out: the length of the longest prefix of `bytes`
/// that is valid UTF-8.
#[verifier::external_body]
pub(crate) fn str_from_utf8(bytes: &[u8]) -> (r: Result<&str, usize>)
    ensures
        match r {
            Ok(text) => valid_utf8(bytes@) && text.spec_bytes() == bytes@,
            Err(offset) => !valid_utf8(bytes@) && is_valid_up_to(bytes@, offset as int),
        },
{
    match std::str::from_utf8(bytes) {
        Ok(text) => Ok(text),
        Err(e) => Err(e.valid_up_to()),
    }
}

} // verus!
