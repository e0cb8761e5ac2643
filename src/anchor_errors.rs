//! Numbering of custom program errors as the Anchor framework assigns it:
//! a variant's position, offset by the framework's base code.
use vstd::prelude::*;

verus! {

/// Relies on `anchor_lang::error::ERROR_CODE_OFFSET`: the number that Anchor
/// adds to a custom error's position to form its code.
#[verifier::external_body]
pub(crate) fn error_code_offset() -> (r: u32)
    ensures
        r == 6000,
{
    anchor_lang::error::ERROR_CODE_OFFSET
}

} // verus!
