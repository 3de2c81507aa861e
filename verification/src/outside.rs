use vstd::prelude::*;

verus! {

/// `postcard::Error`, the error type of postcard's encoder and decoder. It is
/// opaque to Verus: nothing is claimed of its values.
#[verifier::external_type_specification]
#[verifier::external_body]
pub struct ExPostcardError(postcard::Error);

} // verus!
