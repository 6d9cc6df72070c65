//! The types of the `tar` crate and of `std::io` that the archive modules
//! pass through. Nothing inside them is visible to the verifier.

use vstd::prelude::*;

verus! {

#[verifier::external_type_specification]
#[verifier::external_body]
pub struct ExTarHeader(tar::Header);

#[verifier::external_type_specification]
#[verifier::external_body]
pub struct ExIoError(std::io::Error);

} // verus!
