use vstd::prelude::*;

verus! {

/// `std::io::Error`, carried by `Error::IOError` and never looked into.
#[verifier::external_type_specification]
#[verifier::external_body]
pub struct ExIoError(std::io::Error);

} // verus!
