//! nom's error enum, declared so that results of this library can carry it.
use vstd::prelude::*;

verus! {

/// nom::Needed, carried opaquely inside `nom::Err::Incomplete`.
#[verifier::external_type_specification]
#[verifier::external_body]
pub struct ExNeeded(nom::Needed);

/// nom::Err, with its variants visible: `Incomplete`, `Error` and `Failure`.
#[verifier::external_type_specification]
#[verifier::reject_recursive_types(E)]
pub struct ExErr<E>(nom::Err<E>);

} // verus!
