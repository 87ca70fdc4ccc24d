//! The identifiers by which Spark knows a person.
use vstd::prelude::*;

verus! {

/// The identifier of a person in Spark.
pub type PersonId = String;

/// An email address in Spark.
pub type Email = String;

} // verus!
