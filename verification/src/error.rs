//! The ways in which deriving an identity or using a registry can fail.

use vstd::prelude::*;

verus! {

/// A defect in how a mock was written or used. None of them is recovered from:
/// each one ends the test that met it.
#[derive(Clone, Debug, PartialEq, Eq)]
pub enum Error {
    /// A location does not have the shape that the naming of types gives it:
    /// a scope delimiter is missing, or a closing bracket has no opening one.
    MalformedLocation,
    /// The name of a registering function does not begin with the prefix that
    /// registering functions carry.
    MissingPrefix,
    /// An identity with the trait's name was asked of a location without one.
    MissingTraitInfo,
    /// Nothing is registered under the identity, which the error carries.
    UnregisteredCall(String),
    /// What is registered under the identity has another type signature.
    TypeMismatch,
}

} // verus!
