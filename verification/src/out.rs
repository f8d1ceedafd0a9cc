//! What a build produces.
use vstd::prelude::*;

verus! {

/// The kind of artifact a build produces.
#[derive(Clone, Copy, Debug, PartialEq, Eq, Structural)]
pub enum ResultType {
    /// A native executable.
    Binary,
    /// A shared library.
    Shared,
    /// The object file itself.
    Object,
}

} // verus!
