//! Traits that types outside this crate cannot implement.

use vstd::prelude::*;

verus! {

/// A stage of the order pipeline.
pub trait Stage {

}

/// A type that belongs to this crate's closed sets of breakers and adapters.
pub trait Sealed {

}

} // verus!
