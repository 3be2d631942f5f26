//! Component types: plain data wrappers with a single field and no behavior.

use vstd::prelude::*;

verus! {

/// A health value. Negative values are syntactically valid; any meaning
/// (such as "deceased") is assigned by calling code, not by the store.
#[derive(Clone, Copy, PartialEq, Eq, Structural, Debug)]
pub struct Health(pub i32);

/// A name, borrowed for the life of the process.
#[derive(Clone, Copy, PartialEq, Eq, Debug)]
pub struct Name(pub &'static str);

} // verus!
