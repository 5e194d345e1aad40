//! Keeps the set of writer targets closed.

use crate::writer::Stderr;
use crate::writer::Stdout;
use vstd::prelude::*;

verus! {

/// Implemented by the two targets of this crate only.
pub trait Sealed {

}

impl Sealed for Stdout {

}

impl Sealed for Stderr {

}

} // verus!
