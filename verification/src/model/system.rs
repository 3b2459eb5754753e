//! The key a finished run is filed under: a traffic class at one capacity.

use vstd::prelude::*;

use crate::model::class::Class;

verus! {

/// One experiment cell: a traffic class offered to a pool of `v` units.
#[derive(Clone, Copy, PartialEq, Eq, Structural, Debug)]
pub struct ModelDescription {
    pub class: Class,
    pub v: usize,
}

} // verus!
