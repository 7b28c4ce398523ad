//! The order of interrupt identifiers.
//!
//! Identifiers are ordered by their numbers. The order carries no meaning of
//! its own; it is there for controllers that sort or compare identifiers.

use crate::intid::IntId;
use core::cmp::Ordering;
use vstd::prelude::*;

verus! {

impl PartialOrd for IntId {
    fn partial_cmp(&self, other: &IntId) -> (order: Option<Ordering>) {
        let left: usize = usize::from(*self);
        let right: usize = usize::from(*other);
        if left < right {
            Some(Ordering::Less)
        } else if left == right {
            Some(Ordering::Equal)
        } else {
            Some(Ordering::Greater)
        }
    }
}

impl vstd::std_specs::cmp::PartialOrdSpecImpl for IntId {
    open spec fn obeys_partial_cmp_spec() -> bool {
        true
    }

    open spec fn partial_cmp_spec(&self, other: &IntId) -> Option<Ordering> {
        if self@ < other@ {
            Some(Ordering::Less)
        } else if self@ == other@ {
            Some(Ordering::Equal)
        } else {
            Some(Ordering::Greater)
        }
    }
}


} // verus!
