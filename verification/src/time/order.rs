//! The order of times: earlier instants come first.

use vstd::prelude::*;
use std::cmp::Ordering;
use vstd::std_specs::cmp::PartialOrdSpecImpl;
use super::instant::Time;

verus! {

impl PartialOrd for Time {
    fn partial_cmp(&self, other: &Time) -> (order: Option<Ordering>) {
        if self.seconds() < other.seconds() {
            Some(Ordering::Less)
        } else if self.seconds() > other.seconds() {
            Some(Ordering::Greater)
        } else if self.subsec_nanos() < other.subsec_nanos() {
            Some(Ordering::Less)
        } else if self.subsec_nanos() > other.subsec_nanos() {
            Some(Ordering::Greater)
        } else {
            Some(Ordering::Equal)
        }
    }
}

impl PartialOrdSpecImpl for Time {
    open spec fn obeys_partial_cmp_spec() -> bool {
        true
    }

    open spec fn partial_cmp_spec(&self, other: &Time) -> Option<Ordering> {
        if self@.before(other@) {
            Some(Ordering::Less)
        } else if other@.before(self@) {
            Some(Ordering::Greater)
        } else {
            Some(Ordering::Equal)
        }
    }
}

} // verus!
