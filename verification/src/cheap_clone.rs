//! Types whose copies are cheap to make.

use vstd::prelude::*;
use crate::expression::{Atom, FnIdentifier};
use crate::small_string::SmallString;

verus! {

/// A type that can be copied at little cost: its copy is made in constant
/// time or in time bounded by the size of one identifier.
pub trait CheapClone: Sized {
    /// Whether `copy` holds what `self` holds.
    spec fn copied(&self, copy: &Self) -> bool;

    fn cheap_clone(&self) -> (r: Self)
        ensures
            self.copied(&r),
    ;
}

impl CheapClone for SmallString {
    open spec fn copied(&self, copy: &SmallString) -> bool {
        copy@ == self@
    }

    fn cheap_clone(&self) -> (r: SmallString) {
        self.duplicate()
    }
}

impl CheapClone for FnIdentifier {
    open spec fn copied(&self, copy: &FnIdentifier) -> bool {
        copy@ == self@
    }

    fn cheap_clone(&self) -> (r: FnIdentifier) {
        self.duplicate()
    }
}

impl CheapClone for Atom {
    open spec fn copied(&self, copy: &Atom) -> bool {
        copy@ == self@
    }

    fn cheap_clone(&self) -> (r: Atom) {
        self.duplicate()
    }
}

} // verus!
