use vstd::prelude::*;

use crate::date::is_before;
use crate::post::Post;

verus! {

/// Two posts are equal when they were published on the same day.
impl PartialEq for Post {
    fn eq(&self, other: &Self) -> (r: bool) {
        self.date == other.date
    }
}

impl vstd::std_specs::cmp::PartialEqSpecImpl for Post {
    open spec fn obeys_eq_spec() -> bool {
        true
    }

    open spec fn eq_spec(&self, other: &Self) -> bool {
        self.date == other.date
    }
}

impl Eq for Post {
}

/// Posts are ordered by the day they were published on.
impl PartialOrd for Post {
    fn partial_cmp(&self, other: &Self) -> (r: Option<core::cmp::Ordering>) {
        if is_before(&self.date, &other.date) {
            Some(core::cmp::Ordering::Less)
        } else if self.date == other.date {
            Some(core::cmp::Ordering::Equal)
        } else {
            Some(core::cmp::Ordering::Greater)
        }
    }
}

impl vstd::std_specs::cmp::PartialOrdSpecImpl for Post {
    open spec fn obeys_partial_cmp_spec() -> bool {
        true
    }

    open spec fn partial_cmp_spec(&self, other: &Self) -> Option<core::cmp::Ordering> {
        if crate::date::date_before(self.date, other.date) {
            Some(core::cmp::Ordering::Less)
        } else if self.date == other.date {
            Some(core::cmp::Ordering::Equal)
        } else {
            Some(core::cmp::Ordering::Greater)
        }
    }
}

} // verus!
