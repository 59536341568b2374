//! The order of identifiers: that of the 128-bit numbers they hold.

use crate::id::ID;
use core::cmp::Ordering;
use vstd::prelude::*;
use vstd::std_specs::cmp::PartialOrdSpec;
use vstd::std_specs::cmp::PartialOrdSpecImpl;

verus! {

impl PartialOrd for ID {
    fn partial_cmp(&self, other: &ID) -> (r: Option<Ordering>) {
        if self.high < other.high {
            Some(Ordering::Less)
        } else if self.high > other.high {
            Some(Ordering::Greater)
        } else if self.low < other.low {
            Some(Ordering::Less)
        } else if self.low > other.low {
            Some(Ordering::Greater)
        } else {
            Some(Ordering::Equal)
        }
    }
}

impl PartialOrdSpecImpl for ID {
    open spec fn obeys_partial_cmp_spec() -> bool {
        true
    }

    open spec fn partial_cmp_spec(&self, other: &ID) -> Option<Ordering> {
        if self.high < other.high {
            Some(Ordering::Less)
        } else if self.high > other.high {
            Some(Ordering::Greater)
        } else if self.low < other.low {
            Some(Ordering::Less)
        } else if self.low > other.low {
            Some(Ordering::Greater)
        } else {
            Some(Ordering::Equal)
        }
    }
}

/// Identifiers are ordered as the numbers they hold: one is below, equal to
/// or above another exactly when its value is.
pub proof fn lemma_order_is_numeric(a: ID, b: ID)
    ensures
        a.value() < b.value() <==> PartialOrdSpec::partial_cmp_spec(&a, &b) == Some(Ordering::Less),
        a.value() == b.value() <==> PartialOrdSpec::partial_cmp_spec(&a, &b) == Some(
            Ordering::Equal,
        ),
        a.value() > b.value() <==> PartialOrdSpec::partial_cmp_spec(&a, &b) == Some(
            Ordering::Greater,
        ),
        a.value() == b.value() <==> a == b,
{
}

/// An identifier that holds an earlier timestamp is below one that holds a
/// later timestamp, whatever their other bits are.
pub proof fn lemma_later_timestamp_is_greater(earlier: ID, later: ID)
    requires
        earlier.timestamp_millis() < later.timestamp_millis(),
    ensures
        PartialOrdSpec::partial_cmp_spec(&earlier, &later) == Some(Ordering::Less),
        earlier.value() < later.value(),
{
}

} // verus!
