//! A single order on the book: two orders are the same order when their ids
//! are equal, and orders are ranked by id.
use vstd::prelude::*;
use core::cmp::Ordering;
use crate::value::{UUID, Value};
use vstd::std_specs::cmp::{PartialEqSpec, PartialOrdSpec};

verus! {

/// An order: its id, its limit price and its remaining size.
#[derive(Clone, Copy, Debug)]
pub struct Order {
    pub id: UUID,
    pub price: Value,
    pub size: Value,
}

/// The rank of two ids: by `data_a`, then by `data_b`.
pub open spec fn id_order(a: UUID, b: UUID) -> Ordering {
    if a.data_a < b.data_a {
        Ordering::Less
    } else if a.data_a > b.data_a {
        Ordering::Greater
    } else if a.data_b < b.data_b {
        Ordering::Less
    } else if a.data_b > b.data_b {
        Ordering::Greater
    } else {
        Ordering::Equal
    }
}

impl PartialEq for Order {
    fn eq(&self, other: &Order) -> (r: bool) {
        self.id.data_a == other.id.data_a && self.id.data_b == other.id.data_b
    }

    fn ne(&self, other: &Order) -> (r: bool) {
        !(self.id.data_a == other.id.data_a && self.id.data_b == other.id.data_b)
    }
}

impl vstd::std_specs::cmp::PartialEqSpecImpl for Order {
    open spec fn obeys_eq_spec() -> bool {
        true
    }

    open spec fn eq_spec(&self, other: &Order) -> bool {
        self.id.data_a == other.id.data_a && self.id.data_b == other.id.data_b
    }
}

impl Eq for Order {

}

impl PartialOrd for Order {
    fn partial_cmp(&self, other: &Order) -> (r: Option<Ordering>) {
        if self.id.data_a < other.id.data_a {
            Some(Ordering::Less)
        } else if self.id.data_a > other.id.data_a {
            Some(Ordering::Greater)
        } else if self.id.data_b < other.id.data_b {
            Some(Ordering::Less)
        } else if self.id.data_b > other.id.data_b {
            Some(Ordering::Greater)
        } else {
            Some(Ordering::Equal)
        }
    }
}

impl vstd::std_specs::cmp::PartialOrdSpecImpl for Order {
    open spec fn obeys_partial_cmp_spec() -> bool {
        true
    }

    open spec fn partial_cmp_spec(&self, other: &Order) -> Option<Ordering> {
        Some(id_order(self.id, other.id))
    }
}

/// The order in which the book files two ids: by `data_a`, then by
/// `data_b`.
pub open spec fn id_before(a: UUID, b: UUID) -> bool {
    a.data_a < b.data_a || (a.data_a == b.data_a && a.data_b < b.data_b)
}

/// Orders are equal exactly when their ids are, whatever their prices and
/// sizes, and rank as the book files their ids.
pub proof fn law_order_by_id(a: Order, b: Order)
    ensures
        a.eq_spec(&b) <==> a.id == b.id,
        a.partial_cmp_spec(&b) == Some(Ordering::Less) <==> id_before(a.id, b.id),
        a.partial_cmp_spec(&b) == Some(Ordering::Greater) <==> id_before(b.id, a.id),
        a.partial_cmp_spec(&b) == Some(Ordering::Equal) <==> a.id == b.id,
{
}

} // verus!
