//! The order book: the standing buy and sell orders, driven by the
//! operations that the feed packets stand for.
use vstd::prelude::*;
use std::collections::BTreeMap;
use vstd::std_specs::btree::{increasing_seq, spec_btree_map_iter};
use vstd::std_specs::cmp::OrdSpec;
use vstd::std_specs::iter::IteratorSpec;
use crate::op::OrderBookOp;
use crate::value::{Side, Value, UUID};

verus! {

/// The orders of one side of the book: for each order id (as the pair
/// `(data_a, data_b)`), its price and its remaining size, in units of 10^-10.
pub type SideOrders = Map<(u64, u64), (u64, u64)>;

/// The key under which an order id is filed.
pub open spec fn key_of(id: UUID) -> (u64, u64) {
    (id.data_a, id.data_b)
}

/// The orders of `side` in a book whose buy orders are `book.0` and whose
/// sell orders are `book.1`.
pub open spec fn side_of(book: (SideOrders, SideOrders), side: Side) -> SideOrders {
    match side {
        Side::Buy => book.0,
        Side::Sell => book.1,
    }
}

/// `book` with the orders of `side` replaced by `orders`.
pub open spec fn with_side(book: (SideOrders, SideOrders), side: Side, orders: SideOrders) -> (
    SideOrders,
    SideOrders,
) {
    match side {
        Side::Buy => (orders, book.1),
        Side::Sell => (book.0, orders),
    }
}

/// Placing an order: an order whose id already stands is left as it is.
pub open spec fn place(orders: SideOrders, key: (u64, u64), entry: (u64, u64)) -> SideOrders {
    if orders.contains_key(key) {
        orders
    } else {
        orders.insert(key, entry)
    }
}

/// Filling `amount` of an order: its size drops by `amount`; an id that
/// does not stand changes nothing.
pub open spec fn fill(orders: SideOrders, key: (u64, u64), amount: u64) -> SideOrders {
    if orders.contains_key(key) {
        orders.insert(key, (orders[key].0, (orders[key].1 - amount) as u64))
    } else {
        orders
    }
}

/// The book after `op`.
pub open spec fn apply_op(book: (SideOrders, SideOrders), op: OrderBookOp) -> (
    SideOrders,
    SideOrders,
) {
    match op {
        OrderBookOp::Open(id, side, price, size) => with_side(
            book,
            side,
            place(side_of(book, side), key_of(id), (price.data, size.data)),
        ),
        OrderBookOp::Done(id, side) => with_side(
            book,
            side,
            side_of(book, side).remove(key_of(id)),
        ),
        OrderBookOp::Modify(id, side, amount) => with_side(
            book,
            side,
            fill(side_of(book, side), key_of(id), amount.data),
        ),
        OrderBookOp::Reset => (Map::empty(), Map::empty()),
        OrderBookOp::Error => book,
        OrderBookOp::Ignored => book,
    }
}

/// `op` can be applied to `book`: it is not the end of the feed, and a fill
/// of a standing order is no larger than the order's size.
pub open spec fn op_applies(book: (SideOrders, SideOrders), op: OrderBookOp) -> bool {
    match op {
        OrderBookOp::Error => false,
        OrderBookOp::Modify(id, side, amount) => side_of(book, side).contains_key(key_of(id))
            ==> amount.data <= side_of(book, side)[key_of(id)].1,
        _ => true,
    }
}

/// The lowest price on one side, where it lies below `u64::MAX`; the
/// result of the search when it starts from the largest value.
pub open spec fn is_lowest_price(orders: SideOrders, r: u64) -> bool {
    &&& forall|k: (u64, u64)| #[trigger] orders.contains_key(k) ==> r <= orders[k].0
    &&& (r == u64::MAX || exists|k: (u64, u64)| #[trigger] orders.contains_key(k) && orders[k].0 == r)
}

/// The highest price on one side, or 0; the result of the search when it
/// starts from zero.
pub open spec fn is_highest_price(orders: SideOrders, r: u64) -> bool {
    &&& forall|k: (u64, u64)| #[trigger] orders.contains_key(k) ==> orders[k].0 <= r
    &&& (r == 0 || exists|k: (u64, u64)| #[trigger] orders.contains_key(k) && orders[k].0 == r)
}

/// Order ids in the order in which the book files them: by `data_a`, then
/// by `data_b`.
pub open spec fn key_before(a: (u64, u64), b: (u64, u64)) -> bool {
    a.0 < b.0 || (a.0 == b.0 && a.1 < b.1)
}

/// `sizes` are the sizes of the orders of `orders` at `price`, one per
/// order, in the order of their ids.
pub open spec fn sizes_at_price(orders: SideOrders, price: u64, sizes: Seq<u64>) -> bool {
    exists|ks: Seq<(u64, u64)>|
        {
            &&& forall|i: int, j: int| 0 <= i < j < ks.len() ==> key_before(#[trigger] ks[i], #[trigger] ks[j])
            &&& forall|k: (u64, u64)| #[trigger] ks.contains(k) <==> (orders.contains_key(k) && orders[k].0 == price)
            &&& sizes.len() == ks.len()
            &&& forall|i: int| 0 <= i < ks.len() ==> #[trigger] sizes[i] == orders[ks[i]].1
        }
}

/// The standing buy and sell orders, each filed by id.
pub struct OrderBook {
    buy: BTreeMap<(u64, u64), (u64, u64)>,
    sell: BTreeMap<(u64, u64), (u64, u64)>,
}

impl View for OrderBook {
    type V = (SideOrders, SideOrders);

    closed spec fn view(&self) -> (SideOrders, SideOrders) {
        (self.buy@, self.sell@)
    }
}

impl OrderBook {
    /// An empty book.
    pub fn new() -> (r: OrderBook)
        ensures
            r@ == (Map::<(u64, u64), (u64, u64)>::empty(), Map::<(u64, u64), (u64, u64)>::empty()),
    {
        OrderBook { buy: BTreeMap::new(), sell: BTreeMap::new() }
    }

    /// The orders of one side, as the book files them.
    fn orders_mut(&mut self, side: Side) -> (r: &mut BTreeMap<(u64, u64), (u64, u64)>)
        ensures
            *r == (match side {
                Side::Buy => old(self).buy,
                Side::Sell => old(self).sell,
            }),
            match side {
                Side::Buy => final(self).buy == *final(r) && final(self).sell == old(self).sell,
                Side::Sell => final(self).sell == *final(r) && final(self).buy == old(self).buy,
            },
    {
        match side {
            Side::Buy => &mut self.buy,
            Side::Sell => &mut self.sell,
        }
    }

    /// Whether `interact` can take `packet`: it is not the end of the feed,
    /// and a fill is no larger than the standing order it fills.
    pub fn accepts(&self, packet: &OrderBookOp) -> (r: bool)
        ensures
            r == op_applies(self@, *packet),
    {
        match packet {
            OrderBookOp::Error => false,
            OrderBookOp::Modify(uuid, side, val) => {
                let key = (uuid.data_a, uuid.data_b);
                let orders = match side {
                    Side::Buy => &self.buy,
                    Side::Sell => &self.sell,
                };
                match orders.get(&key) {
                    None => true,
                    Some(entry) => val.data <= entry.1,
                }
            },
            _ => true,
        }
    }

    /// Applies one operation to the book.
    pub fn interact(&mut self, packet: &OrderBookOp)
        requires
            op_applies(old(self)@, *packet),
        ensures
            final(self)@ == apply_op(old(self)@, *packet),
    {
        match packet {
            OrderBookOp::Ignored => {},
            OrderBookOp::Error => {},
            OrderBookOp::Reset => {
                self.buy.clear();
                self.sell.clear();
            },
            OrderBookOp::Open(uuid, side, p, s) => {
                let key = (uuid.data_a, uuid.data_b);
                let orders = self.orders_mut(*side);
                if !orders.contains_key(&key) {
                    orders.insert(key, (p.data, s.data));
                }
            },
            OrderBookOp::Done(uuid, side) => {
                let key = (uuid.data_a, uuid.data_b);
                let orders = self.orders_mut(*side);
                orders.remove(&key);
            },
            OrderBookOp::Modify(uuid, side, val) => {
                let key = (uuid.data_a, uuid.data_b);
                let orders = self.orders_mut(*side);
                let current = match orders.get(&key) {
                    None => return ,
                    Some(entry) => *entry,
                };
                orders.insert(key, (current.0, current.1 - val.data));
            },
        }
    }

    /// Walking `orders` visits exactly the orders filed there.
    proof fn lemma_iter_covers(orders: &BTreeMap<(u64, u64), (u64, u64)>)
        ensures
            forall|j: int|
                0 <= j < spec_btree_map_iter(orders).remaining().len() ==> {
                    let e = #[trigger] spec_btree_map_iter(orders).remaining()[j];
                    orders@.contains_key(*e.0) && orders@[*e.0] == *e.1
                },
            forall|k: (u64, u64)|
                #[trigger] orders@.contains_key(k) ==> exists|j: int|
                    0 <= j < spec_btree_map_iter(orders).remaining().len()
                        && #[trigger] spec_btree_map_iter(orders).remaining()[j] == (&k, &orders@[k]),
    {
        let v = spec_btree_map_iter(orders).remaining();
        assert forall|k: (u64, u64)| #[trigger] orders@.contains_key(k) implies exists|j: int|
            0 <= j < v.len() && #[trigger] v[j] == (&k, &orders@[k]) by {
            assert(v.contains((&k, &orders@[k])));
        }
    }

    /// Walking `orders` visits the ids in increasing order.
    proof fn lemma_iter_increasing(orders: &BTreeMap<(u64, u64), (u64, u64)>)
        requires
            increasing_seq(
                spec_btree_map_iter(orders).remaining().map_values(|kv: (&(u64, u64), &(u64, u64))| *kv.0),
            ),
        ensures
            forall|i: int, j: int|
                0 <= i < j < spec_btree_map_iter(orders).remaining().len() ==> key_before(
                    *(#[trigger] spec_btree_map_iter(orders).remaining()[i]).0,
                    *(#[trigger] spec_btree_map_iter(orders).remaining()[j]).0,
                ),
    {
        let v = spec_btree_map_iter(orders).remaining();
        let keys = v.map_values(|kv: (&(u64, u64), &(u64, u64))| *kv.0);
        assert forall|i: int, j: int| 0 <= i < j < v.len() implies key_before(*(#[trigger] v[i]).0, *(#[trigger] v[j]).0) by {
            assert(keys[i].cmp_spec(&keys[j]) is Less);
            assert(keys[i] == *v[i].0);
            assert(keys[j] == *v[j].0);
        }
    }

    /// The lowest price among `orders`, or the largest value where there is
    /// none below it.
    fn lowest(orders: &BTreeMap<(u64, u64), (u64, u64)>) -> (r: Value)
        ensures
            is_lowest_price(orders@, r.data),
    {
        let mut best = Value::max();
        for (_k, entry) in it: orders.iter()
            invariant
                it.seq() == spec_btree_map_iter(orders).remaining(),
                forall|j: int| 0 <= j < it.index() ==> best.data <= (#[trigger] it.seq()[j]).1.0,
                best.data == u64::MAX || exists|j: int| 0 <= j < it.index() && (#[trigger] it.seq()[j]).1.0 == best.data,
        {
            if !(best.data < entry.0) {
                best = Value { data: entry.0 };
            }
        }
        proof {
            OrderBook::lemma_iter_covers(orders);
        }
        best
    }

    /// The highest price among `orders`, or zero.
    fn highest(orders: &BTreeMap<(u64, u64), (u64, u64)>) -> (r: Value)
        ensures
            is_highest_price(orders@, r.data),
    {
        let mut best = Value::zero();
        for (_k, entry) in it: orders.iter()
            invariant
                it.seq() == spec_btree_map_iter(orders).remaining(),
                forall|j: int| 0 <= j < it.index() ==> (#[trigger] it.seq()[j]).1.0 <= best.data,
                best.data == 0 || exists|j: int| 0 <= j < it.index() && (#[trigger] it.seq()[j]).1.0 == best.data,
        {
            if !(best.data > entry.0) {
                best = Value { data: entry.0 };
            }
        }
        proof {
            OrderBook::lemma_iter_covers(orders);
        }
        best
    }

    /// The sizes of the orders of `side` whose price is `price`, in the order
    /// of their ids.
    pub fn sizes_at(&self, side: Side, price: Value) -> (r: Vec<Value>)
        ensures
            sizes_at_price(side_of(self@, side), price.data, r@.map_values(|v: Value| v.data)),
    {
        let orders = match side {
            Side::Buy => &self.buy,
            Side::Sell => &self.sell,
        };
        let _walk = orders.iter();
        proof {
            OrderBook::lemma_iter_covers(orders);
            OrderBook::lemma_iter_increasing(orders);
        }
        let mut r: Vec<Value> = Vec::new();
        let ghost v = spec_btree_map_iter(orders).remaining();
        let ghost mut ks: Seq<(u64, u64)> = Seq::empty();
        let ghost mut n: int = 0;
        for (k, entry) in it: orders.iter()
            invariant
                it.seq() == v,
                v == spec_btree_map_iter(orders).remaining(),
                n == it.index(),
                0 <= n <= v.len(),
                forall|i: int, j: int|
                    0 <= i < j < v.len() ==> key_before(*(#[trigger] v[i]).0, *(#[trigger] v[j]).0),
                forall|j: int|
                    0 <= j < v.len() ==> {
                        let e = #[trigger] v[j];
                        orders@.contains_key(*e.0) && orders@[*e.0] == *e.1
                    },
                forall|i: int, j: int| 0 <= i < j < ks.len() ==> key_before(#[trigger] ks[i], #[trigger] ks[j]),
                forall|i: int, j: int|
                    0 <= i < ks.len() && n <= j < v.len() ==> key_before(#[trigger] ks[i], *(#[trigger] v[j]).0),
                forall|kk: (u64, u64)|
                    #[trigger] ks.contains(kk) ==> (orders@.contains_key(kk) && orders@[kk].0 == price.data),
                forall|j: int|
                    0 <= j < n && (#[trigger] v[j]).1.0 == price.data ==> ks.contains(*v[j].0),
                r@.len() == ks.len(),
                forall|i: int| 0 <= i < ks.len() ==> (#[trigger] r@[i]).data == orders@[ks[i]].1,
        {
            assert(v[n] == (k, entry));
            if entry.0 == price.data {
                proof {
                    let ghost old_ks = ks;
                    ks = ks.push(*k);
                    assert forall|kk: (u64, u64)| #[trigger] ks.contains(kk) implies (orders@.contains_key(kk) && orders@[kk].0 == price.data) by {
                        if kk != *k {
                            let idx = choose|idx: int| 0 <= idx < ks.len() && ks[idx] == kk;
                            assert(old_ks[idx] == kk);
                            assert(old_ks.contains(kk));
                        }
                    }
                    assert forall|j: int| 0 <= j < n + 1 && (#[trigger] v[j]).1.0 == price.data implies ks.contains(*v[j].0) by {
                        if j < n {
                            assert(old_ks.contains(*v[j].0));
                            let idx = choose|idx: int| 0 <= idx < old_ks.len() && old_ks[idx] == *v[j].0;
                            assert(ks[idx] == *v[j].0);
                        } else {
                            assert(ks[ks.len() - 1] == *k);
                        }
                    }
                }
                r.push(Value { data: entry.1 });
            }
            proof {
                n = n + 1;
            }
        }
        proof {
            assert forall|kk: (u64, u64)| (orders@.contains_key(kk) && orders@[kk].0 == price.data) implies #[trigger] ks.contains(kk) by {
                let j = choose|j: int| 0 <= j < v.len() && #[trigger] v[j] == (&kk, &orders@[kk]);
                assert(v[j].1.0 == price.data);
            }
            let sizes = r@.map_values(|x: Value| x.data);
            assert(forall|i: int| 0 <= i < ks.len() ==> #[trigger] sizes[i] == orders@[ks[i]].1);
        }
        r
    }

    /// The lowest sell price, or the largest value when no sell order lies
    /// below it.
    pub fn find_min_sell(&self) -> (r: Value)
        ensures
            is_lowest_price(self@.1, r.data),
    {
        OrderBook::lowest(&self.sell)
    }

    /// The highest sell price, or zero.
    pub fn find_max_sell(&self) -> (r: Value)
        ensures
            is_highest_price(self@.1, r.data),
    {
        OrderBook::highest(&self.sell)
    }

    /// The lowest buy price, or the largest value when no buy order lies
    /// below it.
    pub fn find_min_buy(&self) -> (r: Value)
        ensures
            is_lowest_price(self@.0, r.data),
    {
        OrderBook::lowest(&self.buy)
    }

    /// The highest buy price, or zero.
    pub fn find_max_buy(&self) -> (r: Value)
        ensures
            is_highest_price(self@.0, r.data),
    {
        OrderBook::highest(&self.buy)
    }
}

} // verus!
