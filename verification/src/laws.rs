//! Properties of the book that hold across its operations.
use vstd::prelude::*;
use crate::book::{
    key_before, sizes_at_price, apply_op, is_highest_price, is_lowest_price, key_of, op_applies, side_of, SideOrders,
};
use crate::op::{spec_line_action, LineAction, OrderBookOp};
use crate::pattern::capture_group;
use crate::text::{all_digits, char_digit, digits_value, radix_value};
use crate::value::{pow10, value_bottom, value_top, value_captures_in_range, value_from_captures, Side, Value, UUID};

verus! {

/// The other side of the book.
pub open spec fn opposite(side: Side) -> Side {
    match side {
        Side::Buy => Side::Sell,
        Side::Sell => Side::Buy,
    }
}

/// A reset leaves both sides of the book empty, whatever stood there.
pub proof fn law_reset_empties(book: (SideOrders, SideOrders))
    ensures
        apply_op(book, OrderBookOp::Reset).0 == Map::<(u64, u64), (u64, u64)>::empty(),
        apply_op(book, OrderBookOp::Reset).1 == Map::<(u64, u64), (u64, u64)>::empty(),
{
}

/// An ignored packet leaves the book as it was.
pub proof fn law_ignored_changes_nothing(book: (SideOrders, SideOrders))
    ensures
        apply_op(book, OrderBookOp::Ignored) == book,
{
}

/// Opening an order whose id is not on its side, then closing it, gives back
/// the book as it was.
pub proof fn law_open_then_done(
    book: (SideOrders, SideOrders),
    id: UUID,
    side: Side,
    price: Value,
    size: Value,
)
    requires
        !side_of(book, side).contains_key(key_of(id)),
    ensures
        apply_op(
            apply_op(book, OrderBookOp::Open(id, side, price, size)),
            OrderBookOp::Done(id, side),
        ) == book,
{
    let after = apply_op(book, OrderBookOp::Open(id, side, price, size));
    assert(side_of(after, side).remove(key_of(id)) =~= side_of(book, side));
}

/// After an order is opened, its id stands on its side; where the id did
/// not stand before, with the price and size given; where it did, the order
/// already there is kept unchanged.
pub proof fn law_open_places_once(
    book: (SideOrders, SideOrders),
    id: UUID,
    side: Side,
    price: Value,
    size: Value,
)
    ensures
        ({
            let after = side_of(apply_op(book, OrderBookOp::Open(id, side, price, size)), side);
            &&& after.contains_key(key_of(id))
            &&& !side_of(book, side).contains_key(key_of(id)) ==> after[key_of(id)] == (
                price.data,
                size.data,
            )
            &&& side_of(book, side).contains_key(key_of(id)) ==> after == side_of(book, side)
        }),
{
}

/// Closing an order takes its id off its side and leaves every other order
/// there as it was; closing it again changes nothing more.
pub proof fn law_done_removes(book: (SideOrders, SideOrders), id: UUID, side: Side)
    ensures
        !side_of(apply_op(book, OrderBookOp::Done(id, side)), side).contains_key(key_of(id)),
        forall|k: (u64, u64)|
            k != key_of(id) ==> (#[trigger] side_of(
                apply_op(book, OrderBookOp::Done(id, side)),
                side,
            ).contains_key(k) <==> side_of(book, side).contains_key(k)),
        apply_op(apply_op(book, OrderBookOp::Done(id, side)), OrderBookOp::Done(id, side))
            == apply_op(book, OrderBookOp::Done(id, side)),
{
    let once = side_of(apply_op(book, OrderBookOp::Done(id, side)), side);
    assert(once.remove(key_of(id)) =~= once);
}

/// An open, done or fill on one side leaves the other side as it was.
pub proof fn law_other_side_untouched(book: (SideOrders, SideOrders), op: OrderBookOp)
    ensures
        match op {
            OrderBookOp::Open(_, side, _, _) => side_of(apply_op(book, op), opposite(side))
                == side_of(book, opposite(side)),
            OrderBookOp::Done(_, side) => side_of(apply_op(book, op), opposite(side)) == side_of(
                book,
                opposite(side),
            ),
            OrderBookOp::Modify(_, side, _) => side_of(apply_op(book, op), opposite(side))
                == side_of(book, opposite(side)),
            _ => true,
        },
{
}

/// A fill that the book accepts keeps the order's price and lowers its size
/// by the amount filled; a fill of an id that does not stand changes
/// nothing.
pub proof fn law_fill(book: (SideOrders, SideOrders), id: UUID, side: Side, amount: Value)
    requires
        op_applies(book, OrderBookOp::Modify(id, side, amount)),
    ensures
        ({
            let before = side_of(book, side);
            let after = side_of(apply_op(book, OrderBookOp::Modify(id, side, amount)), side);
            &&& before.contains_key(key_of(id)) ==> {
                &&& after.dom() == before.dom()
                &&& after[key_of(id)].0 == before[key_of(id)].0
                &&& after[key_of(id)].1 + amount.data == before[key_of(id)].1
            }
            &&& !before.contains_key(key_of(id)) ==> after == before
        }),
{
    let before = side_of(book, side);
    if before.contains_key(key_of(id)) {
        let after = side_of(apply_op(book, OrderBookOp::Modify(id, side, amount)), side);
        assert(after.dom() =~= before.dom());
    }
}

/// A fill of a standing order by at most its size is taken, a fill of all
/// of it included, and leaves the order at its price with the size less the
/// amount; only a fill larger than the order is refused.
pub proof fn law_fill_within_size_accepted(
    book: (SideOrders, SideOrders),
    id: UUID,
    side: Side,
    amount: Value,
)
    requires
        side_of(book, side).contains_key(key_of(id)),
    ensures
        op_applies(book, OrderBookOp::Modify(id, side, amount)) <==> amount.data <= side_of(
            book,
            side,
        )[key_of(id)].1,
        amount.data <= side_of(book, side)[key_of(id)].1 ==> {
            let after = side_of(apply_op(book, OrderBookOp::Modify(id, side, amount)), side);
            &&& after.contains_key(key_of(id))
            &&& after[key_of(id)].0 == side_of(book, side)[key_of(id)].0
            &&& after[key_of(id)].1 + amount.data == side_of(book, side)[key_of(id)].1
            &&& after.dom() == side_of(book, side).dom()
        },
        op_applies(
            book,
            OrderBookOp::Modify(id, side, Value { data: side_of(book, side)[key_of(id)].1 }),
        ),
{
    let after = side_of(apply_op(book, OrderBookOp::Modify(id, side, amount)), side);
    if amount.data <= side_of(book, side)[key_of(id)].1 {
        assert(after.dom() =~= side_of(book, side).dom());
    }
}

/// Two orders at one price are listed smaller id first, each with its own
/// size.
pub proof fn law_sizes_follow_ids(k1: (u64, u64), k2: (u64, u64), price: u64, a: u64, b: u64, sizes: Seq<u64>)
    requires
        key_before(k1, k2),
        sizes_at_price(
            Map::<(u64, u64), (u64, u64)>::empty().insert(k1, (price, a)).insert(k2, (price, b)),
            price,
            sizes,
        ),
    ensures
        sizes == seq![a, b],
{
    let orders = Map::<(u64, u64), (u64, u64)>::empty().insert(k1, (price, a)).insert(k2, (price, b));
    let ks = choose|ks: Seq<(u64, u64)>|
        {
            &&& forall|i: int, j: int| 0 <= i < j < ks.len() ==> key_before(#[trigger] ks[i], #[trigger] ks[j])
            &&& forall|k: (u64, u64)| #[trigger] ks.contains(k) <==> (orders.contains_key(k) && orders[k].0 == price)
            &&& sizes.len() == ks.len()
            &&& forall|i: int| 0 <= i < ks.len() ==> #[trigger] sizes[i] == orders[ks[i]].1
        };
    assert(k1 != k2);
    assert(orders.contains_key(k1) && orders[k1].0 == price);
    assert(orders.contains_key(k2) && orders[k2].0 == price);
    assert(ks.contains(k1));
    assert(ks.contains(k2));
    assert forall|i: int| 0 <= i < ks.len() implies #[trigger] ks[i] == k1 || ks[i] == k2 by {
        assert(ks.contains(ks[i]));
    }
    let i1 = choose|i: int| 0 <= i < ks.len() && ks[i] == k1;
    let i2 = choose|i: int| 0 <= i < ks.len() && ks[i] == k2;
    if ks.len() >= 3 {
        assert(key_before(ks[0], ks[1]));
        assert(key_before(ks[1], ks[2]));
        assert(key_before(ks[0], ks[2]));
        assert(ks[0] == k1 || ks[0] == k2);
        assert(ks[1] == k1 || ks[1] == k2);
        assert(ks[2] == k1 || ks[2] == k2);
        assert(false);
    }
    assert(ks.len() == 2);
    if i2 < i1 {
        assert(key_before(ks[i2], ks[i1]));
        assert(false);
    }
    assert(ks[0] == k1 && ks[1] == k2);
    assert(sizes =~= seq![a, b]);
}

/// A line that reads as no packet is printed; an ignored packet is
/// dropped; every other operation goes to the book unchanged.
pub proof fn law_line_action(op: Option<OrderBookOp>)
    ensures
        spec_line_action(op) == LineAction::Print <==> op is None,
        spec_line_action(op) == LineAction::Skip <==> op == Some(OrderBookOp::Ignored),
        spec_line_action(op) matches LineAction::Forward(x) ==> op == Some(x) && x
            != OrderBookOp::Ignored,
        op matches Some(x) ==> (x != OrderBookOp::Ignored ==> spec_line_action(op)
            == LineAction::Forward(x)),
{
}

/// The searches for the lowest and highest price agree on a side that holds
/// orders: the lowest is at most the highest.
pub proof fn law_lowest_at_most_highest(orders: SideOrders, lo: u64, hi: u64)
    requires
        orders.dom().len() > 0,
        orders.dom().finite(),
        is_lowest_price(orders, lo),
        is_highest_price(orders, hi),
    ensures
        lo <= hi,
{
    let k = orders.dom().choose();
    assert(orders.contains_key(k));
}

/// Each search has one answer: two results that meet its statement are
/// equal.
pub proof fn law_price_searches_determined(orders: SideOrders, a: u64, b: u64)
    ensures
        is_lowest_price(orders, a) && is_lowest_price(orders, b) ==> a == b,
        is_highest_price(orders, a) && is_highest_price(orders, b) ==> a == b,
{
}

/// After a reset, the lowest price on either side is the largest value and
/// the highest is zero.
pub proof fn law_reset_prices(book: (SideOrders, SideOrders), side: Side, lo: u64, hi: u64)
    requires
        is_lowest_price(side_of(apply_op(book, OrderBookOp::Reset), side), lo),
        is_highest_price(side_of(apply_op(book, OrderBookOp::Reset), side), hi),
    ensures
        lo == u64::MAX,
        hi == 0,
{
}

/// On a side that holds a single order, the lowest and the highest price
/// are both that order's price.
pub proof fn law_single_order_prices(
    book: (SideOrders, SideOrders),
    id: UUID,
    side: Side,
    price: Value,
    size: Value,
    lo: u64,
    hi: u64,
)
    requires
        side_of(book, side) == Map::<(u64, u64), (u64, u64)>::empty(),
        is_lowest_price(side_of(apply_op(book, OrderBookOp::Open(id, side, price, size)), side), lo),
        is_highest_price(side_of(apply_op(book, OrderBookOp::Open(id, side, price, size)), side), hi),
    ensures
        lo == price.data,
        hi == price.data,
{
    let after = side_of(apply_op(book, OrderBookOp::Open(id, side, price, size)), side);
    assert(after.contains_key(key_of(id)));
}

} // verus!

verus! {

/// `pow10` steps by a factor of ten.
proof fn lemma_pow10_step(n: nat)
    ensures
        pow10(n + 1) == 10 * pow10(n),
        pow10(n) >= 1,
    decreases n,
{
    if n > 0 {
        lemma_pow10_step((n - 1) as nat);
    }
}

/// A decimal numeral of `n` digits reads as less than 10^n.
proof fn lemma_digits_below(s: Seq<char>)
    requires
        all_digits(s, 10),
    ensures
        digits_value(s, 10) < pow10(s.len()),
    decreases s.len(),
{
    if s.len() > 0 {
        let p = s.drop_last();
        assert(all_digits(p, 10)) by {
            assert forall|i: int| 0 <= i < p.len() implies (#[trigger] char_digit(p[i], 10)) is Some by {
                assert(p[i] == s[i]);
            }
        }
        lemma_digits_below(p);
        lemma_pow10_step(p.len());
        assert(char_digit(s[s.len() - 1], 10) is Some);
        let d = char_digit(s.last(), 10)->0;
        let v = digits_value(p, 10);
        assert(v * 10 + d < 10 * pow10(p.len())) by (nonlinear_arith)
            requires
                v < pow10(p.len()),
                d < 10,
        ;
    }
}

/// A fractional part read with one more trailing zero gives the same value:
/// `1.5` and `1.50` are one value.
pub proof fn law_trailing_zero_fraction(caps: Seq<Option<Seq<char>>>, b: Seq<char>)
    requires
        caps.len() > 2,
        caps[2] == Some(b),
        1 <= b.len() <= 9,
        b != seq!['+'],
    ensures
        value_from_captures(caps.update(2, Some(b.push('0')))) == value_from_captures(caps),
        value_captures_in_range(caps.update(2, Some(b.push('0')))) == value_captures_in_range(caps),
{
    let b0 = b.push('0');
    let caps0 = caps.update(2, Some(b0));
    assert(capture_group(caps0, 1) == capture_group(caps, 1));
    assert(capture_group(caps0, 2) == Some(b0));
    let body = if b.len() > 0 && b[0] == '+' { b.drop_first() } else { b };
    let body0 = if b0.len() > 0 && b0[0] == '+' { b0.drop_first() } else { b0 };
    assert(body0 =~= body.push('0'));
    assert(body0.drop_last() =~= body);
    assert(char_digit('0', 10) == Some(0nat));
    assert(all_digits(body0, 10) <==> all_digits(body, 10)) by {
        if all_digits(body, 10) {
            assert forall|i: int| 0 <= i < body0.len() implies (#[trigger] char_digit(body0[i], 10)) is Some by {
                if i < body.len() {
                    assert(body0[i] == body[i]);
                }
            }
        }
        if all_digits(body0, 10) {
            assert forall|i: int| 0 <= i < body.len() implies (#[trigger] char_digit(body[i], 10)) is Some by {
                assert(body0[i] == body[i]);
            }
        }
    }
    let v = digits_value(body, 10);
    assert(digits_value(body0, 10) == v * 10);
    lemma_pow10_step((9 - b.len()) as nat);
    assert(((10 - b0.len()) as nat) == (9 - b.len()) as nat);
    assert(((10 - b.len()) as nat) == ((9 - b.len()) as nat) + 1);
    let s0 = pow10((9 - b.len()) as nat);
    assert(v * 10 * s0 == v * (10 * s0)) by (nonlinear_arith);
    if all_digits(body, 10) {
        lemma_digits_below(body);
        lemma_pow10_step(body.len());
        assert(body.len() <= 9);
        assert(pow10(body.len()) <= pow10(9)) by {
            lemma_pow10_monotone(body.len(), 9);
        }
        reveal_with_fuel(pow10, 10);
        assert(v * 10 < u64::MAX) by (nonlinear_arith)
            requires
                v < pow10(9),
                pow10(9) == 1000000000,
        ;
        if b.len() == 1 && b[0] == '+' {
            assert(b =~= seq!['+']);
        }
        assert(body.len() > 0);
        assert(radix_value(b, 10, u64::MAX as nat) == Some(v));
        assert(radix_value(b0, 10, u64::MAX as nat) == Some(v * 10));
        assert(value_bottom(caps) == Some((b, v)));
        assert(value_bottom(caps0) == Some((b0, v * 10)));
    } else {
        assert(radix_value(b, 10, u64::MAX as nat) is None);
        assert(radix_value(b0, 10, u64::MAX as nat) is None);
        assert(value_bottom(caps) is None);
        assert(value_bottom(caps0) is None);
    }
    assert(value_top(caps0) == value_top(caps));
}

/// `pow10` grows with its exponent.
proof fn lemma_pow10_monotone(m: nat, n: nat)
    requires
        m <= n,
    ensures
        pow10(m) <= pow10(n),
    decreases n - m,
{
    if m < n {
        lemma_pow10_monotone(m, (n - 1) as nat);
        lemma_pow10_step((n - 1) as nat);
    }
}

} // verus!
