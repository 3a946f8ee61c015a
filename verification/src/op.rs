//! Feed packets and the book operations that they stand for.
#![allow(non_snake_case)]
use vstd::prelude::*;
use crate::pattern::{capture_group, captures_of, group_at, regex_captures};
use crate::value::{spec_side_new, spec_uuid_new, spec_value_new, Side, Value, UUID};

verus! {

/// What a packet asks of the book.
///
/// - `Open(id, side, price, size)` places an order on the book;
/// - `Done(id, side)` takes an order off the book;
/// - `Modify(id, side, filled)` takes `filled` off the size of an order;
/// - `Reset` empties the book;
/// - `Error` ends the feed;
/// - `Ignored` changes nothing.
#[derive(Clone, Debug, PartialEq, Eq, Structural)]
pub enum OrderBookOp {
    Open(UUID, Side, Value, Value),
    Done(UUID, Side),
    Modify(UUID, Side, Value),
    Reset,
    Error,
    Ignored,
}

/// Pattern of a packet that opens an order.
pub open spec fn open_pattern() -> Seq<char> {
    ".*\"type\":\"open\",.*\"side\":\"(buy|sell)\",\"price\":(null|\"[\\d\\.]+\"),\"order_id\":\"([a-z\\d-]+)\",\"remaining_size\":(null|\"[\\d\\.]+\")"@
}

/// Pattern of a packet that closes a limit order.
pub open spec fn done_pattern() -> Seq<char> {
    ".*type\":\"done\",\"order_type\":\"limit\",\"side\":\"(buy|sell)\".*\"order_id\":\"([a-z\\d-]+)\""@
}

/// Pattern of a packet that reports a trade against a standing order.
pub open spec fn match_pattern() -> Seq<char> {
    ".*\"type\":\"match\",\"sequence\":.*\"taker_order_id\":\"([a-f\\d-]+)\",\"side\":\"(buy|sell)\",\"size\":(null|\"[\\d\\.]+\"),\"price\":(null|\"[\\d\\.]+\"),"@
}

/// Pattern of a packet about a change or a received order.
pub open spec fn ignore_pattern() -> Seq<char> {
    "\\{\"type\":\"change|received\".*}"@
}

/// Pattern of a packet that closes a market order.
pub open spec fn ignore_market_pattern() -> Seq<char> {
    "\\{\"type\":\"done\",\"order_type\":\"market\".*}"@
}

/// Pattern of the packet that closes the feed.
pub open spec fn closing_pattern() -> Seq<char> {
    "\\{\"type\":\"closing\"\\}"@
}

/// Pattern of a packet that resets the book.
pub open spec fn reset_pattern() -> Seq<char> {
    ".*\"type\":\"reset\".*"@
}

/// Applies a reader to group `i` of `caps`, where the group took part.
pub open spec fn read_group<T>(caps: Seq<Option<Seq<char>>>, i: int, f: spec_fn(Seq<char>) -> Option<T>) -> Option<T> {
    match capture_group(caps, i) {
        Some(g) => f(g),
        None => None,
    }
}

/// The operation that the groups of an open-order match give: side in
/// group 1, price in group 2, order id in group 3, size in group 4; `None`
/// where one of them does not read.
pub open spec fn open_from_captures(caps: Seq<Option<Seq<char>>>) -> Option<OrderBookOp> {
    let side = read_group(caps, 1, |s| spec_side_new(s));
    let price = read_group(caps, 2, |s| spec_value_new(s));
    let id = read_group(caps, 3, |s| spec_uuid_new(s));
    let size = read_group(caps, 4, |s| spec_value_new(s));
    if side is Some && price is Some && id is Some && size is Some {
        Some(OrderBookOp::Open(id->0, side->0, price->0, size->0))
    } else {
        None
    }
}

/// The operation that the groups of a done-order match give: side in group
/// 1, order id in group 2.
pub open spec fn done_from_captures(caps: Seq<Option<Seq<char>>>) -> Option<OrderBookOp> {
    let side = read_group(caps, 1, |s| spec_side_new(s));
    let id = read_group(caps, 2, |s| spec_uuid_new(s));
    if side is Some && id is Some {
        Some(OrderBookOp::Done(id->0, side->0))
    } else {
        None
    }
}

/// The operation that the groups of a trade match give: order id in group
/// 1, side in group 2, traded size in group 3.
pub open spec fn modify_from_captures(caps: Seq<Option<Seq<char>>>) -> Option<OrderBookOp> {
    let id = read_group(caps, 1, |s| spec_uuid_new(s));
    let side = read_group(caps, 2, |s| spec_side_new(s));
    let size = read_group(caps, 3, |s| spec_value_new(s));
    if id is Some && side is Some && size is Some {
        Some(OrderBookOp::Modify(id->0, side->0, size->0))
    } else {
        None
    }
}

/// The reading of `packet` by a pattern, through a reader of its groups.
pub open spec fn read_packet(
    pattern: Seq<char>,
    packet: Seq<char>,
    f: spec_fn(Seq<Option<Seq<char>>>) -> Option<OrderBookOp>,
) -> Option<OrderBookOp> {
    match regex_captures(pattern, packet) {
        Some(caps) => f(caps),
        None => None,
    }
}

/// What `OpenOrder` gives for a packet.
pub open spec fn spec_open_order(packet: Seq<char>) -> Option<OrderBookOp> {
    read_packet(open_pattern(), packet, |c| open_from_captures(c))
}

/// What `DoneOrder` gives for a packet.
pub open spec fn spec_done_order(packet: Seq<char>) -> Option<OrderBookOp> {
    read_packet(done_pattern(), packet, |c| done_from_captures(c))
}

/// What `ModifyOrder` gives for a packet.
pub open spec fn spec_modify_order(packet: Seq<char>) -> Option<OrderBookOp> {
    read_packet(match_pattern(), packet, |c| modify_from_captures(c))
}

/// Whether `pattern` matches somewhere in `packet`.
pub open spec fn packet_matches(pattern: Seq<char>, packet: Seq<char>) -> bool {
    regex_captures(pattern, packet) is Some
}

/// What `MakeOrderBookOp` gives for a packet: change, received and
/// market-done packets are ignored; the closing packet is an error; a reset
/// packet resets; otherwise the first of the open, done and trade readings
/// that succeeds, or `None`.
pub open spec fn spec_make_order_book_op(packet: Seq<char>) -> Option<OrderBookOp> {
    if packet_matches(ignore_pattern(), packet) || packet_matches(ignore_market_pattern(), packet) {
        Some(OrderBookOp::Ignored)
    } else if packet_matches(closing_pattern(), packet) {
        Some(OrderBookOp::Error)
    } else if packet_matches(reset_pattern(), packet) {
        Some(OrderBookOp::Reset)
    } else if spec_open_order(packet) is Some {
        spec_open_order(packet)
    } else if spec_done_order(packet) is Some {
        spec_done_order(packet)
    } else {
        spec_modify_order(packet)
    }
}

/// Reads group `i` of `caps` as a side.
fn side_at(caps: &Vec<Option<String>>, i: usize) -> (r: Option<Side>)
    ensures
        r == read_group(caps.deep_view(), i as int, |s| spec_side_new(s)),
{
    match group_at(caps, i) {
        Some(g) => Side::new(g),
        None => None,
    }
}

/// Reads group `i` of `caps` as a value.
fn value_at(caps: &Vec<Option<String>>, i: usize) -> (r: Option<Value>)
    ensures
        r == read_group(caps.deep_view(), i as int, |s| spec_value_new(s)),
{
    match group_at(caps, i) {
        Some(g) => Value::new(g),
        None => None,
    }
}

/// Reads group `i` of `caps` as an order id.
fn uuid_at(caps: &Vec<Option<String>>, i: usize) -> (r: Option<UUID>)
    ensures
        r == read_group(caps.deep_view(), i as int, |s| spec_uuid_new(s)),
{
    match group_at(caps, i) {
        Some(g) => UUID::new(g),
        None => None,
    }
}

/// Turns the groups of an open-order match into an operation.
pub fn open_order_from_captures(caps: &Vec<Option<String>>) -> (r: Option<OrderBookOp>)
    ensures
        r == open_from_captures(caps.deep_view()),
{
    let side = match side_at(caps, 1) {
        None => return None,
        Some(s) => s,
    };
    let price = match value_at(caps, 2) {
        None => return None,
        Some(p) => p,
    };
    let id = match uuid_at(caps, 3) {
        None => return None,
        Some(u) => u,
    };
    let size = match value_at(caps, 4) {
        None => return None,
        Some(s) => s,
    };
    Some(OrderBookOp::Open(id, side, price, size))
}

/// Turns the groups of a done-order match into an operation.
pub fn done_order_from_captures(caps: &Vec<Option<String>>) -> (r: Option<OrderBookOp>)
    ensures
        r == done_from_captures(caps.deep_view()),
{
    let side_text = match group_at(caps, 1) {
        None => return None,
        Some(s) => s,
    };
    let id_text = match group_at(caps, 2) {
        None => return None,
        Some(s) => s,
    };
    let side = match Side::new(side_text) {
        None => return None,
        Some(s) => s,
    };
    match UUID::new(id_text) {
        None => None,
        Some(id) => Some(OrderBookOp::Done(id, side)),
    }
}

/// Turns the groups of a trade match into an operation.
pub fn modify_order_from_captures(caps: &Vec<Option<String>>) -> (r: Option<OrderBookOp>)
    ensures
        r == modify_from_captures(caps.deep_view()),
{
    let id_text = match group_at(caps, 1) {
        None => return None,
        Some(s) => s,
    };
    let side_text = match group_at(caps, 2) {
        None => return None,
        Some(s) => s,
    };
    let size_text = match group_at(caps, 3) {
        None => return None,
        Some(s) => s,
    };
    let id = match UUID::new(id_text) {
        None => return None,
        Some(u) => u,
    };
    let side = match Side::new(side_text) {
        None => return None,
        Some(s) => s,
    };
    match Value::new(size_text) {
        None => None,
        Some(size) => Some(OrderBookOp::Modify(id, side, size)),
    }
}

/// What the feed reader does with one line, given what `MakeOrderBookOp`
/// read from it.
#[derive(Clone, Debug, PartialEq, Eq, Structural)]
pub enum LineAction {
    /// The line is no packet that the book knows: it is shown as it is.
    Print,
    /// The packet changes nothing: it is dropped.
    Skip,
    /// The operation goes to the book.
    Forward(OrderBookOp),
}

/// The action for a line that read as `op`.
pub open spec fn spec_line_action(op: Option<OrderBookOp>) -> LineAction {
    match op {
        None => LineAction::Print,
        Some(OrderBookOp::Ignored) => LineAction::Skip,
        Some(x) => LineAction::Forward(x),
    }
}

/// Chooses what to do with a line that read as `op`: print unread lines,
/// drop ignored packets, and hand every other operation to the book.
pub fn line_action(op: Option<OrderBookOp>) -> (r: LineAction)
    ensures
        r == spec_line_action(op),
{
    match op {
        None => LineAction::Print,
        Some(OrderBookOp::Ignored) => LineAction::Skip,
        Some(x) => LineAction::Forward(x),
    }
}

/// Reads a packet that opens an order.
pub fn OpenOrder(packet: &str) -> (r: Option<OrderBookOp>)
    ensures
        r == spec_open_order(packet@),
{
    match captures_of(
        ".*\"type\":\"open\",.*\"side\":\"(buy|sell)\",\"price\":(null|\"[\\d\\.]+\"),\"order_id\":\"([a-z\\d-]+)\",\"remaining_size\":(null|\"[\\d\\.]+\")",
        packet,
    ) {
        None => None,
        Some(caps) => open_order_from_captures(&caps),
    }
}

/// Reads a packet that closes a limit order.
pub fn DoneOrder(packet: &str) -> (r: Option<OrderBookOp>)
    ensures
        r == spec_done_order(packet@),
{
    match captures_of(
        ".*type\":\"done\",\"order_type\":\"limit\",\"side\":\"(buy|sell)\".*\"order_id\":\"([a-z\\d-]+)\"",
        packet,
    ) {
        None => None,
        Some(caps) => done_order_from_captures(&caps),
    }
}

/// Reads a packet that reports a trade.
pub fn ModifyOrder(packet: &str) -> (r: Option<OrderBookOp>)
    ensures
        r == spec_modify_order(packet@),
{
    match captures_of(
        ".*\"type\":\"match\",\"sequence\":.*\"taker_order_id\":\"([a-f\\d-]+)\",\"side\":\"(buy|sell)\",\"size\":(null|\"[\\d\\.]+\"),\"price\":(null|\"[\\d\\.]+\"),",
        packet,
    ) {
        None => None,
        Some(caps) => modify_order_from_captures(&caps),
    }
}

/// Reads any feed packet; `None` for a packet that no rule reads.
pub fn MakeOrderBookOp(packet: &str) -> (r: Option<OrderBookOp>)
    ensures
        r == spec_make_order_book_op(packet@),
{
    if captures_of("\\{\"type\":\"change|received\".*}", packet).is_some() || captures_of(
        "\\{\"type\":\"done\",\"order_type\":\"market\".*}",
        packet,
    ).is_some() {
        return Some(OrderBookOp::Ignored);
    } else if captures_of("\\{\"type\":\"closing\"\\}", packet).is_some() {
        return Some(OrderBookOp::Error);
    } else if captures_of(".*\"type\":\"reset\".*", packet).is_some() {
        return Some(OrderBookOp::Reset);
    }
    match OpenOrder(packet) {
        Some(x) => Some(x),
        None => match DoneOrder(packet) {
            Some(x) => Some(x),
            None => ModifyOrder(packet),
        },
    }
}

} // verus!
