//! An order book for a stream of exchange feed messages: parsing of fixed-point
//! values, order identifiers and feed packets, and the book that the packets drive.
pub mod text;
pub mod pattern;
pub mod value;
pub mod op;
pub mod order;
pub mod book;
pub mod laws;

pub use book::OrderBook;
pub use op::{line_action, DoneOrder, LineAction, MakeOrderBookOp, ModifyOrder, OpenOrder, OrderBookOp};
pub use order::Order;
pub use value::{Side, Value, UUID};
pub mod id_order;
pub mod reading_laws;
