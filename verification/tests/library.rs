use order_book::text::{parse_radix, str_equals};
use order_book::{DoneOrder, MakeOrderBookOp, ModifyOrder, OpenOrder};
use order_book::{line_action, LineAction, OrderBook, OrderBookOp, Side, Value, UUID};

fn caps(groups: &[Option<&str>]) -> Vec<Option<String>> {
    groups.iter().map(|g| g.map(|s| s.to_string())).collect()
}

fn id(a: u64, b: u64) -> UUID {
    UUID { data_a: a, data_b: b }
}

fn val(d: u64) -> Value {
    Value { data: d }
}

#[test]
fn radix_reading() {
    assert_eq!(parse_radix("12345", 10, u64::MAX), Some(12345));
    assert_eq!(parse_radix("+7", 10, u64::MAX), Some(7));
    assert_eq!(parse_radix("+", 10, u64::MAX), None);
    assert_eq!(parse_radix("", 10, u64::MAX), None);
    assert_eq!(parse_radix("-1", 10, u64::MAX), None);
    assert_eq!(parse_radix("12a", 10, u64::MAX), None);
    assert_eq!(parse_radix("ff", 16, 0xffff), Some(255));
    assert_eq!(parse_radix("FF", 16, 0xffff), Some(255));
    assert_eq!(parse_radix("10000", 16, 0xffff), None);
    assert_eq!(parse_radix("18446744073709551615", 10, u64::MAX), Some(u64::MAX));
    assert_eq!(parse_radix("18446744073709551616", 10, u64::MAX), None);
    assert_eq!(parse_radix("\u{0663}", 10, u64::MAX), None);
}

#[test]
fn string_equality() {
    assert!(str_equals("null", "null"));
    assert!(!str_equals("nul", "null"));
    assert!(!str_equals("nulL", "null"));
}

#[test]
fn value_from_groups() {
    let c = caps(&[Some("5.25"), Some("5"), Some("25")]);
    assert!(Value::captures_in_range(&c));
    assert_eq!(Value::from_captures(&c), Some(val(52500000000)));
    let c = caps(&[Some("42"), Some("42"), None]);
    assert_eq!(Value::from_captures(&c), Some(val(420000000000)));
    let c = caps(&[Some("1.0000000001"), Some("1"), Some("0000000001")]);
    assert_eq!(Value::from_captures(&c), Some(val(10000000001)));
    let c = caps(&[Some("x"), None, None]);
    assert_eq!(Value::from_captures(&c), None);
    let c = caps(&[Some("1.x"), Some("1"), Some("x")]);
    assert_eq!(Value::from_captures(&c), None);
    // eleven fractional digits are out of range
    let c = caps(&[Some("1.12345678901"), Some("1"), Some("12345678901")]);
    assert!(!Value::captures_in_range(&c));
    // an integer part whose scaled value overflows is out of range
    let c = caps(&[Some("9999999999"), Some("9999999999"), None]);
    assert!(!Value::captures_in_range(&c));
}

#[test]
fn value_reading_edges() {
    assert_eq!(Value::new("abc"), None);
    assert_eq!(Value::new(""), None);
    assert_eq!(Value::new("\"\"7\""), Some(val(70000000000)));
    assert_eq!(Value::new("0.5"), Some(val(5000000000)));
    assert_eq!(Value::new("999999.9999999999"), Some(val(9999999999999999)));
    assert_eq!(Value::new("1234567.5"), Some(val(12345675000000000)));
    assert_eq!(Value::new("12345678.5"), Some(val(123456785000000000)));
    assert_eq!(Value::new("99999999.9999999999"), Some(val(999999999999999999)));
    // more than ten fractional digits give no value
    assert_eq!(Value::new("1.12345678901"), None);
    assert_eq!(Value::zero().data, 0);
    assert_eq!(Value::max().data, u64::MAX);
}

#[test]
fn trailing_zero_fraction() {
    assert_eq!(Value::new("1.5"), Value::new("1.50"));
    assert_eq!(Value::new("3.1415"), Value::new("3.141500000"));
}

#[test]
fn uuid_from_groups() {
    let c = caps(&[Some(""), Some("00000001"), Some("0002"), Some("0003"), Some("0004"), Some("000000000005")]);
    assert_eq!(UUID::from_captures(&c), Some(id(0x0000000100020003, 0x0004000000000005)));
    // the last group wraps around when it does not fit in 48 bits
    let c = caps(&[Some(""), Some("0"), Some("0"), Some("0"), Some("1"), Some("ffffffffffffffff")]);
    assert_eq!(UUID::from_captures(&c), Some(id(0, 0x0000ffffffffffff)));
    let c = caps(&[Some(""), Some("100000000"), Some("0"), Some("0"), Some("0"), Some("0")]);
    assert_eq!(UUID::from_captures(&c), None);
    let c = caps(&[Some(""), Some("0"), Some("0"), Some("0"), None, Some("0")]);
    assert_eq!(UUID::from_captures(&c), None);
}

#[test]
fn uuid_reading() {
    assert_eq!(
        UUID::new("ffff307e-6c5e-4cfc-bed5-6be2a70b8b42"),
        Some(id(0xffff307e6c5e4cfc, 0xbed56be2a70b8b42))
    );
    assert_eq!(UUID::new("not-a-uuid"), None);
    assert_eq!(UUID::new("xx 00000000-0000-0000-0000-00000000000b yy"), Some(id(0, 11)));
}

#[test]
fn side_reading() {
    assert_eq!(Side::new("buy"), Some(Side::Buy));
    assert_eq!(Side::new("sell"), Some(Side::Sell));
    assert_eq!(Side::new("Buy"), None);
    assert_eq!(Side::new(""), None);
}

#[test]
fn packet_readers() {
    let open = r#"{"type":"open","sequence":1,"side":"sell","price":null,"order_id":"00000000-0000-0000-0000-000000000001","remaining_size":"2"}"#;
    assert_eq!(OpenOrder(open), Some(OrderBookOp::Open(id(0, 1), Side::Sell, val(0), val(20000000000))));
    assert_eq!(DoneOrder(open), None);
    assert_eq!(ModifyOrder(open), None);
    assert_eq!(MakeOrderBookOp("hello"), None);
    let bad_side = r#"{"type":"open","sequence":1,"side":"buy","price":"1","order_id":"zz","remaining_size":"2"}"#;
    assert_eq!(OpenOrder(bad_side), None);
    let done = r#"{"type":"done","order_type":"limit","side":"buy","order_id":"00000000-0000-0000-0000-000000000002"}"#;
    assert_eq!(DoneOrder(done), Some(OrderBookOp::Done(id(0, 2), Side::Buy)));
    let change = r#"{"type":"change","order_id":"x"}"#;
    assert_eq!(MakeOrderBookOp(change), Some(OrderBookOp::Ignored));
    let reset = r#"{"sequence":5,"type":"reset","x":1}"#;
    assert_eq!(MakeOrderBookOp(reset), Some(OrderBookOp::Reset));
}

#[test]
fn book_prices() {
    let mut book = OrderBook::new();
    assert_eq!(book.find_min_sell().data, u64::MAX);
    assert_eq!(book.find_max_sell().data, 0);
    assert_eq!(book.find_min_buy().data, u64::MAX);
    assert_eq!(book.find_max_buy().data, 0);
    book.interact(&OrderBookOp::Open(id(0, 1), Side::Sell, val(50), val(7)));
    book.interact(&OrderBookOp::Open(id(0, 2), Side::Sell, val(40), val(9)));
    book.interact(&OrderBookOp::Open(id(0, 3), Side::Buy, val(30), val(1)));
    book.interact(&OrderBookOp::Open(id(0, 4), Side::Buy, val(20), val(1)));
    assert_eq!(book.find_min_sell().data, 40);
    assert_eq!(book.find_max_sell().data, 50);
    assert_eq!(book.find_min_buy().data, 20);
    assert_eq!(book.find_max_buy().data, 30);
}

#[test]
fn book_open_keeps_first_order() {
    let mut book = OrderBook::new();
    book.interact(&OrderBookOp::Open(id(0, 1), Side::Sell, val(50), val(7)));
    book.interact(&OrderBookOp::Open(id(0, 1), Side::Sell, val(10), val(3)));
    assert_eq!(book.find_min_sell().data, 50);
    assert_eq!(book.sizes_at(Side::Sell, val(50)), vec![val(7)]);
    assert_eq!(book.sizes_at(Side::Sell, val(10)), vec![]);
}

#[test]
fn book_open_then_done_restores() {
    let mut book = OrderBook::new();
    book.interact(&OrderBookOp::Open(id(0, 1), Side::Sell, val(50), val(7)));
    book.interact(&OrderBookOp::Open(id(0, 2), Side::Sell, val(40), val(9)));
    assert_eq!(book.find_min_sell().data, 40);
    book.interact(&OrderBookOp::Done(id(0, 2), Side::Sell));
    assert_eq!(book.find_min_sell().data, 50);
    assert_eq!(book.sizes_at(Side::Sell, val(40)), vec![]);
    // closing on the other side, or closing twice, changes nothing
    book.interact(&OrderBookOp::Done(id(0, 1), Side::Buy));
    book.interact(&OrderBookOp::Done(id(0, 2), Side::Sell));
    assert_eq!(book.sizes_at(Side::Sell, val(50)), vec![val(7)]);
}

#[test]
fn book_fill() {
    let mut book = OrderBook::new();
    book.interact(&OrderBookOp::Open(id(0, 1), Side::Buy, val(50), val(7)));
    let fill = OrderBookOp::Modify(id(0, 1), Side::Buy, val(3));
    assert!(book.accepts(&fill));
    book.interact(&fill);
    assert_eq!(book.sizes_at(Side::Buy, val(50)), vec![val(4)]);
    assert_eq!(book.find_max_buy().data, 50);
    let too_much = OrderBookOp::Modify(id(0, 1), Side::Buy, val(5));
    assert!(!book.accepts(&too_much));
    // a fill of an id that does not stand changes nothing
    let absent = OrderBookOp::Modify(id(9, 9), Side::Buy, val(500));
    assert!(book.accepts(&absent));
    book.interact(&absent);
    assert_eq!(book.sizes_at(Side::Buy, val(50)), vec![val(4)]);
    assert!(!book.accepts(&OrderBookOp::Error));
}

#[test]
fn book_reset_and_ignored() {
    let mut book = OrderBook::new();
    book.interact(&OrderBookOp::Open(id(0, 1), Side::Buy, val(50), val(7)));
    book.interact(&OrderBookOp::Ignored);
    assert_eq!(book.find_max_buy().data, 50);
    book.interact(&OrderBookOp::Reset);
    assert_eq!(book.find_max_buy().data, 0);
    assert_eq!(book.find_min_sell().data, u64::MAX);
}

#[test]
fn book_sizes_in_id_order() {
    let mut book = OrderBook::new();
    book.interact(&OrderBookOp::Open(id(2, 0), Side::Sell, val(50), val(1)));
    book.interact(&OrderBookOp::Open(id(1, 5), Side::Sell, val(50), val(2)));
    book.interact(&OrderBookOp::Open(id(1, 3), Side::Sell, val(50), val(3)));
    book.interact(&OrderBookOp::Open(id(1, 4), Side::Sell, val(60), val(4)));
    assert_eq!(book.sizes_at(Side::Sell, val(50)), vec![val(3), val(2), val(1)]);
    assert_eq!(book.sizes_at(Side::Buy, val(50)), vec![]);
}

#[test]
fn packet_then_book() {
    let mut book = OrderBook::new();
    let open = r#"{"type":"open","sequence":1415928822,"side":"buy","price":"582.45","order_id":"110f289b-359e-4151-96ac-8b81d05e4fc8","remaining_size":"0.125","product_id":"BTC-USD","time":"2016-08-23T17:31:55.504448Z"}"#;
    let op = MakeOrderBookOp(open).unwrap();
    book.interact(&op);
    assert_eq!(book.find_max_buy(), Value::new("582.45").unwrap());
    let done = r#"{"type":"done","order_type":"limit","side":"buy","sequence":1,"order_id":"110f289b-359e-4151-96ac-8b81d05e4fc8","reason":"canceled"}"#;
    let op = MakeOrderBookOp(done).unwrap();
    book.interact(&op);
    assert_eq!(book.find_max_buy().data, 0);
}

#[test]
fn uuid_order_follows_text() {
    let texts = [
        "00000000-0000-0000-0000-000000000000",
        "00000000-0000-0000-0000-00000000000a",
        "00000000-0000-0000-0001-000000000000",
        "0000000f-ffff-ffff-ffff-ffffffffffff",
        "110f289b-359e-4151-96ac-8b81d05e4fc8",
        "2d99ff0c-2b5a-4729-be62-7249fb7990e6",
        "ffff307e-6c5e-4cfc-bed5-6be2a70b8b42",
        "ffff307e-6c5e-4cfc-bed5-6be2a70b8b43",
    ];
    for s in texts.iter() {
        for t in texts.iter() {
            let a = UUID::new(s).unwrap();
            let b = UUID::new(t).unwrap();
            assert_eq!(a.cmp(&b), s.cmp(t));
            assert_eq!(a == b, s == t);
        }
    }
}

#[test]
fn line_actions() {
    assert_eq!(line_action(None), LineAction::Print);
    assert_eq!(line_action(Some(OrderBookOp::Ignored)), LineAction::Skip);
    assert_eq!(line_action(Some(OrderBookOp::Reset)), LineAction::Forward(OrderBookOp::Reset));
    assert_eq!(line_action(Some(OrderBookOp::Error)), LineAction::Forward(OrderBookOp::Error));
}
