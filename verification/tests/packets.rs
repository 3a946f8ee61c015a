use order_book::{MakeOrderBookOp, OrderBookOp, Side, Value, UUID};
use std::mem::size_of;

/// The value as a floating-point number of whole units.
fn to_f64(v: &Value) -> f64 {
    v.data as f64 / 10000000000f64
}

#[test]
fn test_value() {
    let dut_str = "5872.75856521";
    let dut_val = Value::new(dut_str).unwrap();
    assert_eq!(dut_val.data, 58727585652100u64);
    assert_eq!(to_f64(&dut_val), 5872.75856521f64);

    let dut_str = "0";
    let dut_val = Value::new(dut_str).unwrap();
    assert_eq!(dut_val.data, 0);
    assert_eq!(to_f64(&dut_val), 0f64);

    let dut_str = "null";
    let dut_val = Value::new(dut_str).unwrap();
    assert_eq!(dut_val.data, 0);
    assert_eq!(to_f64(&dut_val), 0f64);

    let dut_str = "20253.3278928455";
    let dut_val = Value::new(dut_str).unwrap();
    assert_eq!(dut_val.data, 202533278928455);

    let dut_str = "15521.6044582977";
    let dut_val = Value::new(dut_str).unwrap();
    assert_eq!(dut_val.data, 155216044582977);

    let dut_str = "\"15521.6044582977\"";
    let dut_val = Value::new(dut_str).unwrap();
    assert_eq!(dut_val.data, 155216044582977);

    let dut_str = "48.08146";
    let dut_val = Value::new(dut_str).unwrap();
    assert_eq!(dut_val.data, 480814600000);

    assert_eq!(8, size_of::<Value>());
}

#[test]
fn test_uuid() {
    let dut_str = "00000000-0000-0000-0000-000000000000";
    let dut_uuid = UUID::new(dut_str).unwrap();
    assert_eq!(dut_uuid.data_a, 0u64);
    assert_eq!(dut_uuid.data_b, 0u64);

    let dut_str = "00000000-0000-0000-0000-000000000001";
    let dut_uuid = UUID::new(dut_str).unwrap();
    assert_eq!(dut_uuid.data_a, 0u64);
    assert_eq!(dut_uuid.data_b, 1u64);

    let dut_str = "00000000-0000-000f-0000-00000000000a";
    let dut_uuid = UUID::new(dut_str).unwrap();
    assert_eq!(dut_uuid.data_a, 15u64);
    assert_eq!(dut_uuid.data_b, 10u64);

    let dut_str = "ffff307e-6c5e-4cfc-bed5-6be2a70b8b42";
    let _ = UUID::new(dut_str).unwrap();

    assert_eq!(16, size_of::<UUID>());
}

#[test]
fn test_packet_reader() {
    let reset_packet = r#"{"type":"reset"}"#;
    let op = MakeOrderBookOp(reset_packet).unwrap();
    assert_eq!(op, OrderBookOp::Reset);

    let reset_packet = r#"{"type":"closing"}"#;
    let op = MakeOrderBookOp(reset_packet).unwrap();
    assert_eq!(op, OrderBookOp::Error);

    let received_packet = r#"{"type":"received","sequence":1415928821,"order_id":"110f289b-359e-4151-96ac-8b81d05e4fc8","order_type":"limit","size":"0.125","price":"582.45","side":"buy","funds":null,"product_id":"BTC-USD","time":"2016-08-23T17:31:55.504125Z"}"#;
    let op = MakeOrderBookOp(received_packet).unwrap();
    assert_eq!(op, OrderBookOp::Ignored);

    let received_packet = r#"{"type":"received","sequence":1415928851,"order_id":"2d99ff0c-2b5a-4729-be62-7249fb7990e6","order_type":"market","size":"0.17","price":null,"side":"buy","funds":"99.0233","product_id":"BTC-USD","time":"2016-08-23T17:32:03.042217Z"}"#;
    let op = MakeOrderBookOp(received_packet).unwrap();
    assert_eq!(op, OrderBookOp::Ignored);

    let closed_market = r#"{"type":"done","order_type":"market","side":"buy","sequence":1415931125,"order_id":"96dbdcd4-d0d7-482a-aea5-44014ce4065e","reason":"filled","product_id":"BTC-USD","time":"2016-08-23T17:32:31.701227Z"}"#;
    let op = MakeOrderBookOp(closed_market).unwrap();
    assert_eq!(op, OrderBookOp::Ignored);

    let open_packet = r#"{"type":"open","sequence":1415928822,"side":"buy","price":"582.45","order_id":"110f289b-359e-4151-96ac-8b81d05e4fc8","remaining_size":"0.125","product_id":"BTC-USD","time":"2016-08-23T17:31:55.504448Z"}"#;
    let op = MakeOrderBookOp(open_packet).unwrap();
    let dut_op = OrderBookOp::Open(
        UUID::new("110f289b-359e-4151-96ac-8b81d05e4fc8").unwrap(),
        Side::new("buy").unwrap(),
        Value::new("582.45").unwrap(),
        Value::new("0.125").unwrap(),
    );
    assert_eq!(op, dut_op);

    let done_packet = r#"{"type":"done","order_type":"limit","side":"sell","sequence":1415928820,"order_id":"f6a70a30-cd05-41f7-b7aa-53e0820d969d","reason":"canceled","product_id":"BTC-USD","time":"2016-08-23T17:31:55.423673Z","price":"589.22","remaining_size":"2.09"}"#;
    let op = MakeOrderBookOp(done_packet).unwrap();
    let dut_op = OrderBookOp::Done(
        UUID::new("f6a70a30-cd05-41f7-b7aa-53e0820d969d").unwrap(),
        Side::new("sell").unwrap(),
    );
    assert_eq!(op, dut_op);

    let match_packet = r#"{"type":"match","sequence":1415928852,"trade_id":10719547,"maker_order_id":"edfa59ac-3db2-458f-a238-7616ee85437a","taker_order_id":"2d99ff0c-2b5a-4729-be62-7249fb7990e6","side":"sell","size":"0.17","price":"582.49","product_id":"BTC-USD","time":"2016-08-23T17:32:03.042475Z"}"#;
    let op = MakeOrderBookOp(match_packet).unwrap();
    let dut_op = OrderBookOp::Modify(
        UUID::new("2d99ff0c-2b5a-4729-be62-7249fb7990e6").unwrap(),
        Side::new("sell").unwrap(),
        Value::new("0.17").unwrap(),
    );
    assert_eq!(op, dut_op);
}
