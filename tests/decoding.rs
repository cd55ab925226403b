use alloy_flashblocks::aggregator::{Aggregator, ObservationKind};
use alloy_flashblocks::decode::{decode_flashblock, decode_message, DecodeError, WireMessage};
use alloy_flashblocks::json::{same_text, take_member, JsonNumber, JsonValue};
use alloy_flashblocks::pipeline::ingest;
use alloy_flashblocks::rpc::{subscription_request, JsonRpcRequest};
use alloy_flashblocks::transport::{StreamAction, StreamEvent, StreamSession};

fn s(t: &str) -> JsonValue {
    JsonValue::Str(t.to_string())
}

fn obj(members: Vec<(&str, JsonValue)>) -> JsonValue {
    JsonValue::Object(members.into_iter().map(|(k, v)| (k.to_string(), v)).collect())
}

fn members(v: JsonValue) -> Vec<(String, JsonValue)> {
    match v {
        JsonValue::Object(m) => m,
        _ => panic!("not an object"),
    }
}

fn base_json() -> JsonValue {
    obj(vec![
        ("parent_hash", s("0xparent")),
        ("fee_recipient", s("0xfee")),
        ("block_number", s("0x10")),
        ("gas_limit", s("0x1c9c380")),
        ("timestamp", s("0x6792a1f0")),
        ("base_fee_per_gas", s("0x3b9aca00")),
    ])
}

fn initial_json() -> JsonValue {
    obj(vec![
        ("payload_id", s("0xA")),
        ("index", JsonValue::Number(JsonNumber::UInt(0))),
        ("base", base_json()),
        ("diff", obj(vec![("transactions", JsonValue::Array(vec![s("0x1"), s("0x2")]))])),
        ("metadata", obj(vec![])),
    ])
}

fn diff_json() -> JsonValue {
    obj(vec![
        ("payload_id", s("0xA")),
        ("index", JsonValue::Number(JsonNumber::UInt(1))),
        ("diff", obj(vec![("transactions", JsonValue::Array(vec![s("0x3")]))])),
        ("metadata", obj(vec![])),
    ])
}

#[test]
fn decodes_initial_fragment() {
    let fb = decode_flashblock(members(initial_json())).unwrap();
    assert_eq!(fb.payload_id, "0xA");
    assert_eq!(fb.index, 0);
    let base = fb.base.as_ref().unwrap();
    assert_eq!(base.block_number, "0x10");
    assert_eq!(base.base_fee_per_gas, "0x3b9aca00");
    assert_eq!(fb.diff.transactions, Some(vec!["0x1".to_string(), "0x2".to_string()]));
    assert!(fb.diff.state_root.is_none());
    assert!(fb.metadata.block_number.is_none());
    assert_eq!(fb.block_number(), Some(16));
}

#[test]
fn end_to_end_from_json() {
    let mut agg = Aggregator::new();
    let mut session = StreamSession::new(3, 1000, None);
    session.step(StreamEvent::Connected);
    let (a1, o1) = ingest(&mut agg, &mut session, decode_message(initial_json()), 100);
    assert!(matches!(a1, StreamAction::Read));
    assert_eq!(o1.unwrap().kind, ObservationKind::Started);
    let (_, o2) = ingest(&mut agg, &mut session, decode_message(diff_json()), 300);
    assert_eq!(o2.unwrap().kind, ObservationKind::Extended);
    let snap = agg.snapshot();
    assert_eq!(snap.len(), 1);
    assert_eq!(snap[0].block_number, 16);
    assert_eq!(snap[0].sub_blocks, 2);
    assert_eq!(snap[0].total_transactions, 3);
    assert_eq!(session.initial_fragments, 1);
}

#[test]
fn ingest_ignores_other_messages() {
    let mut agg = Aggregator::new();
    let mut session = StreamSession::new(3, 1000, Some(1));
    session.step(StreamEvent::Connected);
    let (a, o) = ingest(&mut agg, &mut session, WireMessage::Unrecognized, 5);
    assert!(matches!(a, StreamAction::Read));
    assert!(o.is_none());
    assert!(agg.is_empty());
    let (a, _) = ingest(&mut agg, &mut session, decode_message(initial_json()), 6);
    assert!(matches!(a, StreamAction::Finish));
}

#[test]
fn missing_metadata_is_rejected() {
    let m = vec![
        ("payload_id".to_string(), s("0xA")),
        ("index".to_string(), JsonValue::Number(JsonNumber::UInt(1))),
        ("diff".to_string(), obj(vec![])),
    ];
    assert_eq!(decode_flashblock(m).unwrap_err(), DecodeError);
}

#[test]
fn wrong_shapes_are_rejected() {
    let negative = obj(vec![
        ("payload_id", s("0xA")),
        ("index", JsonValue::Number(JsonNumber::NegInt(-1))),
        ("diff", obj(vec![])),
        ("metadata", obj(vec![])),
    ]);
    assert!(decode_flashblock(members(negative)).is_err());
    let bad_tx = obj(vec![
        ("payload_id", s("0xA")),
        ("index", JsonValue::Number(JsonNumber::UInt(2))),
        ("diff", obj(vec![("transactions", JsonValue::Array(vec![s("0x1"), JsonValue::Bool(true)]))])),
        ("metadata", obj(vec![])),
    ]);
    assert!(decode_flashblock(members(bad_tx)).is_err());
    let bad_base = obj(vec![
        ("payload_id", s("0xA")),
        ("index", JsonValue::Number(JsonNumber::UInt(0))),
        ("base", obj(vec![("parent_hash", s("0x1"))])),
        ("diff", obj(vec![])),
        ("metadata", obj(vec![])),
    ]);
    assert!(decode_flashblock(members(bad_base)).is_err());
    let fractional = obj(vec![
        ("payload_id", s("0xA")),
        ("index", JsonValue::Number(JsonNumber::Decimal("1.5".to_string()))),
        ("diff", obj(vec![])),
        ("metadata", obj(vec![])),
    ]);
    assert!(matches!(decode_message(fractional), WireMessage::Unrecognized));
}

#[test]
fn nulls_and_unknown_members_are_accepted() {
    let v = obj(vec![
        ("payload_id", s("0xB")),
        ("index", JsonValue::Number(JsonNumber::UInt(4))),
        ("base", JsonValue::Null),
        ("extra", JsonValue::Bool(false)),
        (
            "diff",
            obj(vec![
                ("gas_used", s("0x5208")),
                ("block_hash", JsonValue::Null),
                ("withdrawals", JsonValue::Array(vec![obj(vec![])])),
            ]),
        ),
        (
            "metadata",
            obj(vec![
                ("block_number", JsonValue::Number(JsonNumber::UInt(77))),
                ("new_account_balances", obj(vec![("0x1", s("0x0")), ("0x2", s("0x1"))])),
                ("receipts", JsonValue::Null),
            ]),
        ),
    ]);
    let fb = decode_flashblock(members(v)).unwrap();
    assert!(fb.base.is_none());
    assert_eq!(fb.diff.gas_used.as_deref(), Some("0x5208"));
    assert!(fb.diff.block_hash.is_none());
    assert_eq!(fb.diff.withdrawals.as_ref().map(|w| w.len()), Some(1));
    assert!(fb.diff.transactions.is_none());
    assert_eq!(fb.transaction_count(), 0);
    assert_eq!(fb.metadata.block_number, Some(77));
    assert_eq!(fb.block_number(), Some(77));
    assert_eq!(fb.balance_update_count(), 2);
    assert_eq!(fb.receipt_count(), 0);
    assert!(!fb.is_initial());
}

#[test]
fn rpc_error_is_recognised() {
    let v = obj(vec![
        ("jsonrpc", s("2.0")),
        ("error", obj(vec![("code", JsonValue::Number(JsonNumber::NegInt(-32601)))])),
        ("id", JsonValue::Number(JsonNumber::UInt(1))),
    ]);
    match decode_message(v) {
        WireMessage::RpcError(JsonValue::Object(m)) => assert_eq!(m[0].0, "code"),
        other => panic!("unexpected {:?}", other),
    }
    assert!(matches!(decode_message(JsonValue::Array(vec![])), WireMessage::Unrecognized));
    assert!(matches!(decode_message(s("hello")), WireMessage::Unrecognized));
}

#[test]
fn subscription_reply_is_not_a_flashblock() {
    let v = obj(vec![("jsonrpc", s("2.0")), ("result", s("0x9cef")), ("id", JsonValue::Number(JsonNumber::UInt(1)))]);
    assert!(matches!(decode_message(v), WireMessage::Unrecognized));
}

#[test]
fn members_are_taken_by_name() {
    let mut m = members(obj(vec![("a", s("1")), ("b", s("2")), ("a", s("3"))]));
    match take_member(&mut m, "a") {
        Some(JsonValue::Str(t)) => assert_eq!(t, "1"),
        other => panic!("unexpected {:?}", other),
    }
    assert_eq!(m.len(), 2);
    assert!(take_member(&mut m, "c").is_none());
    assert_eq!(m.len(), 2);
    assert!(same_text("abc", "abc"));
    assert!(!same_text("abc", "abd"));
    assert!(!same_text("ab", "abc"));
}

#[test]
fn subscription_request_shape() {
    let r = subscription_request();
    assert_eq!(r.jsonrpc, "2.0");
    assert_eq!(r.method, "subscribe");
    assert_eq!(r.id, 1);
    match &r.params {
        JsonValue::Array(items) => {
            assert_eq!(items.len(), 1);
            assert!(matches!(&items[0], JsonValue::Str(t) if t == "flashblocks"));
        }
        other => panic!("unexpected {:?}", other),
    }
    let q = JsonRpcRequest::new("eth_getBalance", JsonValue::Null, 7);
    assert_eq!(q.method, "eth_getBalance");
    assert_eq!(q.id, 7);
}

#[test]
fn notification_envelope_is_unwrapped() {
    let v = obj(vec![
        ("jsonrpc", s("2.0")),
        ("method", s("subscription")),
        ("params", obj(vec![("subscription", s("0x1")), ("result", diff_json())])),
    ]);
    match decode_message(v) {
        WireMessage::Flashblock(fb) => {
            assert_eq!(fb.payload_id, "0xA");
            assert_eq!(fb.index, 1);
            assert_eq!(fb.transaction_count(), 1);
        }
        other => panic!("unexpected {:?}", other),
    }
    let not_object = obj(vec![("params", obj(vec![("result", s("0x9cef"))]))]);
    assert!(matches!(decode_message(not_object), WireMessage::Unrecognized));
}
