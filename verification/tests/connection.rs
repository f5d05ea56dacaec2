use aria2_rs::call::{BatchEntry, CallParams};
use aria2_rs::dispatch::{
    take_round, ConnAction, ConnEvent, Connection, Phase, RETRY_DELAY_SECS,
};
use aria2_rs::json::JsonValue;
use aria2_rs::RpcResponse;

fn s(x: &str) -> JsonValue {
    JsonValue::Str(x.to_string())
}

fn reply(id: &str, result: JsonValue) -> JsonValue {
    JsonValue::Object(vec![
        ("id".to_string(), s(id)),
        ("jsonrpc".to_string(), s("2.0")),
        ("result".to_string(), result),
    ])
}

#[test]
fn take_round_keeps_order() {
    assert!(take_round::<u8>(vec![]).is_none());
    let batch = vec![
        (BatchEntry { method: "aria2.remove", params: CallParams::Positional(vec![s("a")]) }, 1u8),
        (BatchEntry { method: "aria2.pause", params: CallParams::Positional(vec![s("b")]) }, 2u8),
    ];
    let (multi, callers) = take_round(batch).expect("a round");
    assert_eq!(callers, vec![1, 2]);
    assert_eq!(multi.calls.len(), 2);
    assert_eq!(multi.calls[0].method, "aria2.remove");
    assert_eq!(multi.calls[1].method, "aria2.pause");
    match &multi.calls[1].params {
        CallParams::Positional(items) => assert_eq!(items, &vec![s("b")]),
        other => panic!("unexpected {other:?}"),
    }
}

#[test]
fn request_then_reply_reaches_the_caller() {
    let mut conn: Connection<u8> = Connection::new();
    let id = match conn.step(ConnEvent::Request {
        method: "aria2.tellActive",
        params: JsonValue::Array(vec![]),
        handler: 7,
    }) {
        ConnAction::Send { id, frame } => {
            match &frame {
                JsonValue::Object(fields) => assert_eq!(fields[0], ("id".to_string(), s(&id))),
                other => panic!("unexpected {other:?}"),
            }
            id
        }
        other => panic!("unexpected {other:?}"),
    };
    match conn.step(ConnEvent::Message(reply(&id, s("ok")))) {
        ConnAction::Deliver(h, RpcResponse::Success(v)) => {
            assert_eq!(h, 7);
            assert_eq!(v, s("ok"));
        }
        other => panic!("unexpected {other:?}"),
    }
    assert!(matches!(conn.step(ConnEvent::Message(reply(&id, s("ok")))), ConnAction::Nothing));
    assert!(matches!(conn.step(ConnEvent::Unreadable), ConnAction::ReportMalformed));
    assert!(matches!(conn.step(ConnEvent::Message(JsonValue::Null)), ConnAction::ReportMalformed));
    assert!(matches!(conn.step(ConnEvent::OtherFrame), ConnAction::Nothing));
    assert!(matches!(conn.step(ConnEvent::SendFailed), ConnAction::Nothing));
    assert_eq!(conn.phase, Phase::Connected);
}

#[test]
fn lost_socket_drops_callers_and_reconnects() {
    let mut conn: Connection<u8> = Connection::new();
    let id = match conn.step(ConnEvent::Request {
        method: "aria2.remove",
        params: JsonValue::Array(vec![]),
        handler: 1,
    }) {
        ConnAction::Send { id, .. } => id,
        other => panic!("unexpected {other:?}"),
    };
    assert!(matches!(conn.step(ConnEvent::SocketFailed), ConnAction::Reconnect));
    assert_eq!(conn.phase, Phase::Reconnecting);
    assert!(!conn.pending.is_waiting(&id));
    match conn.step(ConnEvent::ConnectFailed) {
        ConnAction::RetryAfter { secs } => assert_eq!(secs, RETRY_DELAY_SECS),
        other => panic!("unexpected {other:?}"),
    }
    assert!(matches!(
        conn.step(ConnEvent::Request { method: "m", params: JsonValue::Null, handler: 2 }),
        ConnAction::Nothing
    ));
    assert!(matches!(conn.step(ConnEvent::Reconnected), ConnAction::Resume));
    assert_eq!(conn.phase, Phase::Connected);
    assert!(matches!(conn.step(ConnEvent::SendTimedOut), ConnAction::Reconnect));
    assert_eq!(conn.phase, Phase::Reconnecting);
}

#[test]
fn shutdown_stops_for_good() {
    let mut conn: Connection<u8> = Connection::new();
    assert!(matches!(conn.step(ConnEvent::ShutdownRequested), ConnAction::Stop));
    assert_eq!(conn.phase, Phase::Stopped);
    assert!(matches!(conn.step(ConnEvent::Reconnected), ConnAction::Nothing));
    assert!(matches!(conn.step(ConnEvent::ShutdownRequested), ConnAction::Nothing));
    assert_eq!(conn.phase, Phase::Stopped);
    let mut again: Connection<u8> = Connection::new();
    again.step(ConnEvent::SocketFailed);
    assert!(matches!(again.step(ConnEvent::ShutdownRequested), ConnAction::Stop));
    assert_eq!(again.phase, Phase::Stopped);
}
