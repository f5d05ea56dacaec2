use aria2_rs::call::{AddUriCall, PurgeDownloadResultCall};
use aria2_rs::dispatch::{
    batch_deliveries, call_request, read_message_value, request_frame, BatchFailure, Incoming,
    Message, PendingTable,
};
use aria2_rs::json::JsonValue;
use aria2_rs::{ConnectionMeta, RpcResponse, SmallVec};

fn s(x: &str) -> JsonValue {
    JsonValue::Str(x.to_string())
}

fn obj(fields: Vec<(&str, JsonValue)>) -> JsonValue {
    JsonValue::Object(fields.into_iter().map(|(k, v)| (k.to_string(), v)).collect())
}

fn reply(id: &str, result: JsonValue) -> JsonValue {
    obj(vec![("id", s(id)), ("jsonrpc", s("2.0")), ("result", result)])
}

fn error(id: &str, code: i128, message: &str) -> JsonValue {
    obj(vec![
        ("id", s(id)),
        ("jsonrpc", s("2.0")),
        ("error", obj(vec![("code", JsonValue::Int(code)), ("message", s(message))])),
    ])
}

#[test]
fn call_request_uses_the_connection_token() {
    let meta = ConnectionMeta { url: "wss://TEST/jsonrpc".to_string(), token: Some("token:TEST".to_string()) };
    let call = AddUriCall {
        uris: SmallVec::<String>::from_vec(vec!["http://example.org/file".to_string()]),
        options: None,
    };
    let (method, params) = call_request(&meta.token, &call);
    assert_eq!(method, "aria2.addUri");
    assert_eq!(
        params,
        JsonValue::Array(vec![s("token:TEST"), JsonValue::Array(vec![s("http://example.org/file")])])
    );
    let (_, bare) = call_request(&None, &PurgeDownloadResultCall);
    assert_eq!(bare, JsonValue::Array(vec![]));
}

#[test]
fn request_frame_fields_in_order() {
    let frame = request_frame("id-1", "aria2.remove", JsonValue::Array(vec![s("g")]));
    assert_eq!(
        frame,
        obj(vec![
            ("id", s("id-1")),
            ("jsonrpc", s("2.0")),
            ("method", s("aria2.remove")),
            ("params", JsonValue::Array(vec![s("g")])),
        ])
    );
}

#[test]
fn reads_reply_notification_and_error() {
    match read_message_value(&reply("a", JsonValue::Int(7))) {
        Some(Message::Reply { id, result }) => {
            assert_eq!(id, "a");
            assert_eq!(result, JsonValue::Int(7));
        }
        other => panic!("unexpected {other:?}"),
    }
    let note = obj(vec![
        ("jsonrpc", s("2.0")),
        ("method", s("aria2.onDownloadStart")),
        ("params", obj(vec![("gid", s("2089b05ecca3d829"))])),
    ]);
    match read_message_value(&note) {
        Some(Message::Notification { method, gid }) => {
            assert_eq!(method, "aria2.onDownloadStart");
            assert_eq!(gid, "2089b05ecca3d829");
        }
        other => panic!("unexpected {other:?}"),
    }
    match read_message_value(&error("b", 1, "Unauthorized")) {
        Some(Message::Error { id, error }) => {
            assert_eq!(id, "b");
            assert_eq!(error.code, 1);
            assert_eq!(error.message, "Unauthorized");
        }
        other => panic!("unexpected {other:?}"),
    }
}

#[test]
fn reads_records_given_as_arrays() {
    let v = JsonValue::Array(vec![s("c"), JsonValue::Null]);
    match read_message_value(&v) {
        Some(Message::Reply { id, result }) => {
            assert_eq!(id, "c");
            assert_eq!(result, JsonValue::Null);
        }
        other => panic!("unexpected {other:?}"),
    }
    let note = obj(vec![("method", s("m")), ("params", JsonValue::Array(vec![s("g")]))]);
    assert!(matches!(read_message_value(&note), Some(Message::Notification { .. })));
}

#[test]
fn a_reply_wins_over_an_error() {
    let v = obj(vec![
        ("id", s("a")),
        ("result", s("x")),
        ("error", obj(vec![("code", JsonValue::Int(1)), ("message", s("m"))])),
    ]);
    assert!(matches!(read_message_value(&v), Some(Message::Reply { .. })));
}

#[test]
fn rejects_what_does_not_read() {
    // the id must be a string
    assert!(read_message_value(&obj(vec![("id", JsonValue::Int(1)), ("result", s("x"))])).is_none());
    // a name twice is no record
    let dup = obj(vec![("id", s("a")), ("id", s("b")), ("result", s("x"))]);
    assert!(read_message_value(&dup).is_none());
    // an array of three items is no record of two fields
    assert!(read_message_value(&JsonValue::Array(vec![s("a"), s("b"), s("c")])).is_none());
    // an error code must fit in a u32
    assert!(read_message_value(&error("a", -1, "m")).is_none());
    assert!(read_message_value(&error("a", 4294967296, "m")).is_none());
    // params holding an array of objects, as aria2 sends them, do not read
    let note = obj(vec![
        ("jsonrpc", s("2.0")),
        ("method", s("aria2.onDownloadStart")),
        ("params", JsonValue::Array(vec![obj(vec![("gid", s("g"))])])),
    ]);
    assert!(read_message_value(&note).is_none());
    assert!(read_message_value(&s("hello")).is_none());
}

#[test]
fn reply_reaches_its_caller() {
    let mut table: PendingTable<u32> = PendingTable::new();
    table.register("a".to_string(), 1);
    table.register("b".to_string(), 2);
    assert!(table.is_waiting("a") && table.is_waiting("b"));
    match table.handle_message(&reply("b", s("done"))) {
        Incoming::Deliver(h, RpcResponse::Success(v)) => {
            assert_eq!(h, 2);
            assert_eq!(v, s("done"));
        }
        other => panic!("unexpected {other:?}"),
    }
    assert!(table.is_waiting("a"));
    assert!(!table.is_waiting("b"));
    // a second answer to the same request finds nobody
    assert!(matches!(table.handle_message(&reply("b", s("again"))), Incoming::Unclaimed));
    assert!(table.is_waiting("a"));
}

#[test]
fn error_reaches_its_caller() {
    let mut table: PendingTable<&str> = PendingTable::new();
    table.register("x".to_string(), "caller");
    match table.handle_message(&error("x", 1, "Unauthorized")) {
        Incoming::Deliver(h, RpcResponse::Error(e)) => {
            assert_eq!(h, "caller");
            assert_eq!(e.code, 1);
            assert_eq!(e.message, "Unauthorized");
        }
        other => panic!("unexpected {other:?}"),
    }
    assert!(!table.is_waiting("x"));
}

#[test]
fn notifications_and_junk_leave_callers_waiting() {
    let mut table: PendingTable<u8> = PendingTable::new();
    table.register("a".to_string(), 9);
    let note = obj(vec![("method", s("aria2.onDownloadComplete")), ("params", obj(vec![("gid", s("g"))]))]);
    match table.handle_message(&note) {
        Incoming::Notify { method, gid } => {
            assert_eq!(method, "aria2.onDownloadComplete");
            assert_eq!(gid, "g");
        }
        other => panic!("unexpected {other:?}"),
    }
    assert!(matches!(table.handle_message(&JsonValue::Null), Incoming::Malformed));
    assert!(table.is_waiting("a"));
}

#[test]
fn registering_an_id_again_replaces_the_caller() {
    let mut table: PendingTable<u8> = PendingTable::new();
    table.register("a".to_string(), 1);
    table.register("a".to_string(), 2);
    assert_eq!(table.take("a"), Some(2));
    assert_eq!(table.take("a"), None);
}

#[test]
fn clear_forgets_every_caller() {
    let mut table: PendingTable<u8> = PendingTable::new();
    table.register("a".to_string(), 1);
    table.register("b".to_string(), 2);
    table.clear();
    assert!(!table.is_waiting("a") && !table.is_waiting("b"));
    assert!(matches!(table.handle_message(&reply("a", JsonValue::Null)), Incoming::Unclaimed));
}

#[test]
fn register_request_frames_under_a_fresh_id() {
    let mut table: PendingTable<u8> = PendingTable::new();
    let (id1, frame1) = table.register_request("aria2.tellActive", JsonValue::Array(vec![]), 1);
    let (id2, _) = table.register_request("aria2.tellActive", JsonValue::Array(vec![]), 2);
    assert_ne!(id1, id2);
    assert_eq!(
        frame1,
        obj(vec![
            ("id", s(&id1)),
            ("jsonrpc", s("2.0")),
            ("method", s("aria2.tellActive")),
            ("params", JsonValue::Array(vec![])),
        ])
    );
    match table.handle_message(&reply(&id1, s("r"))) {
        Incoming::Deliver(h, _) => assert_eq!(h, 1),
        other => panic!("unexpected {other:?}"),
    }
    assert!(table.is_waiting(&id2));
}

#[test]
fn batch_reply_goes_to_callers_in_order() {
    let reply = JsonValue::Array(vec![
        JsonValue::Array(vec![s("gid1")]),
        JsonValue::Array(vec![s("gid2")]),
        JsonValue::Array(vec![s("gid3")]),
    ]);
    let out = batch_deliveries::<u8, ()>(Ok(reply), vec![10, 20, 30]).expect("delivered");
    assert_eq!(out, vec![(10, s("gid1")), (20, s("gid2")), (30, s("gid3"))]);
}

#[test]
fn batch_reply_shorter_or_longer_than_callers() {
    let reply = JsonValue::Array(vec![JsonValue::Array(vec![s("a"), s("b")])]);
    let out = batch_deliveries::<u8, ()>(Ok(reply), vec![1, 2, 3]).expect("delivered");
    assert_eq!(out, vec![(1, s("a")), (2, s("b"))]);
    let reply = JsonValue::Array(vec![JsonValue::Array(vec![s("a"), s("b")])]);
    let out = batch_deliveries::<u8, ()>(Ok(reply), vec![1]).expect("delivered");
    assert_eq!(out, vec![(1, s("a"))]);
}

#[test]
fn batch_failures() {
    match batch_deliveries::<u8, &str>(Err("down"), vec![1]) {
        Err(BatchFailure::Call(e)) => assert_eq!(e, "down"),
        other => panic!("unexpected {other:?}"),
    }
    let fault = JsonValue::Array(vec![obj(vec![("faultCode", JsonValue::Int(1))])]);
    assert!(matches!(batch_deliveries::<u8, ()>(Ok(fault), vec![1]), Err(BatchFailure::Malformed)));
}
