use aria2_rs::json::JsonValue;
use aria2_rs::{RpcError, RpcResponse};

#[test]
fn rpc_error_text() {
    let e = RpcError { code: 1, message: "Unauthorized".to_string() };
    assert_eq!(e.to_string(), "RpcError: {\"code\": 1, \"message\": \"Unauthorized\"}");
    let e = RpcError { code: 4294967295, message: String::new() };
    assert_eq!(e.to_string(), "RpcError: {\"code\": 4294967295, \"message\": \"\"}");
    let e = RpcError { code: 0, message: "x".to_string() };
    assert_eq!(e.to_string(), "RpcError: {\"code\": 0, \"message\": \"x\"}");
}

#[test]
fn answers_as_results() {
    match RpcResponse::Success(JsonValue::Bool(true)).into_result() {
        Ok(v) => assert_eq!(v, JsonValue::Bool(true)),
        Err(e) => panic!("unexpected {e:?}"),
    }
    match RpcResponse::Error(RpcError { code: 2, message: "m".to_string() }).into_result() {
        Err(e) => {
            assert_eq!(e.code, 2);
            assert_eq!(e.message, "m");
        }
        Ok(v) => panic!("unexpected {v:?}"),
    }
}
