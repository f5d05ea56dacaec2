//! The errors that aria2 answers with, and the answers themselves.
use crate::json::JsonValue;
use vstd::prelude::*;

verus! {

/// An error that aria2 answered a request with.
#[derive(Debug, Clone)]
pub struct RpcError {
    pub code: u32,
    pub message: String,
}

/// The decimal digit of a number below ten.
pub open spec fn digit_char(d: nat) -> char {
    if d == 0 { '0' }
    else if d == 1 { '1' }
    else if d == 2 { '2' }
    else if d == 3 { '3' }
    else if d == 4 { '4' }
    else if d == 5 { '5' }
    else if d == 6 { '6' }
    else if d == 7 { '7' }
    else if d == 8 { '8' }
    else { '9' }
}

/// The decimal representation of a number, without leading zeros.
pub open spec fn decimal(n: nat) -> Seq<char>
    decreases n,
{
    if n < 10 {
        seq![digit_char(n)]
    } else {
        decimal(n / 10).push(digit_char(n % 10))
    }
}

/// Calls `<u32 as ToString>::to_string`, whose `Display` writes the number
/// in decimal.
#[verifier::external_body]
fn u32_to_decimal(n: u32) -> (s: String)
    ensures
        s@ == decimal(n as nat),
{
    n.to_string()
}

/// The text by which an `RpcError` shows itself.
pub open spec fn rpc_error_text(code: u32, message: Seq<char>) -> Seq<char> {
    "RpcError: {\"code\": "@ + decimal(code as nat) + ", \"message\": \""@ + message + "\"}"@
}

impl RpcError {
    /// The text by which this error shows itself, such as
    /// `RpcError: {"code": 1, "message": "Unauthorized"}`.
    pub fn to_string(&self) -> (s: String)
        ensures
            s@ == rpc_error_text(self.code, self.message@),
    {
        let mut s = String::from_str("RpcError: {\"code\": ");
        let code = u32_to_decimal(self.code);
        s.append(code.as_str());
        s.append(", \"message\": \"");
        s.append(self.message.as_str());
        s.append("\"}");
        s
    }
}

/// What aria2 answered a request with.
#[derive(Debug)]
pub enum RpcResponse {
    Success(JsonValue),
    Error(RpcError),
}

impl RpcResponse {
    /// The answer as the result of a call: the value on success, else the
    /// error that aria2 gave.
    pub fn into_result(self) -> (r: std::result::Result<JsonValue, RpcError>)
        ensures
            match self {
                RpcResponse::Success(v) => r matches Ok(w) && w@ == v@,
                RpcResponse::Error(e) => r matches Err(f) && f.code == e.code
                    && f.message@ == e.message@,
            },
    {
        match self {
            RpcResponse::Success(v) => Ok(v),
            RpcResponse::Error(e) => Err(e),
        }
    }
}

} // verus!
