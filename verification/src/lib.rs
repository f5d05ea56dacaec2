//! A client library for the JSON-RPC interface of the aria2 download utility.
//!
//! `call` lays out each call of the interface as JSON, `dispatch` decides
//! where the messages of a connection go, and `status` holds what aria2
//! reports about downloads.
pub mod call;
pub mod dispatch;
pub mod encoding;
pub mod error;
pub mod json;
pub mod options;
pub mod small_vec;
pub mod status;

pub use call::{Call, MultiCall, MultiResponse, Reply, OK};
pub use dispatch::ConnectionMeta;
pub use error::{RpcError, RpcResponse};
pub use json::JsonValue;
pub use small_vec::SmallVec;
