//! What the connection decides: how a call goes out as a JSON-RPC request,
//! which waiting caller an incoming message belongs to, and how the reply
//! of a batched multicall is shared out among its callers.
//!
//! The connection itself (the websocket, the channels, the timers) drives
//! these decisions: it hands in each event and carries out what comes back.
use crate::call::{
    entry_views, multicall_results, params_view, render, token_view, BatchEntry, Call, MultiCall,
    MultiResponse,
};
use crate::error::{RpcError, RpcResponse};
use crate::json::{field_views, json_str, json_views, Json, JsonValue};
use crate::small_vec::json_items;
use vstd::prelude::*;

verus! {

/// Where aria2 listens, and the secret token it wants, if any.
#[derive(Debug, Clone)]
pub struct ConnectionMeta {
    pub url: String,
    pub token: Option<String>,
}

/// The model of an optional token held as a `String`.
pub open spec fn token_string_view(token: Option<String>) -> Option<Seq<char>> {
    match token {
        Some(t) => Some(t@),
        None => None,
    }
}

/// The method and parameters with which `call` goes out on a connection
/// whose token is `token`.
pub fn call_request<C: Call>(token: &Option<String>, call: &C) -> (r: (&'static str, JsonValue))
    ensures
        r.0@ == call.spec_method(),
        r.1@ == Json::Array(render(call.spec_params(), token_string_view(*token))),
{
    let t: Option<&str> = match token {
        Some(s) => Some(s.as_str()),
        None => None,
    };
    assert(token_view(t) == token_string_view(*token));
    (call.method(), call.to_param(t))
}

/// The JSON-RPC request that carries a call.
pub open spec fn request_json(id: Seq<char>, method: Seq<char>, params: Json) -> Json {
    Json::Object(
        seq![
            ("id"@, Json::Str(id)),
            ("jsonrpc"@, Json::Str("2.0"@)),
            ("method"@, Json::Str(method)),
            ("params"@, params),
        ],
    )
}

/// The JSON-RPC request that carries a call.
pub fn request_frame(id: &str, method: &str, params: JsonValue) -> (r: JsonValue)
    ensures
        r@ == request_json(id@, method@, params@),
{
    let mut fields: Vec<(String, JsonValue)> = Vec::new();
    fields.push((String::from_str("id"), json_str(id)));
    fields.push((String::from_str("jsonrpc"), json_str("2.0")));
    fields.push((String::from_str("method"), json_str(method)));
    fields.push((String::from_str("params"), params));
    let r = JsonValue::Object(fields);
    assert(field_views(fields@) =~= seq![
        ("id"@, Json::Str(id@)),
        ("jsonrpc"@, Json::Str("2.0"@)),
        ("method"@, Json::Str(method@)),
        ("params"@, params@),
    ]);
    r
}

// ---------------------------------------------------------------------------
// Reading what aria2 sends.
// ---------------------------------------------------------------------------

/// How often `key` names a member of an object.
pub open spec fn key_count(fields: Seq<(Seq<char>, Json)>, key: Seq<char>) -> nat
    decreases fields.len(),
{
    if fields.len() == 0 {
        0
    } else {
        key_count(fields.drop_last(), key) + if fields.last().0 == key {
            1nat
        } else {
            0nat
        }
    }
}

/// The value of the first member named `key`.
pub open spec fn first_value(fields: Seq<(Seq<char>, Json)>, key: Seq<char>) -> Option<Json>
    decreases fields.len(),
{
    if fields.len() == 0 {
        None
    } else {
        match first_value(fields.drop_last(), key) {
            Some(v) => Some(v),
            None => if fields.last().0 == key {
                Some(fields.last().1)
            } else {
                None
            },
        }
    }
}

/// The value of the member named `key`, when exactly one member has that name.
pub open spec fn unique_field(fields: Seq<(Seq<char>, Json)>, key: Seq<char>) -> Option<Json> {
    if key_count(fields, key) == 1 {
        first_value(fields, key)
    } else {
        None
    }
}

/// A record of one field read from JSON: an object with exactly one member
/// of that name (other members are ignored), or an array of one item.
pub open spec fn record1(j: Json, f: Seq<char>) -> Option<Json> {
    match j {
        Json::Object(fields) => unique_field(fields, f),
        Json::Array(items) => if items.len() == 1 {
            Some(items[0])
        } else {
            None
        },
        _ => None,
    }
}

/// A record of two fields read from JSON: an object with exactly one
/// member of each name (other members are ignored), or an array of two items.
pub open spec fn record2(j: Json, f1: Seq<char>, f2: Seq<char>) -> Option<(Json, Json)> {
    match j {
        Json::Object(fields) => match (unique_field(fields, f1), unique_field(fields, f2)) {
            (Some(a), Some(b)) => Some((a, b)),
            _ => None,
        },
        Json::Array(items) => if items.len() == 2 {
            Some((items[0], items[1]))
        } else {
            None
        },
        _ => None,
    }
}

/// The text of a JSON string.
pub open spec fn str_of(j: Json) -> Option<Seq<char>> {
    match j {
        Json::Str(s) => Some(s),
        _ => None,
    }
}

/// The value of a JSON integer that fits in a `u32`.
pub open spec fn u32_of(j: Json) -> Option<u32> {
    match j {
        Json::Int(n) => if 0 <= n <= u32::MAX {
            Some(n as u32)
        } else {
            None
        },
        _ => None,
    }
}

/// The model of a message from aria2.
pub enum MessageModel {
    /// The result of the request with this id.
    Reply { id: Seq<char>, result: Json },
    /// An event about a download.
    Notification { method: Seq<char>, gid: Seq<char> },
    /// The error that the request with this id failed with.
    Error { id: Seq<char>, code: u32, message: Seq<char> },
}

/// The reading of a message as a reply: an `id` string and a `result`.
pub open spec fn read_reply(j: Json) -> Option<MessageModel> {
    match record2(j, "id"@, "result"@) {
        Some((id, result)) => match str_of(id) {
            Some(i) => Some(MessageModel::Reply { id: i, result }),
            None => None,
        },
        None => None,
    }
}

/// The reading of a message as a notification: a `method` string and
/// `params` holding a `gid` string.
pub open spec fn read_notification(j: Json) -> Option<MessageModel> {
    match record2(j, "method"@, "params"@) {
        Some((m, p)) => match (str_of(m), record1(p, "gid"@)) {
            (Some(method), Some(g)) => match str_of(g) {
                Some(gid) => Some(MessageModel::Notification { method, gid }),
                None => None,
            },
            _ => None,
        },
        None => None,
    }
}

/// The reading of a message as an error: an `id` string and an `error`
/// holding a `code` that fits in a `u32` and a `message` string.
pub open spec fn read_error(j: Json) -> Option<MessageModel> {
    match record2(j, "id"@, "error"@) {
        Some((i, e)) => match (str_of(i), record2(e, "code"@, "message"@)) {
            (Some(id), Some((c, m))) => match (u32_of(c), str_of(m)) {
                (Some(code), Some(message)) => Some(MessageModel::Error { id, code, message }),
                _ => None,
            },
            _ => None,
        },
        None => None,
    }
}

/// What a message from aria2 is: the first of reply, notification and
/// error that it reads as; nothing when it reads as none of them.
pub open spec fn read_message(j: Json) -> Option<MessageModel> {
    match read_reply(j) {
        Some(m) => Some(m),
        None => match read_notification(j) {
            Some(m) => Some(m),
            None => read_error(j),
        },
    }
}

/// A message from aria2.
#[derive(Debug)]
pub enum Message {
    Reply { id: String, result: JsonValue },
    Notification { method: String, gid: String },
    Error { id: String, error: RpcError },
}

/// The model of a message.
pub open spec fn message_view(m: Message) -> MessageModel {
    match m {
        Message::Reply { id, result } => MessageModel::Reply { id: id@, result: result@ },
        Message::Notification { method, gid } => MessageModel::Notification {
            method: method@,
            gid: gid@,
        },
        Message::Error { id, error } => MessageModel::Error {
            id: id@,
            code: error.code,
            message: error.message@,
        },
    }
}

/// Whether `k` is the text `lit`.
fn key_is(k: &String, lit: &str) -> (b: bool)
    ensures
        b == (k@ == lit@),
{
    let l = String::from_str(lit);
    *k == l
}

/// The position of the member named `key`, when exactly one member has that name.
fn find_unique(fields: &Vec<(String, JsonValue)>, key: &str) -> (r: Option<usize>)
    ensures
        match r {
            Some(i) => i < fields@.len() && unique_field(field_views(fields@), key@) == Some(
                fields@[i as int].1@,
            ),
            None => unique_field(field_views(fields@), key@) is None,
        },
{
    let mut count: usize = 0;
    let mut found: Option<usize> = None;
    let mut i: usize = 0;
    while i < fields.len()
        invariant
            i <= fields@.len(),
            count == key_count(field_views(fields@).take(i as int), key@),
            count <= i,
            match found {
                Some(k) => k < i && first_value(field_views(fields@).take(i as int), key@) == Some(
                    fields@[k as int].1@,
                ),
                None => first_value(field_views(fields@).take(i as int), key@) is None,
            },
        decreases fields@.len() - i,
    {
        proof {
            assert(field_views(fields@).take(i + 1).drop_last() =~= field_views(fields@).take(
                i as int,
            ));
        }
        if key_is(&fields[i].0, key) {
            count = count + 1;
            if found.is_none() {
                found = Some(i);
            }
        }
        i = i + 1;
    }
    assert(field_views(fields@).take(fields@.len() as int) =~= field_views(fields@));
    if count == 1 {
        found
    } else {
        None
    }
}

/// The text of a JSON string.
fn string_of(v: &JsonValue) -> (r: Option<String>)
    ensures
        match str_of(v@) {
            Some(s) => r matches Some(t) && t@ == s,
            None => r is None,
        },
{
    match v {
        JsonValue::Str(s) => Some(s.clone()),
        _ => None,
    }
}

/// The value of a JSON integer that fits in a `u32`.
fn u32_value(v: &JsonValue) -> (r: Option<u32>)
    ensures
        r == u32_of(v@),
{
    match v {
        JsonValue::Int(n) => if 0 <= *n && *n <= 0xffff_ffff {
            Some(*n as u32)
        } else {
            None
        },
        _ => None,
    }
}

/// The field of a one-field record.
fn read_record1<'v>(v: &'v JsonValue, f: &str) -> (r: Option<&'v JsonValue>)
    ensures
        match record1(v@, f@) {
            Some(a) => r matches Some(x) && x@ == a,
            None => r is None,
        },
{
    match v {
        JsonValue::Object(fields) => match find_unique(fields, f) {
            Some(i) => Some(&fields[i].1),
            None => None,
        },
        JsonValue::Array(items) => if items.len() == 1 {
            Some(&items[0])
        } else {
            None
        },
        _ => None,
    }
}

/// The fields of a two-field record.
fn read_record2<'v>(v: &'v JsonValue, f1: &str, f2: &str) -> (r: Option<
    (&'v JsonValue, &'v JsonValue),
>)
    ensures
        match record2(v@, f1@, f2@) {
            Some((a, b)) => r matches Some((x, y)) && x@ == a && y@ == b,
            None => r is None,
        },
{
    match v {
        JsonValue::Object(fields) => match (find_unique(fields, f1), find_unique(fields, f2)) {
            (Some(i), Some(j)) => Some((&fields[i].1, &fields[j].1)),
            _ => None,
        },
        JsonValue::Array(items) => if items.len() == 2 {
            Some((&items[0], &items[1]))
        } else {
            None
        },
        _ => None,
    }
}

/// Reads a message from aria2.
pub fn read_message_value(v: &JsonValue) -> (r: Option<Message>)
    ensures
        match read_message(v@) {
            Some(m) => r matches Some(x) && message_view(x) == m,
            None => r is None,
        },
{
    match read_record2(v, "id", "result") {
        Some((id, result)) => match string_of(id) {
            Some(i) => {
                return Some(Message::Reply { id: i, result: result.duplicate() });
            },
            None => {},
        },
        None => {},
    }
    assert(read_reply(v@) is None);
    match read_record2(v, "method", "params") {
        Some((m, p)) => match (string_of(m), read_record1(p, "gid")) {
            (Some(method), Some(g)) => match string_of(g) {
                Some(gid) => {
                    return Some(Message::Notification { method, gid });
                },
                None => {},
            },
            _ => {},
        },
        None => {},
    }
    assert(read_notification(v@) is None);
    match read_record2(v, "id", "error") {
        Some((i, e)) => match (string_of(i), read_record2(e, "code", "message")) {
            (Some(id), Some((c, m))) => match (u32_value(c), string_of(m)) {
                (Some(code), Some(message)) => {
                    return Some(Message::Error { id, error: RpcError { code, message } });
                },
                _ => {},
            },
            _ => {},
        },
        None => {},
    }
    None
}

} // verus!

verus! {

// ---------------------------------------------------------------------------
// The requests that wait for their answer.
// ---------------------------------------------------------------------------

/// The model of an answer from aria2.
pub enum AnswerModel {
    Success(Json),
    Error { code: u32, message: Seq<char> },
}

/// The model of an answer.
pub open spec fn answer_view(a: RpcResponse) -> AnswerModel {
    match a {
        RpcResponse::Success(v) => AnswerModel::Success(v@),
        RpcResponse::Error(e) => AnswerModel::Error { code: e.code, message: e.message@ },
    }
}

/// What the connection does with a message from aria2.
#[derive(Debug)]
pub enum Incoming<H> {
    /// Hand the answer to the caller that waits for it.
    Deliver(H, RpcResponse),
    /// Tell the notification callback.
    Notify { method: String, gid: String },
    /// Nothing: no caller waits for the request it answers.
    Unclaimed,
    /// Nothing: it is not a message this library reads.
    Malformed,
}

/// The model of what the connection does with a message.
pub enum IncomingModel<H> {
    Deliver(H, AnswerModel),
    Notify { method: Seq<char>, gid: Seq<char> },
    Unclaimed,
    Malformed,
}

/// The model of what the connection does with a message.
pub open spec fn incoming_view<H>(i: Incoming<H>) -> IncomingModel<H> {
    match i {
        Incoming::Deliver(h, a) => IncomingModel::Deliver(h, answer_view(a)),
        Incoming::Notify { method, gid } => IncomingModel::Notify { method: method@, gid: gid@ },
        Incoming::Unclaimed => IncomingModel::Unclaimed,
        Incoming::Malformed => IncomingModel::Malformed,
    }
}

/// The waiting callers after a message, and what is done with it.
pub open spec fn handle<H>(pending: Map<Seq<char>, H>, msg: Json) -> (
    Map<Seq<char>, H>,
    IncomingModel<H>,
) {
    match read_message(msg) {
        Some(MessageModel::Reply { id, result }) => if pending.contains_key(id) {
            (pending.remove(id), IncomingModel::Deliver(pending[id], AnswerModel::Success(result)))
        } else {
            (pending, IncomingModel::Unclaimed)
        },
        Some(MessageModel::Error { id, code, message }) => if pending.contains_key(id) {
            (
                pending.remove(id),
                IncomingModel::Deliver(pending[id], AnswerModel::Error { code, message }),
            )
        } else {
            (pending, IncomingModel::Unclaimed)
        },
        Some(MessageModel::Notification { method, gid }) => (
            pending,
            IncomingModel::Notify { method, gid },
        ),
        None => (pending, IncomingModel::Malformed),
    }
}

/// Calls `uuid::Uuid::new_v4` and writes the UUID as text. The id is
/// random, so nothing is promised of it; in particular not that it differs
/// from the ids already in use.
#[verifier::external_body]
fn fresh_request_id() -> (id: String) {
    uuid::Uuid::new_v4().to_string()
}

/// The entries of a table hold distinct ids, and are exactly the members of `waiting`.
pub open spec fn table_wf<H>(entries: Seq<(String, H)>, waiting: Map<Seq<char>, H>) -> bool {
    &&& forall|i: int, j: int|
        0 <= i < j < entries.len() ==> (#[trigger] entries[i]).0@ != (#[trigger] entries[j]).0@
    &&& forall|i: int|
        0 <= i < entries.len() ==> waiting.contains_key((#[trigger] entries[i]).0@)
            && waiting[entries[i].0@] == entries[i].1
    &&& forall|k: Seq<char>|
        #[trigger] waiting.contains_key(k) ==> exists|i: int|
            0 <= i < entries.len() && (#[trigger] entries[i]).0@ == k
}

/// The callers that wait for an answer, each under the id of its request.
///
/// The entries are held in a `Vec` whose ids are kept distinct, with the
/// map they stand for as the view. (A `HashMap<String, _>` would have
/// contracts from vstd only under `obeys_key_model::<String>()`, which vstd
/// does not establish for `String` and which may not be assumed here.)
pub struct PendingTable<H> {
    entries: Vec<(String, H)>,
    waiting: Ghost<Map<Seq<char>, H>>,
}

impl<H> View for PendingTable<H> {
    type V = Map<Seq<char>, H>;

    closed spec fn view(&self) -> Map<Seq<char>, H> {
        self.waiting@
    }
}

impl<H> PendingTable<H> {
    #[verifier::type_invariant]
    closed spec fn inv(self) -> bool {
        table_wf(self.entries@, self.waiting@)
    }

    /// A table without waiting callers.
    pub fn new() -> (t: Self)
        ensures
            t@ == Map::<Seq<char>, H>::empty(),
    {
        PendingTable { entries: Vec::new(), waiting: Ghost(Map::empty()) }
    }

    /// The position of the entry with this id.
    fn position(&self, id: &str) -> (r: Option<usize>)
        ensures
            match r {
                Some(i) => i < self.entries@.len() && self.entries@[i as int].0@ == id@,
                None => !self@.contains_key(id@),
            },
    {
        proof {
            use_type_invariant(self);
        }
        let mut i: usize = 0;
        while i < self.entries.len()
            invariant
                i <= self.entries@.len(),
                forall|j: int| 0 <= j < i ==> (#[trigger] self.entries@[j]).0@ != id@,
            decreases self.entries@.len() - i,
        {
            if key_is(&self.entries[i].0, id) {
                return Some(i);
            }
            i = i + 1;
        }
        None
    }

    /// Whether a caller waits under this id.
    pub fn is_waiting(&self, id: &str) -> (b: bool)
        ensures
            b == self@.contains_key(id@),
    {
        proof {
            use_type_invariant(self);
        }
        match self.position(id) {
            Some(_) => true,
            None => false,
        }
    }

    /// Puts `handler` under `id`; a caller that waited under the same id is dropped.
    pub fn register(&mut self, id: String, handler: H)
        ensures
            final(self)@ == old(self)@.insert(id@, handler),
    {
        proof {
            use_type_invariant(&*self);
        }
        let pos = self.position(id.as_str());
        let ghost old_map = self@;
        let ghost new_map = old_map.insert(id@, handler);
        let mut tmp = PendingTable { entries: Vec::new(), waiting: Ghost(Map::empty()) };
        std::mem::swap(self, &mut tmp);
        let PendingTable { mut entries, waiting: _ } = tmp;
        let ghost before = entries@;
        assert(table_wf(before, old_map));
        match pos {
            Some(i) => {
                entries.set(i, (id, handler));
                proof {
                    assert forall|a: int, b: int|
                        0 <= a < b < entries@.len() implies (#[trigger] entries@[a]).0@
                        != (#[trigger] entries@[b]).0@ by {
                        assert(before[a].0@ != before[b].0@);
                    }
                    assert forall|a: int| 0 <= a < entries@.len() implies new_map.contains_key(
                        (#[trigger] entries@[a]).0@,
                    ) && new_map[entries@[a].0@] == entries@[a].1 by {
                        if a != i {
                            assert(before[a].0@ != before[i as int].0@);
                            assert(old_map.contains_key(before[a].0@));
                        }
                    }
                    assert forall|k: Seq<char>| #[trigger] new_map.contains_key(k) implies exists|
                        j: int,
                    |
                        0 <= j < entries@.len() && (#[trigger] entries@[j]).0@ == k by {
                        if k != entries@[i as int].0@ {
                            let j = choose|j: int|
                                0 <= j < before.len() && (#[trigger] before[j]).0@ == k;
                            assert(entries@[j] == before[j]);
                        }
                    }
                }
            },
            None => {
                entries.push((id, handler));
                proof {
                    assert forall|a: int| 0 <= a < before.len() implies (#[trigger] before[a]).0@
                        != id@ by {
                        assert(old_map.contains_key(before[a].0@));
                    }
                    assert forall|a: int, b: int|
                        0 <= a < b < entries@.len() implies (#[trigger] entries@[a]).0@
                        != (#[trigger] entries@[b]).0@ by {
                        assert(entries@[a] == before[a]);
                        if b < before.len() {
                            assert(entries@[b] == before[b]);
                        }
                    }
                    assert forall|a: int| 0 <= a < entries@.len() implies new_map.contains_key(
                        (#[trigger] entries@[a]).0@,
                    ) && new_map[entries@[a].0@] == entries@[a].1 by {
                        if a < before.len() {
                            assert(entries@[a] == before[a]);
                            assert(old_map.contains_key(before[a].0@));
                        }
                    }
                    assert forall|k: Seq<char>| #[trigger] new_map.contains_key(k) implies exists|
                        j: int,
                    |
                        0 <= j < entries@.len() && (#[trigger] entries@[j]).0@ == k by {
                        if k != entries@[before.len() as int].0@ {
                            let j = choose|j: int|
                                0 <= j < before.len() && (#[trigger] before[j]).0@ == k;
                            assert(entries@[j] == before[j]);
                        }
                    }
                }
            },
        }
        assert(table_wf(entries@, new_map));
        *self = PendingTable { entries, waiting: Ghost(new_map) };
    }

    /// Takes out the caller that waits under `id`, if any.
    pub fn take(&mut self, id: &str) -> (r: Option<H>)
        ensures
            old(self)@.contains_key(id@) ==> r == Some(old(self)@[id@]) && final(self)@ == old(
                self,
            )@.remove(id@),
            !old(self)@.contains_key(id@) ==> r is None && final(self)@ == old(self)@,
    {
        proof {
            use_type_invariant(&*self);
        }
        match self.position(id) {
            None => None,
            Some(i) => {
                let ghost old_map = self@;
                let ghost new_map = old_map.remove(id@);
                let mut tmp = PendingTable { entries: Vec::new(), waiting: Ghost(Map::empty()) };
                std::mem::swap(self, &mut tmp);
                let PendingTable { mut entries, waiting: _ } = tmp;
                let ghost before = entries@;
                assert(table_wf(before, old_map));
                let (_, handler) = entries.remove(i);
                proof {
                    assert forall|a: int, b: int|
                        0 <= a < b < entries@.len() implies (#[trigger] entries@[a]).0@
                        != (#[trigger] entries@[b]).0@ by {
                        let a0 = if a < i { a } else { a + 1 };
                        let b0 = if b < i { b } else { b + 1 };
                        assert(entries@[a] == before[a0]);
                        assert(entries@[b] == before[b0]);
                        assert(before[a0].0@ != before[b0].0@);
                    }
                    assert forall|a: int| 0 <= a < entries@.len() implies new_map.contains_key(
                        (#[trigger] entries@[a]).0@,
                    ) && new_map[entries@[a].0@] == entries@[a].1 by {
                        let a0 = if a < i { a } else { a + 1 };
                        assert(entries@[a] == before[a0]);
                        assert(before[a0] == #[trigger] before[a0]);
                        assert(before[a0].0@ != before[i as int].0@);
                    }
                    assert forall|k: Seq<char>| #[trigger] new_map.contains_key(k) implies exists|
                        j: int,
                    |
                        0 <= j < entries@.len() && (#[trigger] entries@[j]).0@ == k by {
                        let j0 = choose|j: int|
                            0 <= j < before.len() && (#[trigger] before[j]).0@ == k;
                        assert(j0 != i);
                        let j = if j0 < i { j0 } else { j0 - 1 };
                        assert(entries@[j] == before[j0]);
                    }
                }
                assert(table_wf(entries@, new_map));
                *self = PendingTable { entries, waiting: Ghost(new_map) };
                Some(handler)
            },
        }
    }

    /// Forgets every waiting caller, as when the connection is lost.
    pub fn clear(&mut self)
        ensures
            final(self)@ == Map::<Seq<char>, H>::empty(),
    {
        *self = PendingTable::new();
    }

    /// Puts `handler` under a new, random request id (a version 4 UUID) and
    /// builds the request that carries the call; answers to that request go
    /// to `handler`. Should the random id equal one that already waits, the
    /// caller waiting under it is displaced, as by `register`.
    pub fn register_request(&mut self, method: &str, params: JsonValue, handler: H) -> (r: (
        String,
        JsonValue,
    ))
        ensures
            final(self)@ == old(self)@.insert(r.0@, handler),
            r.1@ == request_json(r.0@, method@, params@),
    {
        let id = fresh_request_id();
        let frame = request_frame(id.as_str(), method, params);
        let key = id.clone();
        self.register(key, handler);
        (id, frame)
    }

    /// Reads a message from aria2 and decides what is done with it.
    pub fn handle_message(&mut self, msg: &JsonValue) -> (r: Incoming<H>)
        ensures
            (final(self)@, incoming_view(r)) == handle(old(self)@, msg@),
    {
        match read_message_value(msg) {
            Some(Message::Reply { id, result }) => match self.take(id.as_str()) {
                Some(h) => Incoming::Deliver(h, RpcResponse::Success(result)),
                None => Incoming::Unclaimed,
            },
            Some(Message::Error { id, error }) => match self.take(id.as_str()) {
                Some(h) => Incoming::Deliver(h, RpcResponse::Error(error)),
                None => Incoming::Unclaimed,
            },
            Some(Message::Notification { method, gid }) => Incoming::Notify { method, gid },
            None => Incoming::Malformed,
        }
    }
}

} // verus!

verus! {

// ---------------------------------------------------------------------------
// Batches.
// ---------------------------------------------------------------------------

/// Why the callers of a batch got no answers.
#[derive(Debug)]
pub enum BatchFailure<E> {
    /// The multicall itself failed.
    Call(E),
    /// aria2's reply to the multicall was not an array of arrays.
    Malformed,
}

/// Shares out the reply of a multicall among the callers whose calls it
/// carried, in order: the `i`-th result goes to the `i`-th caller. Callers
/// beyond the last result get nothing.
pub fn batch_deliveries<H, E>(reply: std::result::Result<JsonValue, E>, waiting: Vec<H>) -> (r:
    std::result::Result<Vec<(H, JsonValue)>, BatchFailure<E>>)
    ensures
        match reply {
            Err(e) => r matches Err(BatchFailure::Call(f)) && f == e,
            Ok(v) => match multicall_results(v@) {
                None => r matches Err(BatchFailure::Malformed),
                Some(results) => r matches Ok(out) && out@.len() == (if results.len()
                    < waiting@.len() {
                    results.len()
                } else {
                    waiting@.len()
                }) && forall|i: int|
                    0 <= i < out@.len() ==> (#[trigger] out@[i]).0 == waiting@[i] && out@[i].1@
                        == results[i],
            },
        },
{
    match reply {
        Err(e) => Err(BatchFailure::Call(e)),
        Ok(v) => match MultiResponse::from_json(&v) {
            None => Err(BatchFailure::Malformed),
            Some(m) => {
                let ghost results = json_items(m.0);
                let mut values = m.0.into_vec();
                let mut callers = waiting;
                let ghost all_values = values@;
                let ghost all_callers = callers@;
                let n: usize = if values.len() < callers.len() {
                    values.len()
                } else {
                    callers.len()
                };
                let mut out: Vec<(H, JsonValue)> = Vec::new();
                let mut k: usize = 0;
                while k < n
                    invariant
                        n <= all_values.len(),
                        n <= all_callers.len(),
                        k <= n,
                        json_views(all_values) == results,
                        values@ == all_values.subrange(k as int, all_values.len() as int),
                        callers@ == all_callers.subrange(k as int, all_callers.len() as int),
                        out@.len() == k,
                        forall|i: int|
                            0 <= i < k ==> (#[trigger] out@[i]).0 == all_callers[i] && out@[i].1
                                == all_values[i],
                    decreases n - k,
                {
                    let h = callers.remove(0);
                    let x = values.remove(0);
                    out.push((h, x));
                    k = k + 1;
                    assert(values@ =~= all_values.subrange(k as int, all_values.len() as int));
                    assert(callers@ =~= all_callers.subrange(k as int, all_callers.len() as int));
                }
                assert forall|i: int| 0 <= i < out@.len() implies out@[i].1@ == results[i] by {
                    assert(json_views(all_values)[i] == all_values[i]@);
                }
                Ok(out)
            },
        },
    }
}

// ---------------------------------------------------------------------------
// Laws of the dispatch.
// ---------------------------------------------------------------------------

/// In an object whose member names are distinct, a name names the member
/// that has it, or nothing.
pub proof fn lemma_distinct_keys_lookup(fields: Seq<(Seq<char>, Json)>, key: Seq<char>)
    requires
        forall|i: int, j: int|
            0 <= i < j < fields.len() ==> (#[trigger] fields[i]).0 != (#[trigger] fields[j]).0,
    ensures
        (forall|i: int| 0 <= i < fields.len() ==> (#[trigger] fields[i]).0 != key) ==> key_count(
            fields,
            key,
        ) == 0 && first_value(fields, key) is None,
        forall|i: int|
            0 <= i < fields.len() && (#[trigger] fields[i]).0 == key ==> key_count(fields, key) == 1
                && first_value(fields, key) == Some(fields[i].1),
    decreases fields.len(),
{
    if fields.len() > 0 {
        let front = fields.drop_last();
        assert forall|i: int, j: int|
            0 <= i < j < front.len() implies (#[trigger] front[i]).0 != (#[trigger] front[j]).0 by {
            assert(front[i] == fields[i] && front[j] == fields[j]);
        }
        lemma_distinct_keys_lookup(front, key);
        assert forall|i: int| 0 <= i < fields.len() && (#[trigger] fields[i]).0 == key implies key_count(
            fields,
            key,
        ) == 1 && first_value(fields, key) == Some(fields[i].1) by {
            if i < fields.len() - 1 {
                assert(front[i] == fields[i]);
                assert(fields.last().0 != key);
            } else {
                assert forall|j: int| 0 <= j < front.len() implies (#[trigger] front[j]).0
                    != key by {
                    assert(front[j] == fields[j]);
                }
            }
        }
        if forall|i: int| 0 <= i < fields.len() ==> (#[trigger] fields[i]).0 != key {
            assert forall|j: int| 0 <= j < front.len() implies (#[trigger] front[j]).0 != key by {
                assert(front[j] == fields[j]);
            }
            assert(fields[fields.len() - 1].0 != key);
        }
    }
}

/// Three members with pairwise distinct names have distinct names.
proof fn lemma_three_distinct(fields: Seq<(Seq<char>, Json)>)
    requires
        fields.len() == 3,
        fields[0].0 != fields[1].0,
        fields[0].0 != fields[2].0,
        fields[1].0 != fields[2].0,
    ensures
        forall|i: int, j: int|
            0 <= i < j < fields.len() ==> (#[trigger] fields[i]).0 != (#[trigger] fields[j]).0,
{
}

/// Two members with distinct names have distinct names.
proof fn lemma_two_distinct(fields: Seq<(Seq<char>, Json)>)
    requires
        fields.len() == 2,
        fields[0].0 != fields[1].0,
    ensures
        forall|i: int, j: int|
            0 <= i < j < fields.len() ==> (#[trigger] fields[i]).0 != (#[trigger] fields[j]).0,
{
}

/// aria2's answer to the request with id `id`: its result.
pub open spec fn reply_json(id: Seq<char>, result: Json) -> Json {
    Json::Object(
        seq![("id"@, Json::Str(id)), ("jsonrpc"@, Json::Str("2.0"@)), ("result"@, result)],
    )
}

/// aria2's answer to the request with id `id`: an error.
pub open spec fn error_json(id: Seq<char>, code: u32, message: Seq<char>) -> Json {
    Json::Object(
        seq![
            ("id"@, Json::Str(id)),
            ("jsonrpc"@, Json::Str("2.0"@)),
            ("error"@, Json::Object(
                seq![("code"@, Json::Int(code as int)), ("message"@, Json::Str(message))],
            )),
        ],
    )
}

/// A notification from aria2 about the download `gid`.
pub open spec fn notification_json(method: Seq<char>, gid: Seq<char>) -> Json {
    Json::Object(
        seq![
            ("jsonrpc"@, Json::Str("2.0"@)),
            ("method"@, Json::Str(method)),
            ("params"@, Json::Object(seq![("gid"@, Json::Str(gid))])),
        ],
    )
}

/// A result reaches the caller that waits under the request's id, and that
/// caller no longer waits; the other callers keep waiting.
pub proof fn lemma_reply_reaches_its_caller<H>(
    pending: Map<Seq<char>, H>,
    id: Seq<char>,
    handler: H,
    result: Json,
)
    ensures
        handle(pending.insert(id, handler), reply_json(id, result)) == (
            pending.remove(id),
            IncomingModel::Deliver(handler, AnswerModel::Success(result)),
        ),
{
    reveal_strlit("id");
    reveal_strlit("jsonrpc");
    reveal_strlit("result");
    let fields = seq![("id"@, Json::Str(id)), ("jsonrpc"@, Json::Str("2.0"@)), ("result"@, result)];
    assert("id"@.len() == 2 && "jsonrpc"@.len() == 7 && "result"@.len() == 6);
    lemma_three_distinct(fields);
    lemma_distinct_keys_lookup(fields, "id"@);
    lemma_distinct_keys_lookup(fields, "result"@);
    assert(fields[0].0 == "id"@);
    assert(fields[2].0 == "result"@);
    assert(read_message(reply_json(id, result)) == Some(MessageModel::Reply { id, result }));
    assert(pending.insert(id, handler).remove(id) =~= pending.remove(id));
}

/// An error answer reaches the caller that waits under the request's id,
/// and that caller no longer waits.
pub proof fn lemma_error_reaches_its_caller<H>(
    pending: Map<Seq<char>, H>,
    id: Seq<char>,
    handler: H,
    code: u32,
    message: Seq<char>,
)
    ensures
        handle(pending.insert(id, handler), error_json(id, code, message)) == (
            pending.remove(id),
            IncomingModel::Deliver(handler, AnswerModel::Error { code, message }),
        ),
{
    reveal_strlit("id");
    reveal_strlit("jsonrpc");
    reveal_strlit("result");
    reveal_strlit("method");
    reveal_strlit("error");
    reveal_strlit("code");
    reveal_strlit("message");
    let inner = seq![("code"@, Json::Int(code as int)), ("message"@, Json::Str(message))];
    let fields = seq![
        ("id"@, Json::Str(id)),
        ("jsonrpc"@, Json::Str("2.0"@)),
        ("error"@, Json::Object(inner)),
    ];
    assert("id"@.len() == 2 && "jsonrpc"@.len() == 7 && "result"@.len() == 6);
    assert("method"@.len() == 6 && "error"@.len() == 5 && "code"@.len() == 4);
    assert("message"@.len() == 7);
    lemma_three_distinct(fields);
    lemma_two_distinct(inner);
    lemma_distinct_keys_lookup(fields, "id"@);
    lemma_distinct_keys_lookup(fields, "result"@);
    lemma_distinct_keys_lookup(fields, "method"@);
    lemma_distinct_keys_lookup(fields, "error"@);
    lemma_distinct_keys_lookup(inner, "code"@);
    lemma_distinct_keys_lookup(inner, "message"@);
    assert(fields[0].0 == "id"@);
    assert(fields[2].0 == "error"@);
    assert(inner[0].0 == "code"@);
    assert(inner[1].0 == "message"@);
    assert(read_reply(error_json(id, code, message)) is None);
    assert(read_notification(error_json(id, code, message)) is None);
    assert(read_message(error_json(id, code, message)) == Some(
        MessageModel::Error { id, code, message },
    ));
    assert(pending.insert(id, handler).remove(id) =~= pending.remove(id));
}

/// An answer to a request that no caller waits for changes nothing.
pub proof fn lemma_unclaimed_reply_changes_nothing<H>(
    pending: Map<Seq<char>, H>,
    id: Seq<char>,
    result: Json,
)
    requires
        !pending.contains_key(id),
    ensures
        handle(pending, reply_json(id, result)) == (pending, IncomingModel::<H>::Unclaimed),
{
    reveal_strlit("id");
    reveal_strlit("jsonrpc");
    reveal_strlit("result");
    let fields = seq![("id"@, Json::Str(id)), ("jsonrpc"@, Json::Str("2.0"@)), ("result"@, result)];
    assert("id"@.len() == 2 && "jsonrpc"@.len() == 7 && "result"@.len() == 6);
    lemma_three_distinct(fields);
    lemma_distinct_keys_lookup(fields, "id"@);
    lemma_distinct_keys_lookup(fields, "result"@);
    assert(fields[0].0 == "id"@);
    assert(fields[2].0 == "result"@);
    assert(read_message(reply_json(id, result)) == Some(MessageModel::Reply { id, result }));
}

/// A notification goes to the callback and leaves the waiting callers as
/// they are.
pub proof fn lemma_notification_changes_nothing<H>(
    pending: Map<Seq<char>, H>,
    method: Seq<char>,
    gid: Seq<char>,
)
    ensures
        handle(pending, notification_json(method, gid)) == (
            pending,
            IncomingModel::<H>::Notify { method, gid },
        ),
{
    reveal_strlit("id");
    reveal_strlit("jsonrpc");
    reveal_strlit("result");
    reveal_strlit("method");
    reveal_strlit("params");
    reveal_strlit("gid");
    let inner = seq![("gid"@, Json::Str(gid))];
    let fields = seq![
        ("jsonrpc"@, Json::Str("2.0"@)),
        ("method"@, Json::Str(method)),
        ("params"@, Json::Object(inner)),
    ];
    assert("method"@[0] != "params"@[0]);
    assert("result"@[0] != "method"@[0]);
    assert("result"@[0] != "params"@[0]);
    assert("id"@.len() == 2 && "jsonrpc"@.len() == 7 && "result"@.len() == 6);
    lemma_three_distinct(fields);
    lemma_distinct_keys_lookup(fields, "id"@);
    lemma_distinct_keys_lookup(fields, "result"@);
    lemma_distinct_keys_lookup(fields, "method"@);
    lemma_distinct_keys_lookup(fields, "params"@);
    assert forall|i: int, j: int| 0 <= i < j < inner.len() implies (#[trigger] inner[i]).0
        != (#[trigger] inner[j]).0 by {}
    lemma_distinct_keys_lookup(inner, "gid"@);
    assert(fields[1].0 == "method"@);
    assert(fields[2].0 == "params"@);
    assert(inner[0].0 == "gid"@);
    assert(read_reply(notification_json(method, gid)) is None);
    assert(read_message(notification_json(method, gid)) == Some(
        MessageModel::Notification { method, gid },
    ));
}

} // verus!

verus! {

// ---------------------------------------------------------------------------
// Rounds of a batching client.
// ---------------------------------------------------------------------------

/// The calls of a batch, in order, as the entries of a multicall.
pub open spec fn round_entries<H>(batch: Seq<(BatchEntry, H)>) -> Seq<(Seq<char>, crate::call::ParamsModel)> {
    Seq::new(batch.len(), |i: int| (batch[i].0.method@, params_view(batch[i].0.params)))
}

/// The callers of a batch, in order.
pub open spec fn round_callers<H>(batch: Seq<(BatchEntry, H)>) -> Seq<H> {
    Seq::new(batch.len(), |i: int| batch[i].1)
}

/// Turns the calls gathered since the last round into one multicall and the
/// list of their callers, both in the order the calls came; nothing when no
/// call came.
pub fn take_round<H>(batch: Vec<(BatchEntry, H)>) -> (r: Option<(MultiCall, Vec<H>)>)
    ensures
        (batch@.len() == 0) == (r is None),
        r matches Some((m, callers)) ==> entry_views(m.calls@) == round_entries(batch@)
            && callers@ == round_callers(batch@),
{
    if batch.len() == 0 {
        return None;
    }
    let ghost all = batch@;
    let mut rest = batch;
    let mut calls: Vec<BatchEntry> = Vec::new();
    let mut callers: Vec<H> = Vec::new();
    let n = rest.len();
    let mut k: usize = 0;
    while k < n
        invariant
            n == all.len(),
            k <= n,
            rest@ == all.subrange(k as int, n as int),
            calls@.len() == k,
            callers@.len() == k,
            forall|i: int| 0 <= i < k ==> (#[trigger] calls@[i]) == all[i].0,
            forall|i: int| 0 <= i < k ==> (#[trigger] callers@[i]) == all[i].1,
        decreases n - k,
    {
        let (call, caller) = rest.remove(0);
        calls.push(call);
        callers.push(caller);
        k = k + 1;
        assert(rest@ =~= all.subrange(k as int, n as int));
    }
    assert(entry_views(calls@) =~= round_entries(all));
    assert(callers@ =~= round_callers(all));
    Some((MultiCall { calls }, callers))
}

// ---------------------------------------------------------------------------
// The life of a connection.
// ---------------------------------------------------------------------------

/// How long a request may take to go out before the connection is given up, in seconds.
pub const SEND_TIMEOUT_SECS: u64 = 10;

/// How long an attempt to connect again may take, in seconds.
pub const CONNECT_TIMEOUT_SECS: u64 = 10;

/// How long to wait after a failed attempt to connect before the next, in seconds.
pub const RETRY_DELAY_SECS: u64 = 10;

/// Where a connection stands.
#[derive(Debug, Clone, Copy, PartialEq, Eq)]
pub enum Phase {
    /// The websocket is up; requests go out and messages come in.
    Connected,
    /// The websocket was lost; attempts to connect again go on.
    Reconnecting,
    /// The client is gone; nothing more happens.
    Stopped,
}

/// What happened on a connection.
#[derive(Debug)]
pub enum ConnEvent<H> {
    /// The client that owns the connection is gone.
    ShutdownRequested,
    /// A caller made a call.
    Request { method: &'static str, params: JsonValue, handler: H },
    /// A request did not go out within `SEND_TIMEOUT_SECS`.
    SendTimedOut,
    /// A request failed to go out in time for another reason.
    SendFailed,
    /// A text message came, holding this JSON.
    Message(JsonValue),
    /// A text message came that is not JSON.
    Unreadable,
    /// A message that is not text came.
    OtherFrame,
    /// The websocket failed.
    SocketFailed,
    /// An attempt to connect again failed or timed out.
    ConnectFailed,
    /// An attempt to connect again succeeded.
    Reconnected,
}

/// What the connection does next.
#[derive(Debug)]
pub enum ConnAction<H> {
    /// End the connection's task.
    Stop,
    /// Send this request, made under this id.
    Send { id: String, frame: JsonValue },
    /// Hand the answer to the caller that waits for it.
    Deliver(H, RpcResponse),
    /// Tell the notification callback.
    Notify { method: String, gid: String },
    /// Report a message that could not be read.
    ReportMalformed,
    /// Nothing.
    Nothing,
    /// Start to connect again; the callers that waited were dropped.
    Reconnect,
    /// Wait this many seconds, then try to connect again.
    RetryAfter { secs: u64 },
    /// Go on with the new websocket.
    Resume,
}

/// A connection: where it stands, and the callers that wait for answers.
pub struct Connection<H> {
    pub phase: Phase,
    pub pending: PendingTable<H>,
}

/// Whether the action is what the connection does with a message, given
/// what the table of waiting callers decided.
pub open spec fn message_action<H>(a: ConnAction<H>, decided: IncomingModel<H>) -> bool {
    match decided {
        IncomingModel::Deliver(h, answer) => a matches ConnAction::Deliver(g, b) && g == h
            && answer_view(b) == answer,
        IncomingModel::Notify { method, gid } => a matches ConnAction::Notify { method: m, gid: g }
            && m@ == method && g@ == gid,
        IncomingModel::Unclaimed => a is Nothing,
        IncomingModel::Malformed => a is ReportMalformed,
    }
}

impl<H> Connection<H> {
    /// A connection whose websocket is up, with no waiting callers.
    pub fn new() -> (c: Self)
        ensures
            c.phase == Phase::Connected,
            c.pending@ == Map::<Seq<char>, H>::empty(),
    {
        Connection { phase: Phase::Connected, pending: PendingTable::new() }
    }

    /// Decides what the connection does after `ev`, and where it then stands.
    /// An event that does not belong to the phase (such as a call while
    /// connecting again, whose caller is then dropped) changes nothing.
    pub fn step(&mut self, ev: ConnEvent<H>) -> (r: ConnAction<H>)
        ensures
            old(self).phase == Phase::Stopped ==> final(self).phase == Phase::Stopped
                && final(self).pending@ == old(self).pending@ && r is Nothing,
            old(self).phase != Phase::Stopped && ev is ShutdownRequested ==> final(self).phase
                == Phase::Stopped && final(self).pending@ == old(self).pending@ && r is Stop,
            old(self).phase == Phase::Connected ==> match ev {
                ConnEvent::ShutdownRequested => true,
                ConnEvent::Request { method, params, handler } => final(self).phase
                    == Phase::Connected && (r matches ConnAction::Send { id, frame }
                    && final(self).pending@ == old(self).pending@.insert(id@, handler) && frame@
                    == request_json(id@, method@, params@)),
                ConnEvent::SendTimedOut | ConnEvent::SocketFailed => final(self).phase
                    == Phase::Reconnecting && final(self).pending@ == Map::<Seq<char>, H>::empty()
                    && r is Reconnect,
                ConnEvent::Message(m) => final(self).phase == Phase::Connected
                    && final(self).pending@ == handle(old(self).pending@, m@).0 && message_action(
                    r,
                    handle(old(self).pending@, m@).1,
                ),
                ConnEvent::Unreadable => final(self).phase == Phase::Connected
                    && final(self).pending@ == old(self).pending@ && r is ReportMalformed,
                _ => final(self).phase == Phase::Connected && final(self).pending@ == old(
                    self,
                ).pending@ && r is Nothing,
            },
            old(self).phase == Phase::Reconnecting ==> match ev {
                ConnEvent::ShutdownRequested => true,
                ConnEvent::ConnectFailed => final(self).phase == Phase::Reconnecting
                    && final(self).pending@ == old(self).pending@ && r == ConnAction::<
                    H,
                >::RetryAfter { secs: RETRY_DELAY_SECS },
                ConnEvent::Reconnected => final(self).phase == Phase::Connected
                    && final(self).pending@ == old(self).pending@ && r is Resume,
                _ => final(self).phase == Phase::Reconnecting && final(self).pending@ == old(
                    self,
                ).pending@ && r is Nothing,
            },
    {
        match self.phase {
            Phase::Stopped => ConnAction::Nothing,
            Phase::Connected => match ev {
                ConnEvent::ShutdownRequested => {
                    self.phase = Phase::Stopped;
                    ConnAction::Stop
                },
                ConnEvent::Request { method, params, handler } => {
                    let (id, frame) = self.pending.register_request(method, params, handler);
                    ConnAction::Send { id, frame }
                },
                ConnEvent::SendTimedOut | ConnEvent::SocketFailed => {
                    self.pending.clear();
                    self.phase = Phase::Reconnecting;
                    ConnAction::Reconnect
                },
                ConnEvent::Message(m) => match self.pending.handle_message(&m) {
                    Incoming::Deliver(h, answer) => ConnAction::Deliver(h, answer),
                    Incoming::Notify { method, gid } => ConnAction::Notify { method, gid },
                    Incoming::Unclaimed => ConnAction::Nothing,
                    Incoming::Malformed => ConnAction::ReportMalformed,
                },
                ConnEvent::Unreadable => ConnAction::ReportMalformed,
                _ => ConnAction::Nothing,
            },
            Phase::Reconnecting => match ev {
                ConnEvent::ShutdownRequested => {
                    self.phase = Phase::Stopped;
                    ConnAction::Stop
                },
                ConnEvent::ConnectFailed => ConnAction::RetryAfter { secs: RETRY_DELAY_SECS },
                ConnEvent::Reconnected => {
                    self.phase = Phase::Connected;
                    ConnAction::Resume
                },
                _ => ConnAction::Nothing,
            },
        }
    }
}

} // verus!

verus! {

// ---------------------------------------------------------------------------
// Reading does not depend on the order of an object's members.
// ---------------------------------------------------------------------------

/// No two members of the object share a name.
pub open spec fn distinct_names(fields: Seq<(Seq<char>, Json)>) -> bool {
    forall|i: int, j: int|
        0 <= i < j < fields.len() ==> (#[trigger] fields[i]).0 != (#[trigger] fields[j]).0
}

/// Two objects hold the same members, each object naming every member
/// once: the one is a reordering of the other.
pub open spec fn same_members(a: Seq<(Seq<char>, Json)>, b: Seq<(Seq<char>, Json)>) -> bool {
    &&& distinct_names(a)
    &&& distinct_names(b)
    &&& forall|m: (Seq<char>, Json)| a.contains(m) <==> b.contains(m)
}

/// A member is found by its name whatever the order of the members.
pub proof fn lemma_unique_field_ignores_order(
    a: Seq<(Seq<char>, Json)>,
    b: Seq<(Seq<char>, Json)>,
    key: Seq<char>,
)
    requires
        same_members(a, b),
    ensures
        unique_field(a, key) == unique_field(b, key),
{
    lemma_distinct_keys_lookup(a, key);
    lemma_distinct_keys_lookup(b, key);
    if exists|i: int| 0 <= i < a.len() && (#[trigger] a[i]).0 == key {
        let i = choose|i: int| 0 <= i < a.len() && (#[trigger] a[i]).0 == key;
        assert(a.contains(a[i]));
        assert(b.contains(a[i]));
        let j = choose|j: int| 0 <= j < b.len() && b[j] == a[i];
        assert(b[j].0 == key);
    } else {
        assert forall|j: int| 0 <= j < b.len() implies (#[trigger] b[j]).0 != key by {
            assert(b.contains(b[j]));
            assert(a.contains(b[j]));
            let i = choose|i: int| 0 <= i < a.len() && a[i] == b[j];
            assert(a[i].0 == b[j].0);
        }
        assert forall|i: int| 0 <= i < a.len() implies (#[trigger] a[i]).0 != key by {}
    }
}

/// A record read from an object does not depend on the order of its members.
pub proof fn lemma_record_ignores_order(
    a: Seq<(Seq<char>, Json)>,
    b: Seq<(Seq<char>, Json)>,
    f1: Seq<char>,
    f2: Seq<char>,
)
    requires
        same_members(a, b),
    ensures
        record1(Json::Object(a), f1) == record1(Json::Object(b), f1),
        record2(Json::Object(a), f1, f2) == record2(Json::Object(b), f1, f2),
{
    lemma_unique_field_ignores_order(a, b, f1);
    lemma_unique_field_ignores_order(a, b, f2);
}

/// What a message is does not depend on the order of its members: an
/// object and any reordering of it read alike.
pub proof fn lemma_read_message_ignores_order(a: Seq<(Seq<char>, Json)>, b: Seq<(Seq<char>, Json)>)
    requires
        same_members(a, b),
    ensures
        read_message(Json::Object(a)) == read_message(Json::Object(b)),
{
    lemma_record_ignores_order(a, b, "id"@, "result"@);
    lemma_record_ignores_order(a, b, "method"@, "params"@);
    lemma_record_ignores_order(a, b, "id"@, "error"@);
}

/// An error answer whose members come in any order (such as `error`,
/// `id`, `jsonrpc`, the sorted order in which aria2 writes them), and whose
/// `error` object holds `code` and `message` in any order, reaches the
/// caller that waits under its id, and that caller no longer waits.
pub proof fn lemma_error_in_any_order_reaches_its_caller<H>(
    pending: Map<Seq<char>, H>,
    id: Seq<char>,
    handler: H,
    code: u32,
    message: Seq<char>,
    inner: Seq<(Seq<char>, Json)>,
    fields: Seq<(Seq<char>, Json)>,
)
    requires
        same_members(inner, seq![("code"@, Json::Int(code as int)), ("message"@, Json::Str(message))]),
        same_members(
            fields,
            seq![
                ("id"@, Json::Str(id)),
                ("jsonrpc"@, Json::Str("2.0"@)),
                ("error"@, Json::Object(inner)),
            ],
        ),
    ensures
        handle(pending.insert(id, handler), Json::Object(fields)) == (
            pending.remove(id),
            IncomingModel::Deliver(handler, AnswerModel::Error { code, message }),
        ),
{
    let canon_inner = seq![("code"@, Json::Int(code as int)), ("message"@, Json::Str(message))];
    let with_inner = seq![
        ("id"@, Json::Str(id)),
        ("jsonrpc"@, Json::Str("2.0"@)),
        ("error"@, Json::Object(inner)),
    ];
    lemma_read_message_ignores_order(fields, with_inner);
    // The reading of `with_inner` is that of `error_json`, whose inner
    // object is the canonical one.
    reveal_strlit("id");
    reveal_strlit("jsonrpc");
    reveal_strlit("result");
    reveal_strlit("method");
    reveal_strlit("error");
    reveal_strlit("code");
    reveal_strlit("message");
    assert("id"@.len() == 2 && "jsonrpc"@.len() == 7 && "result"@.len() == 6);
    assert("method"@.len() == 6 && "error"@.len() == 5 && "code"@.len() == 4);
    assert("message"@.len() == 7);
    lemma_record_ignores_order(inner, canon_inner, "code"@, "message"@);
    lemma_three_distinct(with_inner);
    lemma_two_distinct(canon_inner);
    lemma_distinct_keys_lookup(with_inner, "id"@);
    lemma_distinct_keys_lookup(with_inner, "result"@);
    lemma_distinct_keys_lookup(with_inner, "method"@);
    lemma_distinct_keys_lookup(with_inner, "error"@);
    lemma_distinct_keys_lookup(canon_inner, "code"@);
    lemma_distinct_keys_lookup(canon_inner, "message"@);
    assert(with_inner[0].0 == "id"@);
    assert(with_inner[2].0 == "error"@);
    assert(canon_inner[0].0 == "code"@);
    assert(canon_inner[1].0 == "message"@);
    assert(read_reply(Json::Object(with_inner)) is None);
    assert(read_notification(Json::Object(with_inner)) is None);
    assert(read_message(Json::Object(with_inner)) == Some(
        MessageModel::Error { id, code, message },
    ));
    assert(pending.insert(id, handler).remove(id) =~= pending.remove(id));
}

} // verus!
