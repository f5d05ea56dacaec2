//! The calls of aria2's JSON-RPC interface, and how each lays out its
//! parameters.
//!
//! Every call's parameters start with the secret token when the connection
//! has one. A multicall carries several calls in one request: each of them
//! is laid out as it would be on its own, token included.
use crate::encoding::{base64_decode, base64_standard, lemma_base64_round_trip};
use crate::json::{
    json_str, json_views, lemma_json_views_empty, lemma_json_views_push, Json, JsonValue,
};
use crate::options::{options_json, TaskOptions};
use crate::small_vec::{
    json_items, stat_key_items, status_key_items, string_items, string_views, SmallVec,
};
use crate::status::{stat_key_name, status_key_name, Stat, StatKey, Status, StatusKey};
use base64::Engine;
use std::borrow::Cow;
use vstd::prelude::*;

verus! {

/// The model of a call's parameters.
pub enum ParamsModel {
    /// Positional parameters, sent after the token.
    Positional(Seq<Json>),
    /// Calls bundled into one request, each with its method's name.
    Batch(Seq<(Seq<char>, ParamsModel)>),
}

/// A call's parameters, before the token of a connection is put in.
#[derive(Debug)]
pub enum CallParams {
    /// Positional parameters, sent after the token.
    Positional(Vec<JsonValue>),
    /// Calls bundled into one request.
    Batch(Vec<BatchEntry>),
}

/// One call inside a multicall: its method's name and its parameters.
#[derive(Debug)]
pub struct BatchEntry {
    pub method: &'static str,
    pub params: CallParams,
}

/// The model of a call's parameters.
pub open spec fn params_view(p: CallParams) -> ParamsModel
    decreases p, 1nat,
{
    match p {
        CallParams::Positional(items) => ParamsModel::Positional(json_views(items@)),
        CallParams::Batch(entries) => ParamsModel::Batch(entry_views(entries@)),
    }
}

/// The models of the calls inside a multicall.
pub open spec fn entry_views(entries: Seq<BatchEntry>) -> Seq<(Seq<char>, ParamsModel)>
    decreases entries, 0nat,
{
    Seq::new(
        entries.len(),
        |i: int|
            if 0 <= i < entries.len() {
                (entries[i].method@, params_view(entries[i].params))
            } else {
                (Seq::empty(), ParamsModel::Positional(Seq::empty()))
            },
    )
}

impl View for CallParams {
    type V = ParamsModel;

    open spec fn view(&self) -> ParamsModel {
        params_view(*self)
    }
}

/// The token, as the parameter that leads every call when there is one.
pub open spec fn token_params(token: Option<Seq<char>>) -> Seq<Json> {
    match token {
        Some(t) => seq![Json::Str(t)],
        None => Seq::empty(),
    }
}

/// The model of an optional token.
pub open spec fn token_view(token: Option<&str>) -> Option<Seq<char>> {
    match token {
        Some(t) => Some(t@),
        None => None,
    }
}

/// The parameters that are sent for a call, given the connection's token.
pub open spec fn render(p: ParamsModel, token: Option<Seq<char>>) -> Seq<Json>
    decreases p,
{
    match p {
        ParamsModel::Positional(items) => token_params(token) + items,
        ParamsModel::Batch(entries) => seq![
            Json::Array(
                Seq::new(
                    entries.len(),
                    |i: int|
                        if 0 <= i < entries.len() {
                            batch_entry_json(
                                entries[i].0,
                                render(entries[i].1, token),
                            )
                        } else {
                            Json::Null
                        },
                ),
            ),
        ],
    }
}

/// How one call inside a multicall is sent.
pub open spec fn batch_entry_json(method: Seq<char>, params: Seq<Json>) -> Json {
    Json::Object(seq![("methodName"@, Json::Str(method)), ("params"@, Json::Array(params))])
}

/// Appends the parameters that are sent for `p` with `token` to `out`.
pub fn render_into(p: &CallParams, token: Option<&str>, out: &mut Vec<JsonValue>)
    ensures
        json_views(final(out)@) == json_views(old(out)@) + render(p@, token_view(token)),
    decreases p,
{
    match p {
        CallParams::Positional(items) => {
            let ghost start = out@;
            push_token(out, token);
            let ghost mid = out@;
            let mut i: usize = 0;
            while i < items.len()
                invariant
                    i <= items@.len(),
                    json_views(out@) == json_views(mid) + json_views(items@.take(i as int)),
                decreases items@.len() - i,
            {
                let item = items[i].duplicate();
                proof {
                    lemma_json_views_push(out@, item);
                    assert(items@.take(i + 1) == items@.take(i as int).push(items@[i as int]));
                    lemma_json_views_push(items@.take(i as int), items@[i as int]);
                }
                out.push(item);
                i = i + 1;
            }
            assert(items@.take(items@.len() as int) == items@);
            assert(json_views(out@) =~= json_views(old(out)@) + render(p@, token_view(token)));
        },
        CallParams::Batch(entries) => {
            let mut values: Vec<JsonValue> = Vec::new();
            let mut i: usize = 0;
            while i < entries.len()
                invariant
                    *p == CallParams::Batch(*entries),
                    i <= entries@.len(),
                    values@.len() == i,
                    forall|j: int|
                        0 <= j < i ==> (#[trigger] values@[j])@ == batch_entry_json(
                            entries@[j].method@,
                            render(params_view(entries@[j].params), token_view(token)),
                        ),
                decreases entries@.len() - i,
            {
                proof {
                    assert(decreases_to!(*p => p->Batch_0));
                    assert(decreases_to!(*entries => entries@));
                    assert(decreases_to!(entries@ => entries@[i as int]));
                    assert(decreases_to!(entries@[i as int] => entries@[i as int].params));
                }
                let mut inner: Vec<JsonValue> = Vec::new();
                render_into(&entries[i].params, token, &mut inner);
                proof {
                    lemma_json_views_empty();
                    assert(json_views(inner@) =~= render(
                        params_view(entries@[i as int].params),
                        token_view(token),
                    ));
                }
                let mut fields: Vec<(String, JsonValue)> = Vec::new();
                fields.push((String::from_str("methodName"), json_str(entries[i].method)));
                fields.push((String::from_str("params"), JsonValue::Array(inner)));
                let entry = JsonValue::Object(fields);
                assert(entry@ == batch_entry_json(
                    entries@[i as int].method@,
                    render(params_view(entries@[i as int].params), token_view(token)),
                )) by {
                    assert(crate::json::field_views(fields@) =~= seq![
                        ("methodName"@, Json::Str(entries@[i as int].method@)),
                        ("params"@, Json::Array(json_views(inner@))),
                    ]);
                }
                values.push(entry);
                i = i + 1;
            }
            let all = JsonValue::Array(values);
            proof {
                let m = params_view(*p);
                assert(m == ParamsModel::Batch(entry_views(entries@)));
                let rendered = render(m, token_view(token));
                assert(json_views(values@) =~= rendered[0]->Array_0);
                lemma_json_views_push(old(out)@, all);
            }
            out.push(all);
            assert(json_views(out@) =~= json_views(old(out)@) + render(p@, token_view(token)));
        },
    }
}

/// Appends the token, when there is one.
fn push_token(out: &mut Vec<JsonValue>, token: Option<&str>)
    ensures
        json_views(final(out)@) == json_views(old(out)@) + token_params(token_view(token)),
{
    match token {
        Some(t) => {
            let v = json_str(t);
            proof {
                lemma_json_views_push(out@, v);
            }
            out.push(v);
            assert(json_views(out@) =~= json_views(old(out)@) + token_params(token_view(token)));
        },
        None => {
            assert(json_views(out@) =~= json_views(old(out)@) + token_params(token_view(token)));
        },
    }
}

/// A call of aria2's JSON-RPC interface.
pub trait Call {
    /// The name of the method.
    spec fn spec_method(&self) -> Seq<char>;

    /// The model of the parameters.
    spec fn spec_params(&self) -> ParamsModel;

    /// The name of the method.
    fn method(&self) -> (m: &'static str)
        ensures
            m@ == self.spec_method(),
    ;

    /// The parameters, before a token is put in.
    fn params(&self) -> (p: CallParams)
        ensures
            p@ == self.spec_params(),
    ;

    /// Appends the parameters that are sent with `token` to `out`.
    fn serialize_params(&self, out: &mut Vec<JsonValue>, token: Option<&str>)
        ensures
            json_views(final(out)@) == json_views(old(out)@) + render(
                self.spec_params(),
                token_view(token),
            ),
    {
        let p = self.params();
        render_into(&p, token, out);
    }

    /// The parameters that are sent with `token`, as one JSON array.
    fn to_param(&self, token: Option<&str>) -> (v: JsonValue)
        ensures
            v@ == Json::Array(render(self.spec_params(), token_view(token))),
    {
        let mut out: Vec<JsonValue> = Vec::new();
        self.serialize_params(&mut out, token);
        proof {
            lemma_json_views_empty();
            assert(json_views(out@) =~= render(self.spec_params(), token_view(token)));
        }
        JsonValue::Array(out)
    }
}

/// A call whose reply has a known shape.
pub trait Reply {
    /// What the reply holds.
    type Reply;
}

// ---------------------------------------------------------------------------
// Pieces of parameters.
// ---------------------------------------------------------------------------

/// JSON strings holding the given texts.
pub open spec fn str_jsons(s: Seq<Seq<char>>) -> Seq<Json> {
    Seq::new(s.len(), |i: int| Json::Str(s[i]))
}

/// The options, as the parameter that ends a call when they are given.
pub open spec fn option_params(o: Option<TaskOptions>) -> Seq<Json> {
    match o {
        Some(opts) => seq![options_json(opts)],
        None => Seq::empty(),
    }
}

/// The keys of a status query, as the parameter that ends it when any are asked for.
pub open spec fn status_key_params(keys: Seq<StatusKey>) -> Seq<Json> {
    if keys.len() == 0 {
        Seq::empty()
    } else {
        seq![Json::Array(Seq::new(keys.len(), |i: int| Json::Str(status_key_name(keys[i]))))]
    }
}

/// The keys of a statistics query, as the parameter that ends it when any are asked for.
pub open spec fn stat_key_params(keys: Seq<StatKey>) -> Seq<Json> {
    if keys.len() == 0 {
        Seq::empty()
    } else {
        seq![Json::Array(Seq::new(keys.len(), |i: int| Json::Str(stat_key_name(keys[i]))))]
    }
}

/// A copy of the text of a `Cow<str>`.
fn cow_to_string(c: &Cow<'_, str>) -> (s: String)
    ensures
        s@ == c@,
{
    match c {
        Cow::Borrowed(b) => (*b).to_owned(),
        Cow::Owned(o) => o.clone(),
    }
}

/// A JSON array of strings holding copies of `items`.
fn strings_json(items: &[String]) -> (v: JsonValue)
    ensures
        v@ == Json::Array(str_jsons(string_views(items@))),
{
    let mut out: Vec<JsonValue> = Vec::new();
    let mut i: usize = 0;
    while i < items.len()
        invariant
            i <= items@.len(),
            out@.len() == i,
            forall|j: int| 0 <= j < i ==> (#[trigger] out@[j])@ == Json::Str(items@[j]@),
        decreases items@.len() - i,
    {
        out.push(JsonValue::Str(items[i].clone()));
        i = i + 1;
    }
    let v = JsonValue::Array(out);
    assert(json_views(out@) =~= str_jsons(string_views(items@)));
    v
}

/// Appends the options, when they are given.
fn push_options(out: &mut Vec<JsonValue>, options: &Option<TaskOptions>)
    ensures
        json_views(final(out)@) == json_views(old(out)@) + option_params(*options),
{
    match options {
        Some(o) => {
            let v = o.to_json();
            proof {
                lemma_json_views_push(out@, v);
            }
            out.push(v);
        },
        None => {},
    }
    assert(json_views(out@) =~= json_views(old(out)@) + option_params(*options));
}

/// Appends the status keys, when any are asked for.
fn push_status_keys(out: &mut Vec<JsonValue>, keys: &SmallVec<StatusKey>)
    ensures
        json_views(final(out)@) == json_views(old(out)@) + status_key_params(
            status_key_items(*keys),
        ),
{
    let ks = keys.as_slice();
    if ks.len() != 0 {
        let mut names: Vec<JsonValue> = Vec::new();
        let mut i: usize = 0;
        while i < ks.len()
            invariant
                i <= ks@.len(),
                names@.len() == i,
                forall|j: int|
                    0 <= j < i ==> (#[trigger] names@[j])@ == Json::Str(status_key_name(ks@[j])),
            decreases ks@.len() - i,
        {
            names.push(json_str(ks[i].as_str()));
            i = i + 1;
        }
        let v = JsonValue::Array(names);
        assert(json_views(names@) =~= Seq::new(
            ks@.len(),
            |k: int| Json::Str(status_key_name(ks@[k])),
        ));
        proof {
            lemma_json_views_push(out@, v);
        }
        out.push(v);
    }
    assert(json_views(out@) =~= json_views(old(out)@) + status_key_params(
        status_key_items(*keys),
    ));
}

/// Appends the statistics keys, when any are asked for.
fn push_stat_keys(out: &mut Vec<JsonValue>, keys: &SmallVec<StatKey>)
    ensures
        json_views(final(out)@) == json_views(old(out)@) + stat_key_params(stat_key_items(*keys)),
{
    let ks = keys.as_slice();
    if ks.len() != 0 {
        let mut names: Vec<JsonValue> = Vec::new();
        let mut i: usize = 0;
        while i < ks.len()
            invariant
                i <= ks@.len(),
                names@.len() == i,
                forall|j: int|
                    0 <= j < i ==> (#[trigger] names@[j])@ == Json::Str(stat_key_name(ks@[j])),
            decreases ks@.len() - i,
        {
            names.push(json_str(ks[i].as_str()));
            i = i + 1;
        }
        let v = JsonValue::Array(names);
        assert(json_views(names@) =~= Seq::new(
            ks@.len(),
            |k: int| Json::Str(stat_key_name(ks@[k])),
        ));
        proof {
            lemma_json_views_push(out@, v);
        }
        out.push(v);
    }
    assert(json_views(out@) =~= json_views(old(out)@) + stat_key_params(stat_key_items(*keys)));
}

} // verus!

verus! {

// ---------------------------------------------------------------------------
// Replies.
// ---------------------------------------------------------------------------

/// The GID by which aria2 knows a download.
#[derive(Debug, Clone)]
pub struct GidReply(pub String);

/// The reply of `aria2.purgeDownloadResult`: `OK`, or whatever else aria2 said.
#[derive(Debug, Clone)]
pub enum OK {
    /// aria2 replied `OK`.
    Success,
    /// aria2 replied with this other text.
    Failure(String),
}

impl OK {
    /// Reads the text that aria2 replied with: `OK` is success, any other
    /// text is kept as the error.
    pub fn from_reply_text(s: String) -> (r: OK)
        ensures
            s@ == "OK"@ ==> r is Success,
            s@ != "OK"@ ==> (r matches OK::Failure(e) && e@ == s@),
    {
        let ok = String::from_str("OK");
        if s == ok {
            OK::Success
        } else {
            OK::Failure(s)
        }
    }
}

/// The reply of a multicall: the results of its calls, in order.
#[derive(Debug)]
pub struct MultiResponse(pub SmallVec<JsonValue>);

/// The results in a multicall's reply: aria2 wraps each result in an array
/// of its own, and they are unwrapped in order. There are none unless the
/// reply is an array of arrays.
pub open spec fn multicall_results(reply: Json) -> Option<Seq<Json>> {
    match reply {
        Json::Array(items) => concat_arrays(items),
        _ => None,
    }
}

/// The concatenation of arrays, or nothing when one item is not an array.
pub open spec fn concat_arrays(items: Seq<Json>) -> Option<Seq<Json>>
    decreases items.len(),
{
    if items.len() == 0 {
        Some(Seq::empty())
    } else {
        match (concat_arrays(items.drop_last()), items.last()) {
            (Some(front), Json::Array(back)) => Some(front + back),
            _ => None,
        }
    }
}

impl MultiResponse {
    /// Reads the reply of a multicall.
    pub fn from_json(reply: &JsonValue) -> (r: Option<MultiResponse>)
        ensures
            match multicall_results(reply@) {
                Some(results) => r matches Some(m) && json_items(m.0) == results,
                None => r is None,
            },
    {
        match reply {
            JsonValue::Array(items) => {
                let mut out: Vec<JsonValue> = Vec::new();
                let mut i: usize = 0;
                while i < items.len()
                    invariant
                        *reply == JsonValue::Array(*items),
                        i <= items@.len(),
                        concat_arrays(json_views(items@).take(i as int)) == Some(json_views(out@)),
                    decreases items@.len() - i,
                {
                    proof {
                        assert(json_views(items@).take(i + 1).drop_last() =~= json_views(
                            items@,
                        ).take(i as int));
                    }
                    match &items[i] {
                        JsonValue::Array(inner) => {
                            let ghost before = out@;
                            let mut j: usize = 0;
                            while j < inner.len()
                                invariant
                                    j <= inner@.len(),
                                    json_views(out@) == json_views(before) + json_views(
                                        inner@.take(j as int),
                                    ),
                                decreases inner@.len() - j,
                            {
                                let v = inner[j].duplicate();
                                proof {
                                    lemma_json_views_push(out@, v);
                                    assert(inner@.take(j + 1) == inner@.take(j as int).push(
                                        inner@[j as int],
                                    ));
                                    lemma_json_views_push(inner@.take(j as int), inner@[j as int]);
                                }
                                out.push(v);
                                j = j + 1;
                            }
                            assert(inner@.take(inner@.len() as int) == inner@);
                            assert(json_views(items@).take(i + 1).last() == items@[i as int]@);
                        },
                        _ => {
                            assert(json_views(items@).take(i + 1).last() == items@[i as int]@);
                            assert(concat_arrays(json_views(items@).take(i + 1)) is None);
                            assert forall|k: int| i + 1 <= k <= items@.len() implies concat_arrays(
                                #[trigger] json_views(items@).take(k),
                            ) is None by {
                                lemma_concat_arrays_prefix_none(json_views(items@), i + 1, k);
                            }
                            assert(json_views(items@).take(items@.len() as int) =~= json_views(
                                items@,
                            ));
                            assert(concat_arrays(
                                json_views(items@).take(items@.len() as int),
                            ) is None);
                            return None;
                        },
                    }
                    i = i + 1;
                }
                assert(json_views(items@).take(items@.len() as int) =~= json_views(items@));
                Some(MultiResponse(SmallVec::<JsonValue>::from_vec(out)))
            },
            _ => None,
        }
    }
}

/// Once a prefix has an item that is not an array, so has every longer one.
proof fn lemma_concat_arrays_prefix_none(items: Seq<Json>, i: int, k: int)
    requires
        0 <= i <= k <= items.len(),
        concat_arrays(items.take(i)) is None,
    ensures
        concat_arrays(items.take(k)) is None,
    decreases k - i,
{
    if k > i {
        lemma_concat_arrays_prefix_none(items, i, k - 1);
        assert(items.take(k).drop_last() =~= items.take(k - 1));
    }
}

} // verus!

verus! {

/// Appends one value.
fn push_json(out: &mut Vec<JsonValue>, x: JsonValue)
    ensures
        json_views(final(out)@) == json_views(old(out)@).push(x@),
{
    proof {
        lemma_json_views_push(out@, x);
    }
    out.push(x);
}

/// An empty list of parameters.
fn no_params() -> (out: Vec<JsonValue>)
    ensures
        json_views(out@) == Seq::<Json>::empty(),
{
    proof {
        lemma_json_views_empty();
    }
    Vec::new()
}

/// The parameters of a call that names one download by its GID.
fn gid_params(gid: &Cow<'_, str>) -> (p: CallParams)
    ensures
        p@ == ParamsModel::Positional(seq![Json::Str(gid@)]),
{
    let mut out = no_params();
    push_json(&mut out, JsonValue::Str(cow_to_string(gid)));
    assert(json_views(out@) =~= seq![Json::Str(gid@)]);
    CallParams::Positional(out)
}

/// Adds downloads from the given URIs, which all point at the same file.
pub struct AddUriCall {
    pub uris: SmallVec<String>,
    pub options: Option<TaskOptions>,
}

impl Reply for AddUriCall {
    type Reply = GidReply;
}

impl Call for AddUriCall {
    open spec fn spec_method(&self) -> Seq<char> {
        "aria2.addUri"@
    }

    open spec fn spec_params(&self) -> ParamsModel {
        ParamsModel::Positional(
            seq![Json::Array(str_jsons(string_items(self.uris)))] + option_params(self.options),
        )
    }

    fn method(&self) -> (m: &'static str) {
        "aria2.addUri"
    }

    fn params(&self) -> (p: CallParams) {
        let mut out = no_params();
        push_json(&mut out, strings_json(self.uris.as_slice()));
        push_options(&mut out, &self.options);
        assert(json_views(out@) =~= seq![Json::Array(str_jsons(string_items(self.uris)))]
            + option_params(self.options));
        CallParams::Positional(out)
    }
}

/// Calls `base64::Engine::encode` of `base64::engine::general_purpose::STANDARD`,
/// whose result is the base64 text of `bytes` in the standard alphabet, with
/// padding. (Its one panic, an overflow of the encoded length, needs an input
/// longer than any slice can be.)
#[verifier::external_body]
fn base64_encode(bytes: &[u8]) -> (s: String)
    ensures
        s@ == base64_standard(bytes@),
{
    base64::engine::general_purpose::STANDARD.encode(bytes)
}

/// The bytes of a `Cow<[u8]>`.
fn cow_bytes<'b>(c: &'b Cow<'_, [u8]>) -> (s: &'b [u8])
    ensures
        s@ == c@,
{
    match c {
        Cow::Borrowed(b) => *b,
        Cow::Owned(o) => o.as_slice(),
    }
}

/// Adds a BitTorrent download from the contents of a torrent file.
pub struct AddTorrentCall<'a> {
    pub torrent: Cow<'a, [u8]>,
    pub uris: SmallVec<String>,
    pub options: Option<TaskOptions>,
}

impl Reply for AddTorrentCall<'_> {
    type Reply = GidReply;
}

/// The parameters of `aria2.addTorrent`, given the base64 text of the torrent.
pub open spec fn add_torrent_params(
    torrent_text: Seq<char>,
    uris: Seq<Seq<char>>,
    options: Option<TaskOptions>,
) -> ParamsModel {
    ParamsModel::Positional(
        seq![Json::Str(torrent_text), Json::Array(str_jsons(uris))] + option_params(options),
    )
}

impl AddTorrentCall<'_> {
    /// The parameters, given the base64 text of the torrent.
    pub fn params_with_torrent_text(&self, torrent_text: String) -> (p: CallParams)
        ensures
            p@ == add_torrent_params(torrent_text@, string_items(self.uris), self.options),
    {
        let mut out = no_params();
        push_json(&mut out, JsonValue::Str(torrent_text));
        push_json(&mut out, strings_json(self.uris.as_slice()));
        push_options(&mut out, &self.options);
        assert(json_views(out@) =~= seq![
            Json::Str(torrent_text@),
            Json::Array(str_jsons(string_items(self.uris))),
        ] + option_params(self.options));
        CallParams::Positional(out)
    }
}

impl Call for AddTorrentCall<'_> {
    open spec fn spec_method(&self) -> Seq<char> {
        "aria2.addTorrent"@
    }

    open spec fn spec_params(&self) -> ParamsModel {
        add_torrent_params(base64_standard(self.torrent@), string_items(self.uris), self.options)
    }

    fn method(&self) -> (m: &'static str) {
        "aria2.addTorrent"
    }

    fn params(&self) -> (p: CallParams) {
        let text = base64_encode(cow_bytes(&self.torrent));
        self.params_with_torrent_text(text)
    }
}

/// The parameters of `aria2.addTorrent` are the token (when there is one),
/// a text that base64-decodes to the torrent's bytes, the URIs, and the
/// options (when they are given).
pub proof fn lemma_torrent_text_gives_back_torrent<'a>(
    c: AddTorrentCall<'a>,
    token: Option<Seq<char>>,
)
    ensures
        ({
            let p = render(c.spec_params(), token);
            let k: int = if token is Some { 1 } else { 0 };
            &&& p.len() == k + 2 + (if c.options is Some { 1int } else { 0int })
            &&& (token matches Some(t) ==> p[0] == Json::Str(t))
            &&& (p[k] matches Json::Str(text) && base64_decode(text) == Some(c.torrent@))
            &&& p[k + 1] == Json::Array(
                Seq::new(string_items(c.uris).len(), |i: int| Json::Str(string_items(c.uris)[i])),
            )
            &&& (c.options matches Some(o) ==> p[k + 2] == Json::Object(
                Seq::new(
                    o.entries@.len(),
                    |i: int| (o.entries@[i].0@, Json::Str(o.entries@[i].1@)),
                ),
            ))
        }),
{
    lemma_base64_round_trip(c.torrent@);
    let p = render(c.spec_params(), token);
    let k: int = if token is Some { 1 } else { 0 };
    assert(str_jsons(string_items(c.uris)) =~= Seq::new(
        string_items(c.uris).len(),
        |i: int| Json::Str(string_items(c.uris)[i]),
    ));
    if let Some(o) = c.options {
        assert(p[k + 2] == options_json(o));
    }
}

/// Adds the downloads that a Metalink document describes.
pub struct AddMetalinkCall<'a> {
    pub metalink: Cow<'a, str>,
    pub options: Option<TaskOptions>,
}

impl Reply for AddMetalinkCall<'_> {
    type Reply = Vec<GidReply>;
}

impl Call for AddMetalinkCall<'_> {
    open spec fn spec_method(&self) -> Seq<char> {
        "aria2.addMetalink"@
    }

    open spec fn spec_params(&self) -> ParamsModel {
        ParamsModel::Positional(seq![Json::Str(self.metalink@)] + option_params(self.options))
    }

    fn method(&self) -> (m: &'static str) {
        "aria2.addMetalink"
    }

    fn params(&self) -> (p: CallParams) {
        let mut out = no_params();
        push_json(&mut out, JsonValue::Str(cow_to_string(&self.metalink)));
        push_options(&mut out, &self.options);
        assert(json_views(out@) =~= seq![Json::Str(self.metalink@)] + option_params(
            self.options,
        ));
        CallParams::Positional(out)
    }
}

/// Removes a download; aria2 first lets it finish what it is doing.
pub struct RemoveCall<'a> {
    pub gid: Cow<'a, str>,
}

impl Reply for RemoveCall<'_> {
    type Reply = GidReply;
}

impl Call for RemoveCall<'_> {
    open spec fn spec_method(&self) -> Seq<char> {
        "aria2.remove"@
    }

    open spec fn spec_params(&self) -> ParamsModel {
        ParamsModel::Positional(seq![Json::Str(self.gid@)])
    }

    fn method(&self) -> (m: &'static str) {
        "aria2.remove"
    }

    fn params(&self) -> (p: CallParams) {
        gid_params(&self.gid)
    }
}

/// Removes a download at once.
pub struct ForceRemoveCall<'a> {
    pub gid: Cow<'a, str>,
}

impl Reply for ForceRemoveCall<'_> {
    type Reply = GidReply;
}

impl Call for ForceRemoveCall<'_> {
    open spec fn spec_method(&self) -> Seq<char> {
        "aria2.forceRemove"@
    }

    open spec fn spec_params(&self) -> ParamsModel {
        ParamsModel::Positional(seq![Json::Str(self.gid@)])
    }

    fn method(&self) -> (m: &'static str) {
        "aria2.forceRemove"
    }

    fn params(&self) -> (p: CallParams) {
        gid_params(&self.gid)
    }
}

/// Pauses a download; aria2 first lets it finish what it is doing.
pub struct PauseCall<'a> {
    pub gid: Cow<'a, str>,
}

impl Reply for PauseCall<'_> {
    type Reply = GidReply;
}

impl Call for PauseCall<'_> {
    open spec fn spec_method(&self) -> Seq<char> {
        "aria2.pause"@
    }

    open spec fn spec_params(&self) -> ParamsModel {
        ParamsModel::Positional(seq![Json::Str(self.gid@)])
    }

    fn method(&self) -> (m: &'static str) {
        "aria2.pause"
    }

    fn params(&self) -> (p: CallParams) {
        gid_params(&self.gid)
    }
}

/// Pauses a download at once.
pub struct ForcePauseCall<'a> {
    pub gid: Cow<'a, str>,
}

impl Reply for ForcePauseCall<'_> {
    type Reply = GidReply;
}

impl Call for ForcePauseCall<'_> {
    open spec fn spec_method(&self) -> Seq<char> {
        "aria2.forcePause"@
    }

    open spec fn spec_params(&self) -> ParamsModel {
        ParamsModel::Positional(seq![Json::Str(self.gid@)])
    }

    fn method(&self) -> (m: &'static str) {
        "aria2.forcePause"
    }

    fn params(&self) -> (p: CallParams) {
        gid_params(&self.gid)
    }
}

/// Resumes a paused download.
pub struct UnpauseCall<'a> {
    pub gid: Cow<'a, str>,
}

impl Reply for UnpauseCall<'_> {
    type Reply = GidReply;
}

impl Call for UnpauseCall<'_> {
    open spec fn spec_method(&self) -> Seq<char> {
        "aria2.unpause"@
    }

    open spec fn spec_params(&self) -> ParamsModel {
        ParamsModel::Positional(seq![Json::Str(self.gid@)])
    }

    fn method(&self) -> (m: &'static str) {
        "aria2.unpause"
    }

    fn params(&self) -> (p: CallParams) {
        gid_params(&self.gid)
    }
}

/// Asks for the status of a download; all fields when no keys are given.
pub struct TellStatusCall<'a> {
    pub gid: Cow<'a, str>,
    pub keys: SmallVec<StatusKey>,
}

impl Reply for TellStatusCall<'_> {
    type Reply = Status;
}

impl Call for TellStatusCall<'_> {
    open spec fn spec_method(&self) -> Seq<char> {
        "aria2.tellStatus"@
    }

    open spec fn spec_params(&self) -> ParamsModel {
        ParamsModel::Positional(
            seq![Json::Str(self.gid@)] + status_key_params(status_key_items(self.keys)),
        )
    }

    fn method(&self) -> (m: &'static str) {
        "aria2.tellStatus"
    }

    fn params(&self) -> (p: CallParams) {
        let mut out = no_params();
        push_json(&mut out, JsonValue::Str(cow_to_string(&self.gid)));
        push_status_keys(&mut out, &self.keys);
        assert(json_views(out@) =~= seq![Json::Str(self.gid@)] + status_key_params(
            status_key_items(self.keys),
        ));
        CallParams::Positional(out)
    }
}

/// Asks for the status of the active downloads; all fields when no keys are given.
#[derive(Debug)]
pub struct TellActiveCall {
    pub keys: SmallVec<StatusKey>,
}

impl Default for TellActiveCall {
    fn default() -> (r: Self)
        ensures
            status_key_items(r.keys) == Seq::<StatusKey>::empty(),
    {
        TellActiveCall { keys: SmallVec::<StatusKey>::from_vec(Vec::new()) }
    }
}

impl Reply for TellActiveCall {
    type Reply = Vec<Status>;
}

impl Call for TellActiveCall {
    open spec fn spec_method(&self) -> Seq<char> {
        "aria2.tellActive"@
    }

    open spec fn spec_params(&self) -> ParamsModel {
        ParamsModel::Positional(status_key_params(status_key_items(self.keys)))
    }

    fn method(&self) -> (m: &'static str) {
        "aria2.tellActive"
    }

    fn params(&self) -> (p: CallParams) {
        let mut out = no_params();
        push_status_keys(&mut out, &self.keys);
        assert(json_views(out@) =~= status_key_params(status_key_items(self.keys)));
        CallParams::Positional(out)
    }
}

/// The parameters of a query over a window of the download queue.
pub open spec fn window_params(offset: i32, num: i32, keys: Seq<StatusKey>) -> ParamsModel {
    ParamsModel::Positional(
        seq![Json::Int(offset as int), Json::Int(num as int)] + status_key_params(keys),
    )
}

/// The parameters of a query over a window of the download queue.
fn window_call_params(offset: i32, num: i32, keys: &SmallVec<StatusKey>) -> (p: CallParams)
    ensures
        p@ == window_params(offset, num, status_key_items(*keys)),
{
    let mut out = no_params();
    push_json(&mut out, JsonValue::Int(offset as i128));
    push_json(&mut out, JsonValue::Int(num as i128));
    push_status_keys(&mut out, keys);
    assert(json_views(out@) =~= seq![Json::Int(offset as int), Json::Int(num as int)]
        + status_key_params(status_key_items(*keys)));
    CallParams::Positional(out)
}

/// Asks for the status of waiting downloads: `num` of them from position
/// `offset` of the queue (counted from its end when negative).
#[derive(Debug)]
pub struct TellWaitingCall {
    pub offset: i32,
    pub num: i32,
    pub keys: SmallVec<StatusKey>,
}

impl Default for TellWaitingCall {
    fn default() -> (r: Self)
        ensures
            r.offset == 0,
            r.num == 0,
            status_key_items(r.keys) == Seq::<StatusKey>::empty(),
    {
        TellWaitingCall { offset: 0, num: 0, keys: SmallVec::<StatusKey>::from_vec(Vec::new()) }
    }
}

impl Reply for TellWaitingCall {
    type Reply = Vec<Status>;
}

impl Call for TellWaitingCall {
    open spec fn spec_method(&self) -> Seq<char> {
        "aria2.tellWaiting"@
    }

    open spec fn spec_params(&self) -> ParamsModel {
        window_params(self.offset, self.num, status_key_items(self.keys))
    }

    fn method(&self) -> (m: &'static str) {
        "aria2.tellWaiting"
    }

    fn params(&self) -> (p: CallParams) {
        window_call_params(self.offset, self.num, &self.keys)
    }
}

/// Asks for the status of stopped downloads: `num` of them from position
/// `offset` of the list (counted from its end when negative).
#[derive(Debug)]
pub struct TellStoppedCall {
    pub offset: i32,
    pub num: i32,
    pub keys: SmallVec<StatusKey>,
}

impl Default for TellStoppedCall {
    fn default() -> (r: Self)
        ensures
            r.offset == 0,
            r.num == 0,
            status_key_items(r.keys) == Seq::<StatusKey>::empty(),
    {
        TellStoppedCall { offset: 0, num: 0, keys: SmallVec::<StatusKey>::from_vec(Vec::new()) }
    }
}

impl Reply for TellStoppedCall {
    type Reply = Vec<Status>;
}

impl Call for TellStoppedCall {
    open spec fn spec_method(&self) -> Seq<char> {
        "aria2.tellStopped"@
    }

    open spec fn spec_params(&self) -> ParamsModel {
        window_params(self.offset, self.num, status_key_items(self.keys))
    }

    fn method(&self) -> (m: &'static str) {
        "aria2.tellStopped"
    }

    fn params(&self) -> (p: CallParams) {
        window_call_params(self.offset, self.num, &self.keys)
    }
}

/// Asks for the global statistics; all fields when no keys are given.
#[derive(Debug)]
pub struct GetGlobalStatCall {
    pub keys: SmallVec<StatKey>,
}

impl Default for GetGlobalStatCall {
    fn default() -> (r: Self)
        ensures
            stat_key_items(r.keys) == Seq::<StatKey>::empty(),
    {
        GetGlobalStatCall { keys: SmallVec::<StatKey>::from_vec(Vec::new()) }
    }
}

impl Reply for GetGlobalStatCall {
    type Reply = Stat;
}

impl Call for GetGlobalStatCall {
    open spec fn spec_method(&self) -> Seq<char> {
        "aria2.getGlobalStat"@
    }

    open spec fn spec_params(&self) -> ParamsModel {
        ParamsModel::Positional(stat_key_params(stat_key_items(self.keys)))
    }

    fn method(&self) -> (m: &'static str) {
        "aria2.getGlobalStat"
    }

    fn params(&self) -> (p: CallParams) {
        let mut out = no_params();
        push_stat_keys(&mut out, &self.keys);
        assert(json_views(out@) =~= stat_key_params(stat_key_items(self.keys)));
        CallParams::Positional(out)
    }
}

/// Removes the results of finished, failed and removed downloads from memory.
#[derive(Debug, Default, Clone, Copy)]
pub struct PurgeDownloadResultCall;

impl Reply for PurgeDownloadResultCall {
    type Reply = OK;
}

impl Call for PurgeDownloadResultCall {
    open spec fn spec_method(&self) -> Seq<char> {
        "aria2.purgeDownloadResult"@
    }

    open spec fn spec_params(&self) -> ParamsModel {
        ParamsModel::Positional(Seq::empty())
    }

    fn method(&self) -> (m: &'static str) {
        "aria2.purgeDownloadResult"
    }

    fn params(&self) -> (p: CallParams) {
        CallParams::Positional(no_params())
    }
}

} // verus!

verus! {

impl CallParams {
    /// A copy of these parameters with the same model.
    pub fn duplicate(&self) -> (r: CallParams)
        ensures
            r@ == self@,
        decreases self,
    {
        match self {
            CallParams::Positional(items) => {
                let mut out: Vec<JsonValue> = Vec::new();
                let mut i: usize = 0;
                while i < items.len()
                    invariant
                        i <= items@.len(),
                        out@.len() == i,
                        forall|j: int| 0 <= j < i ==> (#[trigger] out@[j])@ == items@[j]@,
                    decreases items@.len() - i,
                {
                    out.push(items[i].duplicate());
                    i = i + 1;
                }
                assert(json_views(out@) =~= json_views(items@));
                CallParams::Positional(out)
            },
            CallParams::Batch(entries) => {
                let mut out: Vec<BatchEntry> = Vec::new();
                let mut i: usize = 0;
                while i < entries.len()
                    invariant
                        *self == CallParams::Batch(*entries),
                        i <= entries@.len(),
                        out@.len() == i,
                        forall|j: int|
                            0 <= j < i ==> (#[trigger] out@[j]).method@ == entries@[j].method@
                                && params_view(out@[j].params) == params_view(entries@[j].params),
                    decreases entries@.len() - i,
                {
                    proof {
                        assert(decreases_to!(*self => self->Batch_0));
                        assert(decreases_to!(*entries => entries@));
                        assert(decreases_to!(entries@ => entries@[i as int]));
                        assert(decreases_to!(entries@[i as int] => entries@[i as int].params));
                    }
                    let params = entries[i].params.duplicate();
                    out.push(BatchEntry { method: entries[i].method, params });
                    i = i + 1;
                }
                assert(entry_views(out@) =~= entry_views(entries@));
                CallParams::Batch(out)
            },
        }
    }
}

/// Several calls sent as one request, `system.multicall`; aria2 answers
/// them together, in order.
#[derive(Debug)]
pub struct MultiCall {
    pub calls: Vec<BatchEntry>,
}

impl MultiCall {
    /// A multicall without calls.
    pub fn new() -> (m: Self)
        ensures
            m.calls@.len() == 0,
    {
        MultiCall { calls: Vec::new() }
    }

    /// Adds a call after the ones already in.
    pub fn push<T: Call>(&mut self, call: T)
        ensures
            entry_views(final(self).calls@) == entry_views(old(self).calls@).push(
                (call.spec_method(), call.spec_params()),
            ),
    {
        let entry = BatchEntry { method: call.method(), params: call.params() };
        self.calls.push(entry);
        assert(entry_views(self.calls@) =~= entry_views(old(self).calls@).push(
            (call.spec_method(), call.spec_params()),
        ));
    }
}

impl Default for MultiCall {
    fn default() -> (m: Self)
        ensures
            m.calls@.len() == 0,
    {
        MultiCall::new()
    }
}

impl Reply for MultiCall {
    type Reply = MultiResponse;
}

impl Call for MultiCall {
    open spec fn spec_method(&self) -> Seq<char> {
        "system.multicall"@
    }

    open spec fn spec_params(&self) -> ParamsModel {
        ParamsModel::Batch(entry_views(self.calls@))
    }

    fn method(&self) -> (m: &'static str) {
        "system.multicall"
    }

    fn params(&self) -> (p: CallParams) {
        let mut out: Vec<BatchEntry> = Vec::new();
        let mut i: usize = 0;
        while i < self.calls.len()
            invariant
                i <= self.calls@.len(),
                out@.len() == i,
                forall|j: int|
                    0 <= j < i ==> (#[trigger] out@[j]).method@ == self.calls@[j].method@
                        && params_view(out@[j].params) == params_view(self.calls@[j].params),
            decreases self.calls@.len() - i,
        {
            let params = self.calls[i].params.duplicate();
            out.push(BatchEntry { method: self.calls[i].method, params });
            i = i + 1;
        }
        assert(entry_views(out@) =~= entry_views(self.calls@));
        CallParams::Batch(out)
    }
}

/// The token leads the parameters of every call that is not a multicall,
/// and the parameters after it do not depend on it.
pub proof fn lemma_token_leads(items: Seq<Json>, token: Seq<char>)
    ensures
        render(ParamsModel::Positional(items), Some(token)) == seq![Json::Str(token)] + items,
        render(ParamsModel::Positional(items), None) == items,
{
    assert(render(ParamsModel::Positional(items), None) =~= items);
}

/// A multicall sends one parameter, the array of its calls; the `i`-th
/// item names the `i`-th call's method and holds the parameters that call
/// would be sent with on its own, token included.
pub proof fn lemma_multicall_entry(m: MultiCall, token: Option<Seq<char>>, i: int)
    requires
        0 <= i < m.calls@.len(),
    ensures
        render(m.spec_params(), token).len() == 1,
        render(m.spec_params(), token)[0] matches Json::Array(items) && items.len()
            == m.calls@.len() && items[i] == batch_entry_json(
            m.calls@[i].method@,
            render(m.calls@[i].params@, token),
        ) && items[i] == Json::Object(
            seq![
                ("methodName"@, Json::Str(m.calls@[i].method@)),
                ("params"@, Json::Array(render(m.calls@[i].params@, token))),
            ],
        ),
{
}

} // verus!

verus! {

// ---------------------------------------------------------------------------
// Laws of the parameter layouts, stated from the calls' fields.
// ---------------------------------------------------------------------------

/// How many parameters the token takes: one when there is a token.
pub open spec fn token_len(token: Option<Seq<char>>) -> int {
    if token is Some {
        1
    } else {
        0
    }
}

/// The parameters of `aria2.addUri` are the token (when there is one), the
/// array of the URIs in order, and, when options are given, the object
/// holding each option name with its value as a string, in order.
pub proof fn lemma_add_uri_layout(c: AddUriCall, token: Option<Seq<char>>)
    ensures
        ({
            let p = render(c.spec_params(), token);
            let k = token_len(token);
            let u = string_items(c.uris);
            &&& p.len() == k + 1 + (if c.options is Some { 1int } else { 0int })
            &&& (token matches Some(t) ==> p[0] == Json::Str(t))
            &&& p[k] == Json::Array(Seq::new(u.len(), |i: int| Json::Str(u[i])))
            &&& (c.options matches Some(o) ==> p[k + 1] == Json::Object(
                Seq::new(
                    o.entries@.len(),
                    |i: int| (o.entries@[i].0@, Json::Str(o.entries@[i].1@)),
                ),
            ))
        }),
{
    let u = string_items(c.uris);
    assert(str_jsons(u) =~= Seq::new(u.len(), |i: int| Json::Str(u[i])));
}

/// The parameters of `aria2.addMetalink` are the token (when there is one),
/// the Metalink document as a string, and, when options are given, the
/// object holding each option name with its value as a string, in order.
pub proof fn lemma_add_metalink_layout<'a>(c: AddMetalinkCall<'a>, token: Option<Seq<char>>)
    ensures
        ({
            let p = render(c.spec_params(), token);
            let k = token_len(token);
            &&& p.len() == k + 1 + (if c.options is Some { 1int } else { 0int })
            &&& (token matches Some(t) ==> p[0] == Json::Str(t))
            &&& p[k] == Json::Str(c.metalink@)
            &&& (c.options matches Some(o) ==> p[k + 1] == Json::Object(
                Seq::new(
                    o.entries@.len(),
                    |i: int| (o.entries@[i].0@, Json::Str(o.entries@[i].1@)),
                ),
            ))
        }),
{
}

/// The parameters of a call that names one download are the token (when
/// there is one) and the download's GID as a string; nothing more.
pub proof fn lemma_gid_call_layouts<'a>(
    remove: RemoveCall<'a>,
    force_remove: ForceRemoveCall<'a>,
    pause: PauseCall<'a>,
    force_pause: ForcePauseCall<'a>,
    unpause: UnpauseCall<'a>,
    token: Option<Seq<char>>,
)
    ensures
        render(remove.spec_params(), token) == token_params(token).push(Json::Str(remove.gid@)),
        render(force_remove.spec_params(), token) == token_params(token).push(
            Json::Str(force_remove.gid@),
        ),
        render(pause.spec_params(), token) == token_params(token).push(Json::Str(pause.gid@)),
        render(force_pause.spec_params(), token) == token_params(token).push(
            Json::Str(force_pause.gid@),
        ),
        render(unpause.spec_params(), token) == token_params(token).push(Json::Str(unpause.gid@)),
        token matches Some(t) ==> token_params(token) == seq![Json::Str(t)],
        token is None ==> token_params(token).len() == 0,
{
    assert(render(remove.spec_params(), token) =~= token_params(token).push(
        Json::Str(remove.gid@),
    ));
    assert(render(force_remove.spec_params(), token) =~= token_params(token).push(
        Json::Str(force_remove.gid@),
    ));
    assert(render(pause.spec_params(), token) =~= token_params(token).push(
        Json::Str(pause.gid@),
    ));
    assert(render(force_pause.spec_params(), token) =~= token_params(token).push(
        Json::Str(force_pause.gid@),
    ));
    assert(render(unpause.spec_params(), token) =~= token_params(token).push(
        Json::Str(unpause.gid@),
    ));
}

/// The parameters of `aria2.tellStatus` are the token (when there is one),
/// the GID, and, when keys are asked for, one array of the keys' names in order.
pub proof fn lemma_tell_status_layout<'a>(c: TellStatusCall<'a>, token: Option<Seq<char>>)
    ensures
        ({
            let p = render(c.spec_params(), token);
            let k = token_len(token);
            let ks = status_key_items(c.keys);
            &&& p.len() == k + 1 + (if ks.len() > 0 { 1int } else { 0int })
            &&& (token matches Some(t) ==> p[0] == Json::Str(t))
            &&& p[k] == Json::Str(c.gid@)
            &&& (ks.len() > 0 ==> p[k + 1] == Json::Array(
                Seq::new(ks.len(), |i: int| Json::Str(status_key_name(ks[i]))),
            ))
        }),
{
}

/// The parameters of `aria2.tellActive` are the token (when there is one)
/// and, when keys are asked for, one array of the keys' names in order.
pub proof fn lemma_tell_active_layout(c: TellActiveCall, token: Option<Seq<char>>)
    ensures
        ({
            let p = render(c.spec_params(), token);
            let k = token_len(token);
            let ks = status_key_items(c.keys);
            &&& p.len() == k + (if ks.len() > 0 { 1int } else { 0int })
            &&& (token matches Some(t) ==> p[0] == Json::Str(t))
            &&& (ks.len() > 0 ==> p[k] == Json::Array(
                Seq::new(ks.len(), |i: int| Json::Str(status_key_name(ks[i]))),
            ))
        }),
{
}

/// The parameters of `aria2.tellWaiting` and `aria2.tellStopped` are the
/// token (when there is one), the offset, then the number of downloads,
/// and, when keys are asked for, one array of the keys' names in order.
pub proof fn lemma_window_layouts(
    waiting: TellWaitingCall,
    stopped: TellStoppedCall,
    token: Option<Seq<char>>,
)
    ensures
        ({
            let p = render(waiting.spec_params(), token);
            let k = token_len(token);
            let ks = status_key_items(waiting.keys);
            &&& p.len() == k + 2 + (if ks.len() > 0 { 1int } else { 0int })
            &&& (token matches Some(t) ==> p[0] == Json::Str(t))
            &&& p[k] == Json::Int(waiting.offset as int)
            &&& p[k + 1] == Json::Int(waiting.num as int)
            &&& (ks.len() > 0 ==> p[k + 2] == Json::Array(
                Seq::new(ks.len(), |i: int| Json::Str(status_key_name(ks[i]))),
            ))
        }),
        ({
            let p = render(stopped.spec_params(), token);
            let k = token_len(token);
            let ks = status_key_items(stopped.keys);
            &&& p.len() == k + 2 + (if ks.len() > 0 { 1int } else { 0int })
            &&& (token matches Some(t) ==> p[0] == Json::Str(t))
            &&& p[k] == Json::Int(stopped.offset as int)
            &&& p[k + 1] == Json::Int(stopped.num as int)
            &&& (ks.len() > 0 ==> p[k + 2] == Json::Array(
                Seq::new(ks.len(), |i: int| Json::Str(status_key_name(ks[i]))),
            ))
        }),
{
}

/// The parameters of `aria2.getGlobalStat` are the token (when there is
/// one) and, when keys are asked for, one array of the keys' names in order.
pub proof fn lemma_global_stat_layout(c: GetGlobalStatCall, token: Option<Seq<char>>)
    ensures
        ({
            let p = render(c.spec_params(), token);
            let k = token_len(token);
            let ks = stat_key_items(c.keys);
            &&& p.len() == k + (if ks.len() > 0 { 1int } else { 0int })
            &&& (token matches Some(t) ==> p[0] == Json::Str(t))
            &&& (ks.len() > 0 ==> p[k] == Json::Array(
                Seq::new(ks.len(), |i: int| Json::Str(stat_key_name(ks[i]))),
            ))
        }),
{
}

/// The parameters of `aria2.purgeDownloadResult` are the token alone.
pub proof fn lemma_purge_layout(c: PurgeDownloadResultCall, token: Option<Seq<char>>)
    ensures
        render(c.spec_params(), token).len() == token_len(token),
        token matches Some(t) ==> render(c.spec_params(), token) == seq![Json::Str(t)],
{
    assert(render(c.spec_params(), token) =~= token_params(token));
}

} // verus!
