use std::borrow::Cow;

use aria2_rs::call::{
    AddMetalinkCall, AddTorrentCall, AddUriCall, BatchEntry, Call, CallParams, ForcePauseCall,
    ForceRemoveCall, GetGlobalStatCall, MultiCall, MultiResponse, PauseCall,
    PurgeDownloadResultCall, RemoveCall, TellActiveCall, TellStatusCall, TellStoppedCall,
    TellWaitingCall, UnpauseCall, OK,
};
use aria2_rs::json::JsonValue;
use aria2_rs::options::TaskOptions;
use aria2_rs::status::{StatKey, StatusKey};
use aria2_rs::SmallVec;

fn s(x: &str) -> JsonValue {
    JsonValue::Str(x.to_string())
}

fn arr(items: Vec<JsonValue>) -> JsonValue {
    JsonValue::Array(items)
}

fn uris(items: &[&str]) -> SmallVec<String> {
    SmallVec::<String>::from_vec(items.iter().map(|u| u.to_string()).collect())
}

#[test]
fn add_uri_with_token() {
    let call = AddUriCall { uris: uris(&["http://example.org/file"]), options: None };
    assert_eq!(call.method(), "aria2.addUri");
    assert_eq!(
        call.to_param(Some("token:TEST")),
        arr(vec![s("token:TEST"), arr(vec![s("http://example.org/file")])])
    );
}

#[test]
fn add_uri_without_token_with_options() {
    let call = AddUriCall {
        uris: uris(&["http://a/x", "http://b/x"]),
        options: Some(TaskOptions {
            entries: vec![("dir".to_string(), "/tmp".to_string()), ("out".to_string(), "x".to_string())],
        }),
    };
    assert_eq!(
        call.to_param(None),
        arr(vec![
            arr(vec![s("http://a/x"), s("http://b/x")]),
            JsonValue::Object(vec![("dir".to_string(), s("/tmp")), ("out".to_string(), s("x"))]),
        ])
    );
}

#[test]
fn serialize_params_appends() {
    let call = RemoveCall { gid: Cow::Borrowed("2089b05ecca3d829") };
    let mut out = vec![JsonValue::Null];
    call.serialize_params(&mut out, Some("token:x"));
    assert_eq!(out, vec![JsonValue::Null, s("token:x"), s("2089b05ecca3d829")]);
}

#[test]
fn add_torrent_encodes_base64() {
    let call = AddTorrentCall {
        torrent: Cow::Owned(b"hello".to_vec()),
        uris: uris(&["http://seed/x"]),
        options: None,
    };
    assert_eq!(call.method(), "aria2.addTorrent");
    assert_eq!(
        call.to_param(Some("t")),
        arr(vec![s("t"), s("aGVsbG8="), arr(vec![s("http://seed/x")])])
    );
    let empty = AddTorrentCall { torrent: Cow::Borrowed(&[]), uris: uris(&[]), options: None };
    assert_eq!(empty.to_param(None), arr(vec![s(""), arr(vec![])]));
}

#[test]
fn add_torrent_with_given_text() {
    let call = AddTorrentCall {
        torrent: Cow::Borrowed(b"ignored"),
        uris: uris(&[]),
        options: Some(TaskOptions { entries: vec![("split".to_string(), "4".to_string())] }),
    };
    match call.params_with_torrent_text("QUJD".to_string()) {
        CallParams::Positional(items) => assert_eq!(
            items,
            vec![
                s("QUJD"),
                arr(vec![]),
                JsonValue::Object(vec![("split".to_string(), s("4"))]),
            ]
        ),
        other => panic!("unexpected {other:?}"),
    }
}

#[test]
fn add_metalink() {
    let call = AddMetalinkCall { metalink: Cow::Borrowed("<metalink/>"), options: None };
    assert_eq!(call.method(), "aria2.addMetalink");
    assert_eq!(call.to_param(None), arr(vec![s("<metalink/>")]));
}

#[test]
fn gid_calls() {
    let gid = "2089b05ecca3d829";
    let calls: Vec<(Box<dyn Fn(Option<&str>) -> JsonValue>, &str, String)> = vec![
        (
            Box::new(move |t| RemoveCall { gid: Cow::Borrowed(gid) }.to_param(t)),
            "aria2.remove",
            RemoveCall { gid: Cow::Borrowed(gid) }.method().to_string(),
        ),
        (
            Box::new(move |t| ForceRemoveCall { gid: Cow::Borrowed(gid) }.to_param(t)),
            "aria2.forceRemove",
            ForceRemoveCall { gid: Cow::Borrowed(gid) }.method().to_string(),
        ),
        (
            Box::new(move |t| PauseCall { gid: Cow::Borrowed(gid) }.to_param(t)),
            "aria2.pause",
            PauseCall { gid: Cow::Borrowed(gid) }.method().to_string(),
        ),
        (
            Box::new(move |t| ForcePauseCall { gid: Cow::Owned(gid.to_string()) }.to_param(t)),
            "aria2.forcePause",
            ForcePauseCall { gid: Cow::Borrowed(gid) }.method().to_string(),
        ),
        (
            Box::new(move |t| UnpauseCall { gid: Cow::Borrowed(gid) }.to_param(t)),
            "aria2.unpause",
            UnpauseCall { gid: Cow::Borrowed(gid) }.method().to_string(),
        ),
    ];
    for (params, expected_method, method) in calls {
        assert_eq!(method, expected_method);
        assert_eq!(params(None), arr(vec![s(gid)]));
        assert_eq!(params(Some("tok")), arr(vec![s("tok"), s(gid)]));
    }
}

#[test]
fn tell_status_keys_only_when_given() {
    let none = TellStatusCall {
        gid: Cow::Borrowed("abc"),
        keys: SmallVec::<StatusKey>::from_vec(vec![]),
    };
    assert_eq!(none.method(), "aria2.tellStatus");
    assert_eq!(none.to_param(Some("t")), arr(vec![s("t"), s("abc")]));
    let some = TellStatusCall {
        gid: Cow::Borrowed("abc"),
        keys: SmallVec::<StatusKey>::from_vec(vec![StatusKey::Gid, StatusKey::TotalLength]),
    };
    assert_eq!(
        some.to_param(None),
        arr(vec![s("abc"), arr(vec![s("gid"), s("totalLength")])])
    );
}

#[test]
fn tell_active_default_has_no_params() {
    let call = TellActiveCall::default();
    assert_eq!(call.method(), "aria2.tellActive");
    assert_eq!(call.to_param(None), arr(vec![]));
    assert_eq!(call.to_param(Some("t")), arr(vec![s("t")]));
}

#[test]
fn tell_waiting_and_stopped_windows() {
    let waiting = TellWaitingCall {
        offset: -1,
        num: 10,
        keys: SmallVec::<StatusKey>::from_vec(vec![StatusKey::Status]),
    };
    assert_eq!(waiting.method(), "aria2.tellWaiting");
    assert_eq!(
        waiting.to_param(Some("t")),
        arr(vec![s("t"), JsonValue::Int(-1), JsonValue::Int(10), arr(vec![s("status")])])
    );
    let stopped = TellStoppedCall::default();
    assert_eq!(stopped.method(), "aria2.tellStopped");
    assert_eq!(stopped.to_param(None), arr(vec![JsonValue::Int(0), JsonValue::Int(0)]));
}

#[test]
fn global_stat_keys() {
    let call = GetGlobalStatCall {
        keys: SmallVec::<StatKey>::from_vec(vec![StatKey::NumActive, StatKey::NumStoppedTotal]),
    };
    assert_eq!(call.method(), "aria2.getGlobalStat");
    assert_eq!(
        call.to_param(None),
        arr(vec![arr(vec![s("numActive"), s("numStoppedTotal")])])
    );
    assert_eq!(GetGlobalStatCall::default().to_param(None), arr(vec![]));
}

#[test]
fn purge_download_result() {
    let call = PurgeDownloadResultCall;
    assert_eq!(call.method(), "aria2.purgeDownloadResult");
    assert_eq!(call.to_param(Some("t")), arr(vec![s("t")]));
    assert_eq!(call.to_param(None), arr(vec![]));
}

#[test]
fn status_key_names() {
    let all = [
        (StatusKey::Gid, "gid"),
        (StatusKey::Status, "status"),
        (StatusKey::TotalLength, "totalLength"),
        (StatusKey::CompletedLength, "completedLength"),
        (StatusKey::UploadLength, "uploadLength"),
        (StatusKey::Bitfield, "bitfield"),
        (StatusKey::DownloadSpeed, "downloadSpeed"),
        (StatusKey::UploadSpeed, "uploadSpeed"),
        (StatusKey::InfoHash, "infoHash"),
        (StatusKey::NumSeeders, "numSeeders"),
        (StatusKey::Seeder, "seeder"),
        (StatusKey::PieceLength, "pieceLength"),
        (StatusKey::NumPieces, "numPieces"),
        (StatusKey::Connections, "connections"),
        (StatusKey::ErrorCode, "errorCode"),
        (StatusKey::ErrorMessage, "errorMessage"),
        (StatusKey::FollowedBy, "followedBy"),
        (StatusKey::Following, "following"),
        (StatusKey::BelongsTo, "belongsTo"),
        (StatusKey::Dir, "dir"),
        (StatusKey::Files, "files"),
        (StatusKey::Bittorrent, "bittorrent"),
        (StatusKey::VerifiedLength, "verifiedLength"),
        (StatusKey::VerifyIntegrityPending, "verifyIntegrityPending"),
    ];
    for (k, name) in all {
        assert_eq!(k.as_str(), name);
    }
    let stats = [
        (StatKey::DownloadSpeed, "downloadSpeed"),
        (StatKey::UploadSpeed, "uploadSpeed"),
        (StatKey::NumActive, "numActive"),
        (StatKey::NumWaiting, "numWaiting"),
        (StatKey::NumStopped, "numStopped"),
        (StatKey::NumStoppedTotal, "numStoppedTotal"),
    ];
    for (k, name) in stats {
        assert_eq!(k.as_str(), name);
    }
}

fn entry(method: &str, params: JsonValue) -> JsonValue {
    JsonValue::Object(vec![("methodName".to_string(), s(method)), ("params".to_string(), params)])
}

#[test]
fn multicall_carries_token_into_each_call() {
    let mut multi = MultiCall::new();
    assert_eq!(multi.method(), "system.multicall");
    for _ in 0..3 {
        multi.push(AddUriCall { uris: uris(&["http://example.org/file"]), options: None });
    }
    multi.push(PurgeDownloadResultCall);
    let one = entry("aria2.addUri", arr(vec![s("token:TEST"), arr(vec![s("http://example.org/file")])]));
    assert_eq!(
        multi.to_param(Some("token:TEST")),
        arr(vec![arr(vec![
            one.duplicate(),
            one.duplicate(),
            one,
            entry("aria2.purgeDownloadResult", arr(vec![s("token:TEST")])),
        ])])
    );
    assert_eq!(MultiCall::default().to_param(Some("t")), arr(vec![arr(vec![])]));
}

#[test]
fn multicall_inside_multicall() {
    let mut inner = MultiCall::new();
    inner.push(PauseCall { gid: Cow::Borrowed("g") });
    let mut outer = MultiCall::new();
    outer.push(inner);
    assert_eq!(
        outer.to_param(Some("t")),
        arr(vec![arr(vec![entry(
            "system.multicall",
            arr(vec![arr(vec![entry("aria2.pause", arr(vec![s("t"), s("g")]))])])
        )])])
    );
}

#[test]
fn multicall_from_entries() {
    let multi = MultiCall {
        calls: vec![BatchEntry {
            method: "aria2.tellActive",
            params: CallParams::Positional(vec![]),
        }],
    };
    assert_eq!(
        multi.to_param(None),
        arr(vec![arr(vec![entry("aria2.tellActive", arr(vec![]))])])
    );
}

#[test]
fn ok_reply() {
    assert!(matches!(OK::from_reply_text("OK".to_string()), OK::Success));
    match OK::from_reply_text("not ok".to_string()) {
        OK::Failure(text) => assert_eq!(text, "not ok"),
        OK::Success => panic!("expected a failure"),
    }
    assert!(matches!(OK::from_reply_text("ok".to_string()), OK::Failure(_)));
}

#[test]
fn multi_response_flattens_in_order() {
    let reply = arr(vec![arr(vec![s("a")]), arr(vec![]), arr(vec![s("b"), JsonValue::Int(3)])]);
    let m = MultiResponse::from_json(&reply).expect("an array of arrays");
    assert_eq!(m.0.into_vec(), vec![s("a"), s("b"), JsonValue::Int(3)]);
    let empty = MultiResponse::from_json(&arr(vec![])).expect("an empty array");
    assert_eq!(empty.0.into_vec(), vec![]);
}

#[test]
fn multi_response_rejects_other_shapes() {
    assert!(MultiResponse::from_json(&s("x")).is_none());
    let fault = JsonValue::Object(vec![("faultCode".to_string(), JsonValue::Int(1))]);
    assert!(MultiResponse::from_json(&arr(vec![arr(vec![s("a")]), fault])).is_none());
}

#[test]
fn json_duplicate_is_equal() {
    let v = JsonValue::Object(vec![
        ("a".to_string(), arr(vec![JsonValue::Null, JsonValue::Bool(true)])),
        ("b".to_string(), JsonValue::Decimal("1.5".to_string())),
    ]);
    assert_eq!(v.duplicate(), v);
}

#[test]
fn task_options_json() {
    let opts = TaskOptions { entries: vec![("max-connection-per-server".to_string(), "8".to_string())] };
    assert_eq!(
        opts.to_json(),
        JsonValue::Object(vec![("max-connection-per-server".to_string(), s("8"))])
    );
    assert_eq!(TaskOptions::default().to_json(), JsonValue::Object(vec![]));
}

#[test]
fn small_vec_keeps_order() {
    let v = uris(&["x", "y", "z"]);
    assert_eq!(v.as_slice(), &["x".to_string(), "y".to_string(), "z".to_string()]);
    let k = SmallVec::<StatusKey>::from_vec(vec![StatusKey::Dir, StatusKey::Gid]);
    assert_eq!(k.as_slice(), &[StatusKey::Dir, StatusKey::Gid]);
    let j = SmallVec::<JsonValue>::from_vec(vec![s("1"), s("2"), s("3"), s("4"), s("5")]);
    assert_eq!(j.into_vec(), vec![s("1"), s("2"), s("3"), s("4"), s("5")]);
}

#[test]
fn torrent_text_is_standard_padded_base64() {
    let cases: [(&[u8], &str); 7] = [
        (b"", ""),
        (b"f", "Zg=="),
        (b"fo", "Zm8="),
        (b"foo", "Zm9v"),
        (b"foob", "Zm9vYg=="),
        (b"fooba", "Zm9vYmE="),
        (&[0xfb, 0xff, 0xbf], "+/+/"),
    ];
    for (bytes, text) in cases {
        let call = AddTorrentCall { torrent: Cow::Borrowed(bytes), uris: uris(&[]), options: None };
        assert_eq!(call.to_param(None), arr(vec![s(text), arr(vec![])]));
    }
}
