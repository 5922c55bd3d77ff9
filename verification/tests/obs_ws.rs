use tvbs_engine::app_status::AppStatus;
use tvbs_engine::config::ObsWsConfig;
use tvbs_engine::cut::{action_command, seek_command, set_file_command};
use tvbs_engine::json::{Json, JsonNumber, ObjectBuilder};
use tvbs_engine::obs_ws::auth::{build_identify, compute_auth, digest_base64, hello_challenge};
use tvbs_engine::obs_ws::codec::{
    decode_failed, handshake_step, message, op, send_failed, HandshakeStep, ObsWsCmd, Reply,
    RequestTable,
};
use tvbs_engine::obs_ws::messages::{MediaInputAction, ObsVersion, RequestId};
use tvbs_engine::obs_ws::{link_dropped, link_failed, link_up, ws_url, Backoff};

fn text(j: Option<&Json>) -> String {
    j.and_then(|j| j.as_text()).unwrap_or("?").to_string()
}

fn response(id: &str, result: Option<bool>, comment: Option<&str>, data: Option<Json>) -> Json {
    let mut status = ObjectBuilder::new();
    if let Some(r) = result {
        status = status.with_bool("result", r);
    }
    if let Some(c) = comment {
        status = status.with_text("comment", c);
    }
    let mut d = ObjectBuilder::new()
        .with_text("requestId", id)
        .with("requestStatus", status.build());
    if let Some(j) = data {
        d = d.with("responseData", j);
    }
    message(7, d.build())
}

#[test]
fn digests_are_the_known_ones() {
    assert_eq!(
        digest_base64("abc"),
        "ungWv48Bz+pBQUDeXa4iI7ADYaOWF3qctBD/YfIAFa0="
    );
    assert_eq!(
        digest_base64(""),
        "47DEQpj8HBSa+/TImW+5JCeuQeRkm5NMpJWZG3hSuFU="
    );
}

#[test]
fn the_challenge_is_answered_by_both_digests() {
    assert_eq!(
        compute_auth(
            "+IxH4CnCiqpX1rM9scsNynZzbOe4KhDeYcTNS3PDaeY=",
            "lM1GncleQOaCu9lT1yeUZhFYnqhsLLP1G5lAGo3ixaI=",
            "supersecretpassword"
        ),
        "1Ct943GAT+6YQUUX47Ia/ncufilbe6+oD6lY+5kaCu4="
    );
}

#[test]
fn identify_answers_only_what_it_can() {
    let auth = ObjectBuilder::new()
        .with_text("challenge", "c")
        .with_text("salt", "s")
        .build();
    let full = build_identify(&auth, Some("pw"));
    assert_eq!(full.get("rpcVersion").and_then(|n| n.as_unsigned()), Some(1));
    assert_eq!(text(full.get("authentication")), compute_auth("c", "s", "pw"));
    assert!(build_identify(&auth, Some("")).get("authentication").is_none());
    assert!(build_identify(&auth, None).get("authentication").is_none());
    assert!(build_identify(&Json::Null, Some("pw")).get("authentication").is_none());
    // What is missing counts as empty.
    let empty = build_identify(&ObjectBuilder::new().build(), Some("pw"));
    assert_eq!(text(empty.get("authentication")), compute_auth("", "", "pw"));
    let hello = message(0, ObjectBuilder::new().with("authentication", auth).build());
    assert_eq!(text(hello_challenge(&hello).unwrap().get("salt")), "s");
    assert!(hello_challenge(&message(0, Json::Null)).is_none());
}

#[test]
fn requests_are_numbered_and_worded() {
    let mut t = RequestTable::new();
    let (id, msg) = t.register(set_file_command("main", "/a.mp4"));
    assert_eq!(id, 1);
    assert_eq!(op(&msg), 6);
    let d = msg.get("d").unwrap();
    assert_eq!(text(d.get("requestId")), "1");
    assert_eq!(text(d.get("requestType")), "SetInputSettings");
    let data = d.get("requestData").unwrap();
    assert_eq!(text(data.get("inputName")), "main");
    assert_eq!(data.get("overlay").and_then(|b| b.as_bool()), Some(true));
    let settings = data.get("settings").unwrap();
    assert_eq!(text(settings.get("local_file")), "/a.mp4");
    assert_eq!(settings.get("looping").and_then(|b| b.as_bool()), Some(false));
    assert_eq!(settings.get("speed_percent").and_then(|n| n.as_unsigned()), Some(100));

    let (id, msg) = t.register(action_command("main", MediaInputAction::Restart));
    assert_eq!(id, 2);
    let d = msg.get("d").unwrap();
    assert_eq!(text(d.get("requestType")), "TriggerMediaInputAction");
    assert_eq!(
        text(d.get("requestData").unwrap().get("action")),
        "OBS_WEBSOCKET_MEDIA_INPUT_ACTION_RESTART"
    );
    let (_, msg) = t.register(seek_command("main", 30_000));
    let d = msg.get("d").unwrap();
    assert_eq!(text(d.get("requestType")), "SetMediaInputCursor");
    let cursor = d.get("requestData").unwrap().get("mediaCursor");
    assert_eq!(cursor.and_then(|n| n.as_unsigned()), Some(30_000));
    let (_, msg) = t.register(ObsWsCmd::GetVersion);
    assert!(matches!(msg.get("d").unwrap().get("requestData"), Some(Json::Null)));
    assert_eq!(RequestId(42).to_text(), "42");
}

#[test]
fn actions_have_their_names() {
    assert_eq!(MediaInputAction::Pause.as_str(), "OBS_WEBSOCKET_MEDIA_INPUT_ACTION_PAUSE");
    assert_eq!(MediaInputAction::Play.as_str(), "OBS_WEBSOCKET_MEDIA_INPUT_ACTION_PLAY");
    assert_eq!(MediaInputAction::Stop.as_str(), "OBS_WEBSOCKET_MEDIA_INPUT_ACTION_STOP");
    assert_eq!(MediaInputAction::Next.as_str(), "OBS_WEBSOCKET_MEDIA_INPUT_ACTION_NEXT");
    assert_eq!(
        MediaInputAction::Previous.as_str(),
        "OBS_WEBSOCKET_MEDIA_INPUT_ACTION_PREVIOUS"
    );
}

#[test]
fn a_response_reaches_its_own_request_once() {
    let mut t = RequestTable::new();
    let (a, _) = t.register(action_command("m", MediaInputAction::Play));
    let (b, _) = t.register(ObsWsCmd::GetMediaInputStatus { input_name: "m".to_string() });
    let (c, _) = t.register(ObsWsCmd::GetVersion);

    let data = ObjectBuilder::new().with_text("mediaState", "X").build();
    match t.on_message(&response("2", Some(true), None, Some(data))) {
        Some((id, Reply::Status(Ok(j)))) => {
            assert_eq!(id, b);
            assert_eq!(text(j.get("mediaState")), "X");
        }
        other => panic!("{other:?}"),
    }
    assert!(t.on_message(&response("2", Some(true), None, None)).is_none());
    match t.on_message(&response("1", Some(false), Some("nope"), None)) {
        Some((id, Reply::Ack(Err(e)))) => {
            assert_eq!(id, a);
            assert_eq!(e, "obs rejected request: nope");
        }
        other => panic!("{other:?}"),
    }
    let data = ObjectBuilder::new()
        .with_text("obsVersion", "30.1")
        .with_unsigned("rpcVersion", 1)
        .build();
    match t.on_message(&response("+3", Some(true), None, Some(data))) {
        Some((id, Reply::Version(Ok(v)))) => {
            assert_eq!(id, c);
            assert_eq!(v.obs_version, "30.1");
            assert_eq!(v.rpc_version, 1);
            assert_eq!(v.platform, "");
        }
        other => panic!("{other:?}"),
    }
}

#[test]
fn refusals_say_what_was_refused() {
    let mut t = RequestTable::new();
    t.register(action_command("m", MediaInputAction::Play));
    t.register(ObsWsCmd::GetMediaInputStatus { input_name: "m".to_string() });
    t.register(ObsWsCmd::GetVersion);
    match t.resolve_response(&response("1", None, None, None)) {
        Some((1, Reply::Ack(Err(e)))) => assert_eq!(e, "obs rejected request: unknown error"),
        other => panic!("{other:?}"),
    }
    match t.resolve_response(&response("2", Some(false), Some("c"), None)) {
        Some((2, Reply::Status(Err(e)))) => assert_eq!(e, "obs rejected GetMediaInputStatus: c"),
        other => panic!("{other:?}"),
    }
    match t.resolve_response(&response("3", Some(false), Some("c"), None)) {
        Some((3, Reply::Version(Err(e)))) => assert_eq!(e, "obs rejected GetVersion: c"),
        other => panic!("{other:?}"),
    }
    assert_eq!(send_failed("x"), "send failed: x");
    assert_eq!(decode_failed("x"), "decode MediaInputStatus: x");
}

#[test]
fn messages_that_answer_nothing_are_passed_over() {
    let mut t = RequestTable::new();
    let (id, _) = t.register(ObsWsCmd::GetVersion);
    assert!(t.on_message(&response("9", Some(true), None, None)).is_none());
    assert!(t.on_message(&response("x", Some(true), None, None)).is_none());
    assert!(t.on_message(&message(5, Json::Null)).is_none());
    assert!(t.on_message(&Json::Null).is_none());
    assert!(t.take_back(id));
    assert!(!t.take_back(id));
    assert!(t.on_message(&response("1", Some(true), None, None)).is_none());
}

#[test]
fn the_handshake_waits_for_its_message() {
    assert_eq!(handshake_step(&message(0, Json::Null), 0), HandshakeStep::Arrived);
    assert_eq!(handshake_step(&message(5, Json::Null), 2), HandshakeStep::Wait);
    assert_eq!(handshake_step(&message(8, Json::Null), 2), HandshakeStep::Rejected);
    assert_eq!(handshake_step(&message(9, Json::Null), 2), HandshakeStep::Rejected);
    assert_eq!(handshake_step(&Json::Null, 2), HandshakeStep::Wait);
    assert_eq!(op(&Json::Null), 99);
}

#[test]
fn versions_are_cut_to_their_width() {
    let j = ObjectBuilder::new()
        .with_unsigned("rpcVersion", 0x1_0000_0002)
        .with("platform", Json::Number(JsonNumber::Unsigned(1)))
        .build();
    let v = ObsVersion::from_json(&j);
    assert_eq!(v.rpc_version, 2);
    assert_eq!(v.platform, "");
}

#[test]
fn addresses_name_the_scheme() {
    let mut cfg = ObsWsConfig::default();
    assert_eq!(ws_url(&cfg), "ws://127.0.0.1:4455/");
    cfg.tls = true;
    cfg.host = "obs.local".to_string();
    cfg.port = 1;
    assert_eq!(ws_url(&cfg), "wss://obs.local:1/");
}

#[test]
fn the_wait_doubles_up_to_half_a_minute() {
    let mut b = Backoff::new();
    let waits: Vec<u64> = (0..8).map(|_| b.take()).collect();
    assert_eq!(waits, vec![500, 1_000, 2_000, 4_000, 8_000, 16_000, 30_000, 30_000]);
    b.reset();
    assert_eq!(b.take(), 500);
}

#[test]
fn the_link_is_shown() {
    let mut st = AppStatus::default();
    link_failed(&mut st, "refused");
    assert!(!st.obs_connected);
    assert_eq!(st.obs_error.as_deref(), Some("refused"));
    link_up(&mut st);
    assert!(st.obs_connected && st.obs_error.is_none());
    link_dropped(&mut st);
    assert!(!st.obs_connected);
    assert_eq!(st.obs_error.as_deref(), Some("obs websocket disconnected"));
}
