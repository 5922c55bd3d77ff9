//! The station clock, the script bridge and the link to OBS.

use vstd::prelude::*;

#[allow(unused_imports)]
use crate::app_status::{AppStatus, StatusView};
#[allow(unused_imports)]
use crate::bridge::BridgePayload;
#[allow(unused_imports)]
use crate::config::Config;
#[allow(unused_imports)]
use crate::json::{Json, JsonNumber, JsonView};
#[allow(unused_imports)]
use crate::obs_ws::auth;
#[allow(unused_imports)]
use crate::obs_ws::codec::{self, ObsWsCmd, Pending, Reply, TableView};
#[allow(unused_imports)]
use crate::obs_ws::messages::{self, MediaInputAction};
#[allow(unused_imports)]
use crate::{bridge, json, ntp, obs_ws, seqs, text};

verus! {

// --------------------------------------------------------------------- timestamps

/// A timestamp counts the seconds since 1900 and the binary fraction behind them, the most
/// significant byte first.
pub proof fn timestamps_count_from_1900(unix_ms: i64)
    requires
        0 <= unix_ms < 2_085_978_496_000,
    ensures
        ({
            let b = ntp::be_bytes(ntp::ntp_seconds(unix_ms)) + ntp::be_bytes(
                ntp::ntp_fraction(unix_ms),
            );
            let secs = b[0] * 16_777_216 + b[1] * 65_536 + b[2] * 256 + b[3];
            let frac = b[4] * 16_777_216 + b[5] * 65_536 + b[6] * 256 + b[7];
            let ms = unix_ms - 1_000 * (secs - 2_208_988_800);
            &&& b.len() == 8
            &&& 0 <= ms < 1_000
            &&& frac * 1_000 <= ms * 4_294_967_296 < (frac + 1) * 1_000
        }),
{
    let s = ntp::ntp_seconds(unix_ms);
    let f = ntp::ntp_fraction(unix_ms);
    let m = unix_ms as int % 1_000;
    assert(s == unix_ms as int / 1_000 + 2_208_988_800 && f == m * 4_294_967_296 / 1_000) by {
        assert(ntp::ms_part(unix_ms) == m);
    }
    lemma_four_bytes(s);
    lemma_four_bytes(f);
    let b = ntp::be_bytes(s) + ntp::be_bytes(f);
    let sb = ntp::be_bytes(s);
    let fb = ntp::be_bytes(f);
    assert(b[0] == sb[0] && b[1] == sb[1] && b[2] == sb[2] && b[3] == sb[3]);
    assert(b[4] == fb[0] && b[5] == fb[1] && b[6] == fb[2] && b[7] == fb[3]);
}

proof fn lemma_four_bytes(n: int)
    requires
        0 <= n < 4_294_967_296,
    ensures
        ntp::be_bytes(n).len() == 4,
        ntp::be_bytes(n)[0] * 16_777_216 + ntp::be_bytes(n)[1] * 65_536 + ntp::be_bytes(n)[2] * 256
            + ntp::be_bytes(n)[3] == n,
{
}

/// The seconds of a moment past the era wrap around; those of one before 1970 are counted
/// towards it.
pub proof fn seconds_wrap_with_the_era(unix_ms: i64, secs: int, part: int)
    requires
        unix_ms == 1_000 * secs + part,
        -1_000 < part < 1_000,
        unix_ms >= 0 ==> part >= 0,
        unix_ms <= 0 ==> part <= 0,
    ensures
        0 <= ntp::ntp_seconds(unix_ms) < 4_294_967_296,
        (ntp::ntp_seconds(unix_ms) - (secs + 2_208_988_800)) % 4_294_967_296 == 0,
{
    assert(ntp::towards_zero(unix_ms as int, 1_000) == secs);
}

/// A timestamp in a reply stands for its seconds since 1900 and its fraction, to the
/// millisecond below.
pub proof fn timestamps_are_read(b: Seq<u8>, at: int, ms: int)
    requires
        0 <= at,
        at + 8 <= b.len(),
        ms * 4_294_967_296 <= (b[at + 4] * 16_777_216 + b[at + 5] * 65_536 + b[at + 6] * 256 + b[at
            + 7]) * 1_000,
        (b[at + 4] * 16_777_216 + b[at + 5] * 65_536 + b[at + 6] * 256 + b[at + 7]) * 1_000 < (ms
            + 1) * 4_294_967_296,
    ensures
        ntp::unix_ms_at(b, at) == (b[at] * 16_777_216 + b[at + 1] * 65_536 + b[at + 2] * 256 + b[at
            + 3] - 2_208_988_800) * 1_000 + ms,
{
}

/// The offset is half of what the server's clock was ahead on the way out and on the way
/// back together, a half millisecond being dropped.
pub proof fn the_offset_is_the_mean(t1: int, t2: int, t3: int, t4: int)
    ensures
        ({
            let ahead = (t2 - t1) + (t3 - t4);
            let twice = 2 * ntp::offset_of(t1, t2, t3, t4);
            &&& ahead >= 0 ==> twice == ahead || twice == ahead - 1
            &&& ahead <= 0 ==> twice == ahead || twice == ahead + 1
        }),
{
}

/// An offset that 64 bits hold is kept as it is.
pub proof fn ordinary_offsets_are_kept(x: int)
    ensures
        i64::MIN <= x <= i64::MAX ==> ntp::wrapped(x) == x,
{
}

/// A server is asked by a packet of 48 bytes: the client's header, nothing, and the time of
/// sending at the end.
pub proof fn a_server_is_asked_with_our_time(t1: i64, i: int)
    ensures
        ntp::request_packet(t1).len() == 48,
        ntp::request_packet(t1)[0] == 0x23,
        1 <= i < 40 ==> ntp::request_packet(t1)[i] == 0,
        ntp::request_packet(t1).skip(40) == ntp::be_bytes(ntp::ntp_seconds(t1)) + ntp::be_bytes(
            ntp::ntp_fraction(t1),
        ),
{
    assert(ntp::request_packet(t1).skip(40) =~= ntp::be_bytes(ntp::ntp_seconds(t1))
        + ntp::be_bytes(ntp::ntp_fraction(t1)));
}

/// A reply of 48 bytes or more gives an offset, unless both of its times are the Unix epoch;
/// a shorter one never does.
pub proof fn whole_replies_give_an_offset(reply: Seq<u8>)
    ensures
        reply.len() < 48 ==> ntp::reply_problem(reply) == Some(
            "short reply ("@ + text::decimal(reply.len()) + " of 48 bytes)"@,
        ),
        reply.len() >= 48 && (ntp::unix_ms_at(reply, 32) != 0 || ntp::unix_ms_at(reply, 40) != 0)
            ==> ntp::reply_problem(reply) is None,
        reply.len() >= 48 && ntp::unix_ms_at(reply, 32) == 0 && ntp::unix_ms_at(reply, 40) == 0
            ==> ntp::reply_problem(reply) == Some(
            "server sent a zero timestamp (not an NTP server?)"@,
        ),
{
}

/// A server is asked at the port that it names, and at 123 where it names none.
pub proof fn servers_are_asked_at_their_port(server: Seq<char>)
    ensures
        server.contains(':') ==> ntp::host_and_port(server) == server,
        !server.contains(':') ==> ntp::host_and_port(server) == server + ":123"@,
{
}

/// The servers are asked in their order, and only those are passed over that name no host.
pub proof fn servers_are_asked_in_order(servers: Seq<String>, from: int, i: int)
    requires
        0 <= from <= servers.len(),
    ensures
        from <= i < servers.len() && !text::is_blank(servers[i]@) && (forall|j: int|
            from <= j < i ==> text::is_blank((#[trigger] servers[j])@)) ==> ntp::server_at(
            servers,
            from,
        ) == Some(i),
        (forall|j: int| from <= j < servers.len() ==> text::is_blank((#[trigger] servers[j])@))
            ==> ntp::server_at(servers, from) is None,
    decreases servers.len() - from,
{
    if from < servers.len() && text::is_blank(servers[from]@) {
        servers_are_asked_in_order(servers, from + 1, i);
    }
}

// ------------------------------------------------------------------------- bridge

/// The credentials of the script are taken over before the engine has been set up, and when
/// the operator asks for it; at no other time.
pub proof fn credentials_are_taken_over_once(cfg: Config, p: BridgePayload)
    ensures
        !cfg.bootstrapped ==> bridge::takes_credentials(cfg, p),
        p.force == Some(true) ==> bridge::takes_credentials(cfg, p) && bridge::is_forced(p),
        p.force != Some(true) ==> !bridge::is_forced(p),
        cfg.bootstrapped && p.force != Some(true) ==> !bridge::takes_credentials(cfg, p),
{
}

/// A media source that the script names is taken over, trimmed, where none has been chosen or
/// the operator asks for it. A blank one never is, and a choice is never overwritten unasked.
pub proof fn a_chosen_source_is_kept(cfg: Config, p: BridgePayload, named: String)
    ensures
        p.target_input is None ==> bridge::taken_target(cfg, p) is None,
        p.target_input == Some(named) ==> {
            let new = text::trimmed(named@);
            let present = text::trimmed(cfg.target_input@);
            let chosen = present.len() > 0 && present != "main_media"@;
            &&& new.len() == 0 || new == present ==> bridge::taken_target(cfg, p) is None
            &&& chosen && p.force != Some(true) ==> bridge::taken_target(cfg, p) is None
            &&& new.len() > 0 && new != present && (!chosen || p.force == Some(true))
                ==> bridge::taken_target(cfg, p) == Some(new)
        },
{
}

/// A setting that the script leaves out stays as it is.
pub proof fn left_out_settings_stay(new: String, present: Seq<char>)
    ensures
        bridge::text_or(Some(new), present) == new@,
        bridge::text_or(None, present) == present,
{
}

// --------------------------------------------------------------------------- link

/// Waits before connecting again start at half a second and double, up to half a minute.
pub proof fn waits_double_up_to_half_a_minute(ms: u64)
    ensures
        obs_ws::MIN_BACKOFF_MS == 500,
        ms <= 15_000 ==> obs_ws::doubled(ms) == 2 * ms,
        ms >= 15_000 ==> obs_ws::doubled(ms) == 30_000,
{
}

/// The address of OBS is made of its host and port, secured exactly where that was asked
/// for.
pub proof fn the_address_of_obs(host: Seq<char>, port: u16)
    ensures
        obs_ws::url_of(true, host, port) == "wss://"@ + host + ":"@ + text::decimal(port as nat)
            + "/"@,
        obs_ws::url_of(false, host, port) == "ws://"@ + host + ":"@ + text::decimal(port as nat)
            + "/"@,
{
}

/// What is shown of the link to OBS is all that a change of it touches.
pub proof fn the_link_is_shown(s: StatusView, up: bool, error: Option<Seq<char>>)
    ensures
        obs_ws::with_link(s, up, error) == (StatusView {
            obs_connected: up,
            obs_error: error,
            scheduler_running: s.scheduler_running,
            scheduler_state: s.scheduler_state,
            current_program_id: s.current_program_id,
            current_program_name: s.current_program_name,
            current_remaining_ms: s.current_remaining_ms,
            last_changed_at: s.last_changed_at,
            last_error: s.last_error,
            paused: s.paused,
            ntp_offset_ms: s.ntp_offset_ms,
            ntp_server: s.ntp_server,
            ntp_synced_at: s.ntp_synced_at,
            ntp_error: s.ntp_error,
        }),
{
}

/// The UI is shown what the status holds.
pub proof fn a_status_is_what_it_holds(s: AppStatus)
    ensures
        s@.obs_connected == s.obs_connected,
        s@.scheduler_running == s.scheduler_running,
        s@.scheduler_state == s.scheduler_state@,
        s@.current_remaining_ms == s.current_remaining_ms,
        s@.last_changed_at == s.last_changed_at,
        s@.paused == s.paused,
        s@.ntp_offset_ms == s.ntp_offset_ms,
        s@.ntp_synced_at == s.ntp_synced_at,
        s.obs_error matches Some(e) ==> s@.obs_error == Some(e@),
        s.obs_error is None ==> s@.obs_error is None,
        s.current_program_id matches Some(e) ==> s@.current_program_id == Some(e@),
        s.current_program_id is None ==> s@.current_program_id is None,
        s.current_program_name matches Some(e) ==> s@.current_program_name == Some(e@),
        s.current_program_name is None ==> s@.current_program_name is None,
        s.last_error matches Some(e) ==> s@.last_error == Some(e@),
        s.last_error is None ==> s@.last_error is None,
        s.ntp_server matches Some(e) ==> s@.ntp_server == Some(e@),
        s.ntp_server is None ==> s@.ntp_server is None,
        s.ntp_error matches Some(e) ==> s@.ntp_error == Some(e@),
        s.ntp_error is None ==> s@.ntp_error is None,
{
}

// ----------------------------------------------------------------------- requests

/// Whether a message is a request of a type under an id, with its data.
pub open spec fn asks(m: JsonView, id: u64, kind: Seq<char>, data: JsonView) -> bool {
    m == JsonView::Object(
        seq![
            ("op"@, JsonView::Number(JsonNumber::Unsigned(6))),
            (
                "d"@,
                JsonView::Object(
                    seq![
                        ("requestId"@, JsonView::Text(text::decimal(id as nat))),
                        ("requestType"@, JsonView::Text(kind)),
                        ("requestData"@, data),
                    ],
                ),
            ),
        ],
    )
}

/// Each command goes out as the request of its name, with what it is to act on.
pub proof fn commands_go_out_under_their_name(
    id: u64,
    input: String,
    settings: Json,
    overlay: bool,
    action: MediaInputAction,
    cursor_ms: u64,
)
    ensures
        ({
            let name = ("inputName"@, JsonView::Text(input@));
            &&& asks(
                codec::request_view(
                    id,
                    ObsWsCmd::SetInputSettings { input_name: input, settings, overlay },
                ),
                id,
                "SetInputSettings"@,
                JsonView::Object(
                    seq![name, ("settings"@, settings@), ("overlay"@, JsonView::Bool(overlay))],
                ),
            )
            &&& asks(
                codec::request_view(
                    id,
                    ObsWsCmd::TriggerMediaInputAction { input_name: input, action },
                ),
                id,
                "TriggerMediaInputAction"@,
                JsonView::Object(
                    seq![name, ("action"@, JsonView::Text(messages::action_name(action)))],
                ),
            )
            &&& asks(
                codec::request_view(
                    id,
                    ObsWsCmd::SetMediaInputCursor { input_name: input, cursor_ms },
                ),
                id,
                "SetMediaInputCursor"@,
                JsonView::Object(
                    seq![
                        name,
                        ("mediaCursor"@, JsonView::Number(JsonNumber::Unsigned(cursor_ms))),
                    ],
                ),
            )
            &&& asks(
                codec::request_view(id, ObsWsCmd::GetMediaInputStatus { input_name: input }),
                id,
                "GetMediaInputStatus"@,
                JsonView::Object(seq![name]),
            )
            &&& asks(
                codec::request_view(id, ObsWsCmd::GetVersion),
                id,
                "GetVersion"@,
                JsonView::Null,
            )
        }),
{
}

/// A command waits for what OBS answers to it: a status, a version, or no more than that it
/// was carried out.
pub proof fn commands_wait_for_their_answer(cmd: ObsWsCmd)
    ensures
        cmd is GetMediaInputStatus <==> codec::awaits(cmd) == Pending::Status,
        cmd is GetVersion <==> codec::awaits(cmd) == Pending::Version,
        cmd is SetInputSettings || cmd is TriggerMediaInputAction || cmd is SetMediaInputCursor
            <==> codec::awaits(cmd) == Pending::Ack,
{
}

/// A request takes the next id, and only its own entry is added.
pub proof fn a_request_takes_the_next_id(t: TableView, cmd: ObsWsCmd, other: u64)
    ensures
        ({
            let after = codec::registered(t, cmd);
            &&& t.next_id < u64::MAX ==> after.next_id == t.next_id + 1
            &&& t.next_id == u64::MAX ==> after.next_id == 0
            &&& after.pending.contains_key(t.next_id)
            &&& after.pending[t.next_id] == codec::awaits(cmd)
            &&& other != t.next_id ==> {
                &&& after.pending.contains_key(other) == t.pending.contains_key(other)
                &&& t.pending.contains_key(other) ==> after.pending[other] == t.pending[other]
            }
        }),
{
}

/// An action goes out as its own name behind the prefix of all of them.
pub proof fn actions_go_out_under_their_name(a: MediaInputAction)
    ensures
        ({
            let word = match a {
                MediaInputAction::Restart => "RESTART"@,
                MediaInputAction::Pause => "PAUSE"@,
                MediaInputAction::Play => "PLAY"@,
                MediaInputAction::Stop => "STOP"@,
                MediaInputAction::Next => "NEXT"@,
                MediaInputAction::Previous => "PREVIOUS"@,
            };
            messages::action_name(a) == "OBS_WEBSOCKET_MEDIA_INPUT_ACTION_"@ + word
        }),
{
    reveal_strlit("OBS_WEBSOCKET_MEDIA_INPUT_ACTION_");
    reveal_strlit("RESTART");
    reveal_strlit("PAUSE");
    reveal_strlit("PLAY");
    reveal_strlit("STOP");
    reveal_strlit("NEXT");
    reveal_strlit("PREVIOUS");
    reveal_strlit("OBS_WEBSOCKET_MEDIA_INPUT_ACTION_RESTART");
    reveal_strlit("OBS_WEBSOCKET_MEDIA_INPUT_ACTION_PAUSE");
    reveal_strlit("OBS_WEBSOCKET_MEDIA_INPUT_ACTION_PLAY");
    reveal_strlit("OBS_WEBSOCKET_MEDIA_INPUT_ACTION_STOP");
    reveal_strlit("OBS_WEBSOCKET_MEDIA_INPUT_ACTION_NEXT");
    reveal_strlit("OBS_WEBSOCKET_MEDIA_INPUT_ACTION_PREVIOUS");
    let prefix = "OBS_WEBSOCKET_MEDIA_INPUT_ACTION_"@;
    assert("OBS_WEBSOCKET_MEDIA_INPUT_ACTION_RESTART"@ =~= prefix + "RESTART"@);
    assert("OBS_WEBSOCKET_MEDIA_INPUT_ACTION_PAUSE"@ =~= prefix + "PAUSE"@);
    assert("OBS_WEBSOCKET_MEDIA_INPUT_ACTION_PLAY"@ =~= prefix + "PLAY"@);
    assert("OBS_WEBSOCKET_MEDIA_INPUT_ACTION_STOP"@ =~= prefix + "STOP"@);
    assert("OBS_WEBSOCKET_MEDIA_INPUT_ACTION_NEXT"@ =~= prefix + "NEXT"@);
    assert("OBS_WEBSOCKET_MEDIA_INPUT_ACTION_PREVIOUS"@ =~= prefix + "PREVIOUS"@);
}

// ---------------------------------------------------------------------- responses

/// A response of OBS: to whom, whether it was carried out, what is said of it, and its data.
pub open spec fn response(
    id: Seq<char>,
    ok: bool,
    comment: Seq<char>,
    data: JsonView,
) -> JsonView {
    JsonView::Object(
        seq![
            ("op"@, JsonView::Number(JsonNumber::Unsigned(7))),
            (
                "d"@,
                JsonView::Object(
                    seq![
                        ("requestId"@, JsonView::Text(id)),
                        (
                            "requestStatus"@,
                            JsonView::Object(
                                seq![
                                    ("result"@, JsonView::Bool(ok)),
                                    ("comment"@, JsonView::Text(comment)),
                                ],
                            ),
                        ),
                        ("responseData"@, data),
                    ],
                ),
            ),
        ],
    )
}

/// A response is read for what it is: the request it names, its outcome, its words and its
/// data.
pub proof fn responses_are_read(id: u64, ok: bool, comment: Seq<char>, data: JsonView)
    ensures
        ({
            let v = response(text::decimal(id as nat), ok, comment, data);
            &&& codec::op_of(v) == 7
            &&& codec::response_id(v) == Some(id)
            &&& codec::response_ok(v) == ok
            &&& codec::response_comment(v) == comment
            &&& codec::response_data(v) == data
        }),
{
    let v = response(text::decimal(id as nat), ok, comment, data);
    reveal_strlit("op");
    reveal_strlit("d");
    reveal_strlit("requestId");
    reveal_strlit("requestStatus");
    reveal_strlit("responseData");
    reveal_strlit("result");
    reveal_strlit("comment");
    assert("op"@.len() == 2 && "d"@.len() == 1);
    assert("requestId"@.len() == 9 && "requestStatus"@.len() == 13 && "responseData"@.len() == 12);
    assert("result"@.len() == 6 && "comment"@.len() == 7);
    let top = v->Object_0;
    json::lookup_is_first(top, "op"@, 0);
    json::lookup_is_first(top, "d"@, 1);
    let d = top[1].1->Object_0;
    json::lookup_is_first(d, "requestId"@, 0);
    json::lookup_is_first(d, "requestStatus"@, 1);
    json::lookup_is_first(d, "responseData"@, 2);
    let s = d[1].1->Object_0;
    json::lookup_is_first(s, "result"@, 0);
    json::lookup_is_first(s, "comment"@, 1);
    text::decimal_reads_back(id);
}

/// A message that is no object, or says nothing of these things, names no request, is no
/// success and has no data.
pub proof fn strange_messages_mean_nothing(v: JsonView)
    requires
        !(v is Object),
    ensures
        codec::op_of(v) == 99,
        codec::response_id(v) is None,
        !codec::response_ok(v),
        codec::response_comment(v) == "unknown error"@,
        codec::response_data(v) == JsonView::Null,
{
}

/// A caller is answered in kind, is told of a success exactly where OBS reported one, and
/// else of what was refused and why.
pub proof fn callers_are_told_what_obs_said(r: Reply, p: Pending, v: JsonView)
    requires
        codec::answers(r, p, v),
    ensures
        p == Pending::Ack <==> r is Ack,
        p == Pending::Status <==> r is Status,
        p == Pending::Version <==> r is Version,
        r matches Reply::Ack(a) ==> (a is Ok <==> codec::response_ok(v)),
        r matches Reply::Status(a) ==> (a is Ok <==> codec::response_ok(v)),
        r matches Reply::Version(a) ==> (a is Ok <==> codec::response_ok(v)),
        r matches Reply::Ack(Err(e)) ==> e@ == "obs rejected request: "@ + codec::response_comment(
            v,
        ),
        r matches Reply::Status(Err(e)) ==> e@ == "obs rejected GetMediaInputStatus: "@
            + codec::response_comment(v),
        r matches Reply::Version(Err(e)) ==> e@ == "obs rejected GetVersion: "@
            + codec::response_comment(v),
        r matches Reply::Status(Ok(data)) ==> data@ == codec::response_data(v),
        r matches Reply::Version(Ok(ver)) ==> ver.obs_version@ == messages::text_or_nothing(
            codec::response_data(v),
            "obsVersion"@,
        ) && ver.platform@ == messages::text_or_nothing(codec::response_data(v), "platform"@)
            && ver.rpc_version == messages::low_half_or_zero(
            codec::response_data(v),
            "rpcVersion"@,
        ),
{
}

/// What OBS says of its version is read member by member; what it leaves out is empty.
pub proof fn versions_are_read(version: Seq<char>, rpc: u64, platform: Seq<char>)
    ensures
        ({
            let data = JsonView::Object(
                seq![
                    ("obsVersion"@, JsonView::Text(version)),
                    ("rpcVersion"@, JsonView::Number(JsonNumber::Unsigned(rpc))),
                    ("platform"@, JsonView::Text(platform)),
                ],
            );
            let none = JsonView::Null;
            &&& messages::text_or_nothing(data, "obsVersion"@) == version
            &&& rpc <= u32::MAX ==> messages::low_half_or_zero(data, "rpcVersion"@) == rpc
            &&& messages::text_or_nothing(data, "platform"@) == platform
            &&& messages::text_or_nothing(none, "obsVersion"@).len() == 0
            &&& messages::low_half_or_zero(none, "rpcVersion"@) == 0
        }),
{
    reveal_strlit("obsVersion");
    reveal_strlit("rpcVersion");
    reveal_strlit("platform");
    assert("obsVersion"@[0] == 'o' && "rpcVersion"@[0] == 'r' && "platform"@[0] == 'p');
    let m = seq![
        ("obsVersion"@, JsonView::Text(version)),
        ("rpcVersion"@, JsonView::Number(JsonNumber::Unsigned(rpc))),
        ("platform"@, JsonView::Text(platform)),
    ];
    json::lookup_is_first(m, "obsVersion"@, 0);
    json::lookup_is_first(m, "rpcVersion"@, 1);
    json::lookup_is_first(m, "platform"@, 2);
}

// ----------------------------------------------------------------- authentication

/// OBS is answered with the digest of the secret and its challenge, the secret being the
/// digest of the password and the salt, both as base64; the protocol version goes with it.
/// Without a password, or where OBS asks for nothing, only the version is sent.
pub proof fn obs_is_answered_by_the_password_scheme(
    challenge: Seq<char>,
    salt: Seq<char>,
    password: Seq<char>,
    asked: JsonView,
)
    ensures
        ({
            let auth = JsonView::Object(
                seq![
                    ("challenge"@, JsonView::Text(challenge)),
                    ("salt"@, JsonView::Text(salt)),
                ],
            );
            let secret = auth::base64_of(
                auth::sha256_of(vstd::utf8::encode_utf8(password + salt)),
            );
            let answer = auth::base64_of(
                auth::sha256_of(vstd::utf8::encode_utf8(secret + challenge)),
            );
            let version = ("rpcVersion"@, JsonView::Number(JsonNumber::Unsigned(1)));
            &&& auth::auth_text(challenge, salt, password) == answer
            &&& password.len() > 0 ==> auth::identify_view(auth, password) == JsonView::Object(
                seq![version, ("authentication"@, JsonView::Text(answer))],
            )
            &&& password.len() == 0 || !(asked is Object) ==> auth::identify_view(asked, password)
                == JsonView::Object(seq![version])
        }),
{
    reveal_strlit("challenge");
    reveal_strlit("salt");
    assert("challenge"@.len() == 9 && "salt"@.len() == 4);
    let m = seq![("challenge"@, JsonView::Text(challenge)), ("salt"@, JsonView::Text(salt))];
    json::lookup_is_first(m, "challenge"@, 0);
    json::lookup_is_first(m, "salt"@, 1);
}

/// A password that is not given is none.
pub proof fn no_password_is_an_empty_one(password: &str)
    ensures
        auth::password_of(Some(password)) == password@,
        auth::password_of(None).len() == 0,
{
}

/// A member is looked for in objects alone, and a value is read as what it is and nothing
/// else.
pub proof fn values_are_read_as_what_they_are(
    j: JsonView,
    key: Seq<char>,
    t: Seq<char>,
    n: u64,
    flag: bool,
)
    ensures
        json::member_in(Some(j), key) == json::member_of(j, key),
        json::member_in(None, key) is None,
        !(j is Object) ==> json::member_of(j, key) is None,
        json::text_in(Some(JsonView::Text(t))) == Some(t),
        !(j is Text) ==> json::text_in(Some(j)) is None,
        json::text_in(None) is None,
        json::unsigned_in(Some(JsonView::Number(JsonNumber::Unsigned(n)))) == Some(n),
        !(j is Number) ==> json::unsigned_in(Some(j)) is None,
        json::unsigned_in(None) is None,
        json::bool_in(Some(JsonView::Bool(flag))) == Some(flag),
        !(j is Bool) ==> json::bool_in(Some(j)) is None,
        json::bool_in(None) is None,
        json::or_null(Some(j)) == j,
        json::or_null(None) == JsonView::Null,
{
}

/// A text that may be missing is shown as the text, or as null.
pub proof fn missing_texts_are_null(s: String)
    ensures
        json::opt_text_view(Some(s)) == JsonView::Text(s@),
        json::opt_text_view(None) == JsonView::Null,
        text::opt_text(Some(s)) == Some(s@),
        text::opt_text(None) is None,
{
}

/// What is no object takes the place of whatever was there.
pub proof fn plain_values_replace(base: JsonView, patch: JsonView)
    ensures
        !(patch is Object) || !(base is Object) ==> json::merged(base, patch) == patch,
{
}

} // verus!
