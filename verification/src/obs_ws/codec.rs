//! What the connection to OBS sends, and which answer belongs to which request.
//!
//! Each request gets an id, and an entry under that id waits for the response. The
//! 1:1 mapping between entries and requests in flight is what guarantees that a
//! response reaches its caller.

use std::collections::HashMap;

use vstd::prelude::*;

use super::messages::{MediaInputAction, ObsVersion};
use crate::json::{get_in, text_of, Json, JsonNumber, JsonView, ObjectBuilder};
use crate::text::{cat, fmt_u64, parse_u64};
#[allow(unused_imports)]
use super::messages;
#[allow(unused_imports)]
use crate::{json, text};

verus! {

broadcast use vstd::std_specs::hash::group_hash_axioms;

/// A command for OBS.
#[derive(Debug)]
pub enum ObsWsCmd {
    SetInputSettings { input_name: String, settings: Json, overlay: bool },
    TriggerMediaInputAction { input_name: String, action: MediaInputAction },
    /// Seeks in the file of a media source.
    SetMediaInputCursor { input_name: String, cursor_ms: u64 },
    GetMediaInputStatus { input_name: String },
    GetVersion,
}

/// What the caller of a command waits for.
#[derive(Debug, Clone, Copy, PartialEq, Eq, Structural)]
pub enum Pending {
    Ack,
    Status,
    Version,
}

/// What a command waits for.
pub open spec fn awaits(cmd: ObsWsCmd) -> Pending {
    match cmd {
        ObsWsCmd::SetInputSettings { .. } => Pending::Ack,
        ObsWsCmd::TriggerMediaInputAction { .. } => Pending::Ack,
        ObsWsCmd::SetMediaInputCursor { .. } => Pending::Ack,
        ObsWsCmd::GetMediaInputStatus { .. } => Pending::Status,
        ObsWsCmd::GetVersion => Pending::Version,
    }
}

/// The type of a command on the wire.
pub open spec fn request_type_of(cmd: ObsWsCmd) -> Seq<char> {
    match cmd {
        ObsWsCmd::SetInputSettings { .. } => "SetInputSettings"@,
        ObsWsCmd::TriggerMediaInputAction { .. } => "TriggerMediaInputAction"@,
        ObsWsCmd::SetMediaInputCursor { .. } => "SetMediaInputCursor"@,
        ObsWsCmd::GetMediaInputStatus { .. } => "GetMediaInputStatus"@,
        ObsWsCmd::GetVersion => "GetVersion"@,
    }
}

/// The data of a command on the wire.
pub open spec fn request_data_of(cmd: ObsWsCmd) -> JsonView {
    match cmd {
        ObsWsCmd::SetInputSettings { input_name, settings, overlay } => JsonView::Object(
            seq![
                ("inputName"@, JsonView::Text(input_name@)),
                ("settings"@, settings@),
                ("overlay"@, JsonView::Bool(overlay)),
            ],
        ),
        ObsWsCmd::TriggerMediaInputAction { input_name, action } => JsonView::Object(
            seq![
                ("inputName"@, JsonView::Text(input_name@)),
                ("action"@, JsonView::Text(messages::action_name(action))),
            ],
        ),
        ObsWsCmd::SetMediaInputCursor { input_name, cursor_ms } => JsonView::Object(
            seq![
                ("inputName"@, JsonView::Text(input_name@)),
                ("mediaCursor"@, JsonView::Number(JsonNumber::Unsigned(cursor_ms))),
            ],
        ),
        ObsWsCmd::GetMediaInputStatus { input_name } => JsonView::Object(
            seq![("inputName"@, JsonView::Text(input_name@))],
        ),
        ObsWsCmd::GetVersion => JsonView::Null,
    }
}

/// A message: an operation and its data.
pub open spec fn message_view(op: u64, d: JsonView) -> JsonView {
    JsonView::Object(seq![("op"@, JsonView::Number(JsonNumber::Unsigned(op))), ("d"@, d)])
}

/// The request that a command makes under an id.
pub open spec fn request_view(id: u64, cmd: ObsWsCmd) -> JsonView {
    message_view(
        6,
        JsonView::Object(
            seq![
                ("requestId"@, JsonView::Text(text::decimal(id as nat))),
                ("requestType"@, JsonView::Text(request_type_of(cmd))),
                ("requestData"@, request_data_of(cmd)),
            ],
        ),
    )
}

/// Builds a message.
pub fn message(op: u64, d: Json) -> (r: Json)
    ensures
        r@ == message_view(op, d@),
{
    let b = ObjectBuilder::new().with_unsigned("op", op).with("d", d);
    assert(b@ =~= message_view(op, d@)->Object_0);
    b.build()
}

fn request_data(cmd: ObsWsCmd) -> (r: Json)
    ensures
        r@ == request_data_of(cmd),
{
    match cmd {
        ObsWsCmd::SetInputSettings { input_name, settings, overlay } => {
            let b = ObjectBuilder::new().with_text("inputName", input_name.as_str()).with(
                "settings",
                settings,
            ).with_bool("overlay", overlay);
            assert(b@ =~= request_data_of(cmd)->Object_0);
            b.build()
        },
        ObsWsCmd::TriggerMediaInputAction { input_name, action } => {
            let b = ObjectBuilder::new().with_text("inputName", input_name.as_str()).with_text(
                "action",
                action.as_str(),
            );
            assert(b@ =~= request_data_of(cmd)->Object_0);
            b.build()
        },
        ObsWsCmd::SetMediaInputCursor { input_name, cursor_ms } => {
            let b = ObjectBuilder::new().with_text("inputName", input_name.as_str()).with_unsigned(
                "mediaCursor",
                cursor_ms,
            );
            assert(b@ =~= request_data_of(cmd)->Object_0);
            b.build()
        },
        ObsWsCmd::GetMediaInputStatus { input_name } => {
            let b = ObjectBuilder::new().with_text("inputName", input_name.as_str());
            assert(b@ =~= request_data_of(cmd)->Object_0);
            b.build()
        },
        ObsWsCmd::GetVersion => Json::Null,
    }
}

/// The requests of one connection that wait for their responses.
pub struct RequestTable {
    next_id: u64,
    pending: HashMap<u64, Pending>,
}

/// The mathematical counterpart of `RequestTable`.
#[verifier::ext_equal]
pub struct TableView {
    /// The id of the next request.
    pub next_id: u64,
    /// The requests in flight.
    pub pending: Map<u64, Pending>,
}

impl View for RequestTable {
    type V = TableView;

    closed spec fn view(&self) -> TableView {
        TableView { next_id: self.next_id, pending: self.pending@ }
    }
}

/// The id after `id`.
pub open spec fn id_after(id: u64) -> u64 {
    if id == u64::MAX {
        0
    } else {
        (id + 1) as u64
    }
}

/// The table once a command waits for its response.
pub open spec fn registered(t: TableView, cmd: ObsWsCmd) -> TableView {
    TableView {
        next_id: id_after(t.next_id),
        pending: t.pending.insert(t.next_id, awaits(cmd)),
    }
}

/// The id that a response names.
pub open spec fn response_id(v: JsonView) -> Option<u64> {
    match json::text_in(json::member_in(json::member_of(v, "d"@), "requestId"@)) {
        Some(t) => text::read_u64(t),
        None => None,
    }
}

/// What a request was answered.
#[derive(Debug)]
pub enum Reply {
    Ack(Result<(), String>),
    /// The data that the status is read from.
    Status(Result<Json, String>),
    Version(Result<ObsVersion, String>),
}

/// Whether a response says that the request was carried out.
pub open spec fn response_ok(v: JsonView) -> bool {
    json::bool_in(
        json::member_in(json::member_in(json::member_of(v, "d"@), "requestStatus"@), "result"@),
    ) == Some(true)
}

/// Why a request was not carried out.
pub open spec fn response_comment(v: JsonView) -> Seq<char> {
    match json::text_in(
        json::member_in(json::member_in(json::member_of(v, "d"@), "requestStatus"@), "comment"@),
    ) {
        Some(t) => t,
        None => "unknown error"@,
    }
}

/// The data of a response.
pub open spec fn response_data(v: JsonView) -> JsonView {
    json::or_null(json::member_in(json::member_of(v, "d"@), "responseData"@))
}

/// Whether `r` is what a caller waiting for `p` is told of the response `v`.
pub open spec fn answers(r: Reply, p: Pending, v: JsonView) -> bool {
    match (p, r) {
        (Pending::Ack, Reply::Ack(Ok(_))) => response_ok(v),
        (Pending::Ack, Reply::Ack(Err(e))) => !response_ok(v) && e@ == "obs rejected request: "@
            + response_comment(v),
        (Pending::Status, Reply::Status(Ok(data))) => response_ok(v) && data@ == response_data(v),
        (Pending::Status, Reply::Status(Err(e))) => !response_ok(v) && e@
            == "obs rejected GetMediaInputStatus: "@ + response_comment(v),
        (Pending::Version, Reply::Version(Ok(ver))) => {
            let data = response_data(v);
            &&& response_ok(v)
            &&& ver.obs_version@ == messages::text_or_nothing(data, "obsVersion"@)
            &&& ver.rpc_version == messages::low_half_or_zero(data, "rpcVersion"@)
            &&& ver.platform@ == messages::text_or_nothing(data, "platform"@)
        },
        (Pending::Version, Reply::Version(Err(e))) => !response_ok(v) && e@
            == "obs rejected GetVersion: "@ + response_comment(v),
        _ => false,
    }
}

fn reply_for(entry: Pending, v: &Json) -> (r: Reply)
    ensures
        answers(r, entry, v@),
{
    let d = v.get("d");
    let status = get_in(d, "requestStatus");
    let ok: bool = match get_in(status, "result") {
        Some(b) => match b.as_bool() {
            Some(b) => b,
            None => false,
        },
        None => false,
    };
    let comment: &str = match text_of(get_in(status, "comment")) {
        Some(t) => t,
        None => "unknown error",
    };
    let data: Json = match get_in(d, "responseData") {
        Some(j) => j.copy(),
        None => Json::Null,
    };
    match entry {
        Pending::Ack => Reply::Ack(
            if ok {
                Ok(())
            } else {
                Err(cat("obs rejected request: ", comment))
            },
        ),
        Pending::Status => Reply::Status(
            if ok {
                Ok(data)
            } else {
                Err(cat("obs rejected GetMediaInputStatus: ", comment))
            },
        ),
        Pending::Version => Reply::Version(
            if ok {
                Ok(ObsVersion::from_json(&data))
            } else {
                Err(cat("obs rejected GetVersion: ", comment))
            },
        ),
    }
}

impl RequestTable {
    /// Nothing is in flight; the first request has the id 1.
    pub fn new() -> (r: Self)
        ensures
            r@ == (TableView { next_id: 1, pending: Map::empty() }),
    {
        RequestTable { next_id: 1, pending: HashMap::new() }
    }

    /// The next id.
    fn alloc_id(&mut self) -> (r: u64)
        ensures
            r == old(self)@.next_id,
            final(self)@ == (TableView { next_id: id_after(old(self)@.next_id), ..old(self)@ }),
    {
        let id: u64 = self.next_id;
        self.next_id = if id == u64::MAX {
            0
        } else {
            id + 1
        };
        id
    }

    /// Lets a command wait for its response. Returns its id and the message to send;
    /// the entry is there before the message goes out, so that no reply can be too
    /// fast for it.
    pub fn register(&mut self, cmd: ObsWsCmd) -> (r: (u64, Json))
        ensures
            r.0 == old(self)@.next_id,
            r.1@ == request_view(r.0, cmd),
            final(self)@ == registered(old(self)@, cmd),
    {
        let id: u64 = self.alloc_id();
        let (kind, request_type) = match &cmd {
            ObsWsCmd::SetInputSettings { .. } => (Pending::Ack, "SetInputSettings"),
            ObsWsCmd::TriggerMediaInputAction { .. } => (Pending::Ack, "TriggerMediaInputAction"),
            ObsWsCmd::SetMediaInputCursor { .. } => (Pending::Ack, "SetMediaInputCursor"),
            ObsWsCmd::GetMediaInputStatus { .. } => (Pending::Status, "GetMediaInputStatus"),
            ObsWsCmd::GetVersion => (Pending::Version, "GetVersion"),
        };
        self.pending.insert(id, kind);
        let b = ObjectBuilder::new().with_text("requestId", fmt_u64(id).as_str()).with_text(
            "requestType",
            request_type,
        ).with("requestData", request_data(cmd));
        let ghost d = b@;
        let payload = message(6, b.build());
        assert(d =~= seq![
            ("requestId"@, JsonView::Text(text::decimal(id as nat))),
            ("requestType"@, JsonView::Text(request_type_of(cmd))),
            ("requestData"@, request_data_of(cmd)),
        ]);
        assert(self@ =~= registered(old(self)@, cmd));
        (id, payload)
    }

    /// Finds out whom a response is for, and what that caller is told. `None` where
    /// it names no request in flight.
    pub fn resolve_response(&mut self, v: &Json) -> (r: Option<(u64, Reply)>)
        ensures
            match r {
                Some((id, reply)) => {
                    &&& response_id(v@) == Some(id)
                    &&& old(self)@.pending.contains_key(id)
                    &&& answers(reply, old(self)@.pending[id], v@)
                    &&& final(self)@ == (TableView {
                        pending: old(self)@.pending.remove(id),
                        ..old(self)@
                    })
                },
                None => {
                    &&& response_id(v@) matches Some(id) ==> !old(self)@.pending.contains_key(id)
                    &&& final(self)@ == old(self)@
                },
            },
    {
        let id: u64 = match text_of(get_in(v.get("d"), "requestId")) {
            Some(t) => match parse_u64(t) {
                Some(id) => id,
                None => {
                    return None;
                },
            },
            None => {
                return None;
            },
        };
        match self.pending.remove(&id) {
            Some(entry) => {
                assert(self@ =~= (TableView {
                    pending: old(self)@.pending.remove(id),
                    ..old(self)@
                }));
                Some((id, reply_for(entry, v)))
            },
            None => {
                assert(self@ =~= old(self)@);
                None
            },
        }
    }

    /// Takes a request back that could not be sent. True where it was waiting.
    pub fn take_back(&mut self, id: u64) -> (r: bool)
        ensures
            r == old(self)@.pending.contains_key(id),
            final(self)@ == (TableView {
                pending: old(self)@.pending.remove(id),
                ..old(self)@
            }),
    {
        let r: bool = self.pending.remove(&id).is_some();
        assert(self@ =~= (TableView { pending: old(self)@.pending.remove(id), ..old(self)@ }));
        r
    }

    /// What is made of a message while connected: a response is resolved, an event or
    /// anything else is passed over.
    pub fn on_message(&mut self, v: &Json) -> (r: Option<(u64, Reply)>)
        ensures
            op_of(v@) != 7 ==> r is None && final(self)@ == old(self)@,
            op_of(v@) == 7 ==> match r {
                Some((id, reply)) => {
                    &&& response_id(v@) == Some(id)
                    &&& old(self)@.pending.contains_key(id)
                    &&& answers(reply, old(self)@.pending[id], v@)
                    &&& final(self)@ == (TableView {
                        pending: old(self)@.pending.remove(id),
                        ..old(self)@
                    })
                },
                None => {
                    &&& response_id(v@) matches Some(id) ==> !old(self)@.pending.contains_key(id)
                    &&& final(self)@ == old(self)@
                },
            },
    {
        if op(v) == 7 {
            self.resolve_response(v)
        } else {
            None
        }
    }
}

/// What a caller is told whose request could not be sent.
pub fn send_failed(e: &str) -> (r: String)
    ensures
        r@ == "send failed: "@ + e@,
{
    cat("send failed: ", e)
}

/// What a caller is told whose status could not be read.
pub fn decode_failed(e: &str) -> (r: String)
    ensures
        r@ == "decode MediaInputStatus: "@ + e@,
{
    cat("decode MediaInputStatus: ", e)
}

// ------------------------------------------------------------------- handshake

/// The operation of a message; 99 where it names none.
pub open spec fn op_of(v: JsonView) -> u64 {
    match json::unsigned_in(json::member_of(v, "op"@)) {
        Some(n) => n,
        None => 99,
    }
}

/// The operation of a message; 99 where it names none.
pub fn op(v: &Json) -> (r: u64)
    ensures
        r == op_of(v@),
{
    match v.get("op") {
        Some(n) => match n.as_unsigned() {
            Some(n) => n,
            None => 99,
        },
        None => 99,
    }
}

/// What is made of a message while a certain one is waited for.
#[derive(Debug, Clone, Copy, PartialEq, Eq, Structural)]
pub enum HandshakeStep {
    /// This is the one.
    Arrived,
    /// OBS turned the connection down.
    Rejected,
    /// Something else: go on waiting.
    Wait,
}

/// Judges a message while the operation `expected` is waited for.
pub fn handshake_step(v: &Json, expected: u64) -> (r: HandshakeStep)
    ensures
        r == (if op_of(v@) == expected {
            HandshakeStep::Arrived
        } else if op_of(v@) == 8 || op_of(v@) == 9 {
            HandshakeStep::Rejected
        } else {
            HandshakeStep::Wait
        }),
{
    let got: u64 = op(v);
    if got == expected {
        HandshakeStep::Arrived
    } else if got == 8 || got == 9 {
        HandshakeStep::Rejected
    } else {
        HandshakeStep::Wait
    }
}

// ------------------------------------------------------------------------ laws

/// A response that OBS gives to a request names that request: the id that went out
/// comes back as the same number.
pub proof fn responses_name_their_request(
    id: u64,
    v: JsonView,
)
    requires
        json::text_in(json::member_in(json::member_of(v, "d"@), "requestId"@)) == Some(
            text::decimal(id as nat),
        ),
    ensures
        response_id(v) == Some(id),
{
    text::decimal_reads_back(id);
}

/// A request that was registered waits under its own id, and the others in flight go
/// on waiting as they did.
pub proof fn requests_do_not_disturb_each_other(t: TableView, cmd: ObsWsCmd, other: u64)
    requires
        t.pending.contains_key(other),
        other != t.next_id,
    ensures
        registered(t, cmd).pending.contains_key(t.next_id),
        registered(t, cmd).pending[t.next_id] == awaits(cmd),
        registered(t, cmd).pending.contains_key(other),
        registered(t, cmd).pending[other] == t.pending[other],
        registered(t, cmd).pending.remove(t.next_id).contains_key(other),
{
}

/// Whether the ids of a table are handed out in order and none was used up: every
/// request in flight has an id below the next one.
pub open spec fn in_step(t: TableView) -> bool {
    forall|id: u64| #[trigger] t.pending.contains_key(id) ==> id < t.next_id
}

/// As long as the ids have not run out, no request takes the place of another: the id
/// of a new one is free, and stays below the next.
pub proof fn ids_are_fresh(t: TableView, cmd: ObsWsCmd, done: u64)
    requires
        in_step(t),
        t.next_id < u64::MAX,
    ensures
        !t.pending.contains_key(t.next_id),
        in_step(registered(t, cmd)),
        in_step(TableView { pending: t.pending.remove(done), ..t }),
{
}

} // verus!
