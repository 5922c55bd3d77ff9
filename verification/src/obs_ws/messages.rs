//! The values of the requests and responses that the engine needs.

use vstd::prelude::*;

use crate::json::{text_of, Json, JsonView};
use crate::text::fmt_u64;
#[allow(unused_imports)]
use crate::{json, text};

verus! {

/// Tells the requests of one connection apart.
#[derive(Debug, Clone, Copy, PartialEq, Eq, Hash)]
pub struct RequestId(pub u64);

impl RequestId {
    /// The id as it goes over the wire.
    pub fn to_text(&self) -> (r: String)
        ensures
            r@ == text::decimal(self.0 as nat),
    {
        fmt_u64(self.0)
    }
}

/// What can be asked of a media source.
#[derive(Debug, Clone, Copy, PartialEq, Eq, Structural)]
pub enum MediaInputAction {
    Restart,
    Pause,
    Play,
    Stop,
    Next,
    Previous,
}

/// The name of an action on the wire.
pub open spec fn action_name(a: MediaInputAction) -> Seq<char> {
    match a {
        MediaInputAction::Restart => "OBS_WEBSOCKET_MEDIA_INPUT_ACTION_RESTART"@,
        MediaInputAction::Pause => "OBS_WEBSOCKET_MEDIA_INPUT_ACTION_PAUSE"@,
        MediaInputAction::Play => "OBS_WEBSOCKET_MEDIA_INPUT_ACTION_PLAY"@,
        MediaInputAction::Stop => "OBS_WEBSOCKET_MEDIA_INPUT_ACTION_STOP"@,
        MediaInputAction::Next => "OBS_WEBSOCKET_MEDIA_INPUT_ACTION_NEXT"@,
        MediaInputAction::Previous => "OBS_WEBSOCKET_MEDIA_INPUT_ACTION_PREVIOUS"@,
    }
}

impl MediaInputAction {
    /// The name of the action on the wire.
    pub fn as_str(self) -> (r: &'static str)
        ensures
            r@ == action_name(self),
    {
        match self {
            MediaInputAction::Restart => "OBS_WEBSOCKET_MEDIA_INPUT_ACTION_RESTART",
            MediaInputAction::Pause => "OBS_WEBSOCKET_MEDIA_INPUT_ACTION_PAUSE",
            MediaInputAction::Play => "OBS_WEBSOCKET_MEDIA_INPUT_ACTION_PLAY",
            MediaInputAction::Stop => "OBS_WEBSOCKET_MEDIA_INPUT_ACTION_STOP",
            MediaInputAction::Next => "OBS_WEBSOCKET_MEDIA_INPUT_ACTION_NEXT",
            MediaInputAction::Previous => "OBS_WEBSOCKET_MEDIA_INPUT_ACTION_PREVIOUS",
        }
    }
}

/// What OBS says of itself.
#[derive(Debug)]
pub struct ObsVersion {
    pub obs_version: String,
    pub rpc_version: u32,
    pub platform: String,
}

/// A text member; nothing where there is none.
pub open spec fn text_or_nothing(j: JsonView, key: Seq<char>) -> Seq<char> {
    match json::text_in(json::member_of(j, key)) {
        Some(t) => t,
        None => Seq::empty(),
    }
}

/// The low half of a number member; 0 where there is none.
pub open spec fn low_half_or_zero(j: JsonView, key: Seq<char>) -> u32 {
    match json::unsigned_in(json::member_of(j, key)) {
        Some(n) => (n % 0x1_0000_0000) as u32,
        None => 0,
    }
}

fn text_at(j: &Json, key: &str) -> (r: String)
    ensures
        r@ == text_or_nothing(j@, key@),
{
    match text_of(j.get(key)) {
        Some(t) => t.to_owned(),
        None => {
            let r = String::new();
            assert(r@ =~= Seq::<char>::empty());
            r
        },
    }
}

impl ObsVersion {
    /// Reads the answer to `GetVersion`; what is not there stays empty.
    pub fn from_json(v: &Json) -> (r: Self)
        ensures
            r.obs_version@ == text_or_nothing(v@, "obsVersion"@),
            r.rpc_version == low_half_or_zero(v@, "rpcVersion"@),
            r.platform@ == text_or_nothing(v@, "platform"@),
    {
        let rpc: u64 = match v.get("rpcVersion") {
            Some(n) => match n.as_unsigned() {
                Some(n) => n,
                None => 0,
            },
            None => 0,
        };
        ObsVersion {
            obs_version: text_at(v, "obsVersion"),
            rpc_version: (rpc % 0x1_0000_0000) as u32,
            platform: text_at(v, "platform"),
        }
    }
}

} // verus!
