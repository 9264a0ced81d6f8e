//! The frames of the wire: one JSON object per line.

use vstd::prelude::*;
use crate::codec::{optional_integer, optional_string, required_string};
use crate::error::MeshError;
use crate::json::{member_of, member_views, object_text, string_text};
use crate::text::{clone_opt, decimal};

verus! {

/// A message as it travels between nodes. `payload` is a JSON document.
#[derive(Debug)]
pub struct WireMessage {
    pub message_type: String,
    pub payload: String,
    pub message_id: Option<String>,
    pub hops_left: Option<i32>,
    pub request_id: Option<String>,
    pub node_id: Option<String>,
    pub port: Option<u16>,
    pub timestamp: Option<i64>,
}

/// What a [`WireMessage`] is in contracts.
pub struct WireMessageView {
    pub message_type: Seq<char>,
    pub payload: Seq<char>,
    pub message_id: Option<Seq<char>>,
    pub hops_left: Option<i32>,
    pub request_id: Option<Seq<char>>,
    pub node_id: Option<Seq<char>>,
    pub port: Option<u16>,
    pub timestamp: Option<i64>,
}

impl View for WireMessage {
    type V = WireMessageView;

    open spec fn view(&self) -> WireMessageView {
        WireMessageView {
            message_type: self.message_type@,
            payload: self.payload@,
            message_id: self.message_id.deep_view(),
            hops_left: self.hops_left,
            request_id: self.request_id.deep_view(),
            node_id: self.node_id.deep_view(),
            port: self.port,
            timestamp: self.timestamp,
        }
    }
}

impl DeepView for WireMessage {
    type V = WireMessageView;

    open spec fn deep_view(&self) -> WireMessageView {
        self@
    }
}

impl Clone for WireMessage {
    fn clone(&self) -> (r: Self)
        ensures
            r@ == self@,
    {
        WireMessage {
            message_type: self.message_type.clone(),
            payload: self.payload.clone(),
            message_id: clone_opt(&self.message_id),
            hops_left: self.hops_left,
            request_id: clone_opt(&self.request_id),
            node_id: clone_opt(&self.node_id),
            port: self.port,
            timestamp: self.timestamp,
        }
    }
}

/// A message that came in, with the peer that it came from.
#[derive(Debug)]
pub struct InboundMessage {
    pub peer_id: String,
    pub message: WireMessage,
}

/// What a [`InboundMessage`] is in contracts.
pub struct InboundMessageView {
    pub peer_id: Seq<char>,
    pub message: WireMessageView,
}

impl View for InboundMessage {
    type V = InboundMessageView;

    open spec fn view(&self) -> InboundMessageView {
        InboundMessageView { peer_id: self.peer_id@, message: self.message@ }
    }
}

impl Clone for InboundMessage {
    fn clone(&self) -> (r: Self)
        ensures
            r@ == self@,
    {
        InboundMessage { peer_id: self.peer_id.clone(), message: self.message.clone() }
    }
}

/// A message of the given type and payload, stamped, with nothing else set.
pub open spec fn plain(message_type: Seq<char>, payload: Seq<char>, now: i64) -> WireMessageView {
    WireMessageView {
        message_type,
        payload,
        message_id: None,
        hops_left: None,
        request_id: None,
        node_id: None,
        port: None,
        timestamp: Some(now),
    }
}

/// One member, where there is a value for it.
pub open spec fn optional_member(name: Seq<char>, value: Option<Seq<char>>) -> Seq<(Seq<char>, Seq<char>)> {
    match value {
        Some(v) => seq![(name, v)],
        None => Seq::empty(),
    }
}

/// The string literal for a text, where there is one.
pub open spec fn quoted(s: Option<Seq<char>>) -> Option<Seq<char>> {
    match s {
        Some(s) => Some(string_text(s)),
        None => None,
    }
}

/// The numeral for a number, where there is one.
pub open spec fn number(n: Option<i64>) -> Option<Seq<char>> {
    match n {
        Some(n) => Some(decimal(n as int)),
        None => None,
    }
}

/// The members of a frame: the type and the payload, then each of the rest
/// that is set.
pub open spec fn frame_members(m: WireMessageView) -> Seq<(Seq<char>, Seq<char>)> {
    seq![("type"@, string_text(m.message_type)), ("payload"@, m.payload)] + optional_member(
        "message_id"@,
        quoted(m.message_id),
    ) + optional_member(
        "hops_left"@,
        number(
            match m.hops_left {
                Some(h) => Some(h as i64),
                None => None,
            },
        ),
    ) + optional_member("request_id"@, quoted(m.request_id)) + optional_member(
        "node_id"@,
        quoted(m.node_id),
    ) + optional_member(
        "port"@,
        number(
            match m.port {
                Some(p) => Some(p as i64),
                None => None,
            },
        ),
    ) + optional_member("timestamp"@, number(m.timestamp))
}

/// A message as one line of the wire, without the line feed.
pub open spec fn frame_text(m: WireMessageView) -> Seq<char> {
    object_text(frame_members(m))
}

/// A number of hops where the frame carries one that fits 32 signed bits.
pub open spec fn hops_in(member: Option<Seq<char>>) -> Option<Option<i32>> {
    match optional_integer(member) {
        Some(Some(n)) => if i32::MIN <= n <= i32::MAX {
            Some(Some(n as i32))
        } else {
            None
        },
        Some(None) => Some(None),
        None => None,
    }
}

/// A port where the frame carries one that fits 16 bits.
pub open spec fn port_in(member: Option<Seq<char>>) -> Option<Option<u16>> {
    match optional_integer(member) {
        Some(Some(n)) => if 0 <= n <= u16::MAX {
            Some(Some(n as u16))
        } else {
            None
        },
        Some(None) => Some(None),
        None => None,
    }
}

/// The message that a line holds: a type and a payload have to be there, and
/// none of the rest may be of the wrong kind.
pub open spec fn frame_in(line: Seq<char>) -> Option<WireMessageView> {
    match (
        required_string(member_of(line, "type"@)),
        member_of(line, "payload"@),
        optional_string(member_of(line, "message_id"@)),
        hops_in(member_of(line, "hops_left"@)),
    ) {
        (Some(message_type), Some(payload), Some(message_id), Some(hops_left)) => match (
            optional_string(member_of(line, "request_id"@)),
            optional_string(member_of(line, "node_id"@)),
            port_in(member_of(line, "port"@)),
            optional_integer(member_of(line, "timestamp"@)),
        ) {
            (Some(request_id), Some(node_id), Some(port), Some(timestamp)) => Some(
                WireMessageView {
                    message_type,
                    payload,
                    message_id,
                    hops_left,
                    request_id,
                    node_id,
                    port,
                    timestamp,
                },
            ),
            _ => None,
        },
        _ => None,
    }
}

fn push_optional(members: &mut Vec<(String, String)>, name: &str, value: Option<String>)
    ensures
        member_views(final(members)@) == member_views(old(members)@) + optional_member(
            name@,
            value.deep_view(),
        ),
{
    let ghost before = member_views(members@);
    match value {
        Some(v) => {
            members.push((name.to_string(), v));
            assert(member_views(members@) =~= before + seq![(name@, v@)]);
        },
        None => {
            assert(member_views(members@) =~= before + Seq::<(Seq<char>, Seq<char>)>::empty());
        },
    }
}

fn quote(s: &Option<String>) -> (r: Option<String>)
    ensures
        r.deep_view() == quoted(s.deep_view()),
{
    match s {
        Some(s) => Some(crate::json::string(s.as_str())),
        None => None,
    }
}

fn numeral(n: Option<i64>) -> (r: Option<String>)
    ensures
        r.deep_view() == number(n),
{
    match n {
        Some(n) => Some(crate::text::decimal_text(n as i128)),
        None => None,
    }
}

impl WireMessage {
    /// A message of the given type and payload, stamped `now`.
    pub fn new(message_type: &str, payload: String, now: i64) -> (m: WireMessage)
        ensures
            m@ == plain(message_type@, payload@, now),
    {
        WireMessage {
            message_type: message_type.to_string(),
            payload,
            message_id: None,
            hops_left: None,
            request_id: None,
            node_id: None,
            port: None,
            timestamp: Some(now),
        }
    }

    /// This message as one line of the wire, without the line feed.
    pub fn encode(&self) -> (line: String)
        ensures
            line@ == frame_text(self@),
    {
        let mut members: Vec<(String, String)> = Vec::new();
        members.push(("type".to_string(), crate::json::string(self.message_type.as_str())));
        members.push(("payload".to_string(), self.payload.clone()));
        assert(member_views(members@) =~= seq![
            ("type"@, string_text(self@.message_type)),
            ("payload"@, self@.payload),
        ]);
        push_optional(&mut members, "message_id", quote(&self.message_id));
        let hops = match self.hops_left {
            Some(h) => Some(h as i64),
            None => None,
        };
        push_optional(&mut members, "hops_left", numeral(hops));
        push_optional(&mut members, "request_id", quote(&self.request_id));
        push_optional(&mut members, "node_id", quote(&self.node_id));
        let port = match self.port {
            Some(p) => Some(p as i64),
            None => None,
        };
        push_optional(&mut members, "port", numeral(port));
        push_optional(&mut members, "timestamp", numeral(self.timestamp));
        crate::json::object(&members)
    }

    /// The message that a line of the wire holds; a malformed line is an error
    /// of the transport.
    pub fn from_line(line: &str) -> (r: Result<WireMessage, MeshError>)
        ensures
            match frame_in(line@) {
                Some(m) => r is Ok && r->Ok_0@ == m,
                None => r == Err::<WireMessage, MeshError>(MeshError::MalformedFrame),
            },
    {
        let decoded = Self::decode(line);
        match decoded {
            Some(m) => {
                assert(decoded.deep_view() == Some(m@));
                Ok(m)
            },
            None => Err(MeshError::MalformedFrame),
        }
    }

    /// The message that a line of the wire holds; nothing for a malformed line.
    pub fn decode(line: &str) -> (r: Option<WireMessage>)
        ensures
            r.deep_view() == frame_in(line@),
    {
        let message_type = match crate::json::get_string(line, "type") {
            Some(t) => t,
            None => {
                return None;
            },
        };
        let payload = match crate::json::member(line, "payload") {
            Some(p) => p,
            None => {
                return None;
            },
        };
        let message_id = match crate::codec::maybe_string(&crate::json::member(line, "message_id")) {
            Some(v) => v,
            None => {
                return None;
            },
        };
        let hops_left = match crate::codec::maybe_integer(&crate::json::member(line, "hops_left")) {
            Some(Some(n)) => {
                if n < i32::MIN as i64 || n > i32::MAX as i64 {
                    return None;
                }
                Some(n as i32)
            },
            Some(None) => None,
            None => {
                return None;
            },
        };
        let request_id = match crate::codec::maybe_string(&crate::json::member(line, "request_id")) {
            Some(v) => v,
            None => {
                return None;
            },
        };
        let node_id = match crate::codec::maybe_string(&crate::json::member(line, "node_id")) {
            Some(v) => v,
            None => {
                return None;
            },
        };
        let port = match crate::codec::maybe_integer(&crate::json::member(line, "port")) {
            Some(Some(n)) => {
                if n < 0 || n > u16::MAX as i64 {
                    return None;
                }
                Some(n as u16)
            },
            Some(None) => None,
            None => {
                return None;
            },
        };
        let timestamp = match crate::codec::maybe_integer(&crate::json::member(line, "timestamp")) {
            Some(v) => v,
            None => {
                return None;
            },
        };
        Some(
            WireMessage {
                message_type,
                payload,
                message_id,
                hops_left,
                request_id,
                node_id,
                port,
                timestamp,
            },
        )
    }
}

} // verus!
