//! Typed session events, and their decoding from a protocol event's JSON
//! payload.
use vstd::prelude::*;

use crate::sse::{opt_str_view, EventView, SseEvent};
use crate::text::{is_prefix, starts_with};

verus! {

/// What happened on a session's stream, as the session consumes it.
#[derive(Debug, PartialEq)]
pub enum EventKind {
    /// A user message, as the server echoes it.
    UserEcho { text: String },
    /// Text to append to the model message in progress.
    ModelTokenDelta { text: String },
    /// The full text of the model message, replacing what was streamed.
    ModelFinal { text: String },
    /// Progress of a tool run.
    ToolStep { name: String, status: String, summary: Option<String> },
    /// The stream, or the request that opened it, failed.
    StreamFault { message: String },
    /// The stream ended cleanly.
    StreamEnded,
    /// The id of the last protocol event seen, to resume from.
    ResumeCursor { id: String },
}

pub ghost enum KindView {
    UserEcho { text: Seq<char> },
    ModelTokenDelta { text: Seq<char> },
    ModelFinal { text: Seq<char> },
    ToolStep { name: Seq<char>, status: Seq<char>, summary: Option<Seq<char>> },
    StreamFault { message: Seq<char> },
    StreamEnded,
    ResumeCursor { id: Seq<char> },
}

impl View for EventKind {
    type V = KindView;

    open spec fn view(&self) -> KindView {
        match self {
            EventKind::UserEcho { text } => KindView::UserEcho { text: text@ },
            EventKind::ModelTokenDelta { text } => KindView::ModelTokenDelta { text: text@ },
            EventKind::ModelFinal { text } => KindView::ModelFinal { text: text@ },
            EventKind::ToolStep { name, status, summary } => KindView::ToolStep {
                name: name@,
                status: status@,
                summary: opt_str_view(*summary),
            },
            EventKind::StreamFault { message } => KindView::StreamFault { message: message@ },
            EventKind::StreamEnded => KindView::StreamEnded,
            EventKind::ResumeCursor { id } => KindView::ResumeCursor { id: id@ },
        }
    }
}

/// An event tagged with the session it belongs to and the generation of the
/// stream that produced it.
#[derive(Debug, PartialEq)]
pub struct DomainEvent {
    pub session: usize,
    pub generation: u64,
    pub kind: EventKind,
}

pub open spec fn opt_kind_view(o: Option<EventKind>) -> Option<KindView> {
    match o {
        Some(k) => Some(k@),
        None => None,
    }
}

/// The string member `key` of the JSON object that `text` holds; `None` when
/// `text` is not JSON, not an object, lacks the member, or the member is not
/// a string.
pub uninterp spec fn json_string_member(text: Seq<char>, key: Seq<char>) -> Option<Seq<char>>;

/// Relies on `serde_json::from_str` into `serde_json::Value`, then
/// `Value::get` and `Value::as_str`: the string member `key` of the JSON
/// object in `text`, a function of `text` and `key` alone.
#[verifier::external_body]
fn string_member(text: &str, key: &str) -> (r: Option<String>)
    ensures
        opt_str_view(r) == json_string_member(text@, key@),
{
    let v: serde_json::Value = serde_json::from_str(text).ok()?;
    v.get(key).and_then(|x| x.as_str()).map(|s| s.to_string())
}

pub open spec fn key_event() -> Seq<char> {
    seq!['e', 'v', 'e', 'n', 't']
}

pub open spec fn key_text() -> Seq<char> {
    seq!['t', 'e', 'x', 't']
}

pub open spec fn key_name() -> Seq<char> {
    seq!['n', 'a', 'm', 'e']
}

pub open spec fn key_status() -> Seq<char> {
    seq!['s', 't', 'a', 't', 'u', 's']
}

pub open spec fn key_summary() -> Seq<char> {
    seq!['r', 'e', 's', 'u', 'l', 't', '_', 's', 'u', 'm', 'm', 'a', 'r', 'y']
}

pub open spec fn type_token() -> Seq<char> {
    seq!['t', 'o', 'k', 'e', 'n']
}

pub open spec fn type_output() -> Seq<char> {
    seq!['o', 'u', 't', 'p', 'u', 't']
}

pub open spec fn type_tool_step() -> Seq<char> {
    seq!['t', 'o', 'o', 'l', '_', 's', 't', 'e', 'p']
}

pub open spec fn type_user_message() -> Seq<char> {
    seq!['u', 's', 'e', 'r', '_', 'm', 'e', 's', 's', 'a', 'g', 'e']
}

/// The label of a tool step that names no tool.
pub open spec fn default_tool_name() -> Seq<char> {
    seq!['t', 'o', 'o', 'l']
}

/// The event that a payload's members make: `event` picks the kind, and a
/// kind that needs `text` is dropped without it. A tool step takes a default
/// name, an empty status when none is given, and no summary when it is
/// empty or missing. Any other `event` is dropped.
pub open spec fn payload_kind(
    event: Option<Seq<char>>,
    text: Option<Seq<char>>,
    name: Option<Seq<char>>,
    status: Option<Seq<char>>,
    summary: Option<Seq<char>>,
) -> Option<KindView> {
    let ty = match event {
        Some(t) => t,
        None => Seq::empty(),
    };
    if ty == type_token() {
        match text {
            Some(t) => Some(KindView::ModelTokenDelta { text: t }),
            None => None,
        }
    } else if ty == type_output() {
        match text {
            Some(t) => Some(KindView::ModelFinal { text: t }),
            None => None,
        }
    } else if ty == type_tool_step() {
        Some(
            KindView::ToolStep {
                name: match name {
                    Some(n) => n,
                    None => default_tool_name(),
                },
                status: match status {
                    Some(s) => s,
                    None => Seq::empty(),
                },
                summary: match summary {
                    Some(s) => if s.len() > 0 {
                        Some(s)
                    } else {
                        None
                    },
                    None => None,
                },
            },
        )
    } else if ty == type_user_message() {
        match text {
            Some(t) => Some(KindView::UserEcho { text: t }),
            None => None,
        }
    } else {
        None
    }
}

/// The event that a `data` payload makes; an empty payload makes none.
pub open spec fn data_kind(data: Seq<char>) -> Option<KindView> {
    if data.len() == 0 {
        None
    } else {
        payload_kind(
            json_string_member(data, key_event()),
            json_string_member(data, key_text()),
            json_string_member(data, key_name()),
            json_string_member(data, key_status()),
            json_string_member(data, key_summary()),
        )
    }
}

/// Whether two strings hold the same characters.
pub fn same_text(a: &str, b: &str) -> (r: bool)
    ensures
        r == (a@ == b@),
{
    if a.unicode_len() != b.unicode_len() {
        return false;
    }
    let r = starts_with(a, b);
    proof {
        assert(a@.subrange(0, b@.len() as int) =~= a@);
    }
    r
}

/// The event made by a payload's members, as read from its JSON.
pub fn decode_payload(
    event: Option<String>,
    text: Option<String>,
    name: Option<String>,
    status: Option<String>,
    summary: Option<String>,
) -> (r: Option<EventKind>)
    ensures
        opt_kind_view(r) == payload_kind(
            opt_str_view(event),
            opt_str_view(text),
            opt_str_view(name),
            opt_str_view(status),
            opt_str_view(summary),
        ),
{
    proof {
        reveal_strlit("token");
        reveal_strlit("output");
        reveal_strlit("tool_step");
        reveal_strlit("user_message");
        reveal_strlit("tool");
        assert("token"@ =~= type_token());
        assert("output"@ =~= type_output());
        assert("tool_step"@ =~= type_tool_step());
        assert("user_message"@ =~= type_user_message());
        assert("tool"@ =~= default_tool_name());
    }
    let ty = match &event {
        Some(t) => t.as_str(),
        None => "",
    };
    proof {
        reveal_strlit("");
    }
    if same_text(ty, "token") {
        match text {
            Some(t) => Some(EventKind::ModelTokenDelta { text: t }),
            None => None,
        }
    } else if same_text(ty, "output") {
        match text {
            Some(t) => Some(EventKind::ModelFinal { text: t }),
            None => None,
        }
    } else if same_text(ty, "tool_step") {
        let name = match name {
            Some(n) => n,
            None => String::from_str("tool"),
        };
        let status = match status {
            Some(s) => s,
            None => String::new(),
        };
        let summary = match summary {
            Some(s) => if s.unicode_len() > 0 {
                Some(s)
            } else {
                None
            },
            None => None,
        };
        Some(EventKind::ToolStep { name, status, summary })
    } else if same_text(ty, "user_message") {
        match text {
            Some(t) => Some(EventKind::UserEcho { text: t }),
            None => None,
        }
    } else {
        None
    }
}

/// The event that a `data` payload makes, read through its JSON members.
pub fn payload_event(data: &str) -> (r: Option<EventKind>)
    ensures
        opt_kind_view(r) == data_kind(data@),
{
    if data.unicode_len() == 0 {
        return None;
    }
    proof {
        reveal_strlit("event");
        reveal_strlit("text");
        reveal_strlit("name");
        reveal_strlit("status");
        reveal_strlit("result_summary");
        assert("event"@ =~= key_event());
        assert("text"@ =~= key_text());
        assert("name"@ =~= key_name());
        assert("status"@ =~= key_status());
        assert("result_summary"@ =~= key_summary());
    }
    decode_payload(
        string_member(data, "event"),
        string_member(data, "text"),
        string_member(data, "name"),
        string_member(data, "status"),
        string_member(data, "result_summary"),
    )
}

} // verus!
