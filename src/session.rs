//! One chat session's turn lifecycle, driven by user commands and by the
//! events of its current stream.
use vstd::prelude::*;

use crate::driver::{event_kinds, is_success};
use crate::sse::EventView;
use crate::events::{same_text, DomainEvent, EventKind, KindView};
use crate::sse::opt_str_view;
use crate::text::{concat_str, decimal, decimal_string};

verus! {

#[derive(Debug, Clone, Copy, PartialEq, Eq, Structural)]
pub enum Speaker {
    User,
    Model,
    Tool,
}

/// One entry of a session's transcript.
#[derive(Debug)]
pub struct Message {
    pub speaker: Speaker,
    pub content: String,
}

pub ghost struct MessageView {
    pub speaker: Speaker,
    pub content: Seq<char>,
}

impl View for Message {
    type V = MessageView;

    open spec fn view(&self) -> MessageView {
        MessageView { speaker: self.speaker, content: self.content@ }
    }
}

/// Where a session's current turn stands.
#[derive(Debug, PartialEq)]
pub enum TurnState {
    Idle,
    /// The user's message is being posted.
    Sending,
    /// The post succeeded; the stream is open and no text has come yet.
    AwaitingResponse,
    /// A tool is running.
    StreamingTool { name: String, status: String, summary: Option<String> },
    /// Model text is arriving.
    StreamingTokens,
    /// The turn failed; the next user action recovers.
    Errored { message: String },
}

pub ghost enum TurnView {
    Idle,
    Sending,
    AwaitingResponse,
    StreamingTool { name: Seq<char>, status: Seq<char>, summary: Option<Seq<char>> },
    StreamingTokens,
    Errored { message: Seq<char> },
}

impl View for TurnState {
    type V = TurnView;

    open spec fn view(&self) -> TurnView {
        match self {
            TurnState::Idle => TurnView::Idle,
            TurnState::Sending => TurnView::Sending,
            TurnState::AwaitingResponse => TurnView::AwaitingResponse,
            TurnState::StreamingTool { name, status, summary } => TurnView::StreamingTool {
                name: name@,
                status: status@,
                summary: opt_str_view(*summary),
            },
            TurnState::StreamingTokens => TurnView::StreamingTokens,
            TurnState::Errored { message } => TurnView::Errored { message: message@ },
        }
    }
}

pub ghost struct SessionView {
    pub messages: Seq<MessageView>,
    pub generation: u64,
    pub last_event_id: Option<Seq<char>>,
    pub conversation_id: Option<Seq<char>>,
    pub turn: TurnView,
    /// Origin of the elapsed time shown beside a busy or failed turn.
    pub since: u64,
}

pub open spec fn messages_view(m: Seq<Message>) -> Seq<MessageView> {
    m.map_values(|x: Message| x@)
}

/// The elapsed-time origin after moving from `old` to `new` at `now`: kept
/// while waiting for a response goes on, or while the same tool runs on;
/// restarted on any other move.
pub open spec fn next_since(old: TurnView, new: TurnView, since: u64, now: u64) -> u64 {
    match (old, new) {
        (TurnView::AwaitingResponse, TurnView::AwaitingResponse) => since,
        (TurnView::StreamingTool { name: a, .. }, TurnView::StreamingTool { name: b, .. }) => if a
            == b {
            since
        } else {
            now
        },
        _ => now,
    }
}

pub open spec fn enter(s: SessionView, new: TurnView, now: u64) -> SessionView {
    SessionView { turn: new, since: next_since(s.turn, new, s.since, now), ..s }
}

/// The transcript after model text arrives: appended to (or, for a final
/// text, replacing) the last message if that is the model's, else a new
/// model message.
pub open spec fn model_text(m: Seq<MessageView>, t: Seq<char>, replace: bool) -> Seq<MessageView> {
    if m.len() > 0 && m.last().speaker == Speaker::Model {
        m.update(
            m.len() - 1,
            MessageView {
                speaker: Speaker::Model,
                content: if replace {
                    t
                } else {
                    m.last().content + t
                },
            },
        )
    } else {
        m.push(MessageView { speaker: Speaker::Model, content: t })
    }
}

pub open spec fn status_succeeded() -> Seq<char> {
    seq!['s', 'u', 'c', 'c', 'e', 'e', 'd', 'e', 'd']
}

pub open spec fn status_failed() -> Seq<char> {
    seq!['f', 'a', 'i', 'l', 'e', 'd']
}

/// `Tool <name> failed`.
pub open spec fn tool_failed_message(name: Seq<char>) -> Seq<char> {
    seq!['T', 'o', 'o', 'l', ' '] + name + seq![' ', 'f', 'a', 'i', 'l', 'e', 'd']
}

/// `[tool:<status>] <name>`, then `: <summary>` if there is one.
pub open spec fn tool_line(name: Seq<char>, status: Seq<char>, summary: Option<Seq<char>>) -> Seq<
    char,
> {
    let head = seq!['[', 't', 'o', 'o', 'l', ':'] + status + seq![']', ' '] + name;
    match summary {
        Some(s) => head + seq![':', ' '] + s,
        None => head,
    }
}

/// The turn that a tool step moves to.
pub open spec fn tool_turn(name: Seq<char>, status: Seq<char>, summary: Option<Seq<char>>) -> TurnView {
    if status == status_succeeded() {
        TurnView::AwaitingResponse
    } else if status == status_failed() {
        TurnView::Errored { message: tool_failed_message(name) }
    } else {
        TurnView::StreamingTool { name, status, summary }
    }
}

/// What an event of the current generation does to a session.
pub open spec fn apply_kind(s: SessionView, k: KindView, now: u64) -> SessionView {
    match k {
        KindView::UserEcho { text } => SessionView {
            messages: s.messages.push(MessageView { speaker: Speaker::User, content: text }),
            ..s
        },
        KindView::ModelTokenDelta { text } => enter(
            SessionView { messages: model_text(s.messages, text, false), ..s },
            TurnView::StreamingTokens,
            now,
        ),
        KindView::ModelFinal { text } => enter(
            SessionView { messages: model_text(s.messages, text, true), ..s },
            TurnView::StreamingTokens,
            now,
        ),
        KindView::ToolStep { name, status, summary } => enter(
            SessionView {
                messages: s.messages.push(
                    MessageView { speaker: Speaker::Tool, content: tool_line(name, status, summary) },
                ),
                ..s
            },
            tool_turn(name, status, summary),
            now,
        ),
        KindView::StreamFault { message } => enter(s, TurnView::Errored { message }, now),
        KindView::StreamEnded => enter(s, TurnView::Idle, now),
        KindView::ResumeCursor { id } => SessionView { last_event_id: Some(id), ..s },
    }
}

/// An event tagged with `generation`: applied only if that is the session's
/// current generation, ignored otherwise.
pub open spec fn apply_event(s: SessionView, generation: u64, k: KindView, now: u64) -> SessionView {
    if generation == s.generation {
        apply_kind(s, k, now)
    } else {
        s
    }
}

/// Events applied in order, all tagged with `generation`, at `now`.
pub open spec fn apply_all(s: SessionView, generation: u64, ks: Seq<KindView>, now: u64) -> SessionView
    decreases ks.len(),
{
    if ks.len() == 0 {
        s
    } else {
        apply_all(apply_event(s, generation, ks[0], now), generation, ks.drop_first(), now)
    }
}

pub open spec fn next_generation(g: u64) -> u64 {
    if g < u64::MAX {
        (g + 1) as u64
    } else {
        g
    }
}

pub open spec fn gateway_unreachable_message() -> Seq<char> {
    seq!['g', 'a', 't', 'e', 'w', 'a', 'y', ' ', 'u', 'n', 'r', 'e', 'a', 'c', 'h', 'a', 'b', 'l', 'e']
}

pub open spec fn send_failed_message() -> Seq<char> {
    seq!['s', 'e', 'n', 'd', ' ', 'f', 'a', 'i', 'l', 'e', 'd']
}

/// `send failed (<code>)`.
pub open spec fn send_status_message(code: u16) -> Seq<char> {
    send_failed_message() + seq![' ', '('] + decimal(code as nat) + seq![')']
}

/// The turn after the post of a user message: `status` is the response's
/// status code, `None` for a transport error.
pub open spec fn post_turn(status: Option<u16>) -> TurnView {
    match status {
        Some(code) => if is_success(code) {
            TurnView::AwaitingResponse
        } else {
            TurnView::Errored { message: send_status_message(code) }
        },
        None => TurnView::Errored { message: send_failed_message() },
    }
}

/// `conv-<stamp>`.
pub open spec fn fresh_conversation_id(stamp: u64) -> Seq<char> {
    seq!['c', 'o', 'n', 'v', '-'] + decimal(stamp as nat)
}

/// What a user send hands to the code that posts the message and opens
/// the stream.
#[derive(Debug, PartialEq)]
pub struct TurnStart {
    /// The generation that the new stream's events carry.
    pub generation: u64,
    pub conversation_id: String,
    /// The last event id seen before the send, to resume from.
    pub resume_id: Option<String>,
}

/// One chat session: its transcript, stream generation, resume cursor,
/// conversation and turn state.
pub struct ChatSession {
    messages: Vec<Message>,
    generation: u64,
    last_event_id: Option<String>,
    conversation_id: Option<String>,
    turn: TurnState,
    since: u64,
}

impl View for ChatSession {
    type V = SessionView;

    closed spec fn view(&self) -> SessionView {
        SessionView {
            messages: messages_view(self.messages@),
            generation: self.generation,
            last_event_id: opt_str_view(self.last_event_id),
            conversation_id: opt_str_view(self.conversation_id),
            turn: self.turn@,
            since: self.since,
        }
    }
}

fn literal(s: &str) -> (r: String)
    ensures
        r@ == s@,
{
    String::from_str(s)
}

impl ChatSession {
    /// An idle session with no conversation yet.
    pub fn new() -> (r: ChatSession)
        ensures
            r@ == (SessionView {
                messages: Seq::empty(),
                generation: 0,
                last_event_id: None,
                conversation_id: None,
                turn: TurnView::Idle,
                since: 0,
            }),
    {
        let r = ChatSession {
            messages: Vec::new(),
            generation: 0,
            last_event_id: None,
            conversation_id: None,
            turn: TurnState::Idle,
            since: 0,
        };
        assert(messages_view(r.messages@) =~= Seq::empty());
        r
    }

    pub fn generation(&self) -> (r: u64)
        ensures
            r == self@.generation,
    {
        self.generation
    }

    pub fn last_event_id(&self) -> (r: Option<&str>)
        ensures
            r is Some <==> self@.last_event_id is Some,
            r matches Some(s) ==> self@.last_event_id == Some(s@),
    {
        match &self.last_event_id {
            Some(s) => Some(s.as_str()),
            None => None,
        }
    }

    pub fn conversation_id(&self) -> (r: Option<&str>)
        ensures
            r is Some <==> self@.conversation_id is Some,
            r matches Some(s) ==> self@.conversation_id == Some(s@),
    {
        match &self.conversation_id {
            Some(s) => Some(s.as_str()),
            None => None,
        }
    }

    pub fn turn_state(&self) -> (r: &TurnState)
        ensures
            r@ == self@.turn,
    {
        &self.turn
    }

    pub fn messages(&self) -> (r: &Vec<Message>)
        ensures
            messages_view(r@) == self@.messages,
    {
        &self.messages
    }

    /// The elapsed-time origin of a busy or failed turn; `None` when the
    /// session is idle or text is streaming.
    pub fn busy_since(&self) -> (r: Option<u64>)
        ensures
            r == (match self@.turn {
                TurnView::Idle | TurnView::StreamingTokens => None,
                _ => Some(self@.since),
            }),
    {
        match &self.turn {
            TurnState::Idle | TurnState::StreamingTokens => None,
            _ => Some(self.since),
        }
    }

    fn enter_turn(&mut self, new: TurnState, now: u64)
        ensures
            final(self)@ == enter(old(self)@, new@, now),
    {
        let keep = match (&self.turn, &new) {
            (TurnState::AwaitingResponse, TurnState::AwaitingResponse) => true,
            (TurnState::StreamingTool { name: a, .. }, TurnState::StreamingTool { name: b, .. }) => {
                same_text(a.as_str(), b.as_str())
            },
            _ => false,
        };
        if !keep {
            self.since = now;
        }
        self.turn = new;
    }

    fn push_message(&mut self, speaker: Speaker, content: String)
        ensures
            final(self)@ == (SessionView {
                messages: old(self)@.messages.push(MessageView { speaker, content: content@ }),
                ..old(self)@
            }),
    {
        let ghost before = self.messages@;
        self.messages.push(Message { speaker, content });
        assert(messages_view(self.messages@) =~= messages_view(before).push(
            MessageView { speaker, content: content@ },
        ));
    }

    fn model_text(&mut self, text: String, replace: bool)
        ensures
            final(self)@ == (SessionView {
                messages: model_text(old(self)@.messages, text@, replace),
                ..old(self)@
            }),
    {
        let ghost before = self.messages@;
        let n = self.messages.len();
        if n > 0 && self.messages[n - 1].speaker == Speaker::Model {
            match self.messages.pop() {
                Some(last) => {
                    let mut content = last.content;
                    if replace {
                        content = text;
                    } else {
                        content.append(text.as_str());
                    }
                    self.messages.push(Message { speaker: Speaker::Model, content });
                    assert(messages_view(self.messages@) =~= model_text(
                        messages_view(before),
                        text@,
                        replace,
                    ));
                },
                None => {},
            }
        } else {
            self.messages.push(Message { speaker: Speaker::Model, content: text });
            assert(messages_view(self.messages@) =~= model_text(
                messages_view(before),
                text@,
                replace,
            ));
        }
    }

    /// Applies an event of the stream with generation `generation`; an
    /// event of any other generation is ignored.
    pub fn apply(&mut self, generation: u64, kind: EventKind, now: u64)
        ensures
            final(self)@ == apply_event(old(self)@, generation, kind@, now),
    {
        if generation != self.generation {
            return;
        }
        match kind {
            EventKind::UserEcho { text } => {
                self.push_message(Speaker::User, text);
            },
            EventKind::ModelTokenDelta { text } => {
                self.model_text(text, false);
                self.enter_turn(TurnState::StreamingTokens, now);
            },
            EventKind::ModelFinal { text } => {
                self.model_text(text, true);
                self.enter_turn(TurnState::StreamingTokens, now);
            },
            EventKind::ToolStep { name, status, summary } => {
                let line = tool_line_string(name.as_str(), status.as_str(), &summary);
                self.push_message(Speaker::Tool, line);
                let turn = tool_turn_state(name, status, summary);
                self.enter_turn(turn, now);
            },
            EventKind::StreamFault { message } => {
                self.enter_turn(TurnState::Errored { message }, now);
            },
            EventKind::StreamEnded => {
                self.enter_turn(TurnState::Idle, now);
            },
            EventKind::ResumeCursor { id } => {
                self.last_event_id = Some(id);
            },
        }
    }

    /// Starts a user turn: moves to the next generation, so that events of
    /// earlier streams are ignored from now on, and gives the session a
    /// conversation id `conv-<stamp>` if it has none. With the gateway
    /// unreachable the turn fails at once and `None` is returned; otherwise
    /// the session is sending, and the generation, conversation id and
    /// resume cursor for the post and the stream are returned.
    pub fn begin_send(&mut self, now: u64, stamp: u64, gateway_ok: bool) -> (r: Option<TurnStart>)
        ensures
            final(self)@.generation == next_generation(old(self)@.generation),
            final(self)@.conversation_id == Some(
                match old(self)@.conversation_id {
                    Some(c) => c,
                    None => fresh_conversation_id(stamp),
                },
            ),
            final(self)@.last_event_id == old(self)@.last_event_id,
            final(self)@.messages == old(self)@.messages,
            final(self)@.turn == (if gateway_ok {
                TurnView::Sending
            } else {
                TurnView::Errored { message: gateway_unreachable_message() }
            }),
            final(self)@.since == now,
            r is Some <==> gateway_ok,
            r matches Some(t) ==> t.generation == final(self)@.generation
                && final(self)@.conversation_id == Some(t.conversation_id@)
                && opt_str_view(t.resume_id) == old(self)@.last_event_id,
    {
        self.generation = self.generation.saturating_add(1);
        if self.conversation_id.is_none() {
            proof {
                reveal_strlit("conv-");
            }
            assert("conv-"@ =~= seq!['c', 'o', 'n', 'v', '-']);
            self.conversation_id = Some(concat_str("conv-", decimal_string(stamp).as_str()));
        }
        if !gateway_ok {
            proof {
                reveal_strlit("gateway unreachable");
            }
            let m = literal("gateway unreachable");
            assert(m@ =~= gateway_unreachable_message());
            self.enter_turn(TurnState::Errored { message: m }, now);
            return None;
        }
        self.enter_turn(TurnState::Sending, now);
        let conversation_id = match &self.conversation_id {
            Some(c) => c.clone(),
            None => String::new(),
        };
        let resume_id = match &self.last_event_id {
            Some(c) => Some(c.clone()),
            None => None,
        };
        Some(TurnStart { generation: self.generation, conversation_id, resume_id })
    }

    /// Takes the outcome of the post for generation `generation`: `status`
    /// is the response's status code, `None` for a transport error. Returns
    /// whether the stream is to be opened now; the outcome of a superseded
    /// post changes nothing.
    pub fn post_outcome(&mut self, generation: u64, status: Option<u16>, now: u64) -> (r: bool)
        ensures
            generation == old(self)@.generation ==> final(self)@ == enter(
                old(self)@,
                post_turn(status),
                now,
            ),
            generation != old(self)@.generation ==> final(self)@ == old(self)@,
            r == (generation == old(self)@.generation && post_turn(status)
                == TurnView::AwaitingResponse),
    {
        if generation != self.generation {
            return false;
        }
        match status {
            Some(code) => {
                if 200 <= code && code <= 299 {
                    self.enter_turn(TurnState::AwaitingResponse, now);
                    true
                } else {
                    proof {
                        reveal_strlit("send failed (");
                        reveal_strlit(")");
                    }
                    let head = concat_str("send failed (", decimal_string(code as u64).as_str());
                    let m = concat_str(head.as_str(), ")");
                    assert(m@ =~= send_status_message(code));
                    self.enter_turn(TurnState::Errored { message: m }, now);
                    false
                }
            },
            None => {
                proof {
                    reveal_strlit("send failed");
                }
                let m = literal("send failed");
                assert(m@ =~= send_failed_message());
                self.enter_turn(TurnState::Errored { message: m }, now);
                false
            },
        }
    }

    /// Empties the transcript; nothing else changes.
    pub fn clear_transcript(&mut self)
        ensures
            final(self)@ == (SessionView { messages: Seq::empty(), ..old(self)@ }),
    {
        self.messages = Vec::new();
        assert(messages_view(self.messages@) =~= Seq::empty());
    }

    /// Switches to an existing conversation: moves to the next generation,
    /// clears the transcript and the resume cursor. Returns the generation
    /// of the stream to open.
    pub fn open_conversation(&mut self, conversation_id: String) -> (r: u64)
        ensures
            final(self)@ == (SessionView {
                messages: Seq::empty(),
                generation: next_generation(old(self)@.generation),
                last_event_id: None,
                conversation_id: Some(conversation_id@),
                ..old(self)@
            }),
            r == final(self)@.generation,
    {
        self.generation = self.generation.saturating_add(1);
        self.messages = Vec::new();
        self.last_event_id = None;
        self.conversation_id = Some(conversation_id);
        assert(messages_view(self.messages@) =~= Seq::empty());
        self.generation
    }
}

/// Of two events, one tagged with the session's generation `G` and one
/// with `G - 1`, the stale one changes nothing, whichever order they come
/// in: the session ends as if only the current one had come.
pub proof fn lemma_stale_event_ignored(
    s: SessionView,
    current: KindView,
    stale: KindView,
    now1: u64,
    now2: u64,
)
    requires
        s.generation > 0,
    ensures
        apply_event(apply_event(s, s.generation, current, now1), (s.generation - 1) as u64, stale, now2)
            == apply_event(s, s.generation, current, now1),
        apply_event(apply_event(s, (s.generation - 1) as u64, stale, now2), s.generation, current, now1)
            == apply_event(s, s.generation, current, now1),
{
}

/// Events applied in order, each with its own generation tag.
pub open spec fn apply_tagged(s: SessionView, evs: Seq<(u64, KindView)>, now: u64) -> SessionView
    decreases evs.len(),
{
    if evs.len() == 0 {
        s
    } else {
        apply_tagged(apply_event(s, evs[0].0, evs[0].1, now), evs.drop_first(), now)
    }
}

/// The events tagged with generation `g`, in order.
pub open spec fn current_only(evs: Seq<(u64, KindView)>, g: u64) -> Seq<(u64, KindView)>
    decreases evs.len(),
{
    if evs.len() == 0 {
        evs
    } else if evs[0].0 == g {
        seq![evs[0]] + current_only(evs.drop_first(), g)
    } else {
        current_only(evs.drop_first(), g)
    }
}

/// Events of several streams of one session, interleaved in any order:
/// applying them all leaves the session exactly as applying only those of
/// its current generation.
pub proof fn lemma_stale_runs_ignored(s: SessionView, evs: Seq<(u64, KindView)>, now: u64)
    ensures
        apply_tagged(s, evs, now) == apply_tagged(s, current_only(evs, s.generation), now),
    decreases evs.len(),
{
    if evs.len() > 0 {
        let s1 = apply_event(s, evs[0].0, evs[0].1, now);
        assert(s1.generation == s.generation);
        lemma_stale_runs_ignored(s1, evs.drop_first(), now);
        if evs[0].0 == s.generation {
            let c = seq![evs[0]] + current_only(evs.drop_first(), s.generation);
            assert(c[0] == evs[0]);
            assert(c.drop_first() =~= current_only(evs.drop_first(), s.generation));
        }
    }
}

/// The id of the last resume cursor among `ks`, or `start` if there is none.
pub open spec fn last_cursor(ks: Seq<KindView>, start: Option<Seq<char>>) -> Option<Seq<char>>
    decreases ks.len(),
{
    if ks.len() == 0 {
        start
    } else {
        match ks.last() {
            KindView::ResumeCursor { id } => Some(id),
            _ => last_cursor(ks.drop_last(), start),
        }
    }
}

proof fn lemma_apply_all_cursor(s: SessionView, ks: Seq<KindView>, now: u64)
    ensures
        apply_all(s, s.generation, ks, now).last_event_id == last_cursor(ks, s.last_event_id),
        apply_all(s, s.generation, ks, now).generation == s.generation,
    decreases ks.len(),
{
    if ks.len() > 0 {
        let init = ks.drop_last();
        lemma_apply_all_cursor(s, init, now);
        lemma_apply_all_push(s, s.generation, init, ks.last(), now);
        assert(init.push(ks.last()) =~= ks);
    }
}

/// Events of the current stream, then a fault: the session's resume
/// cursor is the id of the last cursor event before the fault (or what it
/// was, if none came), and the session ends in the fault's error.
pub proof fn lemma_cursor_before_fault(s: SessionView, ks: Seq<KindView>, message: Seq<char>, now: u64)
    ensures
        apply_all(s, s.generation, ks.push(KindView::StreamFault { message }), now).last_event_id
            == last_cursor(ks, s.last_event_id),
        apply_all(s, s.generation, ks.push(KindView::StreamFault { message }), now).turn
            == (TurnView::Errored { message }),
{
    lemma_apply_all_cursor(s, ks, now);
    lemma_apply_all_push(s, s.generation, ks, KindView::StreamFault { message }, now);
}

pub open spec fn is_cursor(k: KindView) -> bool {
    k is ResumeCursor
}

proof fn lemma_apply_all_push(s: SessionView, g: u64, ks: Seq<KindView>, k: KindView, now: u64)
    ensures
        apply_all(s, g, ks.push(k), now) == apply_event(apply_all(s, g, ks, now), g, k, now),
    decreases ks.len(),
{
    if ks.len() == 0 {
        assert(ks.push(k).drop_first() =~= Seq::<KindView>::empty());
        assert(apply_all(apply_event(s, g, k, now), g, Seq::<KindView>::empty(), now) == apply_event(s, g, k, now));
        assert(apply_all(s, g, ks, now) == s);
        assert(ks.push(k)[0] == k);
    } else {
        assert(ks.push(k).drop_first() =~= ks.drop_first().push(k));
        assert(ks.push(k)[0] == ks[0]);
        lemma_apply_all_push(apply_event(s, g, ks[0], now), g, ks.drop_first(), k, now);
    }
}

proof fn lemma_apply_all_keeps_cursor(s: SessionView, g: u64, ks: Seq<KindView>, now: u64)
    requires
        forall|i: int| 0 <= i < ks.len() ==> !is_cursor(#[trigger] ks[i]),
    ensures
        apply_all(s, g, ks, now).last_event_id == s.last_event_id,
        apply_all(s, g, ks, now).generation == s.generation,
    decreases ks.len(),
{
    if ks.len() > 0 {
        assert(!is_cursor(ks[0]));
        let rest = ks.drop_first();
        assert forall|i: int| 0 <= i < rest.len() implies !is_cursor(#[trigger] rest[i]) by {
            assert(rest[i] == ks[i + 1]);
        }
        lemma_apply_all_keeps_cursor(apply_event(s, g, ks[0], now), g, rest, now);
    }
}

/// A protocol event with an id, whose events are applied and then followed
/// by a stream fault, leaves the session's resume cursor at that id: the
/// cursor is applied before the event's payload, and neither the payload
/// nor the fault moves it. The session ends in the fault's error.
pub proof fn lemma_cursor_survives_fault(s: SessionView, e: EventView, message: Seq<char>, now: u64)
    requires
        e.id is Some,
    ensures
        apply_all(s, s.generation, event_kinds(e).push(KindView::StreamFault { message }), now).last_event_id
            == e.id,
        apply_all(s, s.generation, event_kinds(e).push(KindView::StreamFault { message }), now).turn
            == (TurnView::Errored { message }),
{
    let ks = event_kinds(e).push(KindView::StreamFault { message });
    let id = e.id->0;
    let rest = ks.drop_first();
    assert(ks[0] == KindView::ResumeCursor { id });
    let s1 = apply_event(s, s.generation, ks[0], now);
    assert(s1.last_event_id == Some(id));
    assert forall|i: int| 0 <= i < rest.len() implies !is_cursor(#[trigger] rest[i]) by {
        assert(rest[i] == ks[i + 1]);
    }
    lemma_apply_all_keeps_cursor(s1, s.generation, rest, now);
    let body = event_kinds(e);
    lemma_apply_all_push(s, s.generation, body, KindView::StreamFault { message }, now);
    assert forall|i: int| 0 <= i < body.drop_first().len() implies !is_cursor(
        #[trigger] body.drop_first()[i],
    ) by {
        assert(body.drop_first()[i] == ks[i + 1]);
    }
    lemma_apply_all_keeps_cursor(s1, s.generation, body.drop_first(), now);
    assert(apply_all(s, s.generation, body, now) == apply_all(s1, s.generation, body.drop_first(), now));
}

/// Two tool steps in a row for the same tool keep the elapsed-time origin
/// of the first, whatever their statuses; a following step of another tool
/// restarts it.
pub proof fn lemma_tool_timer(
    s: SessionView,
    name: Seq<char>,
    other: Seq<char>,
    status1: Seq<char>,
    status2: Seq<char>,
    status3: Seq<char>,
    summary1: Option<Seq<char>>,
    summary2: Option<Seq<char>>,
    summary3: Option<Seq<char>>,
    t1: u64,
    t2: u64,
    t3: u64,
)
    requires
        status1 != status_succeeded() && status1 != status_failed(),
        status2 != status_succeeded() && status2 != status_failed(),
        status3 != status_succeeded() && status3 != status_failed(),
        other != name,
    ensures
        ({
            let g = s.generation;
            let s1 = apply_event(s, g, KindView::ToolStep { name, status: status1, summary: summary1 }, t1);
            let s2 = apply_event(s1, g, KindView::ToolStep { name, status: status2, summary: summary2 }, t2);
            let s3 = apply_event(s2, g, KindView::ToolStep { name: other, status: status3, summary: summary3 }, t3);
            s2.since == s1.since && s3.since == t3
        }),
{
}

fn tool_line_string(name: &str, status: &str, summary: &Option<String>) -> (r: String)
    ensures
        r@ == tool_line(name@, status@, opt_str_view(*summary)),
{
    proof {
        reveal_strlit("[tool:");
        reveal_strlit("] ");
        reveal_strlit(": ");
    }
    let mut r = literal("[tool:");
    r.append(status);
    r.append("] ");
    r.append(name);
    match summary {
        Some(s) => {
            r.append(": ");
            r.append(s.as_str());
        },
        None => {},
    }
    assert(r@ =~= tool_line(name@, status@, opt_str_view(*summary)));
    r
}

fn tool_turn_state(name: String, status: String, summary: Option<String>) -> (r: TurnState)
    ensures
        r@ == tool_turn(name@, status@, opt_str_view(summary)),
{
    proof {
        reveal_strlit("succeeded");
        reveal_strlit("failed");
        reveal_strlit("Tool ");
        reveal_strlit(" failed");
    }
    assert("succeeded"@ =~= status_succeeded());
    assert("failed"@ =~= status_failed());
    if same_text(status.as_str(), "succeeded") {
        TurnState::AwaitingResponse
    } else if same_text(status.as_str(), "failed") {
        let mut m = literal("Tool ");
        m.append(name.as_str());
        m.append(" failed");
        assert(m@ =~= tool_failed_message(name@));
        TurnState::Errored { message: m }
    } else {
        TurnState::StreamingTool { name, status, summary }
    }
}

/// Hands an event to the session it is tagged with; an event for a session
/// that does not exist is dropped.
pub fn deliver(sessions: &mut Vec<ChatSession>, event: DomainEvent, now: u64)
    ensures
        final(sessions)@.len() == old(sessions)@.len(),
        forall|i: int|
            0 <= i < old(sessions)@.len() ==> (#[trigger] final(sessions)@[i])@ == if i
                == event.session {
                apply_event(old(sessions)@[i]@, event.generation, event.kind@, now)
            } else {
                old(sessions)@[i]@
            },
{
    if event.session < sessions.len() {
        sessions[event.session].apply(event.generation, event.kind, now);
    }
}

} // verus!
