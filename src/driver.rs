//! Reduction of one stream connection to session events: bytes are split
//! into lines, lines are decoded, and each completed protocol event becomes
//! a resume cursor followed by its payload event.
use vstd::prelude::*;
use vstd::utf8::{decode_utf8, valid_utf8};

use crate::events::{data_kind, payload_event, DomainEvent, EventKind, KindView};
use crate::sse::{empty_event, step, EventView, SseEvent, SseParser};
use crate::text::{concat_str, decimal, decimal_string};

verus! {

/// The session events that one completed protocol event makes: first its
/// `id` as a resume cursor, if it has one, then its payload event, if the
/// payload makes one.
pub open spec fn event_kinds(e: EventView) -> Seq<KindView> {
    let cursor = match e.id {
        Some(id) => seq![KindView::ResumeCursor { id }],
        None => Seq::empty(),
    };
    match data_kind(e.data) {
        Some(k) => cursor.push(k),
        None => cursor,
    }
}

pub ghost struct DriverView {
    /// The protocol event being accumulated.
    pub parser: EventView,
    /// The bytes of the line not yet ended.
    pub pending: Seq<u8>,
}

/// What one complete line (its bytes, without the newline) does: a line that
/// is not UTF-8 is skipped.
pub open spec fn line_step(p: EventView, bytes: Seq<u8>) -> (EventView, Seq<KindView>) {
    if valid_utf8(bytes) {
        let (next, out) = step(p, decode_utf8(bytes));
        (
            next,
            match out {
                Some(e) => event_kinds(e),
                None => Seq::empty(),
            },
        )
    } else {
        (p, Seq::empty())
    }
}

/// The driver state after a chunk of bytes, and the events it makes.
pub open spec fn chunk_step(st: DriverView, chunk: Seq<u8>) -> (DriverView, Seq<KindView>)
    decreases chunk.len(),
{
    if chunk.len() == 0 {
        (st, Seq::empty())
    } else if chunk[0] == 10 {
        let (next, out) = line_step(st.parser, st.pending);
        let (st2, rest) = chunk_step(
            DriverView { parser: next, pending: Seq::empty() },
            chunk.drop_first(),
        );
        (st2, out + rest)
    } else {
        chunk_step(
            DriverView { parser: st.parser, pending: st.pending.push(chunk[0]) },
            chunk.drop_first(),
        )
    }
}

/// Taking in two chunks one after the other is taking in the two as one
/// chunk: where the body is cut into chunks changes neither the state nor
/// the events.
pub proof fn lemma_chunks_compose(st: DriverView, a: Seq<u8>, b: Seq<u8>)
    ensures
        chunk_step(st, a + b) == (
            chunk_step(chunk_step(st, a).0, b).0,
            chunk_step(st, a).1 + chunk_step(chunk_step(st, a).0, b).1,
        ),
    decreases a.len(),
{
    if a.len() == 0 {
        assert(a + b =~= b);
        assert(chunk_step(st, a).1 + chunk_step(st, b).1 =~= chunk_step(st, b).1);
    } else {
        assert((a + b).drop_first() =~= a.drop_first() + b);
        assert((a + b)[0] == a[0]);
        if a[0] == 10 {
            let (next, out) = line_step(st.parser, st.pending);
            let st1 = DriverView { parser: next, pending: Seq::empty() };
            lemma_chunks_compose(st1, a.drop_first(), b);
            let r = chunk_step(st1, a.drop_first());
            let r2 = chunk_step(r.0, b);
            assert(out + (r.1 + r2.1) =~= (out + r.1) + r2.1);
        } else {
            let st1 = DriverView { parser: st.parser, pending: st.pending.push(a[0]) };
            lemma_chunks_compose(st1, a.drop_first(), b);
        }
    }
}

pub open spec fn kinds_of(evs: Seq<DomainEvent>) -> Seq<KindView> {
    evs.map_values(|d: DomainEvent| d.kind@)
}

/// Every event carries the given session and generation.
pub open spec fn all_tagged(evs: Seq<DomainEvent>, session: usize, generation: u64) -> bool {
    forall|i: int|
        0 <= i < evs.len() ==> (#[trigger] evs[i]).session == session && evs[i].generation
            == generation
}

/// Relies on `String::from_utf8`: `Ok` exactly when the bytes are valid
/// UTF-8, holding the characters they encode.
#[verifier::external_body]
fn utf8_line(bytes: Vec<u8>) -> (r: Option<String>)
    ensures
        r is Some <==> valid_utf8(bytes@),
        r matches Some(s) ==> s@ == decode_utf8(bytes@),
{
    String::from_utf8(bytes).ok()
}

pub open spec fn stream_interrupted_message() -> Seq<char> {
    seq!['s', 't', 'r', 'e', 'a', 'm', ' ', 'i', 'n', 't', 'e', 'r', 'r', 'u', 'p', 't', 'e', 'd']
}

pub open spec fn stream_request_failed_message() -> Seq<char> {
    seq![
        's', 't', 'r', 'e', 'a', 'm', ' ', 'r', 'e', 'q', 'u', 'e', 's', 't', ' ', 'f', 'a', 'i',
        'l', 'e', 'd',
    ]
}

pub open spec fn stream_status_prefix() -> Seq<char> {
    seq![
        's', 't', 'r', 'e', 'a', 'm', ' ', 'f', 'a', 'i', 'l', 'e', 'd', ' ', 'w', 'i', 't', 'h',
        ' ', 's', 't', 'a', 't', 'u', 's', ' ',
    ]
}

/// Whether an HTTP status code reports success.
pub open spec fn is_success(code: u16) -> bool {
    200 <= code <= 299
}

/// The reason phrase that an HTTP status code's `Display` writes after the
/// code: its canonical reason, or a fixed text for a code without one.
pub uninterp spec fn status_reason(code: u16) -> Seq<char>;

/// How a response's status reads in a fault: the code in decimal, a space
/// and its reason phrase; the bare code when it is no valid status code.
pub open spec fn status_text(code: u16) -> Seq<char> {
    if 100 <= code <= 999 {
        decimal(code as nat) + seq![' '] + status_reason(code)
    } else {
        decimal(code as nat)
    }
}

/// The fault, if any, of a stream request: `None` for a transport error,
/// otherwise the response's status code.
pub open spec fn response_fault_message(status: Option<u16>) -> Option<Seq<char>> {
    match status {
        None => Some(stream_request_failed_message()),
        Some(code) => if is_success(code) {
            None
        } else {
            Some(stream_status_prefix() + status_text(code))
        },
    }
}

/// Relies on `reqwest::StatusCode::from_u16` (http's `StatusCode`), `Ok`
/// exactly for codes 100 to 999, and on its `Display`, which writes the code
/// in decimal, a space and the reason phrase.
#[verifier::external_body]
fn status_display(code: u16) -> (r: Option<String>)
    ensures
        r is Some <==> 100 <= code <= 999,
        r matches Some(s) ==> s@ == decimal(code as nat) + seq![' '] + status_reason(code),
{
    reqwest::StatusCode::from_u16(code).ok().map(|s| s.to_string())
}

/// The fault message for a stream response with status `code`, given how
/// the status displays (`None` for a code that is no valid status code).
pub fn stream_status_message(code: u16, shown: Option<&str>) -> (r: String)
    ensures
        r@ == stream_status_prefix() + match shown {
            Some(t) => t@,
            None => decimal(code as nat),
        },
{
    proof {
        reveal_strlit("stream failed with status ");
    }
    assert("stream failed with status "@ =~= stream_status_prefix());
    match shown {
        Some(t) => concat_str("stream failed with status ", t),
        None => concat_str("stream failed with status ", decimal_string(code as u64).as_str()),
    }
}

pub open spec fn fault_kind(m: Option<Seq<char>>) -> Option<KindView> {
    match m {
        Some(message) => Some(KindView::StreamFault { message }),
        None => None,
    }
}

/// The `Last-Event-ID` value a stream request carries: the resume cursor,
/// when there is one and it is not empty.
pub open spec fn resume_header(resume_id: Option<Seq<char>>) -> Option<Seq<char>> {
    match resume_id {
        Some(c) => if c.len() > 0 {
            Some(c)
        } else {
            None
        },
        None => None,
    }
}

pub open spec fn opt_ref_view(o: Option<&str>) -> Option<Seq<char>> {
    match o {
        Some(s) => Some(s@),
        None => None,
    }
}

/// The `Last-Event-ID` value for a stream request resuming at `resume_id`.
pub fn resume_header_value(resume_id: Option<&str>) -> (r: Option<&str>)
    ensures
        opt_ref_view(r) == resume_header(opt_ref_view(resume_id)),
{
    match resume_id {
        Some(c) => if c.unicode_len() > 0 {
            Some(c)
        } else {
            None
        },
        None => None,
    }
}

impl SseEvent {
    /// The payload event of this protocol event, tagged with the session and
    /// generation of the stream that carried it.
    pub fn dispatch_to_ui(&self, idx: usize, gen: u64) -> (r: Option<DomainEvent>)
        ensures
            r is Some <==> data_kind(self@.data) is Some,
            r matches Some(d) ==> d.session == idx && d.generation == gen && Some(d.kind@)
                == data_kind(self@.data),
    {
        match payload_event(self.data.as_str()) {
            Some(kind) => Some(DomainEvent { session: idx, generation: gen, kind }),
            None => None,
        }
    }
}

/// One stream connection of one session at a fixed generation.
pub struct StreamDriver {
    session: usize,
    generation: u64,
    parser: SseParser,
    pending: Vec<u8>,
}

impl View for StreamDriver {
    type V = DriverView;

    closed spec fn view(&self) -> DriverView {
        DriverView { parser: self.parser@, pending: self.pending@ }
    }
}

impl StreamDriver {
    pub closed spec fn session(&self) -> usize {
        self.session
    }

    pub closed spec fn generation(&self) -> u64 {
        self.generation
    }

    pub fn new(session: usize, generation: u64) -> (r: StreamDriver)
        ensures
            r@ == (DriverView { parser: empty_event(), pending: Seq::empty() }),
            r.session() == session,
            r.generation() == generation,
    {
        StreamDriver { session, generation, parser: SseParser::new(), pending: Vec::new() }
    }

    fn tag(&self, kind: EventKind) -> (r: DomainEvent)
        ensures
            r.session == self.session(),
            r.generation == self.generation(),
            r.kind == kind,
    {
        DomainEvent { session: self.session, generation: self.generation, kind }
    }

    /// Appends the events of one completed protocol event to `out`.
    fn push_event(&self, ev: SseEvent, out: &mut Vec<DomainEvent>)
        ensures
            kinds_of(final(out)@) == kinds_of(old(out)@) + event_kinds(ev@),
            all_tagged(old(out)@, self.session(), self.generation()) ==> all_tagged(
                final(out)@,
                self.session(),
                self.generation(),
            ),
    {
        let ghost start = old(out)@;
        let ghost cursor: Seq<KindView> = match ev@.id {
            Some(id) => seq![KindView::ResumeCursor { id }],
            None => Seq::empty(),
        };
        match &ev.id {
            Some(id) => {
                let d = self.tag(EventKind::ResumeCursor { id: id.clone() });
                out.push(d);
            },
            None => {},
        }
        assert(kinds_of(out@) =~= kinds_of(start) + cursor);
        let ghost mid = out@;
        match ev.dispatch_to_ui(self.session, self.generation) {
            Some(d) => {
                out.push(d);
                assert(kinds_of(out@) =~= kinds_of(mid).push(d.kind@));
            },
            None => {},
        }
        assert(kinds_of(out@) =~= kinds_of(start) + event_kinds(ev@));
    }

    /// Takes in a chunk of the response body; returns the events that the
    /// lines it completes make, in order, tagged with this stream's session
    /// and generation.
    pub fn feed_bytes(&mut self, chunk: &[u8]) -> (r: Vec<DomainEvent>)
        ensures
            (final(self)@, kinds_of(r@)) == chunk_step(old(self)@, chunk@),
            all_tagged(r@, old(self).session(), old(self).generation()),
            final(self).session() == old(self).session(),
            final(self).generation() == old(self).generation(),
    {
        let mut out: Vec<DomainEvent> = Vec::new();
        let n = chunk.len();
        let mut i: usize = 0;
        assert(chunk@.skip(0) =~= chunk@);
        while i < n
            invariant
                n == chunk@.len(),
                i <= n,
                self.session() == old(self).session(),
                self.generation() == old(self).generation(),
                all_tagged(out@, self.session(), self.generation()),
                chunk_step(old(self)@, chunk@) == (
                    chunk_step(self@, chunk@.skip(i as int)).0,
                    kinds_of(out@) + chunk_step(self@, chunk@.skip(i as int)).1,
                ),
            decreases n - i,
        {
            let ghost before = self@;
            let ghost before_out = kinds_of(out@);
            let ghost rest = chunk@.skip(i as int);
            assert(rest.drop_first() =~= chunk@.skip(i + 1));
            let b = chunk[i];
            if b == 10 {
                let mut line: Vec<u8> = Vec::new();
                std::mem::swap(&mut line, &mut self.pending);
                let ghost line_bytes = line@;
                match utf8_line(line) {
                    Some(text) => {
                        match self.parser.process_line(text.as_str()) {
                            Some(ev) => {
                                self.push_event(ev, &mut out);
                            },
                            None => {},
                        }
                    },
                    None => {},
                }
                let ghost tail = chunk_step(self@, chunk@.skip(i + 1));
                assert(self@ == DriverView { parser: line_step(before.parser, line_bytes).0, pending: Seq::empty() });
                assert(kinds_of(out@) == before_out + line_step(before.parser, line_bytes).1);
                assert(before_out + (line_step(before.parser, line_bytes).1 + tail.1) =~= kinds_of(out@) + tail.1);
            } else {
                self.pending.push(b);
            }
            i = i + 1;
        }
        out
    }

    /// The event for a clean end of the response body; an unfinished line
    /// is dropped.
    pub fn finish(&self) -> (r: DomainEvent)
        ensures
            r.session == self.session(),
            r.generation == self.generation(),
            r.kind@ == KindView::StreamEnded,
    {
        self.tag(EventKind::StreamEnded)
    }

    /// The event for a read error on the response body.
    pub fn read_failed(&self) -> (r: DomainEvent)
        ensures
            r.session == self.session(),
            r.generation == self.generation(),
            r.kind@ == (KindView::StreamFault { message: stream_interrupted_message() }),
    {
        proof {
            reveal_strlit("stream interrupted");
        }
        let m = String::from_str("stream interrupted");
        assert(m@ =~= stream_interrupted_message());
        self.tag(EventKind::StreamFault { message: m })
    }

    /// The fault event of a stream request, if it failed: `status` is the
    /// response's status code, `None` for a connect or request error.
    pub fn response_fault(&self, status: Option<u16>) -> (r: Option<DomainEvent>)
        ensures
            r is Some <==> response_fault_message(status) is Some,
            r matches Some(d) ==> d.session == self.session() && d.generation
                == self.generation() && Some(d.kind@) == fault_kind(response_fault_message(status)),
    {
        match status {
            None => {
                proof {
                    reveal_strlit("stream request failed");
                }
                let m = String::from_str("stream request failed");
                assert(m@ =~= stream_request_failed_message());
                Some(self.tag(EventKind::StreamFault { message: m }))
            },
            Some(code) => {
                if 200 <= code && code <= 299 {
                    None
                } else {
                    let shown = status_display(code);
                    let m = match &shown {
                        Some(t) => stream_status_message(code, Some(t.as_str())),
                        None => stream_status_message(code, None),
                    };
                    Some(self.tag(EventKind::StreamFault { message: m }))
                }
            },
        }
    }
}

} // verus!
