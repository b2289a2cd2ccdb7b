//! Incremental decoder for the line-oriented server-push protocol.
//!
//! Lines are fed one at a time; fields accumulate until a blank line closes
//! the event. The decoder knows nothing about transport.
use vstd::prelude::*;

use crate::text::{is_prefix, starts_with, strip_cr, strip_trailing_cr, trim, trim_whitespace};

verus! {

/// One decoded block of the protocol, as plain sequences.
pub ghost struct EventView {
    pub id: Option<Seq<char>>,
    pub event: Option<Seq<char>>,
    pub retry: Option<Seq<char>>,
    pub data: Seq<char>,
}

/// One decoded block of the protocol: the `id`, `event` and `retry` fields
/// as last set, and the `data` lines joined by newlines.
#[derive(Default, Debug, PartialEq)]
pub struct SseEvent {
    pub id: Option<String>,
    pub event: Option<String>,
    pub retry: Option<String>,
    pub data: String,
}

pub open spec fn opt_str_view(o: Option<String>) -> Option<Seq<char>> {
    match o {
        Some(s) => Some(s@),
        None => None,
    }
}

impl View for SseEvent {
    type V = EventView;

    open spec fn view(&self) -> EventView {
        EventView {
            id: opt_str_view(self.id),
            event: opt_str_view(self.event),
            retry: opt_str_view(self.retry),
            data: self.data@,
        }
    }
}

pub open spec fn opt_event_view(o: Option<SseEvent>) -> Option<EventView> {
    match o {
        Some(e) => Some(e@),
        None => None,
    }
}

pub open spec fn empty_event() -> EventView {
    EventView { id: None, event: None, retry: None, data: Seq::empty() }
}

/// Whether an accumulated event carries anything worth emitting.
pub open spec fn has_content(e: EventView) -> bool {
    e.data.len() > 0 || e.id is Some || e.event is Some || e.retry is Some
}

pub open spec fn id_prefix() -> Seq<char> {
    seq!['i', 'd', ':', ' ']
}

pub open spec fn event_prefix() -> Seq<char> {
    seq!['e', 'v', 'e', 'n', 't', ':', ' ']
}

pub open spec fn retry_prefix() -> Seq<char> {
    seq!['r', 'e', 't', 'r', 'y', ':', ' ']
}

pub open spec fn data_space_prefix() -> Seq<char> {
    seq!['d', 'a', 't', 'a', ':', ' ']
}

pub open spec fn data_prefix() -> Seq<char> {
    seq!['d', 'a', 't', 'a', ':']
}

/// The data buffer after one more data line: a newline separates it from
/// what was there, if anything was.
pub open spec fn append_data(data: Seq<char>, v: Seq<char>) -> Seq<char> {
    if data.len() > 0 {
        data + seq!['\n'] + v
    } else {
        v
    }
}

pub open spec fn is_comment(l: Seq<char>) -> bool {
    l.len() > 0 && l[0] == ':'
}

/// What one line does to the accumulating event, and the event it completes.
pub open spec fn step(st: EventView, raw: Seq<char>) -> (EventView, Option<EventView>) {
    let l = strip_cr(raw);
    if is_comment(l) {
        (st, None)
    } else if l.len() == 0 {
        if has_content(st) {
            (empty_event(), Some(st))
        } else {
            (st, None)
        }
    } else if is_prefix(id_prefix(), l) {
        (EventView { id: Some(trim(l.skip(4))), ..st }, None)
    } else if is_prefix(event_prefix(), l) {
        (EventView { event: Some(trim(l.skip(7))), ..st }, None)
    } else if is_prefix(retry_prefix(), l) {
        (EventView { retry: Some(trim(l.skip(7))), ..st }, None)
    } else if is_prefix(data_space_prefix(), l) {
        (EventView { data: append_data(st.data, l.skip(6)), ..st }, None)
    } else if is_prefix(data_prefix(), l) {
        (EventView { data: append_data(st.data, l.skip(5)), ..st }, None)
    } else if st.data.len() > 0 {
        (EventView { data: append_data(st.data, l), ..st }, None)
    } else {
        (st, None)
    }
}

/// Line decoder: holds the event being accumulated.
pub struct SseParser {
    current_event: SseEvent,
}

impl View for SseParser {
    type V = EventView;

    closed spec fn view(&self) -> EventView {
        self.current_event@
    }
}

impl SseEvent {
    pub fn empty() -> (r: SseEvent)
        ensures
            r@ == empty_event(),
    {
        SseEvent { id: None, event: None, retry: None, data: String::new() }
    }

    /// The `id` field, if one was set.
    pub fn get_id(&self) -> (r: Option<&str>)
        ensures
            r is Some <==> self.id is Some,
            r matches Some(s) ==> self.id matches Some(i) && s@ == i@,
    {
        match &self.id {
            Some(s) => Some(s.as_str()),
            None => None,
        }
    }

    fn append_data_line(&mut self, v: &str)
        ensures
            final(self)@ == (EventView { data: append_data(old(self)@.data, v@), ..old(self)@ }),
    {
        let ghost before = self.data@;
        if self.data.unicode_len() > 0 {
            let nl = "\n";
            proof {
                reveal_strlit("\n");
            }
            assert(nl@ =~= seq!['\n']);
            self.data.append(nl);
        }
        self.data.append(v);
        assert(self.data@ =~= append_data(before, v@));
    }
}

impl SseParser {
    pub fn new() -> (r: SseParser)
        ensures
            r@ == empty_event(),
    {
        SseParser { current_event: SseEvent::empty() }
    }

    /// Feeds one line; returns the event that a blank line completes.
    pub fn process_line(&mut self, line: &str) -> (r: Option<SseEvent>)
        ensures
            final(self)@ == step(old(self)@, line@).0,
            opt_event_view(r) == step(old(self)@, line@).1,
    {
        let l = strip_trailing_cr(line);
        let n = l.unicode_len();
        if n > 0 && l.get_char(0) == ':' {
            return None;
        }
        if n == 0 {
            if self.has_content() {
                let mut ev = SseEvent::empty();
                std::mem::swap(&mut ev, &mut self.current_event);
                return Some(ev);
            }
            return None;
        }
        proof {
            reveal_strlit("id: ");
            reveal_strlit("event: ");
            reveal_strlit("retry: ");
            reveal_strlit("data: ");
            reveal_strlit("data:");
            assert("id: "@ =~= id_prefix());
            assert("event: "@ =~= event_prefix());
            assert("retry: "@ =~= retry_prefix());
            assert("data: "@ =~= data_space_prefix());
            assert("data:"@ =~= data_prefix());
        }
        if starts_with(l, "id: ") {
            let v = trim_whitespace(l.substring_char(4, n));
            self.current_event.id = Some(String::from_str(v));
        } else if starts_with(l, "event: ") {
            let v = trim_whitespace(l.substring_char(7, n));
            self.current_event.event = Some(String::from_str(v));
        } else if starts_with(l, "retry: ") {
            let v = trim_whitespace(l.substring_char(7, n));
            self.current_event.retry = Some(String::from_str(v));
        } else if starts_with(l, "data: ") {
            self.current_event.append_data_line(l.substring_char(6, n));
        } else if starts_with(l, "data:") {
            self.current_event.append_data_line(l.substring_char(5, n));
        } else if self.current_event.data.unicode_len() > 0 {
            self.current_event.append_data_line(l);
        }
        None
    }

    fn has_content(&self) -> (r: bool)
        ensures
            r == has_content(self@),
    {
        self.current_event.data.unicode_len() > 0 || self.current_event.id.is_some()
            || self.current_event.event.is_some() || self.current_event.retry.is_some()
    }

    /// Whether data lines have been taken in since the last event.
    pub fn has_pending_data(&self) -> (r: bool)
        ensures
            r == (self@.data.len() > 0),
    {
        self.current_event.data.unicode_len() > 0
    }
}

/// The state after feeding `lines` in order from `st`, and the events
/// completed on the way.
pub open spec fn feed(st: EventView, lines: Seq<Seq<char>>) -> (EventView, Seq<EventView>)
    decreases lines.len(),
{
    if lines.len() == 0 {
        (st, Seq::empty())
    } else {
        let (s1, out) = step(st, lines[0]);
        let (s2, evs) = feed(s1, lines.drop_first());
        (
            s2,
            match out {
                Some(e) => seq![e] + evs,
                None => evs,
            },
        )
    }
}

/// The lines `data: f` for each fragment `f`.
pub open spec fn data_lines(frags: Seq<Seq<char>>) -> Seq<Seq<char>> {
    frags.map_values(|f: Seq<char>| data_space_prefix() + f)
}

/// The fragments joined by newlines, in order.
pub open spec fn join_lines(frags: Seq<Seq<char>>) -> Seq<char>
    decreases frags.len(),
{
    if frags.len() == 0 {
        Seq::empty()
    } else if frags.len() == 1 {
        frags[0]
    } else {
        join_lines(frags.drop_last()) + seq!['\n'] + frags.last()
    }
}

proof fn lemma_strip_cr_prefix(s: Seq<char>)
    ensures
        strip_cr(s).len() <= s.len(),
        strip_cr(s) == s.subrange(0, strip_cr(s).len() as int),
        s.len() > 0 && s[0] != '\r' ==> strip_cr(s).len() > 0,
        s.len() > 0 && s.last() != '\r' ==> strip_cr(s) == s,
    decreases s.len(),
{
    if s.len() > 0 && s.last() == '\r' {
        lemma_strip_cr_prefix(s.drop_last());
        let t = strip_cr(s.drop_last());
        assert(s.drop_last().subrange(0, t.len() as int) =~= s.subrange(0, t.len() as int));
        if s[0] != '\r' && s.len() == 1 {
            assert(s.last() == s[0]);
        }
    } else {
        assert(s.subrange(0, s.len() as int) =~= s);
    }
}

proof fn lemma_feed_one(st: EventView, l: Seq<char>)
    ensures
        feed(st, seq![l]) == (
            step(st, l).0,
            match step(st, l).1 {
                Some(e) => seq![e],
                None => Seq::<EventView>::empty(),
            },
        ),
{
    assert(seq![l].drop_first() =~= Seq::<Seq<char>>::empty());
    assert(feed(step(st, l).0, Seq::<Seq<char>>::empty()) == (step(st, l).0, Seq::<EventView>::empty()));
    match step(st, l).1 {
        Some(e) => {
            assert(seq![e] + Seq::<EventView>::empty() =~= seq![e]);
        },
        None => {},
    }
}

/// Feeding two runs of lines in turn is feeding them as one run.
pub proof fn lemma_feed_append(st: EventView, a: Seq<Seq<char>>, b: Seq<Seq<char>>)
    ensures
        feed(st, a + b) == (
            feed(feed(st, a).0, b).0,
            feed(st, a).1 + feed(feed(st, a).0, b).1,
        ),
    decreases a.len(),
{
    if a.len() == 0 {
        assert(a + b =~= b);
        assert(feed(st, a).1 + feed(feed(st, a).0, b).1 =~= feed(st, b).1);
    } else {
        assert((a + b).drop_first() =~= a.drop_first() + b);
        let s1 = step(st, a[0]).0;
        lemma_feed_append(s1, a.drop_first(), b);
        let r = feed(s1, a.drop_first());
        let r2 = feed(r.0, b);
        match step(st, a[0]).1 {
            Some(e) => {
                assert(seq![e] + (r.1 + r2.1) =~= (seq![e] + r.1) + r2.1);
            },
            None => {},
        }
    }
}

/// A comment line changes nothing and completes nothing.
pub proof fn lemma_comment_is_inert(st: EventView, c: Seq<char>)
    requires
        c.len() > 0,
        c[0] == ':',
    ensures
        step(st, c) == (st, None::<EventView>),
{
    lemma_strip_cr_prefix(c);
    assert(strip_cr(c)[0] == c[0]);
}

/// A comment line placed anywhere in a run of lines leaves the resulting
/// state and the completed events exactly as without it.
pub proof fn lemma_comment_dropped(
    st: EventView,
    before: Seq<Seq<char>>,
    c: Seq<char>,
    after: Seq<Seq<char>>,
)
    requires
        c.len() > 0,
        c[0] == ':',
    ensures
        feed(st, before + seq![c] + after) == feed(st, before + after),
{
    let mid = feed(st, before).0;
    lemma_feed_append(st, before + seq![c], after);
    lemma_feed_append(st, before, seq![c]);
    lemma_feed_append(st, before, after);
    lemma_comment_is_inert(mid, c);
    lemma_feed_one(mid, c);
    assert(feed(st, before).1 + Seq::<EventView>::empty() =~= feed(st, before).1);
}

/// Blank lines fed to a fresh decoder never complete an event.
pub proof fn lemma_blank_lines_emit_nothing(lines: Seq<Seq<char>>)
    requires
        forall|i: int| 0 <= i < lines.len() ==> strip_cr(#[trigger] lines[i]).len() == 0,
    ensures
        feed(empty_event(), lines) == (empty_event(), Seq::<EventView>::empty()),
    decreases lines.len(),
{
    if lines.len() > 0 {
        assert(strip_cr(lines[0]).len() == 0);
        let rest = lines.drop_first();
        assert forall|i: int| 0 <= i < rest.len() implies strip_cr(#[trigger] rest[i]).len()
            == 0 by {
            assert(rest[i] == lines[i + 1]);
        }
        lemma_blank_lines_emit_nothing(rest);
    }
}

proof fn lemma_data_line_step(st: EventView, f: Seq<char>)
    requires
        f.len() == 0 || f.last() != '\r',
    ensures
        step(st, data_space_prefix() + f) == (
            EventView { data: append_data(st.data, f), ..st },
            None::<EventView>,
        ),
{
    let l = data_space_prefix() + f;
    assert(l.last() != '\r') by {
        if f.len() == 0 {
            assert(l =~= data_space_prefix());
        } else {
            assert(l.last() == f.last());
        }
    }
    lemma_strip_cr_prefix(l);
    assert(strip_cr(l) == l);
    assert(l[0] == 'd');
    assert(!is_prefix(id_prefix(), l)) by {
        if is_prefix(id_prefix(), l) {
            assert(l.subrange(0, 4)[0] == id_prefix()[0]);
        }
    }
    assert(!is_prefix(event_prefix(), l)) by {
        if is_prefix(event_prefix(), l) {
            assert(l.subrange(0, 7)[0] == event_prefix()[0]);
        }
    }
    assert(!is_prefix(retry_prefix(), l)) by {
        if is_prefix(retry_prefix(), l) {
            assert(l.subrange(0, 7)[0] == retry_prefix()[0]);
        }
    }
    assert(l.subrange(0, 6) =~= data_space_prefix());
    assert(l.skip(6) =~= f);
}

/// A data field split over consecutive `data: ` lines from a fresh
/// decoder, then a blank line, completes exactly one event whose data is
/// the fragments joined by newlines, in order, and leaves the decoder fresh.
/// The first fragment is non-empty (an empty one before any data adds no
/// separator), and no fragment ends in a carriage return (it would be
/// stripped with the line ending).
pub proof fn lemma_split_data_joined(frags: Seq<Seq<char>>)
    requires
        frags.len() > 0,
        frags[0].len() > 0,
        forall|i: int| 0 <= i < frags.len() ==> (#[trigger] frags[i]).len() == 0 || frags[i].last() != '\r',
    ensures
        feed(empty_event(), data_lines(frags).push(Seq::empty())) == (
            empty_event(),
            seq![EventView { data: join_lines(frags), ..empty_event() }],
        ),
{
    let n = frags.len() as int;
    lemma_split_data_prefix(frags, n);
    assert(frags.take(n) =~= frags);
    assert(data_lines(frags.take(n)) =~= data_lines(frags));
    let acc = EventView { data: join_lines(frags), ..empty_event() };
    lemma_feed_append(empty_event(), data_lines(frags), seq![Seq::<char>::empty()]);
    assert(data_lines(frags).push(Seq::empty()) =~= data_lines(frags) + seq![Seq::<char>::empty()]);
    assert(strip_cr(Seq::<char>::empty()) == Seq::<char>::empty());
    lemma_join_nonempty(frags);
    lemma_feed_one(acc, Seq::<char>::empty());
    assert(Seq::<EventView>::empty() + seq![acc] =~= seq![acc]);
}

proof fn lemma_join_nonempty(frags: Seq<Seq<char>>)
    requires
        frags.len() > 0,
        frags[0].len() > 0,
    ensures
        join_lines(frags).len() > 0,
    decreases frags.len(),
{
    if frags.len() > 1 {
        lemma_join_nonempty(frags.drop_last());
    }
}

proof fn lemma_split_data_prefix(frags: Seq<Seq<char>>, k: int)
    requires
        1 <= k <= frags.len(),
        frags[0].len() > 0,
        forall|i: int| 0 <= i < frags.len() ==> (#[trigger] frags[i]).len() == 0 || frags[i].last() != '\r',
    ensures
        feed(empty_event(), data_lines(frags.take(k))) == (
            EventView { data: join_lines(frags.take(k)), ..empty_event() },
            Seq::<EventView>::empty(),
        ),
    decreases k,
{
    let lines = data_lines(frags.take(k));
    if k == 1 {
        assert(lines =~= seq![data_space_prefix() + frags[0]]);
        lemma_data_line_step(empty_event(), frags[0]);
        lemma_feed_one(empty_event(), data_space_prefix() + frags[0]);
        assert(frags.take(1).len() == 1);
        assert(join_lines(frags.take(1)) == frags[0]);
    } else {
        lemma_split_data_prefix(frags, k - 1);
        let prev = data_lines(frags.take(k - 1));
        let line = data_space_prefix() + frags[k - 1];
        assert(lines =~= prev + seq![line]);
        lemma_feed_append(empty_event(), prev, seq![line]);
        let mid = EventView { data: join_lines(frags.take(k - 1)), ..empty_event() };
        lemma_data_line_step(mid, frags[k - 1]);
        lemma_feed_one(mid, line);
        assert(frags.take(k).last() == frags[k - 1]);
        lemma_join_nonempty(frags.take(k - 1));
        assert(frags.take(k).drop_last() =~= frags.take(k - 1));
        assert(Seq::<EventView>::empty() + Seq::<EventView>::empty() =~= Seq::<EventView>::empty());
    }
}

} // verus!
