//! Turning the streamed bodies of model providers into stream events.
//!
//! Anthropic and Ollama stream lines of text (server-sent events and JSON
//! lines); OpenAI-compatible servers stream chunks whose tool-call parts
//! arrive by index. The caller reads the network; these types cut the
//! lines and decide which events each piece yields.
use vstd::prelude::*;
use vstd::string::StringExecFns;
use crate::exploratory_prompt::strip_cr;
use crate::json::{JsonModel, json_empty_object, json_get, json_as_bool, json_as_str, json_parse, json_view, obj_get, parse_json};
use crate::llm_event::LlmStreamEvent;
use crate::text::{find_first, lemma_first_exists, owned, starts_with, string_of, to_chars, trim, trimmed, find_char};
use crate::tool_intent::str_member;

verus! {

// ---------------------------------------------------------------------------
// Lines
// ---------------------------------------------------------------------------

/// The first complete line of `buf` (without its `\n` and one trailing
/// `\r`) and what follows it, if `buf` holds a `\n`.
pub open spec fn take_line(buf: Seq<char>) -> Option<(Seq<char>, Seq<char>)> {
    match find_first(buf, '\n') {
        None => None,
        Some(i) => Some((strip_cr(buf.take(i)), buf.skip(i + 1))),
    }
}

/// Cutting a line loses nothing: the buffer is the raw line, a `\n` and the
/// rest, the line is the raw line without one trailing `\r`, and the raw
/// line holds no `\n`. Without a `\n` no line is cut.
pub proof fn law_take_line_splits(buf: Seq<char>)
    ensures
        take_line(buf) is None <==> !buf.contains('\n'),
        take_line(buf) matches Some((line, rest)) ==> exists|raw: Seq<char>|
            buf == raw + seq!['\n'] + rest && line == strip_cr(raw) && !raw.contains('\n'),
{
    if exists|i: int| 0 <= i < buf.len() && buf[i] == '\n' {
        lemma_first_exists(buf, '\n');
        let i = find_first(buf, '\n')->Some_0;
        let raw = buf.take(i);
        assert(buf =~= raw + seq!['\n'] + buf.skip(i + 1));
        if raw.contains('\n') {
            let j = choose|j: int| 0 <= j < raw.len() && raw[j] == '\n';
            assert(buf[j] == '\n');
        }
    } else {
        if buf.contains('\n') {
            let i = choose|i: int| 0 <= i < buf.len() && buf[i] == '\n';
            assert(0 <= i < buf.len() && buf[i] == '\n');
        }
    }
}

/// Text received but not yet cut into lines.
pub struct LineBuffer {
    buf: Vec<char>,
}

impl View for LineBuffer {
    type V = Seq<char>;

    closed spec fn view(&self) -> Seq<char> {
        self.buf@
    }
}

impl LineBuffer {
    /// An empty buffer.
    pub fn new() -> (r: LineBuffer)
        ensures
            r@.len() == 0,
    {
        LineBuffer { buf: Vec::new() }
    }

    /// Appends received text.
    pub fn push(&mut self, text: &str)
        ensures
            final(self)@ == old(self)@ + text@,
    {
        let v = to_chars(text);
        let mut i: usize = 0;
        while i < v.len()
            invariant
                i <= v@.len(),
                self.buf@ == old(self)@ + v@.take(i as int),
            decreases v.len() - i,
        {
            self.buf.push(v[i]);
            assert(v@.take(i + 1) =~= v@.take(i as int).push(v@[i as int]));
            i += 1;
        }
        assert(v@.take(i as int) =~= v@);
    }

    /// Takes the first complete line (see [`take_line`]).
    pub fn next_line(&mut self) -> (r: Option<String>)
        ensures
            match take_line(old(self)@) {
                Some((line, rest)) => r matches Some(l) && l@ == line && final(self)@ == rest,
                None => r is None && final(self)@ == old(self)@,
            },
    {
        match find_char(&self.buf, '\n') {
            None => None,
            Some(i) => {
                let mut end = i;
                if end > 0 && self.buf[end - 1] == '\r' {
                    end = end - 1;
                }
                let line = string_of(&self.buf, 0, end);
                let rest = string_of(&self.buf, i + 1, self.buf.len());
                proof {
                    let b = self.buf@;
                    if i > 0 && b[i - 1] == '\r' {
                        assert(b.take(i as int).drop_last() =~= b.subrange(0, end as int));
                    } else {
                        assert(b.take(i as int) =~= b.subrange(0, end as int));
                    }
                    assert(b.skip(i + 1) =~= b.subrange(i + 1, b.len() as int));
                }
                self.buf = to_chars(rest.as_str());
                Some(line)
            },
        }
    }
}

// ---------------------------------------------------------------------------
// Anthropic
// ---------------------------------------------------------------------------

/// The text an Anthropic event line carries: a `data:` line whose JSON is a
/// `content_block_delta` with non-empty `delta.text`.
pub open spec fn anthropic_line_text(line: Seq<char>) -> Option<Seq<char>> {
    let t = trim(line);
    if !"data:"@.is_prefix_of(t) {
        None
    } else {
        let rest = trim(t.skip(5));
        if rest.len() == 0 {
            None
        } else {
            match json_parse(rest) {
                Err(_) => None,
                Ok(j) => if str_member(j, "type"@) == Some("content_block_delta"@) {
                    match obj_get(j, "delta"@) {
                        Some(d) => match str_member(d, "text"@) {
                            Some(x) => if x.len() > 0 {
                                Some(x)
                            } else {
                                None
                            },
                            None => None,
                        },
                        None => None,
                    }
                } else {
                    None
                },
            }
        }
    }
}

/// The event of an Anthropic stream line, if any (see
/// [`anthropic_line_text`]).
pub fn anthropic_event(line: &str) -> (r: Option<LlmStreamEvent>)
    ensures
        match anthropic_line_text(line@) {
            Some(x) => r matches Some(LlmStreamEvent::TextDelta { text }) && text@ == x,
            None => r is None,
        },
{
    let t = to_chars(trimmed(line).as_str());
    let prefix = to_chars("data:");
    proof {
        reveal_strlit("data:");
    }
    if !starts_with(&t, &prefix) {
        return None;
    }
    let rest_all = string_of(&t, 5, t.len());
    assert(rest_all@ == t@.skip(5));
    let rest = trimmed(rest_all.as_str());
    if rest.as_str().is_empty() {
        return None;
    }
    let v = match parse_json(rest.as_str()) {
        Ok(v) => v,
        Err(_) => return None,
    };
    let ty = match json_get(&v, "type") {
        Some(x) => match json_as_str(x) {
            Some(s) => owned(s),
            None => return None,
        },
        None => return None,
    };
    if ty != owned("content_block_delta") {
        return None;
    }
    let d = match json_get(&v, "delta") {
        Some(d) => d,
        None => return None,
    };
    match json_get(d, "text") {
        Some(x) => match json_as_str(x) {
            Some(s) => if s.is_empty() {
                None
            } else {
                Some(LlmStreamEvent::TextDelta { text: owned(s) })
            },
            None => None,
        },
        None => None,
    }
}

// ---------------------------------------------------------------------------
// Ollama
// ---------------------------------------------------------------------------

/// What an Ollama stream line yields, given the assistant text so far: the
/// new assistant text, the new part of it (when the line's content extends
/// the text so far), and whether the answer is done.
pub open spec fn ollama_line(prev: Seq<char>, line: Seq<char>) -> (Seq<char>, Option<Seq<char>>, bool) {
    let t = trim(line);
    if t.len() == 0 {
        (prev, None, false)
    } else {
        match json_parse(t) {
            Err(_) => (prev, None, false),
            Ok(j) => {
                let done = obj_get(j, "done"@) == Some(JsonModel::Bool(true));
                match obj_get(j, "message"@) {
                    Some(m) => if str_member(m, "role"@) == Some("assistant"@) {
                        match str_member(m, "content"@) {
                            Some(c) => if prev.is_prefix_of(c) {
                                let d = c.skip(prev.len() as int);
                                (c, if d.len() > 0 {
                                    Some(d)
                                } else {
                                    None
                                }, done)
                            } else {
                                (prev, None, done)
                            },
                            None => (prev, None, done),
                        }
                    } else {
                        (prev, None, done)
                    },
                    None => (prev, None, done),
                }
            },
        }
    }
}

/// Reads an Ollama stream: each line carries the whole assistant text so
/// far, and the events carry what is new.
pub struct OllamaDecoder {
    prev_assistant: Vec<char>,
}

impl View for OllamaDecoder {
    type V = Seq<char>;

    closed spec fn view(&self) -> Seq<char> {
        self.prev_assistant@
    }
}

impl OllamaDecoder {
    /// No assistant text yet.
    pub fn new() -> (r: OllamaDecoder)
        ensures
            r@.len() == 0,
    {
        OllamaDecoder { prev_assistant: Vec::new() }
    }

    /// Reads one line (see [`ollama_line`]): the events are the new text, if
    /// any, then `Done` when the answer is done. Returns whether it is.
    pub fn on_line(&mut self, line: &str) -> (r: (Vec<LlmStreamEvent>, bool))
        ensures
            ({
                let (p, d, done) = ollama_line(old(self)@, line@);
                &&& final(self)@ == p
                &&& r.1 == done
                &&& r.0@.len() == (if d is Some { 1int } else { 0 }) + (if done { 1int } else { 0 })
                &&& d matches Some(x) ==> (r.0@[0] matches LlmStreamEvent::TextDelta { text } && text@ == x)
                &&& done ==> r.0@.last() is Done
            }),
    {
        let mut out: Vec<LlmStreamEvent> = Vec::new();
        let t = trimmed(line);
        if t.as_str().is_empty() {
            return (out, false);
        }
        let v = match parse_json(t.as_str()) {
            Ok(v) => v,
            Err(_) => return (out, false),
        };
        let done = match json_get(&v, "done") {
            Some(x) => match json_as_bool(x) {
                Some(b) => b,
                None => false,
            },
            None => false,
        };
        let ghost prev = self@;
        match json_get(&v, "message") {
            Some(m) => {
                let role_ok = match json_get(m, "role") {
                    Some(x) => match json_as_str(x) {
                        Some(s) => owned(s) == owned("assistant"),
                        None => false,
                    },
                    None => false,
                };
                if role_ok {
                    match json_get(m, "content") {
                        Some(x) => match json_as_str(x) {
                            Some(c) => {
                                let cv = to_chars(c);
                                if starts_with(&cv, &self.prev_assistant) {
                                    let n = self.prev_assistant.len();
                                    let delta = string_of(&cv, n, cv.len());
                                    assert(delta@ == cv@.skip(n as int));
                                    self.prev_assistant = cv;
                                    if !delta.as_str().is_empty() {
                                        out.push(LlmStreamEvent::TextDelta { text: delta });
                                    }
                                }
                            },
                            None => {},
                        },
                        None => {},
                    }
                }
            },
            None => {},
        }
        if done {
            out.push(LlmStreamEvent::Done);
        }
        (out, done)
    }
}

// ---------------------------------------------------------------------------
// OpenAI-compatible
// ---------------------------------------------------------------------------

/// The function part of a streamed tool-call delta.
pub struct FunctionDelta {
    pub name: Option<String>,
    pub arguments: Option<String>,
}

/// A streamed tool-call delta of an OpenAI-compatible chunk.
pub struct ToolCallDelta {
    pub index: u32,
    pub id: Option<String>,
    pub function: Option<FunctionDelta>,
}

/// A stream event as plain data (the kinds these decoders produce).
pub enum EventView {
    Text(Seq<char>),
    Start(u32, Seq<char>, Seq<char>),
    Args(u32, Seq<char>),
    Finish(u32),
    End,
    Other,
}

/// The plain form of an event.
pub open spec fn event_view(e: LlmStreamEvent) -> EventView {
    match e {
        LlmStreamEvent::TextDelta { text } => EventView::Text(text@),
        LlmStreamEvent::ToolCallStart { index, id, name } => EventView::Start(index, id@, name@),
        LlmStreamEvent::ToolCallDelta { index, arguments } => EventView::Args(index, arguments@),
        LlmStreamEvent::ToolCallDone { index, .. } => EventView::Finish(index),
        LlmStreamEvent::Done => EventView::End,
        _ => EventView::Other,
    }
}

/// The plain forms of events.
pub open spec fn events_view(s: Seq<LlmStreamEvent>) -> Seq<EventView> {
    s.map_values(|x: LlmStreamEvent| event_view(x))
}

/// The flags widened so that index `i` exists (new entries unset).
pub open spec fn widened(emitted: Seq<bool>, i: nat) -> Seq<bool> {
    if i < emitted.len() {
        emitted
    } else {
        emitted + Seq::new((i + 1 - emitted.len()) as nat, |k: int| false)
    }
}

/// A text or an empty one.
pub open spec fn or_empty(o: Option<String>) -> Seq<char> {
    match o {
        Some(s) => s@,
        None => Seq::empty(),
    }
}

/// The events of one tool-call delta, given which calls have started: the
/// call's start the first time its name appears, then any non-empty piece
/// of its arguments.
pub open spec fn delta_events(emitted: Seq<bool>, tc: ToolCallDelta) -> (Seq<bool>, Seq<EventView>) {
    let e = widened(emitted, tc.index as nat);
    let i = tc.index as int;
    let (e2, start) = match tc.function {
        Some(f) => if !e[i] && f.name is Some {
            (e.update(i, true), seq![EventView::Start(tc.index, or_empty(tc.id), or_empty(f.name))])
        } else {
            (e, Seq::empty())
        },
        None => (e, Seq::empty()),
    };
    let args = match tc.function {
        Some(f) => match f.arguments {
            Some(a) => if a@.len() > 0 {
                seq![EventView::Args(tc.index, a@)]
            } else {
                Seq::empty()
            },
            None => Seq::empty(),
        },
        None => Seq::empty(),
    };
    (e2, start + args)
}

/// A tool call's start is reported at most once: a delta reports it only
/// while the call is not marked started, marks it when it does, and never
/// clears a mark.
pub proof fn law_tool_call_starts_once(emitted: Seq<bool>, tc: ToolCallDelta)
    ensures
        ({
            let (e2, evs) = delta_events(emitted, tc);
            let w = widened(emitted, tc.index as nat);
            &&& e2.len() == w.len()
            &&& forall|i: int| 0 <= i < w.len() && #[trigger] w[i] ==> e2[i]
            &&& forall|i: int| 0 <= i < emitted.len() ==> #[trigger] w[i] == emitted[i]
            &&& (evs.len() > 0 && evs[0] is Start) ==> !w[tc.index as int] && e2[tc.index as int]
        }),
{
    let w = widened(emitted, tc.index as nat);
    assert forall|i: int| 0 <= i < emitted.len() implies #[trigger] w[i] == emitted[i] by {
        if tc.index as nat >= emitted.len() {
            assert(w[i] == (emitted + Seq::new((tc.index as nat + 1 - emitted.len()) as nat, |k: int| false))[i]);
        }
    }
}

/// The events of the tool-call deltas of a chunk, in order.
pub open spec fn deltas_events(emitted: Seq<bool>, tcs: Seq<ToolCallDelta>) -> (Seq<bool>, Seq<EventView>)
    decreases tcs.len(),
{
    if tcs.len() == 0 {
        (emitted, Seq::empty())
    } else {
        let (e1, ev1) = deltas_events(emitted, tcs.drop_last());
        let (e2, ev2) = delta_events(e1, tcs.last());
        (e2, ev1 + ev2)
    }
}

/// The events at the end of the stream: each started call is done, in
/// index order, then the answer is.
pub open spec fn end_events(emitted: Seq<bool>) -> Seq<EventView>
    decreases emitted.len(),
{
    if emitted.len() == 0 {
        seq![EventView::End]
    } else {
        let rest = end_events(emitted.drop_last());
        if emitted.last() {
            rest.take(rest.len() - 1).push(EventView::Finish((emitted.len() - 1) as u32)).push(EventView::End)
        } else {
            rest
        }
    }
}

/// The index a `Finish` event is about (`-1` for any other event).
pub open spec fn finish_index(e: EventView) -> int {
    match e {
        EventView::Finish(i) => i as int,
        _ => -1,
    }
}

/// At the end of a stream every started call is finished exactly once, in
/// index order, and then the answer ends: all events but the last finish a
/// started call, their indices rise strictly, every started call has one,
/// and the last event is the end. (Call indices are `u32`, so at most 2^32
/// calls are tracked.)
pub proof fn law_end_events_finish_each_started_call(emitted: Seq<bool>)
    requires
        emitted.len() <= 0x1_0000_0000,
    ensures
        ({
            let ev = end_events(emitted);
            &&& ev.len() >= 1
            &&& ev.last() == EventView::End
            &&& forall|k: int| 0 <= k < ev.len() - 1 ==> #[trigger] ev[k] is Finish && 0 <= finish_index(ev[k]) < emitted.len()
                && emitted[finish_index(ev[k])]
            &&& forall|k1: int, k2: int| 0 <= k1 < k2 < ev.len() - 1 ==> finish_index(#[trigger] ev[k1]) < finish_index(
                #[trigger] ev[k2],
            )
            &&& forall|i: int| 0 <= i < emitted.len() && #[trigger] emitted[i] ==> exists|k: int|
                0 <= k < ev.len() - 1 && #[trigger] ev[k] == EventView::Finish(i as u32)
        }),
    decreases emitted.len(),
{
    if emitted.len() > 0 {
        let init = emitted.drop_last();
        law_end_events_finish_each_started_call(init);
        let rest = end_events(init);
        let n = emitted.len() - 1;
        let ev = end_events(emitted);
        if emitted.last() {
            let body = rest.take(rest.len() - 1);
            assert(ev == body.push(EventView::Finish(n as u32)).push(EventView::End));
            assert forall|k: int| 0 <= k < ev.len() - 1 implies #[trigger] ev[k] is Finish && 0 <= finish_index(ev[k]) < emitted.len()
                && emitted[finish_index(ev[k])] by {
                if k < body.len() {
                    assert(ev[k] == rest[k]);
                    assert(init[finish_index(rest[k])] == emitted[finish_index(rest[k])]);
                } else {
                    assert(ev[k] == EventView::Finish(n as u32));
                    assert((n as u32) as int == n);
                }
            }
            assert forall|k1: int, k2: int| 0 <= k1 < k2 < ev.len() - 1 implies finish_index(#[trigger] ev[k1]) < finish_index(
                #[trigger] ev[k2],
            ) by {
                assert(ev[k1] == rest[k1]);
                if k2 < body.len() {
                    assert(ev[k2] == rest[k2]);
                } else {
                    assert(ev[k2] == EventView::Finish(n as u32));
                    assert((n as u32) as int == n);
                    assert(rest[k1] is Finish && 0 <= finish_index(rest[k1]) < init.len());
                }
            }
            assert forall|i: int| 0 <= i < emitted.len() && #[trigger] emitted[i] implies exists|k: int|
                0 <= k < ev.len() - 1 && #[trigger] ev[k] == EventView::Finish(i as u32) by {
                if i < n {
                    assert(init[i] == emitted[i]);
                    let k = choose|k: int| 0 <= k < rest.len() - 1 && #[trigger] rest[k] == EventView::Finish(i as u32);
                    assert(ev[k] == rest[k]);
                } else {
                    assert(ev[body.len() as int] == EventView::Finish(n as u32));
                }
            }
        } else {
            assert(ev == rest);
            assert forall|k: int| 0 <= k < ev.len() - 1 implies #[trigger] ev[k] is Finish && 0 <= finish_index(ev[k]) < emitted.len()
                && emitted[finish_index(ev[k])] by {
                assert(init[finish_index(rest[k])] == emitted[finish_index(rest[k])]);
            }
            assert forall|i: int| 0 <= i < emitted.len() && #[trigger] emitted[i] implies exists|k: int|
                0 <= k < ev.len() - 1 && #[trigger] ev[k] == EventView::Finish(i as u32) by {
                assert(i < n);
                assert(init[i] == emitted[i]);
            }
        }
    }
}

/// Tracks the tool calls of an OpenAI-compatible stream.
pub struct OpenAiStreamState {
    emitted_tool_starts: Vec<bool>,
}

impl View for OpenAiStreamState {
    type V = Seq<bool>;

    closed spec fn view(&self) -> Seq<bool> {
        self.emitted_tool_starts@
    }
}

impl OpenAiStreamState {
    /// No call started.
    pub fn new() -> (r: OpenAiStreamState)
        ensures
            r@.len() == 0,
    {
        OpenAiStreamState { emitted_tool_starts: Vec::new() }
    }

    fn on_tool_delta(&mut self, tc: &ToolCallDelta, out: &mut Vec<LlmStreamEvent>)
        requires
            tc.index < usize::MAX,
        ensures
            ({
                let (e, ev) = delta_events(old(self)@, *tc);
                &&& final(self)@ == e
                &&& final(out)@.len() == old(out)@.len() + ev.len()
                &&& final(out)@.take(old(out)@.len() as int) == old(out)@
                &&& forall|k: int| 0 <= k < ev.len() ==> #[trigger] event_view(final(out)@[old(out)@.len() + k]) == ev[k]
            }),
    {
        let ghost o0 = out@;
        let idx = tc.index as usize;
        let ghost e0 = self@;
        while self.emitted_tool_starts.len() <= idx
            invariant
                idx == tc.index,
                idx < usize::MAX,
                self@.len() >= e0.len(),
                self@.take(e0.len() as int) == e0,
                forall|k: int| e0.len() <= k < self@.len() ==> !#[trigger] self@[k],
                self@.len() <= (if idx < e0.len() { e0.len() as int } else { idx + 1 }),
            decreases idx + 1 - self.emitted_tool_starts.len(),
        {
            self.emitted_tool_starts.push(false);
            assert(self@.take(e0.len() as int) =~= e0);
        }
        proof {
            assert(self@ =~= widened(e0, tc.index as nat));
        }
        match &tc.function {
            Some(f) => {
                if !self.emitted_tool_starts[idx] && f.name.is_some() {
                    self.emitted_tool_starts.set(idx, true);
                    let id = match &tc.id {
                        Some(x) => owned(x.as_str()),
                        None => String::new(),
                    };
                    let name = match &f.name {
                        Some(x) => owned(x.as_str()),
                        None => String::new(),
                    };
                    out.push(LlmStreamEvent::ToolCallStart { index: tc.index, id, name });
                }
                match &f.arguments {
                    Some(a) => if !a.as_str().is_empty() {
                        out.push(LlmStreamEvent::ToolCallDelta { index: tc.index, arguments: owned(a.as_str()) });
                    },
                    None => {},
                }
            },
            None => {},
        }
        proof {
            assert(out@.take(o0.len() as int) =~= o0);
        }
    }

    /// Reads one chunk: its non-empty text, then the events of its tool-call
    /// deltas (see [`deltas_events`]).
    pub fn on_chunk(&mut self, content: Option<&str>, tool_calls: &[ToolCallDelta]) -> (r: Vec<LlmStreamEvent>)
        requires
            forall|k: int| 0 <= k < tool_calls@.len() ==> #[trigger] tool_calls@[k].index < usize::MAX,
        ensures
            ({
                let text = match content {
                    Some(c) => if c@.len() > 0 {
                        seq![EventView::Text(c@)]
                    } else {
                        Seq::empty()
                    },
                    None => Seq::empty(),
                };
                let (e, ev) = deltas_events(old(self)@, tool_calls@);
                &&& final(self)@ == e
                &&& events_view(r@) == text + ev
            }),
    {
        let mut out: Vec<LlmStreamEvent> = Vec::new();
        match content {
            Some(c) => if !c.is_empty() {
                out.push(LlmStreamEvent::TextDelta { text: owned(c) });
            },
            None => {},
        }
        let ghost text = events_view(out@);
        let ghost e0 = self@;
        let mut i: usize = 0;
        while i < tool_calls.len()
            invariant
                i <= tool_calls@.len(),
                forall|k: int| 0 <= k < tool_calls@.len() ==> #[trigger] tool_calls@[k].index < usize::MAX,
                self@ == deltas_events(e0, tool_calls@.take(i as int)).0,
                events_view(out@) == text + deltas_events(e0, tool_calls@.take(i as int)).1,
            decreases tool_calls.len() - i,
        {
            let ghost before = out@;
            let ghost bv = events_view(before);
            assert(tool_calls@.take(i + 1).drop_last() =~= tool_calls@.take(i as int));
            assert(tool_calls@.take(i + 1).last() == tool_calls@[i as int]);
            self.on_tool_delta(&tool_calls[i], &mut out);
            proof {
                let ev = delta_events(deltas_events(e0, tool_calls@.take(i as int)).0, tool_calls@[i as int]).1;
                assert(events_view(out@) =~= bv + ev) by {
                    assert forall|k: int| 0 <= k < out@.len() implies #[trigger] events_view(out@)[k]
                        == (bv + ev)[k] by {
                        if k < before.len() {
                            assert(out@[k] == out@.take(before.len() as int)[k]);
                        } else {
                            assert(event_view(out@[before.len() + (k - before.len())]) == ev[k - before.len()]);
                        }
                    }
                }
            }
            i += 1;
        }
        assert(tool_calls@.take(i as int) =~= tool_calls@);
        out
    }

    /// The events at the end of the stream (see [`end_events`]).
    pub fn on_end(&self) -> (r: Vec<LlmStreamEvent>)
        ensures
            events_view(r@) == end_events(self@),
    {
        let mut out: Vec<LlmStreamEvent> = Vec::new();
        let mut i: usize = 0;
        while i < self.emitted_tool_starts.len()
            invariant
                i <= self@.len(),
                events_view(out@).push(EventView::End) == end_events(self@.take(i as int)),
            decreases self.emitted_tool_starts.len() - i,
        {
            let ghost before = events_view(out@);
            assert(self@.take(i + 1).drop_last() =~= self@.take(i as int));
            if self.emitted_tool_starts[i] {
                out.push(LlmStreamEvent::ToolCallDone { index: i as u32, arguments: json_empty_object() });
                let ghost r = end_events(self@.take(i as int));
                assert(r.take(r.len() - 1) =~= before);
                assert(events_view(out@) =~= before.push(EventView::Finish(i as u32)));
            }
            i += 1;
        }
        assert(self@.take(i as int) =~= self@);
        let ghost before = events_view(out@);
        out.push(LlmStreamEvent::Done);
        assert(events_view(out@) =~= before.push(EventView::End));
        out
    }
}

} // verus!
