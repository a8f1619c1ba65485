//! Turning an upstream byte stream into canonical tokens.
//!
//! The upstream answer arrives in chunks cut at arbitrary places. A frame is a
//! line: the bytes up to the next newline. Each frame is decoded on its own and
//! is then a token, the end of the stream, or nothing.

use vstd::prelude::*;
use vstd::slice::slice_subrange;
use vstd::string::StringExecFns;

use crate::adapters::{label, label_of};
use crate::backend::{InferenceBackend, StreamFormat};
use crate::json::{json_document, or_null, parse_text, view_of, Json, JsonView};
use crate::status::{is_success, is_success_code};
use crate::text::{
    decode_lossy, is_blank, is_blank_line, is_whitespace, join, same_text, strip_prefix,
    utf8_lossy,
};

verus! {

/// One token of a canonical stream.
#[derive(Debug, PartialEq, Eq)]
pub struct StreamToken {
    /// The text of the token.
    pub token: String,
    /// The position of the token in its stream, counted from 0.
    pub token_id: u32,
    /// Whether the upstream marked this token as its last.
    pub complete: bool,
}

/// The mathematical value of a [`StreamToken`].
pub struct StreamTokenView {
    pub token: Seq<char>,
    pub token_id: u32,
    pub complete: bool,
}

impl View for StreamToken {
    type V = StreamTokenView;

    open spec fn view(&self) -> StreamTokenView {
        StreamTokenView { token: self.token@, token_id: self.token_id, complete: self.complete }
    }
}

/// The values of `tokens`, in order.
pub open spec fn tokens_view(tokens: Seq<StreamToken>) -> Seq<StreamTokenView> {
    tokens.map_values(|t: StreamToken| t@)
}

/// What one frame of the upstream stream means.
#[derive(Debug, PartialEq, Eq)]
pub enum FrameEvent {
    /// The frame carries nothing: it is dropped and uses up no position.
    Skip,
    /// The frame carries a token; `complete` marks the last one.
    Token { text: String, complete: bool },
    /// The frame is the sentinel that ends the stream.
    Done,
}

/// The mathematical value of a [`FrameEvent`].
pub enum FrameEventView {
    Skip,
    Token { text: Seq<char>, complete: bool },
    Done,
}

impl View for FrameEvent {
    type V = FrameEventView;

    open spec fn view(&self) -> FrameEventView {
        match self {
            FrameEvent::Skip => FrameEventView::Skip,
            FrameEvent::Token { text, complete } => FrameEventView::Token {
                text: text@,
                complete: *complete,
            },
            FrameEvent::Done => FrameEventView::Done,
        }
    }
}

/// The text of a string value, and the empty text for anything else.
pub open spec fn text_or_empty(value: JsonView) -> Seq<char> {
    match value.as_text() {
        Some(text) => text,
        None => Seq::empty(),
    }
}

/// The event of a tagged line: an object with a string `response` and a
/// boolean `done` is a token, complete where `done` holds; anything else is dropped.
pub open spec fn tagged_event(document: JsonView) -> FrameEventView {
    match (document.member("response"@).as_text(), document.member("done"@).as_bool()) {
        (Some(text), Some(done)) => FrameEventView::Token { text, complete: done },
        _ => FrameEventView::Skip,
    }
}

/// The event of a completion chunk: the first of its `choices` is a token with
/// the choice's `text` (empty where it has none), complete where its
/// `finish_reason` is not null. A chunk without a first choice is dropped.
pub open spec fn completion_event(document: JsonView) -> FrameEventView {
    match document.member("choices"@).at(0) {
        Some(choice) => FrameEventView::Token {
            text: text_or_empty(choice.member("text"@)),
            complete: !(choice.member("finish_reason"@) is Null),
        },
        None => FrameEventView::Skip,
    }
}

/// The event of a chat chunk: the first of its `choices` is a token with the
/// `content` of the choice's `delta` (empty where it has none), complete where
/// its `finish_reason` is not null. A chunk without a first choice is dropped,
/// and so is an empty token that is not complete.
pub open spec fn chat_event(document: JsonView) -> FrameEventView {
    match document.member("choices"@).at(0) {
        Some(choice) => {
            let text = text_or_empty(choice.member("delta"@).member("content"@));
            let complete = !(choice.member("finish_reason"@) is Null);
            if text.len() == 0 && !complete {
                FrameEventView::Skip
            } else {
                FrameEventView::Token { text, complete }
            }
        },
        None => FrameEventView::Skip,
    }
}

/// The payload of a server-sent event line: what follows the prefix `data: `.
/// A line without the prefix has none.
pub open spec fn event_payload(line: Seq<char>) -> Option<Seq<char>> {
    if !"data: "@.is_prefix_of(line) {
        None
    } else {
        Some(line.subrange("data: "@.len() as int, line.len() as int))
    }
}

/// A line with the prefix `data: ` begins with a letter, so it is not blank:
/// among the event lines the blank ones are dropped for want of the prefix.
pub proof fn lemma_event_line_is_not_blank(line: Seq<char>)
    requires
        "data: "@.is_prefix_of(line),
    ensures
        !is_blank(line),
        event_payload(line) is Some,
{
    reveal_strlit("data: ");
    assert(line[0] == "data: "@[0]);
    assert(!is_whitespace(line[0]));
}

/// The event of a parsed frame in the given format.
pub open spec fn document_event(format: StreamFormat, document: JsonView) -> FrameEventView {
    match format {
        StreamFormat::TaggedLines => tagged_event(document),
        StreamFormat::CompletionEvents => completion_event(document),
        StreamFormat::ChatEvents => chat_event(document),
    }
}

/// The event of a piece of text that should be one JSON document: text that is
/// none is dropped.
pub open spec fn json_event(format: StreamFormat, text: Seq<char>) -> FrameEventView {
    match json_document(text) {
        Ok(document) => document_event(format, document),
        Err(_) => FrameEventView::Skip,
    }
}

/// The event of one line.
///
/// A tagged line is a JSON document unless it is blank. An event line counts
/// only with its payload; the payload `[DONE]` ends the stream and any other
/// payload is a JSON document.
pub open spec fn line_event(format: StreamFormat, line: Seq<char>) -> FrameEventView {
    match format {
        StreamFormat::TaggedLines => if is_blank(line) {
            FrameEventView::Skip
        } else {
            json_event(format, line)
        },
        _ => match event_payload(line) {
            None => FrameEventView::Skip,
            Some(payload) => if payload == "[DONE]"@ {
                FrameEventView::Done
            } else {
                json_event(format, payload)
            },
        },
    }
}

/// The event of one frame: that of the line which a lossy UTF-8 decoding of
/// its bytes gives.
pub open spec fn frame_event(format: StreamFormat, frame: Seq<u8>) -> FrameEventView {
    line_event(format, utf8_lossy(frame))
}

/// A copy of the text of a string value, and the empty text for anything else.
fn copy_text_or_empty(value: Option<&Json>) -> (text: String)
    ensures
        text@ == text_or_empty(or_null(value)),
{
    match value {
        Some(v) => match v.as_str() {
            Some(s) => s.to_owned(),
            None => String::new(),
        },
        None => String::new(),
    }
}

/// Whether a member that may be missing is neither missing nor null.
fn present(value: Option<&Json>) -> (b: bool)
    ensures
        b == !(or_null(value) is Null),
{
    match value {
        Some(v) => !v.is_null(),
        None => false,
    }
}

/// Reads a parsed tagged line.
pub fn read_tagged_frame(document: &Json) -> (event: FrameEvent)
    ensures
        event@ == tagged_event(document@),
{
    let text = match document.get("response") {
        Some(value) => value.as_str(),
        None => None,
    };
    let done = match document.get("done") {
        Some(value) => value.as_bool(),
        None => None,
    };
    match (text, done) {
        (Some(text), Some(done)) => FrameEvent::Token { text: text.to_owned(), complete: done },
        _ => FrameEvent::Skip,
    }
}

/// The first of the `choices` of a chunk.
fn first_choice(document: &Json) -> (choice: Option<&Json>)
    ensures
        view_of(choice) == document@.member("choices"@).at(0),
{
    match document.get("choices") {
        Some(choices) => choices.at(0),
        None => None,
    }
}

/// Reads a parsed completion chunk.
pub fn read_completion_frame(document: &Json) -> (event: FrameEvent)
    ensures
        event@ == completion_event(document@),
{
    match first_choice(document) {
        Some(choice) => FrameEvent::Token {
            text: copy_text_or_empty(choice.get("text")),
            complete: present(choice.get("finish_reason")),
        },
        None => FrameEvent::Skip,
    }
}

/// Reads a parsed chat chunk.
pub fn read_chat_frame(document: &Json) -> (event: FrameEvent)
    ensures
        event@ == chat_event(document@),
{
    match first_choice(document) {
        Some(choice) => {
            let content = match choice.get("delta") {
                Some(delta) => delta.get("content"),
                None => None,
            };
            let text = copy_text_or_empty(content);
            let complete = present(choice.get("finish_reason"));
            if text.as_str().is_empty() && !complete {
                FrameEvent::Skip
            } else {
                FrameEvent::Token { text, complete }
            }
        },
        None => FrameEvent::Skip,
    }
}

/// Reads a parsed frame in the given format.
pub fn read_frame(format: StreamFormat, document: &Json) -> (event: FrameEvent)
    ensures
        event@ == document_event(format, document@),
{
    match format {
        StreamFormat::TaggedLines => read_tagged_frame(document),
        StreamFormat::CompletionEvents => read_completion_frame(document),
        StreamFormat::ChatEvents => read_chat_frame(document),
    }
}

/// Decodes one line.
pub fn decode_line(format: StreamFormat, line: &str) -> (event: FrameEvent)
    ensures
        event@ == line_event(format, line@),
{
    let text = match format {
        StreamFormat::TaggedLines => {
            if is_blank_line(line) {
                return FrameEvent::Skip;
            }
            line
        },
        _ => {
            match strip_prefix(line, "data: ") {
                None => {
                    return FrameEvent::Skip;
                },
                Some(payload) => {
                    if same_text(payload, "[DONE]") {
                        return FrameEvent::Done;
                    }
                    payload
                },
            }
        },
    };
    match parse_text(text) {
        Ok(document) => read_frame(format, &document),
        Err(_) => FrameEvent::Skip,
    }
}

/// Decodes one frame.
pub fn decode_frame(format: StreamFormat, frame: &[u8]) -> (event: FrameEvent)
    ensures
        event@ == frame_event(format, frame@),
{
    let line = decode_lossy(frame);
    decode_line(format, line.as_str())
}

/// The state of a stream between two chunks.
pub struct StreamState {
    /// How the upstream frames its answer.
    pub format: StreamFormat,
    /// The bytes of the frame that has begun and not yet ended.
    pub pending: Seq<u8>,
    /// The position that the next token gets.
    pub next_id: u32,
    /// Whether the stream has ended: nothing is read after that.
    pub finished: bool,
}

impl StreamState {
    /// The state of a stream of which nothing has arrived.
    pub open spec fn start(format: StreamFormat) -> StreamState {
        StreamState { format, pending: Seq::empty(), next_id: 0, finished: false }
    }

    /// The pending frame holds no newline, and a stream that has ended holds
    /// no pending frame.
    pub open spec fn tidy(self) -> bool {
        &&& forall|i: int| 0 <= i < self.pending.len() ==> self.pending[i] != NEWLINE
        &&& self.finished ==> self.pending.len() == 0
    }

    /// The state of this stream once it has ended: what was pending is dropped.
    pub open spec fn ended(self) -> StreamState {
        StreamState { pending: Seq::empty(), finished: true, ..self }
    }

    /// The state after a frame with the given event has ended, and the tokens
    /// that it gives.
    ///
    /// A token takes the next position. The stream ends with the sentinel,
    /// with a complete token, and with the token that takes the last position
    /// a `u32` has.
    pub open spec fn after_event(self, event: FrameEventView) -> (StreamState, Seq<StreamTokenView>) {
        match event {
            FrameEventView::Skip => (StreamState { pending: Seq::empty(), ..self }, Seq::empty()),
            FrameEventView::Done => (self.ended(), Seq::empty()),
            FrameEventView::Token { text, complete } => (
                StreamState {
                    pending: Seq::empty(),
                    next_id: if self.next_id < u32::MAX {
                        (self.next_id + 1) as u32
                    } else {
                        self.next_id
                    },
                    finished: complete || self.next_id == u32::MAX,
                    ..self
                },
                seq![StreamTokenView { token: text, token_id: self.next_id, complete }],
            ),
        }
    }

    /// The state after `bytes` have arrived, and the tokens that they give.
    ///
    /// A finished stream takes nothing. Bytes without a newline join the
    /// pending frame. A newline ends the frame: its event is applied, and the
    /// bytes behind the newline are taken in the same way.
    pub open spec fn absorb(self, bytes: Seq<u8>) -> (StreamState, Seq<StreamTokenView>)
        decreases bytes.len(),
    {
        let n = first_newline(bytes);
        if self.finished {
            (self, Seq::empty())
        } else if n >= bytes.len() {
            (StreamState { pending: self.pending + bytes, ..self }, Seq::empty())
        } else {
            let frame = self.pending + bytes.subrange(0, n as int);
            let (next, first) = self.after_event(frame_event(self.format, frame));
            let (last, rest) = next.absorb(bytes.subrange(n as int + 1, bytes.len() as int));
            (last, first + rest)
        }
    }

    /// The state after the chunks have arrived one after the other, and the
    /// tokens that they give together.
    pub open spec fn absorb_all(self, chunks: Seq<Seq<u8>>) -> (StreamState, Seq<StreamTokenView>)
        decreases chunks.len(),
    {
        if chunks.len() == 0 {
            (self, Seq::empty())
        } else {
            let (next, first) = self.absorb(chunks[0]);
            let (last, rest) = next.absorb_all(chunks.drop_first());
            (last, first + rest)
        }
    }
}

/// The byte that ends a frame.
pub const NEWLINE: u8 = 10;

/// The number of bytes before the first newline of `bytes`: its length where
/// it holds no newline.
pub open spec fn first_newline(bytes: Seq<u8>) -> nat
    decreases bytes.len(),
{
    if bytes.len() == 0 || bytes[0] == NEWLINE {
        0
    } else {
        1 + first_newline(bytes.drop_first())
    }
}

/// All the chunks joined, in order.
pub open spec fn joined(chunks: Seq<Seq<u8>>) -> Seq<u8>
    decreases chunks.len(),
{
    if chunks.len() == 0 {
        Seq::empty()
    } else {
        chunks[0] + joined(chunks.drop_first())
    }
}

/// `first_newline` is the one position that holds a newline and has none before it.
pub proof fn lemma_first_newline(bytes: Seq<u8>, n: int)
    requires
        0 <= n <= bytes.len(),
        forall|k: int| 0 <= k < n ==> bytes[k] != NEWLINE,
        n < bytes.len() ==> bytes[n] == NEWLINE,
    ensures
        first_newline(bytes) == n,
    decreases n,
{
    if n > 0 {
        let rest = bytes.drop_first();
        assert forall|k: int| 0 <= k < n - 1 implies rest[k] != NEWLINE by {
            assert(rest[k] == bytes[k + 1]);
        }
        lemma_first_newline(rest, n - 1);
    }
}

/// What `first_newline` finds: no newline before it, and a newline at it
/// unless it is the length.
pub proof fn lemma_first_newline_found(bytes: Seq<u8>)
    ensures
        first_newline(bytes) <= bytes.len(),
        forall|k: int| 0 <= k < first_newline(bytes) ==> bytes[k] != NEWLINE,
        first_newline(bytes) < bytes.len() ==> bytes[first_newline(bytes) as int] == NEWLINE,
    decreases bytes.len(),
{
    if !(bytes.len() == 0 || bytes[0] == NEWLINE) {
        let rest = bytes.drop_first();
        lemma_first_newline_found(rest);
        assert forall|k: int| 0 <= k < first_newline(bytes) implies bytes[k] != NEWLINE by {
            if k > 0 {
                assert(bytes[k] == rest[k - 1]);
            }
        }
    }
}

/// What went wrong with a stream.
#[derive(Debug, PartialEq, Eq)]
pub enum StreamFault {
    /// The request could not be sent, or no answer came.
    SendFailed { detail: String },
    /// The answer came with a status that is no success.
    Rejected { status_text: String },
    /// The answer broke off while it was read.
    ReadFailed { detail: String },
}

/// The mathematical value of a [`StreamFault`].
pub enum StreamFaultView {
    SendFailed { detail: Seq<char> },
    Rejected { status_text: Seq<char> },
    ReadFailed { detail: Seq<char> },
}

impl View for StreamFault {
    type V = StreamFaultView;

    open spec fn view(&self) -> StreamFaultView {
        match self {
            StreamFault::SendFailed { detail } => StreamFaultView::SendFailed { detail: detail@ },
            StreamFault::Rejected { status_text } => StreamFaultView::Rejected {
                status_text: status_text@,
            },
            StreamFault::ReadFailed { detail } => StreamFaultView::ReadFailed { detail: detail@ },
        }
    }
}

/// What the consumer of a stream is told of a fault: it ends the stream.
pub open spec fn stream_fault_text(backend: InferenceBackend, fault: StreamFaultView) -> Seq<char> {
    match fault {
        StreamFaultView::SendFailed { detail } => label_of(backend) + " stream failed: "@ + detail,
        StreamFaultView::Rejected { status_text } => label_of(backend) + " API error: "@
            + status_text,
        StreamFaultView::ReadFailed { detail } => label_of(backend) + " read error: "@ + detail,
    }
}

/// Says what went wrong with a stream.
pub fn describe_stream_fault(backend: InferenceBackend, fault: &StreamFault) -> (text: String)
    ensures
        text@ == stream_fault_text(backend, fault@),
{
    match fault {
        StreamFault::SendFailed { detail } => join(label(backend), " stream failed: ").concat(
            detail.as_str(),
        ),
        StreamFault::Rejected { status_text } => join(label(backend), " API error: ").concat(
            status_text.as_str(),
        ),
        StreamFault::ReadFailed { detail } => join(label(backend), " read error: ").concat(
            detail.as_str(),
        ),
    }
}

/// Whether the answer that opens a stream can be read on: one with a status
/// of success can, any other is a fault.
pub fn admit_stream(status: u16, status_text: &str) -> (result: Result<(), StreamFault>)
    ensures
        match result {
            Ok(_) => is_success_code(status),
            Err(fault) => !is_success_code(status) && fault@ == (StreamFaultView::Rejected {
                status_text: status_text@,
            }),
        },
{
    if is_success(status) {
        Ok(())
    } else {
        Err(StreamFault::Rejected { status_text: status_text.to_owned() })
    }
}

/// The normalizer of one upstream stream: it takes the chunks as they arrive
/// and hands out the tokens that they complete.
#[derive(Debug, PartialEq, Eq)]
pub struct StreamNormalizer {
    format: StreamFormat,
    buffer: Vec<u8>,
    next_id: u32,
    finished: bool,
}

impl View for StreamNormalizer {
    type V = StreamState;

    closed spec fn view(&self) -> StreamState {
        StreamState {
            format: self.format,
            pending: self.buffer@,
            next_id: self.next_id,
            finished: self.finished,
        }
    }
}

impl StreamNormalizer {
    /// A normalizer for a stream of which nothing has arrived.
    pub fn new(format: StreamFormat) -> (normalizer: Self)
        ensures
            normalizer@ == StreamState::start(format),
    {
        StreamNormalizer { format, buffer: Vec::new(), next_id: 0, finished: false }
    }

    /// Whether the stream has ended. No chunk gives a token after that.
    pub fn is_finished(&self) -> (finished: bool)
        ensures
            finished == self@.finished,
    {
        self.finished
    }

    /// The position that the next token gets.
    pub fn next_token_id(&self) -> (id: u32)
        ensures
            id == self@.next_id,
    {
        self.next_id
    }

    /// The bytes of the frame that has begun and not yet ended.
    pub fn pending(&self) -> (bytes: &[u8])
        ensures
            bytes@ == self@.pending,
    {
        self.buffer.as_slice()
    }

    /// Ends the pending frame: decodes it, empties the buffer and applies the event.
    fn end_frame(&mut self, tokens: &mut Vec<StreamToken>)
        requires
            !old(self)@.finished,
        ensures
            (final(self)@, tokens_view(final(tokens)@)) == ({
                let (state, emitted) = old(self)@.after_event(
                    frame_event(old(self)@.format, old(self)@.pending),
                );
                (state, tokens_view(old(tokens)@) + emitted)
            }),
    {
        let event = decode_frame(self.format, self.buffer.as_slice());
        self.buffer.clear();
        match event {
            FrameEvent::Skip => {},
            FrameEvent::Done => {
                self.finished = true;
            },
            FrameEvent::Token { text, complete } => {
                let token = StreamToken { token: text, token_id: self.next_id, complete };
                tokens.push(token);
                if self.next_id < u32::MAX {
                    self.next_id = self.next_id + 1;
                } else {
                    self.finished = true;
                }
                if complete {
                    self.finished = true;
                }
            },
        }
        assert(tokens_view(tokens@) == tokens_view(old(tokens)@) + old(self)@.after_event(
            frame_event(old(self)@.format, old(self)@.pending),
        ).1);
    }

    /// Ends the stream on a fault and returns what the consumer is told of it.
    /// A fault is the last thing that a stream gives: no chunk is taken after it.
    pub fn on_fault(&mut self, backend: InferenceBackend, fault: &StreamFault) -> (text: String)
        ensures
            final(self)@ == old(self)@.ended(),
            text@ == stream_fault_text(backend, fault@),
    {
        self.buffer.clear();
        self.finished = true;
        describe_stream_fault(backend, fault)
    }

    /// Takes the next chunk of the upstream answer and returns the tokens that
    /// it completes, in order.
    pub fn push_chunk(&mut self, chunk: &[u8]) -> (tokens: Vec<StreamToken>)
        ensures
            (final(self)@, tokens_view(tokens@)) == old(self)@.absorb(chunk@),
    {
        let mut tokens: Vec<StreamToken> = Vec::new();
        let mut start: usize = 0;
        assert(chunk@.subrange(0, chunk@.len() as int) == chunk@);
        assert(tokens_view(tokens@) + old(self)@.absorb(chunk@).1 == old(self)@.absorb(chunk@).1);
        loop
            invariant
                start <= chunk.len(),
                old(self)@.absorb(chunk@) == ({
                    let (state, emitted) = self@.absorb(
                        chunk@.subrange(start as int, chunk@.len() as int),
                    );
                    (state, tokens_view(tokens@) + emitted)
                }),
            decreases chunk.len() - start,
        {
            let ghost rest = chunk@.subrange(start as int, chunk@.len() as int);
            if self.finished {
                assert(tokens_view(tokens@) + Seq::<StreamTokenView>::empty() == tokens_view(
                    tokens@,
                ));
                return tokens;
            }
            let mut end: usize = start;
            while end < chunk.len() && chunk[end] != NEWLINE
                invariant
                    start <= end <= chunk.len(),
                    forall|k: int| start <= k < end ==> chunk@[k] != NEWLINE,
                decreases chunk.len() - end,
            {
                end += 1;
            }
            proof {
                lemma_first_newline(rest, end - start);
                assert(rest.subrange(0, end - start) == chunk@.subrange(start as int, end as int));
            }
            let ghost before = self@;
            self.buffer.extend_from_slice(slice_subrange(chunk, start, end));
            assert(self.buffer@ == before.pending + chunk@.subrange(start as int, end as int));
            if end == chunk.len() {
                assert(tokens_view(tokens@) + Seq::<StreamTokenView>::empty() == tokens_view(
                    tokens@,
                ));
                return tokens;
            }
            let ghost had = tokens_view(tokens@);
            self.end_frame(&mut tokens);
            proof {
                let frame = before.pending + rest.subrange(0, end - start);
                let (next, first) = before.after_event(frame_event(before.format, frame));
                let tail = rest.subrange(end - start + 1, rest.len() as int);
                assert(tail == chunk@.subrange(end + 1, chunk@.len() as int));
                assert(self@ == next);
                assert(tokens_view(tokens@) == had + first);
                assert(before.absorb(rest) == (next.absorb(tail).0, first + next.absorb(tail).1));
                assert(had + (first + next.absorb(tail).1) == (had + first) + next.absorb(tail).1);
            }
            start = end + 1;
        }
    }
}

/// The first newline of two joined pieces: that of the first piece where it
/// has one, else that of the second piece, behind the first.
pub proof fn lemma_first_newline_concat(first: Seq<u8>, second: Seq<u8>)
    ensures
        first_newline(first + second) == if first_newline(first) < first.len() {
            first_newline(first)
        } else {
            first.len() + first_newline(second)
        },
{
    lemma_first_newline_found(first);
    lemma_first_newline_found(second);
    let both = first + second;
    let n: int = if first_newline(first) < first.len() {
        first_newline(first) as int
    } else {
        (first.len() + first_newline(second)) as int
    };
    assert forall|k: int| 0 <= k < n implies both[k] != NEWLINE by {
        if k >= first.len() {
            assert(both[k] == second[k - first.len()]);
        }
    }
    lemma_first_newline(both, n);
}

/// Cutting the bytes in two does not change what they give: taking
/// `first + second` at once leads to the same state and the same tokens as
/// taking `first` and then `second`.
pub proof fn lemma_absorb_concat(state: StreamState, first: Seq<u8>, second: Seq<u8>)
    ensures
        state.absorb(first + second) == ({
            let (middle, head) = state.absorb(first);
            let (last, tail) = middle.absorb(second);
            (last, head + tail)
        }),
    decreases first.len(),
{
    let both = first + second;
    let n = first_newline(first);
    lemma_first_newline_concat(first, second);
    lemma_first_newline_found(first);
    lemma_first_newline_found(second);
    let none = Seq::<StreamTokenView>::empty();
    if state.finished {
        assert(none + none == none);
    } else if n >= first.len() {
        let middle = StreamState { pending: state.pending + first, ..state };
        let m = first_newline(second);
        assert(none + middle.absorb(second).1 == middle.absorb(second).1);
        if m >= second.len() {
            assert(middle.pending + second == state.pending + both);
        } else {
            assert(middle.pending + second.subrange(0, m as int) == state.pending + both.subrange(
                0,
                (first.len() + m) as int,
            ));
            assert(second.subrange(m as int + 1, second.len() as int) == both.subrange(
                (first.len() + m + 1) as int,
                both.len() as int,
            ));
        }
    } else {
        let frame = state.pending + first.subrange(0, n as int);
        assert(first.subrange(0, n as int) == both.subrange(0, n as int));
        let (next, head) = state.after_event(frame_event(state.format, frame));
        let rest = first.subrange(n as int + 1, first.len() as int);
        assert(rest + second == both.subrange(n as int + 1, both.len() as int));
        lemma_absorb_concat(next, rest, second);
        let (middle, more) = next.absorb(rest);
        let (last, tail) = middle.absorb(second);
        assert(head + (more + tail) == (head + more) + tail);
    }
}

/// Chunk boundaries do not matter: chunks taken one after the other lead to
/// the same state and the same tokens as all their bytes taken at once.
pub proof fn lemma_chunking_is_invisible(state: StreamState, chunks: Seq<Seq<u8>>)
    ensures
        state.absorb_all(chunks) == state.absorb(joined(chunks)),
    decreases chunks.len(),
{
    if chunks.len() == 0 {
        assert(state.absorb(Seq::<u8>::empty()).0 == state) by {
            assert(state.pending + Seq::<u8>::empty() == state.pending);
        }
    } else {
        let (next, first) = state.absorb(chunks[0]);
        lemma_chunking_is_invisible(next, chunks.drop_first());
        lemma_absorb_concat(state, chunks[0], joined(chunks.drop_first()));
    }
}

/// Two ways of cutting the same bytes into chunks give the same tokens.
pub proof fn lemma_same_bytes_same_tokens(
    state: StreamState,
    chunks: Seq<Seq<u8>>,
    other_chunks: Seq<Seq<u8>>,
)
    requires
        joined(chunks) == joined(other_chunks),
    ensures
        state.absorb_all(chunks) == state.absorb_all(other_chunks),
{
    lemma_chunking_is_invisible(state, chunks);
    lemma_chunking_is_invisible(state, other_chunks);
}

/// The tokens of a stream stand at consecutive positions, only the last of
/// them can be complete, and a stream that gave a complete token has ended; a
/// stream that has ended gives nothing more and stays as it is.
pub proof fn lemma_tokens_in_order(state: StreamState, bytes: Seq<u8>)
    ensures
        ({
            let (last, tokens) = state.absorb(bytes);
            &&& forall|i: int|
                0 <= i < tokens.len() ==> (#[trigger] tokens[i]).token_id == state.next_id + i
            &&& forall|i: int|
                0 <= i < tokens.len() && (#[trigger] tokens[i]).complete ==> i == tokens.len() - 1
                    && last.finished
            &&& state.finished ==> tokens.len() == 0 && last == state
            &&& last.format == state.format
            &&& !last.finished ==> last.next_id == state.next_id + tokens.len()
        }),
    decreases bytes.len(),
{
    let n = first_newline(bytes);
    if !state.finished && n < bytes.len() {
        let frame = state.pending + bytes.subrange(0, n as int);
        let (next, first) = state.after_event(frame_event(state.format, frame));
        let rest = bytes.subrange(n as int + 1, bytes.len() as int);
        lemma_tokens_in_order(next, rest);
    }
}

/// A stream begins tidy and stays so, also when a fault ends it: what is
/// pending between two chunks is always the beginning of one frame.
pub proof fn lemma_stays_tidy(state: StreamState, bytes: Seq<u8>)
    requires
        state.tidy(),
    ensures
        state.absorb(bytes).0.tidy(),
        state.ended().tidy(),
        StreamState::start(state.format).tidy(),
    decreases bytes.len(),
{
    let n = first_newline(bytes);
    lemma_first_newline_found(bytes);
    if !state.finished && n < bytes.len() {
        let frame = state.pending + bytes.subrange(0, n as int);
        let (next, first) = state.after_event(frame_event(state.format, frame));
        lemma_stays_tidy(next, bytes.subrange(n as int + 1, bytes.len() as int));
    }
}

} // verus!
