use openllm_engine::backend::{stream_format, StreamFormat};
use openllm_engine::json::{Json, JsonNumber};
use openllm_engine::stream::{
    decode_frame, decode_line, read_chat_frame, read_completion_frame, read_frame,
    read_tagged_frame, FrameEvent, StreamFault, StreamNormalizer,
};
use openllm_engine::text::{count_words, is_blank_line, same_text, starts_with, strip_prefix};
use openllm_engine::{InferenceBackend, StreamToken};

fn token(text: &str, id: u32, complete: bool) -> StreamToken {
    StreamToken { token: text.to_string(), token_id: id, complete }
}

fn feed(format: StreamFormat, chunks: &[&[u8]]) -> (Vec<StreamToken>, bool) {
    let mut normalizer = StreamNormalizer::new(format);
    let mut tokens = Vec::new();
    for chunk in chunks {
        tokens.extend(normalizer.push_chunk(chunk));
    }
    (tokens, normalizer.is_finished())
}

fn object(members: Vec<(&str, Json)>) -> Json {
    Json::Object(members.into_iter().map(|(name, value)| (name.to_string(), value)).collect())
}

fn text(s: &str) -> Json {
    Json::Text(s.to_string())
}

#[test]
fn counts_words_between_whitespace() {
    assert_eq!(count_words("hello there"), 2);
    assert_eq!(count_words("  a\tb\nc  "), 3);
    assert_eq!(count_words(""), 0);
    assert_eq!(count_words(" \n\t "), 0);
    assert_eq!(count_words("one"), 1);
    assert_eq!(count_words("a\u{a0}b\u{3000}c"), 3);
    assert_eq!(count_words("x,y"), 1);
}

#[test]
fn blank_lines_hold_whitespace_only() {
    assert!(is_blank_line(""));
    assert!(is_blank_line(" \t\r"));
    assert!(!is_blank_line(" a "));
    assert!(!is_blank_line("data: "));
}

#[test]
fn prefixes_and_equal_texts() {
    assert!(starts_with("data: x", "data: "));
    assert!(starts_with("data: ", "data: "));
    assert!(starts_with("anything", ""));
    assert!(!starts_with("data:x", "data: "));
    assert!(!starts_with("dat", "data: "));
    assert_eq!(strip_prefix("data: [DONE]", "data: "), Some("[DONE]"));
    assert_eq!(strip_prefix("data: ", "data: "), Some(""));
    assert_eq!(strip_prefix("data: \u{e9}t\u{e9}", "data: "), Some("\u{e9}t\u{e9}"));
    assert_eq!(strip_prefix(" data: x", "data: "), None);
    assert!(same_text("[DONE]", "[DONE]"));
    assert!(!same_text("[DONE]", "[DONE] "));
    assert!(!same_text("[DONE", "[DONE]"));
    assert!(same_text("", ""));
}

#[test]
fn backends_have_their_stream_formats() {
    assert_eq!(stream_format(InferenceBackend::Ollama), Some(StreamFormat::TaggedLines));
    assert_eq!(stream_format(InferenceBackend::Llama), Some(StreamFormat::CompletionEvents));
    assert_eq!(stream_format(InferenceBackend::OpenAI), Some(StreamFormat::ChatEvents));
    assert_eq!(stream_format(InferenceBackend::HuggingFace), None);
}

#[test]
fn tagged_documents_need_response_and_done() {
    let full = object(vec![("response", text("hi")), ("done", Json::Bool(true))]);
    assert_eq!(read_tagged_frame(&full), FrameEvent::Token { text: "hi".to_string(), complete: true });
    let more = object(vec![
        ("model", text("m")),
        ("done", Json::Bool(false)),
        ("response", text("")),
    ]);
    assert_eq!(read_tagged_frame(&more), FrameEvent::Token { text: String::new(), complete: false });
    assert_eq!(read_tagged_frame(&object(vec![("response", text("hi"))])), FrameEvent::Skip);
    assert_eq!(read_tagged_frame(&object(vec![("done", Json::Bool(true))])), FrameEvent::Skip);
    let wrong = object(vec![("response", Json::Null), ("done", Json::Bool(true))]);
    assert_eq!(read_tagged_frame(&wrong), FrameEvent::Skip);
    let wrong = object(vec![("response", text("hi")), ("done", text("true"))]);
    assert_eq!(read_tagged_frame(&wrong), FrameEvent::Skip);
    assert_eq!(read_tagged_frame(&Json::Array(vec![text("hi"), Json::Bool(true)])), FrameEvent::Skip);
    assert_eq!(read_tagged_frame(&Json::Null), FrameEvent::Skip);
}

#[test]
fn completion_documents_give_the_first_choice() {
    let choice = object(vec![("text", text("abc")), ("finish_reason", Json::Null)]);
    let other = object(vec![("text", text("zzz")), ("finish_reason", text("stop"))]);
    let doc = object(vec![("choices", Json::Array(vec![choice, other]))]);
    assert_eq!(
        read_completion_frame(&doc),
        FrameEvent::Token { text: "abc".to_string(), complete: false }
    );
    let doc = object(vec![(
        "choices",
        Json::Array(vec![object(vec![("finish_reason", text("length"))])]),
    )]);
    assert_eq!(read_completion_frame(&doc), FrameEvent::Token { text: String::new(), complete: true });
    let number = Json::Number(JsonNumber { unsigned: Some(3), signed: Some(3) });
    let doc = object(vec![("choices", Json::Array(vec![object(vec![("text", number)])]))]);
    assert_eq!(read_completion_frame(&doc), FrameEvent::Token { text: String::new(), complete: false });
    let bare = object(vec![("choices", Json::Array(vec![text("x")]))]);
    assert_eq!(read_completion_frame(&bare), FrameEvent::Token { text: String::new(), complete: false });
    assert_eq!(read_completion_frame(&object(vec![("choices", Json::Array(vec![]))])), FrameEvent::Skip);
    assert_eq!(read_completion_frame(&object(vec![("choices", text("x"))])), FrameEvent::Skip);
    assert_eq!(read_completion_frame(&object(vec![])), FrameEvent::Skip);
    assert_eq!(read_completion_frame(&Json::Bool(true)), FrameEvent::Skip);
}

#[test]
fn chat_documents_give_the_delta_of_the_first_choice() {
    let delta = object(vec![("content", text("Hel"))]);
    let choice = object(vec![("delta", delta), ("finish_reason", Json::Null)]);
    let doc = object(vec![("choices", Json::Array(vec![choice]))]);
    assert_eq!(read_chat_frame(&doc), FrameEvent::Token { text: "Hel".to_string(), complete: false });

    let role = object(vec![("role", text("assistant"))]);
    let choice = object(vec![("delta", role), ("finish_reason", Json::Null)]);
    let doc = object(vec![("choices", Json::Array(vec![choice]))]);
    assert_eq!(read_chat_frame(&doc), FrameEvent::Skip);

    let empty = object(vec![("content", text(""))]);
    let choice = object(vec![("delta", empty)]);
    let doc = object(vec![("choices", Json::Array(vec![choice]))]);
    assert_eq!(read_chat_frame(&doc), FrameEvent::Skip);

    let choice = object(vec![("delta", object(vec![])), ("finish_reason", text("stop"))]);
    let doc = object(vec![("choices", Json::Array(vec![choice]))]);
    assert_eq!(read_chat_frame(&doc), FrameEvent::Token { text: String::new(), complete: true });

    assert_eq!(read_chat_frame(&object(vec![("choices", Json::Array(vec![]))])), FrameEvent::Skip);
}

#[test]
fn documents_are_read_in_the_format_of_the_stream() {
    let choice = object(vec![
        ("text", text("plain")),
        ("delta", object(vec![("content", text("delta"))])),
    ]);
    let doc = object(vec![
        ("choices", Json::Array(vec![choice])),
        ("response", text("tagged")),
        ("done", Json::Bool(false)),
    ]);
    assert_eq!(
        read_frame(StreamFormat::TaggedLines, &doc),
        FrameEvent::Token { text: "tagged".to_string(), complete: false }
    );
    assert_eq!(
        read_frame(StreamFormat::CompletionEvents, &doc),
        FrameEvent::Token { text: "plain".to_string(), complete: false }
    );
    assert_eq!(
        read_frame(StreamFormat::ChatEvents, &doc),
        FrameEvent::Token { text: "delta".to_string(), complete: false }
    );
}

#[test]
fn first_member_of_a_name_counts() {
    let doc = object(vec![
        ("response", text("first")),
        ("response", text("second")),
        ("done", Json::Bool(false)),
    ]);
    assert_eq!(
        read_tagged_frame(&doc),
        FrameEvent::Token { text: "first".to_string(), complete: false }
    );
    assert_eq!(doc.get("response"), Some(&text("first")));
    assert_eq!(doc.get("missing"), None);
    assert_eq!(text("x").get("response"), None);
    let list = Json::Array(vec![Json::Null, Json::Bool(true)]);
    assert_eq!(list.at(1), Some(&Json::Bool(true)));
    assert_eq!(list.at(2), None);
    assert_eq!(doc.at(0), None);
    assert!(Json::Null.is_null());
    assert!(!Json::Bool(false).is_null());
    assert_eq!(text("x").as_str(), Some("x"));
    assert_eq!(Json::Null.as_str(), None);
    assert_eq!(Json::Bool(true).as_bool(), Some(true));
    assert_eq!(text("true").as_bool(), None);
}

#[test]
fn numbers_below_two_to_the_32_are_u32() {
    let number = |unsigned: Option<u64>, signed: Option<i64>| {
        Json::Number(JsonNumber { unsigned, signed })
    };
    assert_eq!(number(Some(0), Some(0)).as_u32(), Some(0));
    assert_eq!(number(Some(4_294_967_295), Some(4_294_967_295)).as_u32(), Some(4_294_967_295));
    assert_eq!(number(Some(4_294_967_296), Some(4_294_967_296)).as_u32(), None);
    assert_eq!(number(None, Some(-1)).as_u32(), None);
    assert_eq!(number(None, None).as_u32(), None);
    assert_eq!(text("2").as_u32(), None);
}

#[test]
fn tagged_lines_are_parsed_as_json() {
    let format = StreamFormat::TaggedLines;
    assert_eq!(
        decode_line(format, r#"{"model":"m","response":"Hi","done":false}"#),
        FrameEvent::Token { text: "Hi".to_string(), complete: false }
    );
    assert_eq!(
        decode_line(format, r#"  {"response":"","done":true}  "#),
        FrameEvent::Token { text: String::new(), complete: true }
    );
    assert_eq!(decode_line(format, ""), FrameEvent::Skip);
    assert_eq!(decode_line(format, "   \r"), FrameEvent::Skip);
    assert_eq!(decode_line(format, r#"{"response":"Hi","done":"#), FrameEvent::Skip);
    assert_eq!(decode_line(format, r#"{"response":"Hi"}"#), FrameEvent::Skip);
    assert_eq!(decode_line(format, r#"{"response":"a","done":true} x"#), FrameEvent::Skip);
    assert_eq!(decode_line(format, "[DONE]"), FrameEvent::Skip);
    assert_eq!(decode_line(format, r#"data: {"response":"a","done":true}"#), FrameEvent::Skip);
}

#[test]
fn event_lines_need_the_data_prefix() {
    let format = StreamFormat::CompletionEvents;
    assert_eq!(
        decode_line(format, r#"data: {"choices":[{"text":"ab","finish_reason":null}]}"#),
        FrameEvent::Token { text: "ab".to_string(), complete: false }
    );
    assert_eq!(
        decode_line(format, r#"data: {"choices":[{"text":"","finish_reason":"stop"}]}"#),
        FrameEvent::Token { text: String::new(), complete: true }
    );
    assert_eq!(decode_line(format, "data: [DONE]"), FrameEvent::Done);
    assert_eq!(decode_line(format, "data: [DONE] "), FrameEvent::Skip);
    assert_eq!(decode_line(format, "data:[DONE]"), FrameEvent::Skip);
    assert_eq!(decode_line(format, " data: [DONE]"), FrameEvent::Skip);
    assert_eq!(decode_line(format, "[DONE]"), FrameEvent::Skip);
    assert_eq!(decode_line(format, ""), FrameEvent::Skip);
    assert_eq!(decode_line(format, "event: token"), FrameEvent::Skip);
    assert_eq!(decode_line(format, ": keep-alive"), FrameEvent::Skip);
    assert_eq!(decode_line(format, "data: "), FrameEvent::Skip);
    assert_eq!(decode_line(format, "data: not json"), FrameEvent::Skip);
    assert_eq!(decode_line(format, r#"{"choices":[{"text":"ab"}]}"#), FrameEvent::Skip);
    assert_eq!(decode_line(format, r#"data: {"choices":[]}"#), FrameEvent::Skip);
    assert_eq!(
        decode_line(format, "data: {\"choices\":[{\"text\":\"ab\"}]}\r"),
        FrameEvent::Token { text: "ab".to_string(), complete: false }
    );
}

#[test]
fn chat_lines_carry_deltas() {
    let format = StreamFormat::ChatEvents;
    assert_eq!(
        decode_line(
            format,
            r#"data: {"choices":[{"delta":{"content":"Hi"},"finish_reason":null}]}"#
        ),
        FrameEvent::Token { text: "Hi".to_string(), complete: false }
    );
    assert_eq!(
        decode_line(
            format,
            r#"data: {"choices":[{"delta":{"role":"assistant"},"finish_reason":null}]}"#
        ),
        FrameEvent::Skip
    );
    assert_eq!(
        decode_line(format, r#"data: {"choices":[{"delta":{},"finish_reason":"stop"}]}"#),
        FrameEvent::Token { text: String::new(), complete: true }
    );
    assert_eq!(decode_line(format, "data: [DONE]"), FrameEvent::Done);
}

#[test]
fn frames_are_decoded_lossily() {
    let format = StreamFormat::TaggedLines;
    let frame = b"{\"response\":\"a\xffb\",\"done\":false}";
    assert_eq!(
        decode_frame(format, frame),
        FrameEvent::Token { text: "a\u{fffd}b".to_string(), complete: false }
    );
    let frame = "{\"response\":\"\u{e9}\u{4e16}\",\"done\":false}".as_bytes();
    assert_eq!(
        decode_frame(format, frame),
        FrameEvent::Token { text: "\u{e9}\u{4e16}".to_string(), complete: false }
    );
    assert_eq!(decode_frame(StreamFormat::ChatEvents, b"data: [DONE]"), FrameEvent::Done);
    assert_eq!(decode_frame(StreamFormat::ChatEvents, b"data: [DONE]\xff"), FrameEvent::Skip);
}

#[test]
fn tagged_stream_ends_with_done() {
    let stream = b"{\"response\":\"Hel\",\"done\":false}\n{\"response\":\"lo\",\"done\":false}\n\n{\"response\":\"\",\"done\":true}\n{\"response\":\"late\",\"done\":false}\n";
    let (tokens, finished) = feed(StreamFormat::TaggedLines, &[stream]);
    assert_eq!(tokens, vec![token("Hel", 0, false), token("lo", 1, false), token("", 2, true)]);
    assert!(finished);
}

#[test]
fn malformed_frames_are_dropped_without_a_position() {
    let stream = b"{\"response\":\"a\",\"done\":false}\nnot json\n{\"response\":1,\"done\":false}\n{\"response\":\"b\",\"done\":false}\n{\"response\":\"c\",\"done\":fal";
    let mut normalizer = StreamNormalizer::new(StreamFormat::TaggedLines);
    let tokens = normalizer.push_chunk(stream);
    assert_eq!(tokens, vec![token("a", 0, false), token("b", 1, false)]);
    assert!(!normalizer.is_finished());
    assert_eq!(normalizer.next_token_id(), 2);
    assert_eq!(normalizer.pending(), b"{\"response\":\"c\",\"done\":fal");
}

#[test]
fn completion_stream_ends_with_the_sentinel() {
    let stream = b"data: {\"choices\":[{\"text\":\"a\",\"finish_reason\":null}]}\n\ndata: {\"choices\":[{\"text\":\"b\",\"finish_reason\":null}]}\n\ndata: [DONE]\n\ndata: {\"choices\":[{\"text\":\"c\"}]}\n";
    let (tokens, finished) = feed(StreamFormat::CompletionEvents, &[stream]);
    assert_eq!(tokens, vec![token("a", 0, false), token("b", 1, false)]);
    assert!(finished);
}

#[test]
fn completion_stream_ends_with_a_finish_reason() {
    let stream = b"data: {\"choices\":[{\"text\":\"a\",\"finish_reason\":null}]}\ndata: {\"choices\":[{\"text\":\"\",\"finish_reason\":\"stop\"}]}\ndata: {\"choices\":[{\"text\":\"c\"}]}\ndata: [DONE]\n";
    let (tokens, finished) = feed(StreamFormat::CompletionEvents, &[stream]);
    assert_eq!(tokens, vec![token("a", 0, false), token("", 1, true)]);
    assert!(finished);
}

#[test]
fn chat_stream_suppresses_empty_deltas() {
    let stream = b"data: {\"choices\":[{\"delta\":{\"role\":\"assistant\"},\"finish_reason\":null}]}\n\ndata: {\"choices\":[{\"delta\":{\"content\":\"hello\"},\"finish_reason\":null}]}\n\ndata: {\"choices\":[{\"delta\":{\"content\":\"\"},\"finish_reason\":null}]}\n\ndata: {\"choices\":[{\"delta\":{\"content\":\" there\"},\"finish_reason\":null}]}\n\ndata: {\"choices\":[{\"delta\":{},\"finish_reason\":\"stop\"}]}\n\ndata: [DONE]\n\n";
    let (tokens, finished) = feed(StreamFormat::ChatEvents, &[stream]);
    assert_eq!(
        tokens,
        vec![token("hello", 0, false), token(" there", 1, false), token("", 2, true)]
    );
    assert!(finished);
}

#[test]
fn sentinel_split_across_chunks_ends_the_stream() {
    let (tokens, finished) = feed(
        StreamFormat::ChatEvents,
        &[
            b"data: {\"choices\":[{\"delta\":{\"content\":\"hi\"}}]}\ndata: [DO",
            b"NE]\ndata: {\"choices\":[{\"delta\":{\"content\":\"late\"}}]}\n",
        ],
    );
    assert_eq!(tokens, vec![token("hi", 0, false)]);
    assert!(finished);

    let mut normalizer = StreamNormalizer::new(StreamFormat::CompletionEvents);
    assert!(normalizer.push_chunk(b"data: [DONE]").is_empty());
    assert!(!normalizer.is_finished());
    assert_eq!(normalizer.pending(), b"data: [DONE]");
    assert!(normalizer.push_chunk(b"\n").is_empty());
    assert!(normalizer.is_finished());
    assert_eq!(normalizer.pending(), b"");
}

#[test]
fn chunking_does_not_change_the_tokens() {
    let streams: [(StreamFormat, &[u8]); 3] = [
        (
            StreamFormat::TaggedLines,
            b"{\"response\":\"Hel\",\"done\":false}\n\n{\"response\":\"l\xc3\xa9\",\"done\":false}\r\nbroken\n{\"response\":\"\",\"done\":true}\n{\"response\":\"x\",\"done\":false}\n",
        ),
        (
            StreamFormat::CompletionEvents,
            b": comment\ndata: {\"choices\":[{\"text\":\"a b\",\"finish_reason\":null}]}\n\ndata: {\"choices\":[{\"text\":\"c\"}]}\n\ndata: [DONE]\n\ndata: {\"choices\":[{\"text\":\"d\"}]}\n",
        ),
        (
            StreamFormat::ChatEvents,
            b"data: {\"choices\":[{\"delta\":{\"content\":\"x\"}}]}\ndata: {\"choices\":[{\"delta\":{}}]}\ndata: {\"choices\":[{\"delta\":{\"content\":\"y\"},\"finish_reason\":\"stop\"}]}\ndata: [DONE]\n",
        ),
    ];
    for (format, bytes) in streams {
        let (whole, whole_finished) = feed(format, &[bytes]);
        assert!(whole.len() >= 2);
        assert!(whole_finished);
        for cut in 0..=bytes.len() {
            let (left, right) = bytes.split_at(cut);
            let (tokens, finished) = feed(format, &[left, right]);
            assert_eq!(tokens, whole);
            assert_eq!(finished, whole_finished);
        }
        let single: Vec<&[u8]> = bytes.chunks(1).collect();
        let (tokens, finished) = feed(format, &single);
        assert_eq!(tokens, whole);
        assert_eq!(finished, whole_finished);
        let triple: Vec<&[u8]> = bytes.chunks(3).collect();
        assert_eq!(feed(format, &triple).0, whole);
    }
}

#[test]
fn positions_count_from_zero_without_gaps() {
    let mut stream = Vec::new();
    for i in 0..50 {
        stream.extend_from_slice(format!("{{\"response\":\"t{}\",\"done\":false}}\n", i).as_bytes());
        stream.extend_from_slice(b"garbage\n\n");
    }
    let (tokens, finished) = feed(StreamFormat::TaggedLines, &[&stream[..]]);
    assert_eq!(tokens.len(), 50);
    assert!(!finished);
    for (i, token) in tokens.iter().enumerate() {
        assert_eq!(token.token_id, i as u32);
        assert_eq!(token.token, format!("t{}", i));
        assert!(!token.complete);
    }
}

#[test]
fn a_finished_stream_takes_nothing() {
    let mut normalizer = StreamNormalizer::new(StreamFormat::TaggedLines);
    let tokens = normalizer.push_chunk(b"{\"response\":\"a\",\"done\":true}\nrest");
    assert_eq!(tokens, vec![token("a", 0, true)]);
    assert!(normalizer.is_finished());
    assert_eq!(normalizer.pending(), b"");
    assert!(normalizer.push_chunk(b"{\"response\":\"b\",\"done\":false}\n").is_empty());
    assert!(normalizer.is_finished());
    assert_eq!(normalizer.pending(), b"");
    assert_eq!(normalizer.next_token_id(), 1);
}

#[test]
fn an_empty_chunk_changes_nothing() {
    let mut normalizer = StreamNormalizer::new(StreamFormat::ChatEvents);
    assert!(normalizer.push_chunk(b"data: {").is_empty());
    assert!(normalizer.push_chunk(b"").is_empty());
    assert_eq!(normalizer.pending(), b"data: {");
    assert!(!normalizer.is_finished());
    assert_eq!(normalizer.next_token_id(), 0);
}

#[test]
fn whitespace_is_the_white_space_property() {
    let listed = |c: char| {
        matches!(
            c as u32,
            0x09..=0x0D
                | 0x20
                | 0x85
                | 0xA0
                | 0x1680
                | 0x2000..=0x200A
                | 0x2028
                | 0x2029
                | 0x202F
                | 0x205F
                | 0x3000
        )
    };
    let mut buffer = [0u8; 4];
    let mut seen = 0;
    for code in 0..=0x10FFFFu32 {
        if let Some(c) = char::from_u32(code) {
            let text: &str = c.encode_utf8(&mut buffer);
            assert_eq!(is_blank_line(text), listed(c));
            assert_eq!(count_words(text), if listed(c) { 0 } else { 1 });
            if listed(c) {
                seen += 1;
            }
        }
    }
    assert_eq!(seen, 25);
}

#[test]
fn event_lines_that_are_blank_lack_the_prefix() {
    for format in [StreamFormat::CompletionEvents, StreamFormat::ChatEvents] {
        for line in ["", " ", "\t\r", "\u{a0}\u{3000}", "   data: [DONE]"] {
            assert_eq!(decode_line(format, line), FrameEvent::Skip);
        }
        assert_eq!(decode_line(format, "data: [DONE]"), FrameEvent::Done);
        assert_eq!(decode_line(format, "data:  "), FrameEvent::Skip);
    }
}

#[test]
fn a_fault_ends_the_stream() {
    let mut normalizer = StreamNormalizer::new(StreamFormat::TaggedLines);
    let tokens = normalizer.push_chunk(b"{\"response\":\"a\",\"done\":false}\n{\"resp");
    assert_eq!(tokens, vec![token("a", 0, false)]);
    assert!(!normalizer.is_finished());
    let fault = StreamFault::ReadFailed { detail: "connection reset".to_string() };
    let text = normalizer.on_fault(InferenceBackend::Ollama, &fault);
    assert_eq!(text, "Ollama read error: connection reset");
    assert!(normalizer.is_finished());
    assert_eq!(normalizer.pending(), b"");
    assert_eq!(normalizer.next_token_id(), 1);
    assert!(normalizer.push_chunk(b"onse\":\"b\",\"done\":false}\n").is_empty());
    assert!(normalizer.is_finished());

    let mut unopened = StreamNormalizer::new(StreamFormat::ChatEvents);
    let fault = StreamFault::SendFailed { detail: "refused".to_string() };
    assert_eq!(unopened.on_fault(InferenceBackend::OpenAI, &fault), "OpenAI stream failed: refused");
    assert!(unopened.is_finished());
    let fault = StreamFault::Rejected { status_text: "429 Too Many Requests".to_string() };
    assert_eq!(
        unopened.on_fault(InferenceBackend::OpenAI, &fault),
        "OpenAI API error: 429 Too Many Requests"
    );
    assert!(unopened.is_finished());
}
