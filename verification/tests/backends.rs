//! What each backend sends, and how it reads an answer.

use ocha::backend::claude::{
    self, accept_events, split_system_and_messages, ClaudeBackend, StreamDelta, StreamEvent,
};
use ocha::backend::claude_cli::{
    flatten, line_to_decode, spawn_error, ClaudeCliBackend, CliAnswer, Delta, InnerEvent,
    StreamLine, AGENTIC_SYSTEM,
};
use ocha::backend::mock::MockBackend;
use ocha::backend::ollama::{
    self, accept_chunks, wire_role, ChatChunk, ChatChunkMessage, OllamaBackend,
};
use ocha::backend::{Backend, ChatCall, HttpCall, Message, ModelsCall, Role};
use ocha::stream::{AnswerStream, Framing, LineBuffer};

fn msg(role: Role, content: &str) -> Message {
    Message::new(role, content)
}

// ---- Messages API ----

#[test]
fn no_system_yields_none() {
    let (system, wire) = split_system_and_messages(None, &[msg(Role::User, "hi")]);
    assert_eq!(system, None);
    assert_eq!(wire.len(), 1);
    assert_eq!(wire[0].role, "user");
    assert_eq!(wire[0].content, "hi");
}

#[test]
fn out_of_band_system_and_system_turns_merge_blank_line_joined() {
    let history = [msg(Role::System, "in-history sys"), msg(Role::User, "q")];
    let (system, wire) = split_system_and_messages(Some("oob sys"), &history);
    // Out-of-band first, then the system turns of the history.
    assert_eq!(system.as_deref(), Some("oob sys\n\nin-history sys"));
    // System turns are not on the wire.
    assert_eq!(wire.len(), 1);
    assert_eq!(wire[0].role, "user");
}

#[test]
fn tool_role_collapses_to_user_assistant_preserved() {
    let history = [
        msg(Role::Assistant, "a"),
        msg(Role::Tool, "tool result"),
        msg(Role::User, "u"),
    ];
    let (system, wire) = split_system_and_messages(None, &history);
    assert_eq!(system, None);
    let roles: Vec<&str> = wire.iter().map(|w| w.role).collect();
    // The assistant stays distinct; a tool result is just another user turn.
    assert_eq!(roles, ["assistant", "user", "user"]);
    assert_eq!(wire[1].content, "tool result");
}

// ---- The command-line program ----

#[test]
fn flatten_routes_system_out_of_band_and_labels_turns() {
    let history = [
        msg(Role::System, "in-history sys"),
        msg(Role::User, "hi"),
        msg(Role::Assistant, "hello"),
        msg(Role::Tool, "cmd output"),
        msg(Role::User, "thanks"),
    ];
    let (system, prompt) = flatten(Some("oob sys"), &history);
    assert_eq!(system.as_deref(), Some("oob sys\n\nin-history sys"));
    assert_eq!(
        prompt,
        "User: hi\n\nAssistant: hello\n\nTool result: cmd output\n\nUser: thanks"
    );
}

#[test]
fn flatten_no_system_yields_none() {
    let (system, prompt) = flatten(None, &[msg(Role::User, "just this")]);
    assert_eq!(system, None);
    assert_eq!(prompt, "User: just this");
}

// ---- Ollama ----

#[test]
fn wire_role_collapses_tool_to_user_keeps_others() {
    assert_eq!(wire_role(Role::System), "system");
    assert_eq!(wire_role(Role::User), "user");
    assert_eq!(wire_role(Role::Assistant), "assistant");
    assert_eq!(wire_role(Role::Tool), "user");
}

// ---- What is sent ----

fn headers_of(call: &HttpCall) -> Vec<(&str, &str)> {
    call.headers
        .iter()
        .map(|(k, v)| (k.as_str(), v.as_str()))
        .collect()
}

#[test]
fn the_messages_api_is_sent_the_whole_conversation() {
    let b = ClaudeBackend::new(
        "https://host".to_string(),
        "key".to_string(),
        "m".to_string(),
        7,
    );
    let history = [msg(Role::User, "say \"hi\"\n"), msg(Role::Tool, "t")];
    match b.chat(Some("sys"), &history) {
        ChatCall::Http(call) => {
            assert_eq!(call.url, "https://host/v1/messages");
            assert_eq!(
                headers_of(&call),
                vec![
                    ("x-api-key", "key"),
                    ("anthropic-version", "2023-06-01"),
                    ("content-type", "application/json"),
                ]
            );
            assert_eq!(
                call.body.as_deref(),
                Some("{\"model\":\"m\",\"max_tokens\":7,\"stream\":true,\"system\":\"sys\",\"messages\":[{\"role\":\"user\",\"content\":\"say \\\"hi\\\"\\n\"},{\"role\":\"user\",\"content\":\"t\"}]}")
            );
        }
        other => panic!("{other:?}"),
    }
    match b.chat(None, &[]) {
        ChatCall::Http(call) => assert_eq!(
            call.body.as_deref(),
            Some("{\"model\":\"m\",\"max_tokens\":7,\"stream\":true,\"messages\":[]}")
        ),
        other => panic!("{other:?}"),
    }
    match b.list_models() {
        ModelsCall::Http(call) => {
            assert_eq!(call.url, "https://host/v1/models");
            assert!(call.body.is_none());
        }
        other => panic!("{other:?}"),
    }
}

#[test]
fn ollama_is_sent_every_turn() {
    let b = OllamaBackend::new("http://h:1".to_string(), "m".to_string());
    let history = [msg(Role::System, "inner"), msg(Role::Assistant, "a"), msg(Role::Tool, "t")];
    match b.chat(Some("outer"), &history) {
        ChatCall::Http(call) => {
            assert_eq!(call.url, "http://h:1/api/chat");
            assert_eq!(
                call.body.as_deref(),
                Some("{\"model\":\"m\",\"messages\":[{\"role\":\"system\",\"content\":\"outer\"},{\"role\":\"system\",\"content\":\"inner\"},{\"role\":\"assistant\",\"content\":\"a\"},{\"role\":\"user\",\"content\":\"t\"}],\"stream\":true}")
            );
        }
        other => panic!("{other:?}"),
    }
}

#[test]
fn the_program_gets_no_tools_and_always_a_preamble() {
    let b = ClaudeCliBackend::new("family".to_string(), "prog".to_string(), Some("m".to_string()));
    for system in [None, Some("sys")] {
        match b.chat(system, &[msg(Role::User, "hi")]) {
            ChatCall::Process(call) => {
                assert_eq!(call.binary, "prog");
                assert_eq!(call.stdin, "User: hi");
                let tools = call.args.iter().position(|a| a == "--tools").unwrap();
                assert_eq!(call.args[tools + 1], "");
                let prompt = call.args.iter().position(|a| a == "--system-prompt").unwrap();
                assert!(call.args[prompt + 1].starts_with(AGENTIC_SYSTEM));
                assert_eq!(call.args[prompt + 1].ends_with("\n\nsys"), system.is_some());
                assert_eq!(call.args[call.args.len() - 2..], ["--model", "m"]);
            }
            other => panic!("{other:?}"),
        }
    }
    let plain = ClaudeCliBackend::new("family".to_string(), "prog".to_string(), None);
    match plain.chat(None, &[]) {
        ChatCall::Process(call) => assert!(!call.args.iter().any(|a| a == "--model")),
        other => panic!("{other:?}"),
    }
}

#[test]
fn role_serializes_lowercase() {
    let text = |r: Role| serde_json::to_string(r.name()).unwrap();
    assert_eq!(text(Role::System), "\"system\"");
    assert_eq!(text(Role::User), "\"user\"");
    assert_eq!(text(Role::Assistant), "\"assistant\"");
    assert_eq!(text(Role::Tool), "\"tool\"");
}

// ---- How answers are read ----

fn ok(s: &str) -> Result<String, String> {
    Ok(s.to_string())
}

fn event(kind: &str, text: Option<&str>, error: Option<serde_json::Value>) -> StreamEvent {
    StreamEvent {
        kind: kind.to_string(),
        delta: text.map(|t| StreamDelta {
            text: Some(t.to_string()),
        }),
        error,
    }
}

#[test]
fn events_of_the_messages_api_are_read() {
    let mut s = AnswerStream::new(Framing::Sse);
    assert_eq!(s.offered(b"event: x\ndata: {\"a\":1}\n\n: ping\ndata:"), vec![ok("{\"a\":1}")]);
    assert_eq!(s.offered(b" two \r\n"), vec![ok("two")]);
    assert_eq!(s.offered(b""), Vec::new());
    let shown = accept_events(
        &mut s,
        vec![
            Ok(event("content_block_delta", Some("ab"), None)),
            Ok(event("content_block_delta", Some(""), None)),
            Ok(event("content_block_delta", None, None)),
            Ok(event("message_stop", Some("x"), None)),
            Ok(event("content_block_delta", Some("c"), None)),
        ],
    );
    assert_eq!(shown, vec!["ab".to_string(), "c".to_string()]);
    assert!(!s.has_failed());
    assert_eq!(s.finish(), ok("abc"));
}

#[test]
fn the_first_error_ends_an_answer() {
    let broken = |e: Result<StreamEvent, String>| {
        let mut s = AnswerStream::new(Framing::Sse);
        let text = |t: &str| Ok(event("content_block_delta", Some(t), None));
        let shown = accept_events(&mut s, vec![text("a"), e, text("b")]);
        assert_eq!(shown, vec!["a".to_string()]);
        assert!(s.has_failed());
        // Nothing is read behind it.
        assert_eq!(s.offered(b"data: more\n"), Vec::new());
        assert_eq!(accept_events(&mut s, vec![text("c")]), Vec::<String>::new());
        s.finish()
    };
    let detail = Some(serde_json::Value::from(5));
    assert_eq!(
        broken(Ok(event("error", None, detail))),
        Err("Anthropic stream error: 5".to_string())
    );
    assert_eq!(
        broken(Ok(event("error", None, None))),
        Err("Anthropic stream error: unknown".to_string())
    );
    assert_eq!(broken(Err("no JSON".to_string())), Err("no JSON".to_string()));
}

#[test]
fn lines_of_ollama_are_read_across_chunks() {
    let bytes = "{\"é\":1}\n\n  {\"b\":2}\nrest".as_bytes();
    for cut in 0..bytes.len() {
        let mut s = AnswerStream::new(Framing::Ndjson);
        let mut seen = s.offered(&bytes[..cut]);
        seen.extend(s.offered(&bytes[cut..]));
        assert_eq!(seen, vec![ok("{\"é\":1}"), ok("{\"b\":2}")]);
    }
    let mut s = AnswerStream::new(Framing::Ndjson);
    let said = String::from_utf8(vec![0xff, b'\n']).unwrap_err().utf8_error().to_string();
    assert_eq!(s.offered(&[0xff, b'\n', b'x', b'\n']), vec![Err(said), ok("x")]);
    let chunk = |t: Option<&str>| {
        Ok(ChatChunk {
            message: t.map(|t| ChatChunkMessage {
                content: t.to_string(),
            }),
        })
    };
    let all = vec![
        chunk(Some("hi")),
        chunk(Some("")),
        chunk(None),
        chunk(Some(" you")),
        Err("bad".to_string()),
        chunk(Some("never")),
    ];
    assert_eq!(accept_chunks(&mut s, all), vec!["hi".to_string(), " you".to_string()]);
    assert_eq!(s.finish(), Err("bad".to_string()));
}

/// Reads an answer of the Messages API that arrives in these chunks.
fn read_in_chunks(chunks: &[&[u8]]) -> (Vec<String>, Result<String, String>) {
    let mut s = AnswerStream::new(Framing::Sse);
    let mut shown = Vec::new();
    for chunk in chunks {
        let events = s
            .offered(chunk)
            .into_iter()
            .map(|offer| {
                offer.map(|p| match p.strip_prefix("err ") {
                    Some(e) => event("error", None, Some(serde_json::from_str(e).unwrap())),
                    None => event("content_block_delta", Some(&p), None),
                })
            })
            .collect();
        shown.extend(accept_events(&mut s, events));
    }
    (shown, s.finish())
}

#[test]
fn cutting_changes_no_answer() {
    let good = "event: a\ndata: é\n\ndata:b\r\ndata: c".as_bytes();
    let bad = b"data: x\ndata: err {\"z\":1,\"a\":[2]}\ndata: y\n".as_slice();
    let not_text = b"data: x\ndata: \xff\ndata: y\n".as_slice();
    for bytes in [good, bad, not_text] {
        let whole = read_in_chunks(&[bytes]);
        for i in 0..=bytes.len() {
            for j in i..=bytes.len() {
                assert_eq!(read_in_chunks(&[&bytes[..i], &bytes[i..j], &bytes[j..]]), whole);
            }
        }
    }
    assert_eq!(
        read_in_chunks(&[good]),
        (vec!["é".to_string(), "b".to_string()], Ok("éb".to_string()))
    );
    // The members of an error are reported in the order of their keys.
    assert_eq!(
        read_in_chunks(&[bad]).1,
        Err("Anthropic stream error: {\"a\":[2],\"z\":1}".to_string())
    );
}

#[test]
fn other_lines_of_the_program_say_nothing() {
    let read = |lines: Vec<StreamLine>| {
        let mut a = CliAnswer::new();
        let shown: Vec<String> = lines.into_iter().filter_map(|l| a.take_line(Some(l))).collect();
        (shown, a.finish("family", true, "exit status: 0", ""))
    };
    let thought = StreamLine {
        event: Some(InnerEvent {
            kind: "content_block_delta".to_string(),
            delta: Some(Delta {
                kind: "thinking_delta".to_string(),
                text: Some("hm".to_string()),
            }),
        }),
        ..line("stream_event", None)
    };
    let short = read(vec![line("stream_event", Some("a")), line("stream_event", Some("b"))]);
    let long = read(vec![
        line("system", Some("x")),
        line("stream_event", Some("a")),
        thought,
        line("rate_limit_event", None),
        line("stream_event", Some("b")),
        line("assistant", Some("ab")),
    ]);
    assert_eq!(short, long);
    assert_eq!(short.0, vec!["a".to_string(), "b".to_string()]);
}

#[test]
fn lines_can_be_taken_as_they_are() {
    let mut b = LineBuffer::new();
    b.feed(b"one\ntw");
    assert_eq!(b.take_line(), Some(b"one\n".to_vec()));
    assert_eq!(b.take_line(), None);
    b.feed(b"o\n");
    assert_eq!(b.take_line(), Some(b"two\n".to_vec()));
    assert_eq!(b.take_line(), None);
}

fn line(kind: &str, text: Option<&str>) -> StreamLine {
    StreamLine {
        kind: kind.to_string(),
        event: text.map(|t| InnerEvent {
            kind: "content_block_delta".to_string(),
            delta: Some(Delta {
                kind: "text_delta".to_string(),
                text: Some(t.to_string()),
            }),
        }),
        result: None,
        is_error: None,
        subtype: None,
    }
}

#[test]
fn the_result_that_the_program_announces_comes_first() {
    let mut a = CliAnswer::new();
    assert_eq!(a.take_line(Some(line("stream_event", Some("par")))), Some("par".to_string()));
    assert_eq!(a.take_line(Some(line("assistant", Some("x")))), None);
    assert_eq!(a.take_line(None), None);
    assert_eq!(a.take_line(Some(line("stream_event", Some("tial")))), Some("tial".to_string()));
    assert_eq!(a.finish("family", true, "exit status: 0", ""), Ok("partial".to_string()));

    let mut a = CliAnswer::new();
    a.take_line(Some(line("stream_event", Some("partial"))));
    a.take_line(Some(StreamLine {
        result: Some("whole".to_string()),
        ..line("result", None)
    }));
    assert_eq!(a.finish("family", true, "exit status: 0", ""), Ok("whole".to_string()));
}

#[test]
fn failures_of_the_program_are_reported() {
    let failed = |result: Option<&str>, subtype: Option<&str>| {
        let mut a = CliAnswer::new();
        a.take_line(Some(StreamLine {
            is_error: Some(true),
            result: result.map(|s| s.to_string()),
            subtype: subtype.map(|s| s.to_string()),
            ..line("result", None)
        }));
        a.finish("family", false, "exit status: 1", "err")
    };
    assert_eq!(failed(Some("r"), Some("s")), Err("family CLI error: r".to_string()));
    assert_eq!(failed(None, Some("s")), Err("family CLI error: s".to_string()));
    assert_eq!(failed(None, None), Err("family CLI error: unknown error".to_string()));
    assert_eq!(
        CliAnswer::new().finish("family", false, "exit status: 1", " bad \n"),
        Err("family CLI exited with exit status: 1: bad".to_string())
    );
    assert_eq!(
        spawn_error("Some Product", "prog", "not found"),
        "failed to spawn `prog`: not found (is the Some Product CLI installed and on PATH?)"
    );
    assert_eq!(line_to_decode("  {} \n"), Some("{}".to_string()));
    assert_eq!(line_to_decode(" \t\n"), None);
}

#[test]
fn refusals_name_the_provider() {
    assert_eq!(claude::api_error("x"), "Anthropic API error: x");
    assert_eq!(ollama::api_error("x"), "Ollama API error: x");
}

#[test]
fn models_are_described() {
    let api = claude::models_listed(vec![
        claude::ApiModel {
            id: "a".to_string(),
            display_name: Some("A".to_string()),
        },
        claude::ApiModel {
            id: "b".to_string(),
            display_name: None,
        },
    ]);
    assert_eq!((api[0].name.as_str(), api[0].detail.as_str()), ("a", "A"));
    assert_eq!((api[1].name.as_str(), api[1].detail.as_str()), ("b", ""));
    let tags = ollama::models_listed(vec![ollama::TagModel {
        name: "m".to_string(),
        gigabytes: "16.20".to_string(),
        modified_at: "now".to_string(),
    }]);
    assert_eq!(tags[0].detail, "16.20 GB  now");
}

// ---- The scripted backend ----

fn scripted(b: &MockBackend, history: &[Message]) -> Vec<String> {
    match b.chat(None, history) {
        ChatCall::Reply(fragments) => fragments,
        other => panic!("{other:?}"),
    }
}

#[test]
fn the_script_is_followed_answer_by_answer() {
    let b = MockBackend::new("one two<<<NEXT>>>three".to_string());
    assert_eq!(scripted(&b, &[]), vec!["one".to_string(), " two".to_string()]);
    let said = [msg(Role::User, "u"), msg(Role::Assistant, "a"), msg(Role::Tool, "t")];
    assert_eq!(scripted(&b, &said).concat(), "three");
    let more = [msg(Role::Assistant, "a"), msg(Role::Assistant, "b"), msg(Role::Assistant, "c")];
    assert_eq!(scripted(&b, &more).concat(), "three");
    assert_eq!(scripted(&MockBackend::default(), &[]).concat(), "mock reply");
    let odd = "  a  <<<NEXT b ";
    assert_eq!(scripted(&MockBackend::new(odd.to_string()), &[]).concat(), odd);
}
