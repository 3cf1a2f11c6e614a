//! Texts, JSON, settings, the terminal, reminders and the log.

use ocha::backend::{Backend, ChatCall, ModelInfo, ModelsCall};
use ocha::config::{build_backend, Args, BackendConfig, BackendEnv, BackendKind};
use ocha::json::{array_text, json_optional, json_strings, Object, Record};
use ocha::log::{append_at, append_to_log, LogEntry};
use ocha::reminders::{apply_reminders, Reminder, Timing};
use ocha::repl::{models_table, read_input, ReplInput};
use ocha::run_turn::LogRecord;
use ocha::text;
use serde_json::Value;

// ---- Texts ----

#[test]
fn white_space_is_what_it_is_elsewhere() {
    for n in 0..0x11_0000u32 {
        if let Some(c) = char::from_u32(n) {
            assert_eq!(text::white_space(c), c.is_whitespace(), "{n:x}");
        }
    }
}

#[test]
fn texts_are_trimmed() {
    for s in ["", " ", "a", " a b\t", "\n\u{3000}x\r", "\u{200b}x"] {
        assert_eq!(text::trim_of(s), s.trim());
        assert_eq!(text::trim_start_of(s), s.trim_start());
    }
}

#[test]
fn texts_are_cut_and_joined() {
    for s in ["", "/", "a/b", "/a//b/", "ü/é"] {
        let parts = text::split_of(s, '/');
        assert_eq!(parts, s.split('/').map(|p| p.to_string()).collect::<Vec<_>>());
        assert_eq!(text::join_of(&parts, "/"), s);
    }
    assert_eq!(text::join_of(&Vec::new(), "/"), "");
    assert_eq!(text::strip_prefix_of("data: x", "data:"), Some(" x"));
    assert_eq!(text::strip_prefix_of("dat", "data:"), None);
}

#[test]
fn numbers_are_written() {
    for n in [0, 9, 10, 15, 16, 255, 256, 4096, 3735928559, u64::MAX] {
        assert_eq!(text::decimal_of(n), n.to_string());
        assert_eq!(text::hexadecimal_of(n), format!("{n:x}"));
    }
}

// ---- JSON ----

#[test]
fn strings_are_written_as_elsewhere() {
    let all: String = (0..0x250u32).filter_map(char::from_u32).collect();
    for s in ["", "plain", "\"\\/", all.as_str(), "\u{2028}\u{1f600}"] {
        let v = Object::new().with_str("k", s).build();
        let t = v.to_string();
        assert_eq!(t, format!("{{\"k\":{}}}", serde_json::to_string(s).unwrap()));
        assert!(!t.contains('\n') && !t.contains('\r'));
        let back: Value = serde_json::from_str(&t).unwrap();
        assert_eq!(back["k"], s);
    }
}

#[test]
fn members_keep_their_order() {
    let v = Object::new()
        .with("a", json_optional(&Some("x".to_string())))
        .with("m", json_strings(&vec!["1".to_string(), "2".to_string()]))
        .with("z", json_optional(&None))
        .build();
    assert_eq!(v.to_string(), "{\"a\":\"x\",\"m\":[\"1\",\"2\"],\"z\":null}");
    assert_eq!(Object::new().build().to_string(), "{}");
    let r = Record::new()
        .with("z", json_optional(&None))
        .with_str("a\n", "x\"")
        .with_text("m", array_text(&vec!["1".to_string(), "{}".to_string()]));
    assert_eq!(r.text(), "{\"z\":null,\"a\\n\":\"x\\\"\",\"m\":[1,{}]}");
    assert_eq!(Record::new().text(), "{}");
    assert_eq!(array_text(&Vec::new()), "[]");
}

// ---- Settings ----

fn args(backend: BackendKind) -> Args {
    Args {
        backend,
        server: "eevee".to_string(),
        port: 9,
        api_base: None,
        model: None,
        max_tokens: 7,
        system: None,
        command_per_response: 5,
    }
}

fn env() -> BackendEnv {
    BackendEnv {
        family: "family".to_string(),
        mock_backend: None,
        mock_reply: None,
        api_key: Some("key".to_string()),
        claude_cli: None,
    }
}

fn sent(cfg: &BackendConfig, env: &BackendEnv) -> ChatCall {
    build_backend(cfg, env).unwrap_or_else(|e| panic!("{e}")).chat(None, &[])
}

#[test]
fn names_of_backends_are_understood() {
    for (name, kind) in [
        ("ollama", BackendKind::Ollama),
        ("family", BackendKind::Claude),
        ("family-cli", BackendKind::ClaudeCli),
    ] {
        assert_eq!(BackendKind::from_name(name, "family"), Some(kind));
        assert_eq!(kind.name("family"), name);
    }
    assert_eq!(BackendKind::from_name("", "family"), None);
    assert_eq!(BackendKind::from_name("family-", "family"), None);
}

#[test]
fn a_backend_is_set_up_from_the_command_line() {
    let cfg = BackendConfig::from_args(&args(BackendKind::Ollama));
    match sent(&cfg, &env()) {
        ChatCall::Http(c) => {
            assert_eq!(c.url, "http://eevee:9/api/chat");
            assert!(c.body.unwrap().contains("\"model\":\"gemma3:27b\""));
        }
        other => panic!("{other:?}"),
    }
    let cfg = BackendConfig {
        api_base: Some("http://base".to_string()),
        model: Some("m".to_string()),
        ..BackendConfig::from_args(&args(BackendKind::Claude))
    };
    match sent(&cfg, &env()) {
        ChatCall::Http(c) => {
            assert_eq!(c.url, "http://base/v1/messages");
            assert!(c.body.unwrap().starts_with("{\"model\":\"m\",\"max_tokens\":7,"));
        }
        other => panic!("{other:?}"),
    }
    let cfg = BackendConfig::from_args(&args(BackendKind::Claude));
    match sent(&cfg, &env()) {
        ChatCall::Http(c) => {
            assert_eq!(c.url, "https://api.anthropic.com/v1/messages");
            assert!(c.body.unwrap().contains("\"model\":\"family-sonnet-4-6\""));
        }
        other => panic!("{other:?}"),
    }
    let cfg = BackendConfig::from_args(&args(BackendKind::ClaudeCli));
    match sent(&cfg, &env()) {
        ChatCall::Process(c) => assert_eq!(c.binary, "family"),
        other => panic!("{other:?}"),
    }
    let named = BackendEnv {
        claude_cli: Some("/bin/other".to_string()),
        ..env()
    };
    match sent(&cfg, &named) {
        ChatCall::Process(c) => assert_eq!(c.binary, "/bin/other"),
        other => panic!("{other:?}"),
    }
}

#[test]
fn the_scripted_backend_comes_before_any_other() {
    let cfg = BackendConfig::from_args(&args(BackendKind::Claude));
    let with = |on: &str, reply: Option<&str>| BackendEnv {
        mock_backend: Some(on.to_string()),
        mock_reply: reply.map(|s| s.to_string()),
        api_key: None,
        ..env()
    };
    match sent(&cfg, &with("1", None)) {
        ChatCall::Reply(f) => assert_eq!(f.concat(), "mock reply"),
        other => panic!("{other:?}"),
    }
    match sent(&cfg, &with("1", Some("x y"))) {
        ChatCall::Reply(f) => assert_eq!(f.concat(), "x y"),
        other => panic!("{other:?}"),
    }
    match build_backend(&cfg, &with("0", None)) {
        Err(e) => assert_eq!(
            e,
            "ANTHROPIC_API_KEY environment variable is required for the family backend"
        ),
        Ok(_) => panic!("no key is needed"),
    }
    match build_backend(&cfg, &with("1", None)).unwrap_or_else(|e| panic!("{e}")).list_models() {
        ModelsCall::Known(m) => assert_eq!(m[0].name, "mock-model"),
        other => panic!("{other:?}"),
    }
}

// ---- The terminal ----

#[test]
fn lines_that_are_typed_are_understood() {
    assert!(matches!(read_input(" \t\n"), ReplInput::Nothing));
    assert!(matches!(read_input("exit\n"), ReplInput::Quit));
    assert!(matches!(read_input("  quit  "), ReplInput::Quit));
    assert!(matches!(read_input(" Exit now \r\n"), ReplInput::Prompt(p) if p == "Exit now"));
}

#[test]
fn models_are_listed_in_columns() {
    let long = "n".repeat(45);
    let model = |n: &str, d: &str| ModelInfo {
        name: n.to_string(),
        detail: d.to_string(),
    };
    let table = models_table(&vec![model("müller", "d"), model(&long, "")]);
    let expected = format!(
        "{:<40} {:<30}\n{}\n{:<40} {:<30}\n{:<40} {:<30}\n",
        "NAME",
        "DETAIL",
        "-".repeat(70),
        "müller",
        "d",
        long,
        ""
    );
    assert_eq!(table, expected);
}

// ---- Reminders ----

fn reminder(probability: f32, prompt: &str, timing: Timing, init: bool) -> Reminder {
    Reminder {
        probability_bits: probability.to_bits(),
        prompt: prompt.to_string(),
        timing,
        init,
    }
}

/// The draw of somebody whose luck is as even as can be: what is certain comes,
/// what is impossible does not.
fn draw(reminders: &[Reminder]) -> Vec<bool> {
    reminders
        .iter()
        .map(|r| f32::from_bits(r.probability_bits) > 0.5)
        .collect()
}

#[test]
fn test_apply_reminders() {
    let reminders = vec![
        reminder(1.0, "[PRE]", Timing::Pre, false),
        reminder(1.0, "[POST]", Timing::Post, false),
    ];
    let (result, activated) = apply_reminders("PROMPT", &reminders, false, &draw(&reminders));
    assert_eq!(result, "[PRE]PROMPT[POST]");
    assert_eq!(activated.len(), 2);
    assert!(activated.contains(&"[PRE]".to_string()));
    assert!(activated.contains(&"[POST]".to_string()));

    let reminders_init = vec![reminder(1.0, "[INIT]", Timing::Pre, true)];
    let drawn = draw(&reminders_init);
    let (res_init, act_init) = apply_reminders("P", &reminders_init, true, &drawn);
    assert_eq!(res_init, "[INIT]P");
    assert_eq!(act_init.len(), 1);

    let (res_no_init, act_no_init) = apply_reminders("P", &reminders_init, false, &drawn);
    assert_eq!(res_no_init, "P");
    assert_eq!(act_no_init.len(), 0);

    let reminders_init_zero = vec![reminder(0.0, "[INIT_ZERO]", Timing::Pre, true)];
    let drawn = draw(&reminders_init_zero);
    let (res_zero, act_zero) = apply_reminders("P", &reminders_init_zero, true, &drawn);
    assert_eq!(res_zero, "[INIT_ZERO]P");
    assert_eq!(act_zero.len(), 1);

    let (res_zero_next, act_zero_next) = apply_reminders("P", &reminders_init_zero, false, &drawn);
    assert_eq!(res_zero_next, "P");
    assert_eq!(act_zero_next.len(), 0);
}

#[test]
fn reminders_keep_their_order_and_leave_the_prompt_alone() {
    let all = vec![
        reminder(0.5, "a", Timing::Post, false),
        reminder(0.5, "b", Timing::Pre, false),
        reminder(0.5, "c", Timing::Post, false),
        reminder(0.5, "d", Timing::Pre, false),
    ];
    let (text, said) = apply_reminders("-", &all, true, &[true, true, false, true]);
    assert_eq!(text, "bd-a");
    assert_eq!(said, vec!["a".to_string(), "b".to_string(), "d".to_string()]);
    let (text, said) = apply_reminders("-", &all, true, &[false; 4]);
    assert_eq!(text, "-");
    assert!(said.is_empty());
    let (text, _) = apply_reminders("-", &[], true, &[]);
    assert_eq!(text, "-");
}

// ---- The log ----

fn said(entity: &'static str, content: &str) -> LogRecord {
    LogRecord {
        entity,
        content: Value::from(content),
    }
}

#[test]
fn test_append_to_log() {
    let logs = append_to_log(None, said("user", "Hello"));
    let logs = append_to_log(Some(logs), said("llm", "Hi there"));
    assert_eq!(logs.len(), 2);
    assert_eq!(logs[0].entity, "user");
    assert_eq!(logs[0].content, Value::String("Hello".to_string()));
    assert_eq!(logs[1].entity, "llm");
    assert_eq!(logs[1].content, Value::String("Hi there".to_string()));
    assert!(!logs[0].timestamp.is_empty());
    for l in &logs {
        assert!(chrono::DateTime::parse_from_rfc3339(&l.timestamp).is_ok());
    }
}

#[test]
fn a_log_is_dated_as_it_is_told() {
    let old = LogEntry {
        timestamp: "then".to_string(),
        entity: "tool".to_string(),
        content: Value::Null,
    };
    let logs = append_at(Some(vec![old]), "now".to_string(), said("user", "x"));
    assert_eq!(logs[0].timestamp, "then");
    assert_eq!(logs[1].timestamp, "now");
}
