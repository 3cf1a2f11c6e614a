//! The server, driven without a network: what a request leads to, what the
//! listeners are told, and what is to be done next.

use ocha::backend::{Backend, ChatCall, ModelInfo};
use ocha::config::{build_backend, BackendConfig, BackendEnv, BackendKind};
use ocha::reminders::{Reminder, Timing};
use ocha::run_turn::TurnEvent;
use ocha::serve::drive::Work;
use ocha::serve::routes::{asked_backend_of, route_of, Route};
use ocha::serve::server::{
    approval_timeout, models_reply, Answer, AppState, Body, CreateSessionReq, Effects, Handled,
    Request, Response, ServeDefaults,
};
use ocha::tool::{CommandRequest, Outcome};
use ocha::turn::Decision;
use serde_json::Value;

const FAMILY: &str = "family";

fn env(mock: bool, reply: Option<&str>) -> BackendEnv {
    BackendEnv {
        family: FAMILY.to_string(),
        mock_backend: if mock { Some("1".to_string()) } else { None },
        mock_reply: reply.map(|s| s.to_string()),
        api_key: None,
        claude_cli: None,
    }
}

fn defaults(kind: BackendKind) -> ServeDefaults {
    ServeDefaults {
        backend_cfg: BackendConfig {
            backend: kind,
            server: "127.0.0.1".to_string(),
            port: 11434,
            api_base: None,
            model: None,
            max_tokens: 4096,
        },
        system: None,
        command_per_response: 5,
        reminders: Vec::new(),
    }
}

fn server(reply: Option<&str>) -> AppState {
    AppState::new(defaults(BackendKind::Ollama), env(true, reply), "0.1.0".to_string())
}

fn request(method: &str, path: &str, body: Body) -> Request {
    let (path, query) = match path.split_once('?') {
        Some((p, q)) => (p, q),
        None => (path, ""),
    };
    Request {
        method: method.to_string(),
        path: path.to_string(),
        query: query.to_string(),
        body,
    }
}

fn reply(h: Handled) -> Response {
    match h.answer {
        Answer::Reply(r) => r,
        other => panic!("no reply: {other:?}"),
    }
}

fn ask(s: &mut AppState, method: &str, path: &str, body: Body) -> (u16, Value) {
    let r = reply(s.handle(request(method, path, body)));
    assert_eq!(r.content_type, "application/json");
    (r.status, serde_json::from_str(&r.body).unwrap())
}

fn create(s: &mut AppState) -> String {
    let (status, v) = ask(s, "POST", "/api/sessions", Body::Empty);
    assert_eq!(status, 201);
    v["id"].as_str().unwrap().to_string()
}

fn get(s: &mut AppState, id: &str) -> Value {
    let (status, v) = ask(s, "GET", &format!("/api/sessions/{id}"), Body::Empty);
    assert_eq!(status, 200);
    v
}

fn message(content: &str) -> Body {
    Body::Message {
        content: content.to_string(),
    }
}

fn post(s: &mut AppState, id: &str, content: &str) -> Handled {
    s.handle(request("POST", &format!("/api/sessions/{id}/messages"), message(content)))
}

fn decide(s: &mut AppState, id: &str, cmd: &str, what: &str, body: Body) -> Handled {
    s.handle(request(
        "POST",
        &format!("/api/sessions/{id}/commands/{cmd}/{what}"),
        body,
    ))
}

fn decode(payload: &str) -> Result<CommandRequest, String> {
    let v: Value = serde_json::from_str(payload).map_err(|e| e.to_string())?;
    Ok(CommandRequest {
        timeout: v["timeout"].as_u64().ok_or("timeout")?,
        binary: v["binary"].as_str().ok_or("binary")?.to_string(),
        args: v["args"]
            .as_array()
            .ok_or("args")?
            .iter()
            .map(|a| a.as_str().unwrap().to_string())
            .collect(),
        description: v["description"].as_str().ok_or("description")?.to_string(),
    })
}

/// Does what is to be done until there is nothing left but to wait; a command
/// "runs" by writing its arguments to its standard output.
fn run(s: &mut AppState, effects: Option<Effects>, frames: &mut Vec<String>) -> Option<Work> {
    let mut effects = effects;
    loop {
        let Some(e) = effects.take() else { return None };
        frames.extend(e.frames);
        let (id, turn) = (e.session, e.turn);
        let event = match e.work {
            None => return None,
            Some(Work::Draw(reminders)) => TurnEvent::Drawn(vec![true; reminders.len()]),
            Some(Work::Chat {
                config,
                system,
                messages,
            }) => {
                let backend = build_backend(&config, s.env()).unwrap_or_else(|e| panic!("{e}"));
                match backend.chat(system.as_deref(), &messages) {
                    ChatCall::Reply(fragments) => {
                        for f in &fragments {
                            frames.extend(s.token(&id, turn, f).unwrap().frames);
                        }
                        TurnEvent::Answered(fragments.concat())
                    }
                    other => panic!("not scripted: {other:?}"),
                }
            }
            Some(Work::Parse(payload)) => TurnEvent::Parsed(decode(&payload)),
            Some(Work::Execute(r)) => TurnEvent::Finished(Outcome::Exited {
                status: Some(0),
                stdout: format!("{}\n", r.args.join(" ")),
                stderr: String::new(),
            }),
            Some(last) => return Some(last),
        };
        effects = s.progress(&id, turn, event);
    }
}

fn parse_frame(s: &str) -> (String, String) {
    let mut ev = String::new();
    let mut data = String::new();
    for line in s.lines() {
        if let Some(x) = line.strip_prefix("event: ") {
            ev = x.trim().to_string();
        }
        if let Some(x) = line.strip_prefix("data: ") {
            data = x.trim().to_string();
        }
    }
    (ev, data)
}

fn tool_msg(g: &Value) -> String {
    g["messages"]
        .as_array()
        .unwrap()
        .iter()
        .find(|m| m["role"] == "tool")
        .expect("no tool message")["content"]
        .as_str()
        .unwrap()
        .to_string()
}

fn pending_of(s: &mut AppState, id: &str) -> String {
    let g = get(s, id);
    assert_eq!(g["state"], "awaiting_approval");
    g["pending_command"]["cmd_id"].as_str().unwrap().to_string()
}

#[test]
fn serve_lifecycle_hermetic() {
    let mut s = server(None);

    let (_, h) = ask(&mut s, "GET", "/api/health", Body::Empty);
    assert_eq!(h["ok"], true);
    assert!(h["version"].is_string());

    let (_, m) = ask(&mut s, "GET", "/api/models", Body::Empty);
    assert_eq!(m["models"][0]["name"], "mock-model");

    let wanted = CreateSessionReq {
        system: Some("hermetic".to_string()),
        ..CreateSessionReq::default()
    };
    let (status, v) = ask(&mut s, "POST", "/api/sessions", Body::Session(wanted));
    assert_eq!(status, 201);
    let id = v["id"].as_str().unwrap().to_string();
    assert_eq!(v["state"], "idle");

    let (_, list) = ask(&mut s, "GET", "/api/sessions", Body::Empty);
    assert!(
        list.as_array().unwrap().iter().any(|x| x["id"] == id.as_str()),
        "created session missing from list"
    );

    let (status, gv) = ask(&mut s, "GET", &format!("/api/sessions/{id}"), Body::Empty);
    assert_eq!(status, 200);
    assert_eq!(gv["config"]["system"], "hermetic");
    assert_eq!(gv["config"]["approval_mode"], "gated");
    assert!(gv["messages"].as_array().unwrap().is_empty());
    assert!(gv["pending_command"].is_null());

    let (status, _) = ask(
        &mut s,
        "POST",
        "/api/sessions/s_doesnotexist/messages",
        message("x"),
    );
    assert_eq!(status, 404);

    let (status, d) = ask(&mut s, "DELETE", &format!("/api/sessions/{id}"), Body::Empty);
    assert_eq!(status, 200);
    assert_eq!(d["deleted"], true);
    let (status, _) = ask(&mut s, "GET", &format!("/api/sessions/{id}"), Body::Empty);
    assert_eq!(status, 404);
    let (status, _) = ask(&mut s, "DELETE", &format!("/api/sessions/{id}"), Body::Empty);
    assert_eq!(status, 404);

    let (status, e) = ask(&mut s, "GET", "/nope", Body::Empty);
    assert_eq!(status, 404);
    assert_eq!(e["error"], "not found");
}

#[test]
fn serve_conversation_sse_hermetic() {
    let script = "alpha beta gamma delta";
    let mut s = server(Some(script));
    let id = create(&mut s);

    let mut frames: Vec<String> = Vec::new();
    match s
        .handle(request("GET", &format!("/api/sessions/{id}/events"), Body::Empty))
        .answer
    {
        Answer::Listen { first } => frames.push(first),
        other => panic!("not listening: {other:?}"),
    }

    let h = post(&mut s, &id, "hi");
    let effects = h.effects;
    match h.answer {
        Answer::Reply(r) => {
            assert_eq!(r.status, 202);
            assert_eq!(r.body, "{\"state\":\"generating\",\"turn_id\":\"t_1\"}");
        }
        other => panic!("no reply: {other:?}"),
    }
    assert!(run(&mut s, effects, &mut frames).is_none());

    let events: Vec<(String, String)> = frames.iter().map(|f| parse_frame(f)).collect();
    let kinds: Vec<&str> = events.iter().map(|(e, _)| e.as_str()).collect();
    assert_eq!(kinds.first(), Some(&"snapshot"), "{kinds:?}");
    let pos = |k: &str| kinds.iter().position(|x| *x == k);
    let gen_pos = pos("state").expect("no state event");
    let tok = pos("token").expect("no token event");
    let msg = pos("message").expect("no message event");
    let tc = pos("turn_complete").expect("no turn_complete");
    assert!(0 < gen_pos && gen_pos < tok, "{kinds:?}");
    assert!(tok < msg && msg < tc, "{kinds:?}");
    assert!(kinds.last() == Some(&"state"), "{kinds:?}");
    assert!(events.last().unwrap().1.contains("idle"));

    let text: String = events
        .iter()
        .filter(|(e, _)| e == "token")
        .map(|(_, d)| {
            serde_json::from_str::<Value>(d).unwrap()["text"]
                .as_str()
                .unwrap()
                .to_string()
        })
        .collect();
    assert_eq!(text, script);

    let g = get(&mut s, &id);
    let m = g["messages"].as_array().unwrap();
    assert_eq!(m.len(), 2);
    assert_eq!(m[0]["role"], "user");
    assert_eq!(m[0]["content"], "hi");
    assert_eq!(m[1]["role"], "assistant");
    assert_eq!(m[1]["content"], script);
    assert_eq!(g["state"], "idle");

    match s
        .handle(request("GET", &format!("/api/sessions/{id}/events"), Body::Empty))
        .answer
    {
        Answer::Listen { first } => {
            let snap = parse_frame(&first);
            assert_eq!(snap.0, "snapshot");
            let sv: Value = serde_json::from_str(&snap.1).unwrap();
            assert_eq!(sv["messages"].as_array().unwrap().len(), 2);
            assert_eq!(sv["state"], "idle");
        }
        other => panic!("not listening: {other:?}"),
    }
}

const APPROVAL_SCRIPT: &str = "running\n!!!OCHA_RUN_CMD{\"binary\":\"echo\",\"args\":[\"m4ok\"],\"timeout\":5,\"description\":\"e\"}<<<NEXT>>>all finished";

/// A session in which a command waits.
fn waiting(s: &mut AppState, frames: &mut Vec<String>) -> (String, String) {
    let id = create(s);
    let h = post(s, &id, "go");
    match run(s, h.effects, frames) {
        Some(Work::Wait { cmd_id }) => (id, cmd_id),
        other => panic!("nothing waits: {other:?}"),
    }
}

#[test]
fn serve_approval_approve_hermetic() {
    let mut s = server(Some(APPROVAL_SCRIPT));
    let mut frames = Vec::new();
    let (id, cmd_id) = waiting(&mut s, &mut frames);
    assert_eq!(pending_of(&mut s, &id), cmd_id);
    let snap = get(&mut s, &id);
    assert_eq!(snap["pending_command"]["request"]["binary"], "echo");
    assert_eq!(snap["pending_command"]["remaining_commands"], 4);

    let bogus = reply(decide(&mut s, &id, "c_deadbeef", "approve", Body::Empty));
    assert_eq!(bogus.status, 404);
    assert_eq!(get(&mut s, &id), snap);

    let ok = decide(&mut s, &id, &cmd_id, "approve", Body::Empty);
    assert_eq!(
        frames.last().map(|f| parse_frame(f).1),
        Some("{\"state\":\"awaiting_approval\"}".to_string())
    );
    let effects = ok.effects;
    match ok.answer {
        Answer::Reply(r) => {
            assert_eq!(r.status, 200);
            assert_eq!(r.body, "{\"state\":\"generating\"}");
        }
        other => panic!("no reply: {other:?}"),
    }
    match &effects.as_ref().unwrap().work {
        Some(Work::Execute(r)) => assert_eq!(r.args, vec!["m4ok".to_string()]),
        other => panic!("nothing runs: {other:?}"),
    }
    let before = frames.len();
    assert!(run(&mut s, effects, &mut frames).is_none());
    let kinds: Vec<String> = frames[before..].iter().map(|f| parse_frame(f).0).collect();
    assert_eq!(kinds[0], "state");
    assert_eq!(kinds[1], "command_result");

    let g = get(&mut s, &id);
    assert_eq!(g["state"], "idle");
    let tool = tool_msg(&g);
    assert!(tool.contains("\"status\":0"), "tool result not status 0: {tool}");
    assert!(tool.contains("m4ok"), "command stdout missing: {tool}");
    assert_eq!(g["messages"].as_array().unwrap().len(), 4);
    assert_eq!(g["messages"][3]["content"], "all finished");

    let again = reply(decide(&mut s, &id, &cmd_id, "approve", Body::Empty));
    assert_eq!(again.status, 404);
}

#[test]
fn serve_approval_deny_hermetic() {
    let mut s = server(Some(APPROVAL_SCRIPT));
    let mut frames = Vec::new();
    let (id, cmd_id) = waiting(&mut s, &mut frames);

    let d = decide(
        &mut s,
        &id,
        &cmd_id,
        "deny",
        Body::Denial {
            reason: Some("no network access".to_string()),
        },
    );
    let effects = d.effects;
    match d.answer {
        Answer::Reply(r) => assert_eq!(r.status, 200),
        other => panic!("no reply: {other:?}"),
    }
    assert!(run(&mut s, effects, &mut frames).is_none());

    let g = get(&mut s, &id);
    assert_eq!(g["state"], "idle");
    let tool = tool_msg(&g);
    assert!(
        tool.contains("denied by operator") && tool.contains("no network access"),
        "deny reason not fed back: {tool}"
    );
    assert_eq!(
        tool,
        "{\"status\":null,\"stdout\":\"\",\"stderr\":\"\",\"remaining_commands\":4,\"error\":\"Command denied by operator: no network access\"}"
    );
}

#[test]
fn serve_approval_timeout_hermetic() {
    let mut s = server(Some(APPROVAL_SCRIPT));
    let mut frames = Vec::new();
    let (id, cmd_id) = waiting(&mut s, &mut frames);
    let effects = s.expire(&id, &cmd_id);
    assert!(run(&mut s, effects, &mut frames).is_none());

    let g = get(&mut s, &id);
    let tool = tool_msg(&g);
    assert!(tool.contains("approval timed out"), "auto-deny reason missing: {tool}");
    assert_eq!(g["state"], "idle");
    // A timer that rings late does nothing.
    assert!(s.expire(&id, &cmd_id).is_none());
}

#[test]
fn serve_index_ui_hermetic() {
    let mut s = server(None);
    let r = reply(s.handle(request("GET", "/", Body::Empty)));
    assert_eq!(r.status, 200);
    assert!(r.content_type.starts_with("text/html"), "GET / is not text/html");
    let body = r.body;
    assert!(body.contains("<title>ocha"), "missing title");
    assert!(body.contains("EventSource"), "UI doesn't use SSE");
    assert!(body.contains("/api/sessions"), "UI not wired to the API");
    for needle in [
        "http://",
        "https://",
        "//cdn",
        "unpkg",
        "googleapis",
        "jsdelivr",
    ] {
        assert!(
            !body.contains(needle),
            "embedded UI references an external origin: {needle}"
        );
    }
}

// ---- Further cases ----

#[test]
fn sessions_are_numbered_in_hexadecimal_and_never_again() {
    let mut s = server(None);
    let mut last = String::new();
    for _ in 0..11 {
        last = create(&mut s);
    }
    assert_eq!(last, "s_b");
    let (status, _) = ask(&mut s, "DELETE", "/api/sessions/s_b", Body::Empty);
    assert_eq!(status, 200);
    assert_eq!(create(&mut s), "s_c");
    let (_, list) = ask(&mut s, "GET", "/api/sessions", Body::Empty);
    let ids: Vec<&str> = list
        .as_array()
        .unwrap()
        .iter()
        .map(|x| x["id"].as_str().unwrap())
        .collect();
    assert_eq!(
        ids,
        vec!["s_1", "s_2", "s_3", "s_4", "s_5", "s_6", "s_7", "s_8", "s_9", "s_a", "s_c"]
    );
}

#[test]
fn texts_of_a_session_are_exact() {
    let mut s = server(None);
    let wanted = CreateSessionReq {
        backend: Some("nonsense".to_string()),
        model: Some("m".to_string()),
        ..CreateSessionReq::default()
    };
    let r = reply(s.handle_at(
        request("POST", "/api/sessions", Body::Session(wanted)),
        "2026-05-19T00:00:00+00:00".to_string(),
    ));
    assert_eq!(
        r.body,
        "{\"created_at\":\"2026-05-19T00:00:00+00:00\",\"id\":\"s_1\",\"state\":\"idle\"}"
    );
    let r = reply(s.handle(request("GET", "/api/sessions/s_1", Body::Empty)));
    assert_eq!(
        r.body,
        "{\"config\":{\"approval_mode\":\"gated\",\"backend\":\"nonsense\",\"command_per_response\":5,\"model\":\"m\",\"system\":null},\"created_at\":\"2026-05-19T00:00:00+00:00\",\"id\":\"s_1\",\"messages\":[],\"pending_command\":null,\"state\":\"idle\"}"
    );
    let r = reply(s.handle(request("GET", "/api/sessions/", Body::Empty)));
    assert_eq!(
        r.body,
        "[{\"config\":{\"approval_mode\":\"gated\",\"backend\":\"nonsense\",\"command_per_response\":5,\"model\":\"m\",\"system\":null},\"id\":\"s_1\",\"messages\":0,\"state\":\"idle\"}]"
    );
    let r = reply(s.handle(request("GET", "/api/health", Body::Empty)));
    assert_eq!(r.body, "{\"ok\":true,\"version\":\"0.1.0\"}");
}

#[test]
fn a_request_is_dated_with_the_present() {
    let mut s = server(None);
    let id = create(&mut s);
    let at = get(&mut s, &id)["created_at"].as_str().unwrap().to_string();
    assert!(chrono::DateTime::parse_from_rfc3339(&at).is_ok(), "{at}");
}

#[test]
fn settings_of_a_request_come_before_the_defaults() {
    let mut s = AppState::new(
        ServeDefaults {
            system: Some("default".to_string()),
            command_per_response: 2,
            ..defaults(BackendKind::Ollama)
        },
        env(false, None),
        "v".to_string(),
    );
    let wanted = CreateSessionReq {
        backend: Some("ollama".to_string()),
        server: Some("eevee".to_string()),
        port: Some(9),
        model: Some("m".to_string()),
        max_tokens: Some(7),
        ..CreateSessionReq::default()
    };
    let (_, v) = ask(&mut s, "POST", "/api/sessions", Body::Session(wanted));
    let id = v["id"].as_str().unwrap().to_string();
    let e = post(&mut s, &id, "hi").effects.unwrap();
    let e = s.progress(&id, e.turn, TurnEvent::Drawn(Vec::new())).unwrap();
    match e.work {
        Some(Work::Chat { config, system, messages }) => {
            assert_eq!(config.server, "eevee");
            assert_eq!(config.port, 9);
            assert_eq!(config.model.as_deref(), Some("m"));
            assert_eq!(config.max_tokens, 7);
            assert_eq!(system.as_deref(), Some("default"));
            assert_eq!(messages.len(), 1);
            match build_backend(&config, s.env()).unwrap_or_else(|e| panic!("{e}")).chat(None, &messages) {
                ChatCall::Http(call) => assert_eq!(call.url, "http://eevee:9/api/chat"),
                other => panic!("not over HTTP: {other:?}"),
            }
        }
        other => panic!("no chat: {other:?}"),
    }
}

#[test]
fn bodies_that_cannot_be_used_are_refused() {
    let mut s = server(None);
    let (status, v) = ask(&mut s, "POST", "/api/sessions", Body::Invalid("eof".to_string()));
    assert_eq!(status, 400);
    assert_eq!(v["error"], "invalid JSON: eof");
    let (status, v) = ask(&mut s, "POST", "/api/sessions", Body::Unreadable("gone".to_string()));
    assert_eq!(status, 400);
    assert_eq!(v["error"], "gone");
    let id = create(&mut s);
    let path = format!("/api/sessions/{id}/messages");
    let (status, v) = ask(&mut s, "POST", &path, Body::Invalid("eof".to_string()));
    assert_eq!(status, 400);
    assert_eq!(v["error"], "invalid JSON: eof");
    let (status, v) = ask(&mut s, "POST", &path, Body::Denial { reason: None });
    assert_eq!(status, 400);
    assert_eq!(v["error"], "invalid JSON: not what this path takes");
}

#[test]
fn one_turn_at_a_time() {
    let mut s = server(Some(APPROVAL_SCRIPT));
    let mut frames = Vec::new();
    let (id, _) = waiting(&mut s, &mut frames);
    let before = get(&mut s, &id);
    let h = post(&mut s, &id, "again");
    assert!(h.effects.is_none());
    assert_eq!(reply(h).status, 409);
    assert_eq!(get(&mut s, &id), before);
    // Another session is not concerned.
    let other = create(&mut s);
    assert_eq!(reply(post(&mut s, &other, "hi")).status, 202);
}

#[test]
fn nothing_waits_where_nobody_is_asked() {
    let mut s = server(Some(APPROVAL_SCRIPT));
    let wanted = CreateSessionReq {
        approval_mode: Some("auto".to_string()),
        ..CreateSessionReq::default()
    };
    let (_, v) = ask(&mut s, "POST", "/api/sessions", Body::Session(wanted));
    let id = v["id"].as_str().unwrap().to_string();
    let mut frames = Vec::new();
    let h = post(&mut s, &id, "go");
    assert!(run(&mut s, h.effects, &mut frames).is_none());
    assert!(!frames.iter().any(|f| f.contains("command_pending")));
    assert!(tool_msg(&get(&mut s, &id)).contains("m4ok"));
}

#[test]
fn work_never_decides() {
    let mut s = server(Some(APPROVAL_SCRIPT));
    let mut frames = Vec::new();
    let (id, _) = waiting(&mut s, &mut frames);
    let before = get(&mut s, &id);
    assert!(s.progress(&id, 1, TurnEvent::Decided(Decision::Approve)).is_none());
    assert_eq!(get(&mut s, &id), before);
}

#[test]
fn a_command_can_be_denied_without_a_reason() {
    for body in [Body::Empty, Body::Denial { reason: None }] {
        let mut s = server(Some(APPROVAL_SCRIPT));
        let mut frames = Vec::new();
        let (id, cmd_id) = waiting(&mut s, &mut frames);
        let h = decide(&mut s, &id, &cmd_id, "deny", body);
        assert!(run(&mut s, h.effects, &mut frames).is_none());
        assert!(tool_msg(&get(&mut s, &id)).contains("Command denied by operator: no reason given"));
    }
    let mut s = server(Some(APPROVAL_SCRIPT));
    let mut frames = Vec::new();
    let (id, cmd_id) = waiting(&mut s, &mut frames);
    let h = decide(&mut s, &id, &cmd_id, "deny", Body::Invalid("eof".to_string()));
    assert!(h.effects.is_none());
    assert_eq!(reply(h).status, 400);
    assert_eq!(pending_of(&mut s, &id), cmd_id);
}

#[test]
fn what_had_come_of_an_answer_survives_a_cancel() {
    let mut s = server(None);
    let id = create(&mut s);
    let e = post(&mut s, &id, "hi").effects.unwrap();
    let turn = e.turn;
    s.progress(&id, turn, TurnEvent::Drawn(Vec::new())).unwrap();
    s.token(&id, turn, "half an").unwrap();
    s.token(&id, turn, " answer").unwrap();
    let h = s.handle(request("POST", &format!("/api/sessions/{id}/cancel"), Body::Empty));
    let kinds: Vec<(String, String)> = h
        .effects
        .as_ref()
        .unwrap()
        .frames
        .iter()
        .map(|f| parse_frame(f))
        .collect();
    assert_eq!(kinds[0].0, "message");
    assert_eq!(kinds[1].1, "{\"state\":\"canceled\"}");
    assert_eq!(kinds[2].1, "{\"state\":\"idle\"}");
    assert_eq!(reply(h).body, "{\"state\":\"idle\"}");
    let g = get(&mut s, &id);
    assert_eq!(g["state"], "idle");
    assert_eq!(g["messages"][1]["content"], "half an answer");
    // What still comes for the turn does not count.
    assert!(s.token(&id, turn, "!").is_none());
    assert!(s.progress(&id, turn, TurnEvent::Answered("late".to_string())).is_none());
    assert_eq!(get(&mut s, &id), g);
    // There is nothing left to stop.
    let h = s.handle(request("POST", &format!("/api/sessions/{id}/cancel"), Body::Empty));
    assert!(h.effects.is_none());
    assert_eq!(reply(h).status, 200);
    let h = s.handle(request("POST", "/api/sessions/s_99/cancel", Body::Empty));
    assert_eq!(reply(h).status, 404);
}

#[test]
fn a_waiting_command_can_be_canceled() {
    let mut s = server(Some(APPROVAL_SCRIPT));
    let mut frames = Vec::new();
    let (id, cmd_id) = waiting(&mut s, &mut frames);
    let h = s.handle(request("POST", &format!("/api/sessions/{id}/cancel"), Body::Empty));
    assert_eq!(reply(h).status, 200);
    assert_eq!(reply(decide(&mut s, &id, &cmd_id, "approve", Body::Empty)).status, 404);
    assert_eq!(get(&mut s, &id)["state"], "idle");
    // A later command has another name.
    let h = post(&mut s, &id, "again");
    assert!(run(&mut s, h.effects, &mut frames).is_none());
    assert_eq!(get(&mut s, &id)["messages"].as_array().unwrap().len(), 4);
}

#[test]
fn work_for_a_session_that_is_gone_does_not_count() {
    let mut s = server(None);
    let id = create(&mut s);
    let e = post(&mut s, &id, "hi").effects.unwrap();
    ask(&mut s, "DELETE", &format!("/api/sessions/{id}"), Body::Empty);
    assert!(s.progress(&id, e.turn, TurnEvent::Drawn(Vec::new())).is_none());
    let h = s.handle(request("GET", &format!("/api/sessions/{id}/events"), Body::Empty));
    assert_eq!(reply(h).status, 404);
}

#[test]
fn a_failed_turn_is_told_and_over() {
    let mut s = server(None);
    let id = create(&mut s);
    let e = post(&mut s, &id, "hi").effects.unwrap();
    s.progress(&id, e.turn, TurnEvent::Drawn(Vec::new())).unwrap();
    let e = s
        .progress(&id, e.turn, TurnEvent::Failed("no route".to_string()))
        .unwrap();
    assert!(e.work.is_none());
    let kinds: Vec<(String, String)> = e.frames.iter().map(|f| parse_frame(f)).collect();
    assert_eq!(kinds[0], ("error".to_string(), "{\"message\":\"no route\"}".to_string()));
    assert_eq!(kinds[1].1, "{\"state\":\"error\"}");
    assert_eq!(kinds[2].1, "{\"state\":\"idle\"}");
    assert_eq!(get(&mut s, &id)["state"], "idle");
}

#[test]
fn a_conversation_is_saved_after_each_turn() {
    let mut s = server(Some("answer"));
    let wanted = CreateSessionReq {
        persist_path: Some("/tmp/web.json".to_string()),
        ..CreateSessionReq::default()
    };
    let (_, v) = ask(&mut s, "POST", "/api/sessions", Body::Session(wanted));
    let id = v["id"].as_str().unwrap().to_string();
    let mut frames = Vec::new();
    let h = post(&mut s, &id, "hi");
    match run(&mut s, h.effects, &mut frames) {
        Some(Work::Save { path, messages }) => {
            assert_eq!(path, "/tmp/web.json");
            assert_eq!(messages.len(), 2);
            assert_eq!(messages[1].content, "answer");
        }
        other => panic!("not saved: {other:?}"),
    }
}

#[test]
fn reminders_are_told_and_not_kept() {
    let mut s = server(Some("answer"));
    let wanted = CreateSessionReq {
        reminders: Some(vec![Reminder {
            probability_bits: 1.0f32.to_bits(),
            prompt: " (be brief)".to_string(),
            timing: Timing::Post,
            init: false,
        }]),
        ..CreateSessionReq::default()
    };
    let (_, v) = ask(&mut s, "POST", "/api/sessions", Body::Session(wanted));
    let id = v["id"].as_str().unwrap().to_string();
    let e = post(&mut s, &id, "hi").effects.unwrap();
    let e = s.progress(&id, e.turn, TurnEvent::Drawn(vec![true])).unwrap();
    assert_eq!(
        e.frames,
        vec!["event: reminder\ndata: {\"text\":\"(be brief)\"}\n\n".to_string()]
    );
    match e.work {
        Some(Work::Chat { messages, .. }) => assert_eq!(messages[0].content, "hi (be brief)"),
        other => panic!("no chat: {other:?}"),
    }
    assert_eq!(get(&mut s, &id)["messages"][0]["content"], "hi");
    // A draw of another length is nothing that the turn waits for.
    assert!(s.progress(&id, e.turn, TurnEvent::Drawn(vec![true, true])).is_none());
}

#[test]
fn models_are_asked_for_where_they_are_not_known() {
    let mut s = AppState::new(defaults(BackendKind::Ollama), env(false, None), "v".to_string());
    match s.handle(request("GET", "/api/models", Body::Empty)).answer {
        Answer::Models { kind, call } => {
            assert_eq!(kind, BackendKind::Ollama);
            assert_eq!(call.url, "http://127.0.0.1:11434/api/tags");
        }
        other => panic!("not asked for: {other:?}"),
    }
    // Without a key the Messages API cannot be asked.
    let (status, v) = ask(&mut s, "GET", "/api/models?x=1&backend=family", Body::Empty);
    assert_eq!(status, 400);
    assert_eq!(
        v["error"],
        "ANTHROPIC_API_KEY environment variable is required for the family backend"
    );
    let (status, v) = ask(&mut s, "GET", "/api/models?backend=family-cli", Body::Empty);
    assert_eq!(status, 200);
    assert_eq!(v["models"][2]["name"], "haiku");
    assert_eq!(v["models"][2]["detail"], "family CLI alias (--model)");
}

#[test]
fn what_a_backend_says_of_its_models_is_passed_on() {
    let r = models_reply(Ok(vec![ModelInfo {
        name: "m".to_string(),
        detail: "d".to_string(),
    }]));
    assert_eq!(r.status, 200);
    assert_eq!(r.body, "{\"models\":[{\"detail\":\"d\",\"name\":\"m\"}]}");
    let r = models_reply(Err("down".to_string()));
    assert_eq!(r.status, 502);
    assert_eq!(r.body, "{\"error\":\"down\"}");
}

#[test]
fn events_stay_on_their_lines() {
    let mut s = server(None);
    let id = create(&mut s);
    let e = post(&mut s, &id, "hi").effects.unwrap();
    s.progress(&id, e.turn, TurnEvent::Drawn(Vec::new())).unwrap();
    let e = s.token(&id, e.turn, "two\nlines\r\"and\" a \u{1} tab\t").unwrap();
    let f = &e.frames[0];
    assert_eq!(f.split('\n').count(), 4);
    let (kind, data) = parse_frame(f);
    assert_eq!(kind, "token");
    let v: Value = serde_json::from_str(&data).unwrap();
    assert_eq!(v["text"], "two\nlines\r\"and\" a \u{1} tab\t");
}

#[test]
fn paths_lead_where_they_say() {
    assert!(matches!(route_of("GET", "/"), Route::Index));
    assert!(matches!(route_of("GET", ""), Route::Index));
    assert!(matches!(route_of("POST", "/"), Route::Unknown));
    assert!(matches!(route_of("GET", "/api/health/"), Route::Health));
    assert!(matches!(route_of("GET", "//api/models"), Route::Models));
    assert!(matches!(route_of("POST", "/api/sessions"), Route::CreateSession));
    assert!(matches!(route_of("GET", "/api/sessions"), Route::ListSessions));
    assert!(matches!(route_of("PUT", "/api/sessions"), Route::Unknown));
    assert!(matches!(route_of("GET", "/api//sessions"), Route::Unknown));
    assert!(matches!(route_of("GET", "/api/sessions/x/y/z"), Route::Unknown));
    match route_of("POST", "/api/sessions/s_1/commands/c_2/deny") {
        Route::Deny { id, cmd_id } => {
            assert_eq!(id, "s_1");
            assert_eq!(cmd_id, "c_2");
        }
        other => panic!("{other:?}"),
    }
    assert!(matches!(route_of("GET", "/api/sessions/s_1/commands/c_2/deny"), Route::Unknown));
    assert!(matches!(route_of("POST", "/api/sessions/s_1/commands/c_2/shrug"), Route::Unknown));
    assert!(matches!(route_of("DELETE", "/api/sessions/s_1"), Route::DeleteSession { .. }));
    assert!(matches!(route_of("POST", "/api/sessions/s_1/cancel"), Route::Cancel { .. }));
}

#[test]
fn the_first_backend_of_a_query_counts() {
    assert_eq!(asked_backend_of("a=1&backend=x&backend=y").as_deref(), Some("x"));
    assert_eq!(asked_backend_of("backend=").as_deref(), Some(""));
    assert_eq!(asked_backend_of("a=backend=x"), None);
    assert_eq!(asked_backend_of(""), None);
}

#[test]
fn the_time_for_a_decision_is_read_from_a_setting() {
    assert_eq!(approval_timeout(None), 600);
    for s in [
        "0", "1", "30", "+7", "007", "18446744073709551615", "18446744073709551616", "", "+", "-1",
        " 1", "1s", "++1", "99999999999999999999999",
    ] {
        let expected: u64 = s.parse().unwrap_or(600);
        assert_eq!(approval_timeout(Some(s)), expected, "{s:?}");
    }
}

#[test]
fn the_list_is_what_was_created_and_not_deleted() {
    let mut s = server(None);
    let mut standing: Vec<String> = Vec::new();
    let mut given: Vec<String> = Vec::new();
    for step in 0..40usize {
        if step % 3 == 2 {
            let id = standing.remove(step % standing.len());
            let path = format!("/api/sessions/{id}");
            assert_eq!(ask(&mut s, "DELETE", &path, Body::Empty).0, 200);
            assert_eq!(ask(&mut s, "DELETE", &path, Body::Empty).0, 404);
        } else {
            let id = create(&mut s);
            assert!(!given.contains(&id));
            given.push(id.clone());
            standing.push(id);
        }
        if step % 5 == 0 {
            let last = standing.last().unwrap().clone();
            assert_eq!(reply(post(&mut s, &last, "hi")).status, 202);
        }
        let (status, list) = ask(&mut s, "GET", "/api/sessions", Body::Empty);
        assert_eq!(status, 200);
        let list = list.as_array().unwrap();
        let listed: Vec<&str> = list.iter().map(|x| x["id"].as_str().unwrap()).collect();
        assert_eq!(listed, standing);
        for x in list {
            let g = get(&mut s, x["id"].as_str().unwrap());
            assert_eq!(x["state"], g["state"]);
            assert_eq!(x["config"], g["config"]);
            assert_eq!(x["messages"].as_u64().unwrap() as usize, g["messages"].as_array().unwrap().len());
        }
    }
}
