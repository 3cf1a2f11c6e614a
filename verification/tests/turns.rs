//! The turn loop: what each event leads to.

use ocha::backend::{Message, Role, Session};
use ocha::reminders::{Reminder, Timing};
use ocha::run_turn::{run_turn, OutOfTurn, Phase, RunTurnConfig, Step, Turn, TurnAction, TurnEvent};
use ocha::tool::{report, request_json, result_json, result_text, CommandRequest, Outcome};
use ocha::turn::{observe, AutoApprover, CommandApprover, Decision, Notice, StdoutObserver};

const ASK: &str = "doing it\n!!!OCHA_RUN_CMD{\"binary\":\"ls\"} now";

fn config(prompt: &str, budget: usize) -> RunTurnConfig {
    RunTurnConfig {
        system: Some("sys".to_string()),
        initial_prompt: prompt.to_string(),
        reminders: Vec::new(),
        command_per_response: budget,
        is_new_session: true,
    }
}

fn start(prompt: &str, budget: usize) -> (Session, Turn) {
    let mut session = Session::default();
    let (turn, step) = run_turn(config(prompt, budget), &mut session);
    assert!(matches!(step.action, TurnAction::Draw));
    (session, turn)
}

fn next(turn: &mut Turn, session: &mut Session, e: TurnEvent) -> Step {
    turn.step(session, e).unwrap_or_else(|_| panic!("out of turn"))
}

fn answer(turn: &mut Turn, session: &mut Session, text: &str) -> Step {
    next(turn, session, TurnEvent::Drawn(Vec::new()));
    next(turn, session, TurnEvent::Answered(text.to_string()))
}

fn ls() -> CommandRequest {
    CommandRequest {
        timeout: 5,
        binary: "ls".to_string(),
        args: vec!["-l".to_string(), "a b".to_string()],
        description: "d".to_string(),
    }
}

fn shown(step: &Step) -> String {
    step.notices.iter().map(|n| observe(&StdoutObserver, n)).collect()
}

fn said(step: &Step) -> Vec<(&str, String)> {
    step.logs.iter().map(|l| (l.entity, l.content.to_string())).collect()
}

#[test]
fn an_answer_ends_the_turn() {
    let mut session = Session::default();
    let (mut turn, step) = run_turn(config("hi", 1), &mut session);
    assert_eq!(said(&step), vec![("user", "\"hi\"".to_string())]);
    let step = next(&mut turn, &mut session, TurnEvent::Drawn(Vec::new()));
    match &step.action {
        TurnAction::Chat { system, messages } => {
            assert_eq!(system.as_deref(), Some("sys"));
            assert_eq!(messages.len(), 1);
            assert_eq!(messages[0].role, Role::User);
        }
        other => panic!("{other:?}"),
    }
    let step = next(&mut turn, &mut session, TurnEvent::Answered(" hello \n".to_string()));
    assert!(matches!(step.action, TurnAction::Done));
    assert_eq!(shown(&step), "\n");
    assert_eq!(said(&step), vec![("llm", "\"hello\"".to_string())]);
    assert_eq!(session.messages.len(), 2);
    assert_eq!(session.messages[1].content, " hello \n");
    assert!(matches!(turn.phase(), Phase::Over));
    let again = turn.step(&mut session, TurnEvent::Answered("x".to_string()));
    assert!(matches!(again, Err(OutOfTurn)));
    assert_eq!(session.messages.len(), 2);
}

#[test]
fn a_blank_answer_is_not_logged() {
    let (mut session, mut turn) = start("hi", 1);
    let step = answer(&mut turn, &mut session, " \n");
    assert!(step.logs.is_empty());
    assert!(matches!(step.action, TurnAction::Done));
}

#[test]
fn an_approved_command_runs_and_its_result_is_fed_back() {
    let (mut session, mut turn) = start("hi", 2);
    let step = answer(&mut turn, &mut session, ASK);
    match &step.action {
        TurnAction::Parse(p) => assert_eq!(p, "{\"binary\":\"ls\"}"),
        other => panic!("{other:?}"),
    }
    assert_eq!(turn.remaining(), 1);
    let step = next(&mut turn, &mut session, TurnEvent::Parsed(Ok(ls())));
    match &step.action {
        TurnAction::Decide(r) => assert_eq!(r.binary, "ls"),
        other => panic!("{other:?}"),
    }
    let decision = AutoApprover.decide(&ls());
    let step = next(&mut turn, &mut session, TurnEvent::Decided(decision));
    assert!(matches!(&step.action, TurnAction::Execute(r) if r.binary == "ls"));
    assert_eq!(shown(&step), "[Payload: {\"binary\":\"ls\"}]\n[Executing: ls -l a b]\n");
    let outcome = Outcome::Exited {
        status: Some(0),
        stdout: "out\n".to_string(),
        stderr: "err".to_string(),
    };
    let step = next(&mut turn, &mut session, TurnEvent::Finished(outcome));
    let json = "{\"status\":0,\"stdout\":\"out\\n\",\"stderr\":\"err\",\"remaining_commands\":1}";
    assert_eq!(
        shown(&step),
        format!("STDOUT:\nout\n\nSTDERR:\nerr\n[Result: {json}]\n")
    );
    // The log has the members in the order of their keys.
    let logged = "{\"remaining_commands\":1,\"status\":0,\"stderr\":\"err\",\"stdout\":\"out\\n\"}";
    assert_eq!(said(&step), vec![("tool", logged.to_string())]);
    assert_eq!(session.messages.last().unwrap().content, json);
    assert_eq!(session.messages.last().unwrap().role, Role::Tool);
    assert!(matches!(step.action, TurnAction::Draw));
    let step = answer(&mut turn, &mut session, "done");
    assert!(matches!(step.action, TurnAction::Done));
}

#[test]
fn refusals_are_fed_back() {
    // What cannot be decoded.
    let (mut session, mut turn) = start("hi", 2);
    answer(&mut turn, &mut session, ASK);
    let step = next(&mut turn, &mut session, TurnEvent::Parsed(Err("bad".to_string())));
    assert!(matches!(step.action, TurnAction::Draw));
    assert_eq!(
        session.messages.last().unwrap().content,
        "{\"status\":null,\"stdout\":\"\",\"stderr\":\"\",\"remaining_commands\":1,\"error\":\"Failed to parse command request: bad\"}"
    );
    // What is denied.
    answer(&mut turn, &mut session, ASK);
    next(&mut turn, &mut session, TurnEvent::Parsed(Ok(ls())));
    let decision = Decision::Deny {
        reason: "no".to_string(),
    };
    let step = next(&mut turn, &mut session, TurnEvent::Decided(decision));
    assert!(matches!(step.action, TurnAction::Draw));
    assert_eq!(
        session.messages.last().unwrap().content,
        "{\"status\":null,\"stdout\":\"\",\"stderr\":\"\",\"remaining_commands\":0,\"error\":\"Command denied by operator: no\"}"
    );
    // What is asked for when nothing is left.
    let step = answer(&mut turn, &mut session, ASK);
    assert!(matches!(step.action, TurnAction::Draw));
    assert_eq!(
        session.messages.last().unwrap().content,
        "{\"status\":null,\"stdout\":\"\",\"stderr\":\"\",\"remaining_commands\":0,\"error\":\"Command execution limit exceeded per response.\"}"
    );
}

#[test]
fn a_failure_ends_the_turn_and_keeps_the_prompt() {
    let (mut session, mut turn) = start("hi", 1);
    next(&mut turn, &mut session, TurnEvent::Drawn(Vec::new()));
    let step = next(&mut turn, &mut session, TurnEvent::Failed("down".to_string()));
    assert!(matches!(step.action, TurnAction::Abort(m) if m == "down"));
    assert_eq!(session.messages.len(), 1);
}

#[test]
fn reminders_go_out_and_are_not_kept() {
    let mut session = Session {
        messages: vec![Message::new(Role::User, "old")],
    };
    let mut c = config("new", 1);
    for (prompt, init) in [("I ", true), (" R\n", false)] {
        c.reminders.push(Reminder {
            probability_bits: 0,
            prompt: prompt.to_string(),
            timing: if init { Timing::Pre } else { Timing::Post },
            init,
        });
    }
    let (mut turn, _) = run_turn(c, &mut session);
    assert_eq!(turn.reminders().len(), 2);
    let step = next(&mut turn, &mut session, TurnEvent::Drawn(vec![false, true]));
    assert_eq!(shown(&step), "[Reminder: I]\n[Reminder: R]\n");
    match &step.action {
        TurnAction::Chat { messages, .. } => {
            assert_eq!(messages[0].content, "old");
            assert_eq!(messages[1].content, "I new R\n");
        }
        other => panic!("{other:?}"),
    }
    assert_eq!(session.messages[1].content, "new");
    // Only the first prompt of a turn is the first of a session.
    next(&mut turn, &mut session, TurnEvent::Answered(ASK.to_string()));
    next(&mut turn, &mut session, TurnEvent::Parsed(Err("bad".to_string())));
    let step = next(&mut turn, &mut session, TurnEvent::Drawn(vec![true, false]));
    assert!(step.notices.is_empty());
}

#[test]
fn events_that_nobody_waits_for_change_nothing() {
    let (mut session, mut turn) = start("hi", 1);
    for e in [
        TurnEvent::Drawn(vec![true]),
        TurnEvent::Answered("x".to_string()),
        TurnEvent::Failed("x".to_string()),
        TurnEvent::Parsed(Ok(ls())),
        TurnEvent::Decided(Decision::Approve),
        TurnEvent::Finished(Outcome::TimedOut),
    ] {
        assert!(matches!(turn.step(&mut session, e), Err(OutOfTurn)));
        assert!(matches!(turn.phase(), Phase::Prompting));
        assert_eq!(session.messages.len(), 1);
    }
}

#[test]
fn outcomes_of_commands_are_reported() {
    let text = |o: Outcome| result_text(&report(o, 3));
    assert_eq!(
        result_json(&report(Outcome::TimedOut, 3)).to_string(),
        "{\"error\":\"Execution timed out\",\"remaining_commands\":3,\"status\":null,\"stderr\":\"\",\"stdout\":\"\"}"
    );
    assert_eq!(
        text(Outcome::Exited {
            status: Some(-1),
            stdout: String::new(),
            stderr: String::new()
        }),
        "{\"status\":-1,\"stdout\":\"\",\"stderr\":\"\",\"remaining_commands\":3}"
    );
    assert_eq!(
        text(Outcome::TimedOut),
        "{\"status\":null,\"stdout\":\"\",\"stderr\":\"\",\"remaining_commands\":3,\"error\":\"Execution timed out\"}"
    );
    assert!(text(Outcome::WaitFailed("w".to_string())).contains("\"Execution failed: w\""));
    assert!(text(Outcome::SpawnFailed("s".to_string())).contains("\"Failed to spawn: s\""));
    assert_eq!(
        request_json(&ls()).to_string(),
        "{\"args\":[\"-l\",\"a b\"],\"binary\":\"ls\",\"description\":\"d\",\"timeout\":5}"
    );
}

#[test]
fn the_terminal_shows_fragments_as_they_come() {
    assert_eq!(observe(&StdoutObserver, &Notice::Token("fr\nag".to_string())), "fr\nag");
    assert_eq!(observe(&StdoutObserver, &Notice::ResponseEnd), "\n");
}
