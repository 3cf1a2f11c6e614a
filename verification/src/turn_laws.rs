//! What holds of every turn, whatever the model, the operator and the commands do.

use crate::backend::{Entry, Role};
use crate::command;
use crate::json;
use crate::reminders;
use crate::reminders::ReminderView;
use crate::run_turn;
use crate::run_turn::{ActionView, EventView, LogView, PhaseView, Progress, TurnView};
use crate::text;
use crate::tool;
use crate::tool::{OutcomeView, RequestView, ResultView};
use crate::turn::{AutoApprover, CommandApprover, DecisionView, NoticeView};
use vstd::prelude::*;

verus! {

// ---------------------------------------------------------------------------
// Runs
// ---------------------------------------------------------------------------

/// Where a turn stands, and what has been done on the way.
#[verifier::ext_equal]
pub struct Run {
    pub turn: TurnView,
    pub history: Seq<Entry>,
    pub actions: Seq<ActionView>,
}

/// A run that goes on with one more event. An event that the loop does not wait
/// for changes nothing.
pub open spec fn and_then(run: Run, e: EventView) -> Run {
    match run_turn::advance(run.turn, run.history, e) {
        Some(p) => Run {
            turn: p.turn,
            history: p.history,
            actions: run.actions.push(p.step.action),
        },
        None => run,
    }
}

/// A run over any events at all.
pub open spec fn run_over(start: Run, events: Seq<EventView>) -> Run
    decreases events.len(),
{
    if events.len() == 0 {
        start
    } else {
        and_then(run_over(start, events.drop_last()), events.last())
    }
}

/// A run that has just been opened.
pub open spec fn opened_run(p: Progress) -> Run {
    Run { turn: p.turn, history: p.history, actions: seq![p.step.action] }
}

/// How many commands a list of actions runs.
pub open spec fn executions(actions: Seq<ActionView>) -> nat
    decreases actions.len(),
{
    if actions.len() == 0 {
        0
    } else {
        executions(actions.drop_last()) + if actions.last() is Execute {
            1nat
        } else {
            0nat
        }
    }
}

/// How many more commands may run: those that may be asked for, and the one that
/// has been asked for already.
pub open spec fn may_run(t: TurnView) -> nat {
    t.remaining + if t.phase is Parsing || t.phase is Deciding {
        1nat
    } else {
        0nat
    }
}

// ---------------------------------------------------------------------------
// Approval
// ---------------------------------------------------------------------------

/// Nothing runs unasked. A command is run only in answer to an approval, and it
/// is the very request that the approval was about; and a request is put to
/// approval only when it is what the payload decodes to.
pub proof fn law_nothing_runs_unapproved(t: TurnView, history: Seq<Entry>, e: EventView)
    ensures
        run_turn::advance(t, history, e) matches Some(p) ==> {
            &&& p.step.action matches ActionView::Execute(r) ==> {
                &&& t.phase matches PhaseView::Deciding { request, .. } && request == r
                &&& e == EventView::Decided(DecisionView::Approve)
            }
            &&& p.step.action matches ActionView::Decide(r) ==> {
                &&& t.phase is Parsing
                &&& e == EventView::Parsed(Ok(r))
            }
            &&& p.turn.phase matches PhaseView::Deciding { request, .. } ==> p.step.action
                == ActionView::Decide(request)
        },
{
}

/// In a whole run, each command that runs was put to approval one action before:
/// `Execute` never comes but right behind `Decide` with the same request.
pub proof fn law_each_command_was_put_to_approval(start: Progress, events: Seq<EventView>, i: int)
    requires
        start.turn.phase is Prompting,
        start.step.action is Draw,
        0 <= i < run_over(opened_run(start), events).actions.len(),
        run_over(opened_run(start), events).actions[i] is Execute,
    ensures
        i > 0,
        run_over(opened_run(start), events).actions[i - 1] == ActionView::Decide(
            run_over(opened_run(start), events).actions[i]->Execute_0,
        ),
    decreases events.len(),
{
    let run = run_over(opened_run(start), events);
    if events.len() > 0 {
        let before = run_over(opened_run(start), events.drop_last());
        lemma_last_action(start, events.drop_last());
        match run_turn::advance(before.turn, before.history, events.last()) {
            Some(p) => {
                if i < before.actions.len() {
                    assert(run.actions[i] == before.actions[i]);
                    law_each_command_was_put_to_approval(start, events.drop_last(), i);
                } else {
                    law_nothing_runs_unapproved(before.turn, before.history, events.last());
                    assert(run.actions[i - 1] == before.actions.last());
                }
            },
            None => {
                law_each_command_was_put_to_approval(start, events.drop_last(), i);
            },
        }
    }
}

/// A run that waits for a decision has just asked for it.
proof fn lemma_last_action(start: Progress, events: Seq<EventView>)
    requires
        start.turn.phase is Prompting,
        start.step.action is Draw,
    ensures
        run_over(opened_run(start), events).actions.len() > 0,
        run_over(opened_run(start), events).turn.phase matches PhaseView::Deciding { request, .. }
            ==> run_over(opened_run(start), events).actions.last() == ActionView::Decide(request),
    decreases events.len(),
{
    if events.len() > 0 {
        let before = run_over(opened_run(start), events.drop_last());
        lemma_last_action(start, events.drop_last());
        law_nothing_runs_unapproved(before.turn, before.history, events.last());
    }
}

/// A denied command does not end the turn. The model is told why, in the shape of
/// any other failed command, and is asked again; and the command counts as one of
/// those that it may ask for.
pub proof fn law_denial_is_fed_back(
    t: TurnView,
    history: Seq<Entry>,
    reason: Seq<char>,
    drawn: Seq<bool>,
)
    requires
        t.phase is Deciding,
        drawn.len() == t.reminders.len(),
    ensures
        ({
            let told = tool::jresult(
                tool::refused(t.remaining, "Command denied by operator: "@ + reason),
            );
            let denied = run_turn::advance(
                t,
                history,
                EventView::Decided(DecisionView::Deny { reason }),
            );
            &&& denied matches Some(p) && p.history == history.push(
                Entry { role: Role::Tool, content: told },
            ) && p.turn.remaining == t.remaining && p.step.action == ActionView::Draw
            &&& run_turn::advance(denied->0.turn, denied->0.history, EventView::Drawn(drawn)) matches Some(
                q,
            ) && q.step.action is Chat
        }),
{
}

// ---------------------------------------------------------------------------
// The budget
// ---------------------------------------------------------------------------

proof fn lemma_budget(start: Run, events: Seq<EventView>)
    ensures
        executions(run_over(start, events).actions) + may_run(run_over(start, events).turn)
            <= executions(start.actions) + may_run(start.turn),
    decreases events.len(),
{
    if events.len() > 0 {
        let before = run_over(start, events.drop_last());
        lemma_budget(start, events.drop_last());
        match run_turn::advance(before.turn, before.history, events.last()) {
            Some(p) => {
                assert(before.actions.push(p.step.action).drop_last() =~= before.actions);
            },
            None => {},
        }
    }
}

/// A turn runs no more commands than it may, over any events at all.
pub proof fn law_budget_holds(
    system: Option<Seq<char>>,
    prompt: Seq<char>,
    known: Seq<ReminderView>,
    budget: nat,
    is_new_session: bool,
    history: Seq<Entry>,
    events: Seq<EventView>,
)
    ensures
        executions(
            run_over(
                opened_run(
                    run_turn::opened(system, prompt, known, budget, is_new_session, history),
                ),
                events,
            ).actions,
        ) <= budget,
{
    let start = opened_run(
        run_turn::opened(system, prompt, known, budget, is_new_session, history),
    );
    assert(start.actions.drop_last() =~= Seq::<ActionView>::empty());
    assert(executions(Seq::<ActionView>::empty()) == 0);
    assert(executions(start.actions) == 0);
    lemma_budget(start, events);
}

/// Every command that the model asks for uses one up, whether it is approved,
/// denied or cannot be decoded; and one that comes when none is left is neither
/// decoded nor decided nor run.
pub proof fn law_every_request_counts(t: TurnView, history: Seq<Entry>, answer: Seq<char>)
    requires
        t.phase is Generating,
        command::command_in(answer) is Some,
    ensures
        run_turn::advance(t, history, EventView::Answered(answer)) matches Some(p) && {
            &&& t.remaining > 0 ==> p.turn.remaining == t.remaining - 1 && p.step.action
                == ActionView::Parse(command::command_in(answer)->0)
            &&& t.remaining == 0 ==> p.turn.remaining == 0 && p.step.action == ActionView::Draw
                && p.history.last() == (Entry {
                role: Role::Tool,
                content: tool::jresult(tool::refused(0, run_turn::limit_reason())),
            })
        },
{
}

// ---------------------------------------------------------------------------
// The conversation
// ---------------------------------------------------------------------------

/// A conversation only grows: no event takes back or changes what was said.
pub proof fn law_history_only_grows(start: Run, events: Seq<EventView>)
    ensures
        start.history.is_prefix_of(run_over(start, events).history),
    decreases events.len(),
{
    if events.len() > 0 {
        let before = run_over(start, events.drop_last());
        let after = run_over(start, events);
        law_history_only_grows(start, events.drop_last());
        assert(before.history =~= after.history.take(before.history.len() as int)) by {
            match run_turn::advance(before.turn, before.history, events.last()) {
                Some(p) => {},
                None => {},
            }
        }
        assert(start.history =~= after.history.take(start.history.len() as int));
    }
}

/// Reminders are not remembered. They change what is sent, in the text of the
/// latest turn and nowhere else, and leave the conversation as it is.
pub proof fn law_reminders_are_ephemeral(t: TurnView, history: Seq<Entry>, drawn: Seq<bool>)
    requires
        t.phase is Prompting,
        drawn.len() == t.reminders.len(),
        history.len() > 0,
    ensures
        run_turn::advance(t, history, EventView::Drawn(drawn)) matches Some(p) && {
            &&& p.history == history
            &&& p.step.action matches ActionView::Chat { system, messages } && {
                &&& system == t.system
                &&& messages.len() == history.len()
                &&& messages.last().role == history.last().role
                &&& messages.last().content == reminders::reminded(
                    t.input,
                    reminders::active(t.reminders, t.fresh, drawn),
                )
                &&& forall|i: int| 0 <= i < history.len() - 1 ==> messages[i] == history[i]
            }
        },
{
}

/// What the latest turn said is what is sent next.
pub open spec fn in_step(t: TurnView, history: Seq<Entry>) -> bool {
    t.phase is Prompting ==> history.len() > 0 && history.last().content == t.input
}

/// What is sent for the latest turn is what the conversation holds of it, between
/// the reminders: the two never drift apart.
pub proof fn law_input_is_the_latest_turn(
    system: Option<Seq<char>>,
    prompt: Seq<char>,
    known: Seq<ReminderView>,
    budget: nat,
    is_new_session: bool,
    history: Seq<Entry>,
    events: Seq<EventView>,
)
    ensures
        ({
            let run = run_over(
                opened_run(
                    run_turn::opened(system, prompt, known, budget, is_new_session, history),
                ),
                events,
            );
            in_step(run.turn, run.history)
        }),
    decreases events.len(),
{
    if events.len() > 0 {
        law_input_is_the_latest_turn(
            system,
            prompt,
            known,
            budget,
            is_new_session,
            history,
            events.drop_last(),
        );
    }
}

/// The reminders for the start of a session go with its first prompt only: from
/// the first draw on, no prompt counts as the first.
pub proof fn law_only_the_first_prompt_is_first(start: Run, events: Seq<EventView>)
    requires
        !start.turn.fresh,
    ensures
        !run_over(start, events).turn.fresh,
    decreases events.len(),
{
    if events.len() > 0 {
        law_only_the_first_prompt_is_first(start, events.drop_last());
    }
}

/// And the first draw is where that starts.
pub proof fn law_a_draw_ends_the_start(t: TurnView, history: Seq<Entry>, drawn: Seq<bool>)
    requires
        t.phase is Prompting,
        drawn.len() == t.reminders.len(),
    ensures
        run_turn::advance(t, history, EventView::Drawn(drawn)) matches Some(p) && !p.turn.fresh,
{
}

// ---------------------------------------------------------------------------
// Ending
// ---------------------------------------------------------------------------

/// A turn ends with an answer that asks for no command, and with no other one; a
/// turn that is over takes nothing in any more.
pub proof fn law_a_turn_ends_with_an_answer(t: TurnView, history: Seq<Entry>, e: EventView)
    ensures
        run_turn::advance(t, history, e) matches Some(p) ==> (p.step.action is Done <==> (e matches EventView::Answered(
            answer,
        ) && command::command_in(answer) is None)),
        run_turn::advance(t, history, e) matches Some(p) ==> (p.turn.phase is Over
            <==> p.step.action is Done || p.step.action is Abort),
        t.phase is Over ==> run_turn::advance(t, history, e) is None,
{
}

/// The event that answers an action.
pub open spec fn answers(e: EventView, phase: PhaseView, n: nat) -> bool {
    match phase {
        PhaseView::Prompting => e matches EventView::Drawn(d) && d.len() == n,
        PhaseView::Generating => e is Answered || e is Failed,
        PhaseView::Parsing { .. } => e is Parsed,
        PhaseView::Deciding { .. } => e is Decided,
        PhaseView::Executing => e is Finished,
        PhaseView::Over => false,
    }
}

/// The loop never gets stuck: whatever comes of the action that it asked for, it
/// goes on from there; and nothing else moves it.
pub proof fn law_every_answer_is_taken(t: TurnView, history: Seq<Entry>, e: EventView)
    ensures
        run_turn::advance(t, history, e) is Some <==> answers(e, t.phase, t.reminders.len()),
{
}

/// At a terminal every command that is asked for is approved, so that no turn
/// there is ever told of a denial.
pub proof fn law_the_terminal_never_denies(t: TurnView, history: Seq<Entry>, request: RequestView)
    requires
        t.phase matches PhaseView::Deciding { request: r, .. } && r == request,
    ensures
        run_turn::advance(
            t,
            history,
            EventView::Decided(AutoApprover.decides(request)),
        ) matches Some(p) && p.step.action == ActionView::Execute(request),
{
}

// ---------------------------------------------------------------------------
// How many commands are left
// ---------------------------------------------------------------------------

/// Whether an event is an answer that asks for a command.
pub open spec fn asks(e: EventView) -> bool {
    e matches EventView::Answered(answer) && command::command_in(answer) is Some
}

/// How many commands were asked for on the way.
pub open spec fn requests(start: Run, events: Seq<EventView>) -> nat
    decreases events.len(),
{
    if events.len() == 0 {
        0
    } else {
        let before = run_over(start, events.drop_last());
        requests(start, events.drop_last()) + if before.turn.phase is Generating && asks(
            events.last(),
        ) {
            1nat
        } else {
            0nat
        }
    }
}

/// The number of commands left changes only when an answer asks for a command, and
/// then by one; and whenever the model is told of a command, it is told the number
/// that it has left from there on.
pub proof fn law_only_a_request_uses_one_up(t: TurnView, history: Seq<Entry>, e: EventView)
    ensures
        run_turn::advance(t, history, e) matches Some(p) ==> {
            &&& asks(e) && t.remaining > 0 ==> p.turn.remaining + 1 == t.remaining
            &&& !asks(e) || t.remaining == 0 ==> p.turn.remaining == t.remaining
            &&& p.step.told matches Some(r) ==> r.remaining_commands == p.turn.remaining
        },
{
}

/// Over any events, a turn has left what it was given less one for each command that
/// was asked for, and nothing once it was asked for as many.
pub proof fn law_what_is_left_is_what_was_not_asked_for(start: Run, events: Seq<EventView>)
    ensures
        requests(start, events) <= start.turn.remaining ==> run_over(start, events).turn.remaining
            + requests(start, events) == start.turn.remaining,
        requests(start, events) > start.turn.remaining ==> run_over(start, events).turn.remaining
            == 0,
    decreases events.len(),
{
    if events.len() > 0 {
        let before = run_over(start, events.drop_last());
        law_what_is_left_is_what_was_not_asked_for(start, events.drop_last());
        law_only_a_request_uses_one_up(before.turn, before.history, events.last());
        law_every_answer_is_taken(before.turn, before.history, events.last());
    }
}

/// In a turn that may ask for `budget` commands, each of the first `budget` requests is
/// decoded, and put to approval where it can be decoded, and runs where it is
/// approved; each later one is turned down, and the model is told that none is left.
pub proof fn law_the_budget_is_granted(
    system: Option<Seq<char>>,
    prompt: Seq<char>,
    known: Seq<ReminderView>,
    budget: nat,
    is_new_session: bool,
    history: Seq<Entry>,
    events: Seq<EventView>,
    answer: Seq<char>,
    request: RequestView,
)
    requires
        run_over(
            opened_run(
                run_turn::opened(system, prompt, known, budget, is_new_session, history),
            ),
            events,
        ).turn.phase is Generating,
        command::command_in(answer) is Some,
    ensures
        ({
            let start = opened_run(
                run_turn::opened(system, prompt, known, budget, is_new_session, history),
            );
            let run = run_over(start, events);
            let asked = and_then(run, EventView::Answered(answer));
            let decoded = and_then(asked, EventView::Parsed(Ok(request)));
            let approved = and_then(decoded, EventView::Decided(DecisionView::Approve));
            let count = requests(start, events) + 1;
            &&& count <= budget ==> {
                &&& asked.actions == run.actions.push(
                    ActionView::Parse(command::command_in(answer)->0),
                )
                &&& decoded.actions == asked.actions.push(ActionView::Decide(request))
                &&& approved.actions == decoded.actions.push(ActionView::Execute(request))
                &&& approved.turn.remaining == budget - count
            }
            &&& count > budget ==> {
                &&& asked.actions == run.actions.push(ActionView::Draw)
                &&& asked.turn.remaining == 0
                &&& asked.history.len() == run.history.len() + 2
                &&& asked.history[run.history.len() as int] == (Entry {
                    role: Role::Assistant,
                    content: answer,
                })
                &&& asked.history.last() == (Entry {
                    role: Role::Tool,
                    content: tool::jresult(
                        ResultView {
                            status: None,
                            stdout: Seq::empty(),
                            stderr: Seq::empty(),
                            remaining_commands: 0,
                            error: Some("Command execution limit exceeded per response."@),
                        },
                    ),
                })
            }
        }),
{
    let start = opened_run(
        run_turn::opened(system, prompt, known, budget, is_new_session, history),
    );
    law_what_is_left_is_what_was_not_asked_for(start, events);
}

// ---------------------------------------------------------------------------
// What each step does
// ---------------------------------------------------------------------------

/// A turn starts with the prompt as what the user said last, and with the settings
/// that it was given.
pub proof fn law_a_turn_starts_with_its_prompt(
    system: Option<Seq<char>>,
    prompt: Seq<char>,
    known: Seq<ReminderView>,
    budget: nat,
    is_new_session: bool,
    history: Seq<Entry>,
)
    ensures
        ({
            let p = run_turn::opened(system, prompt, known, budget, is_new_session, history);
            &&& p.turn.system == system
            &&& p.turn.reminders == known
            &&& p.turn.input == prompt
            &&& p.turn.remaining == budget
            &&& p.turn.fresh == is_new_session
            &&& p.history.len() == history.len() + 1
            &&& p.history.drop_last() == history
            &&& p.history.last().role == Role::User
            &&& p.history.last().content == prompt
            &&& p.step.action is Draw
            &&& p.step.told is None
            &&& p.step.notices.len() == 0
            &&& p.step.logs.len() == 1
            &&& p.step.logs[0].entity == "user"@
            &&& p.step.logs[0].content == json::jstr(prompt)
        }),
{
    let p = run_turn::opened(system, prompt, known, budget, is_new_session, history);
    assert(p.history.drop_last() =~= history);
}

/// What a turn was given stays with it: no event changes its system prompt or its
/// reminders.
pub proof fn law_settings_stay(t: TurnView, history: Seq<Entry>, e: EventView)
    ensures
        run_turn::advance(t, history, e) matches Some(p) ==> p.turn.system == t.system
            && p.turn.reminders == t.reminders,
{
}

/// What goes to the model for a prompt is the conversation as it stands, with the
/// reminders that apply around its last turn; each of those is shown, and nothing is
/// logged.
pub proof fn law_the_conversation_is_sent(t: TurnView, history: Seq<Entry>, drawn: Seq<bool>)
    requires
        t.phase is Prompting,
        drawn.len() == t.reminders.len(),
        in_step(t, history),
    ensures
        run_turn::advance(t, history, EventView::Drawn(drawn)) matches Some(p) && {
            let applied = reminders::active(t.reminders, t.fresh, drawn);
            &&& p.step.action matches ActionView::Chat { system, messages } && {
                &&& system == t.system
                &&& messages.len() == history.len()
                &&& messages.drop_last() == history.drop_last()
                &&& messages.last().role == history.last().role
                &&& applied.len() == 0 ==> messages == history
                &&& messages.last().content == reminders::reminded(
                    history.last().content,
                    applied,
                )
            }
            &&& p.step.notices.len() == applied.len()
            &&& forall|i: int|
                0 <= i < applied.len() ==> #[trigger] p.step.notices[i] == NoticeView::Reminder(
                    text::trim(applied[i].prompt),
                )
            &&& p.step.logs.len() == 0
            &&& p.step.told is None
            &&& p.turn.phase is Generating
            &&& p.turn.input == t.input
        },
{
    let applied = reminders::active(t.reminders, t.fresh, drawn);
    let p = run_turn::advance(t, history, EventView::Drawn(drawn))->0;
    match p.step.action {
        ActionView::Chat { system, messages } => {
            assert(messages.drop_last() =~= history.drop_last());
            if applied.len() == 0 {
                assert(applied =~= Seq::<ReminderView>::empty());
                reminders::law_no_reminder_no_change(t.input);
                assert(messages =~= history);
            }
        },
        _ => {},
    }
}

/// An answer joins the conversation whole, whatever it asks for. Its end is shown, and
/// it is logged without the white space around it, unless it is blank.
pub proof fn law_an_answer_is_kept(t: TurnView, history: Seq<Entry>, answer: Seq<char>)
    requires
        t.phase is Generating,
    ensures
        run_turn::advance(t, history, EventView::Answered(answer)) matches Some(p) && {
            let said = text::trim(answer);
            &&& p.history.len() > history.len()
            &&& p.history.take(history.len() as int) == history
            &&& p.history[history.len() as int] == (Entry { role: Role::Assistant, content: answer })
            &&& p.step.notices == seq![NoticeView::ResponseEnd]
            &&& said.len() > 0 ==> p.step.logs.len() > 0 && p.step.logs[0] == (LogView {
                entity: "llm"@,
                content: json::jstr(said),
            })
            &&& command::command_in(answer) is None ==> {
                &&& p.history.len() == history.len() + 1
                &&& p.step.action is Done
                &&& p.step.told is None
                &&& said.len() == 0 ==> p.step.logs.len() == 0
                &&& said.len() > 0 ==> p.step.logs.len() == 1
            }
            &&& command::command_in(answer) is Some && t.remaining > 0 ==> {
                &&& p.history.len() == history.len() + 1
                &&& p.step.told is None
                &&& said.len() == 0 ==> p.step.logs.len() == 0
                &&& said.len() > 0 ==> p.step.logs.len() == 1
            }
            &&& command::command_in(answer) is Some && t.remaining == 0 ==> {
                &&& p.history.len() == history.len() + 2
                &&& p.step.told matches Some(r) && {
                    &&& r.error == Some("Command execution limit exceeded per response."@)
                    &&& r.status is None
                    &&& r.stdout.len() == 0
                    &&& r.stderr.len() == 0
                    &&& p.history.last() == (Entry { role: Role::Tool, content: tool::jresult(r) })
                    &&& p.step.logs.last() == (LogView {
                        entity: "tool"@,
                        content: tool::jlogged(r),
                    })
                }
                &&& said.len() == 0 ==> p.step.logs.len() == 1
                &&& said.len() > 0 ==> p.step.logs.len() == 2
            }
        },
{
    let p = run_turn::advance(t, history, EventView::Answered(answer))->0;
    assert(p.history.take(history.len() as int) =~= history);
}

/// A turn whose model fails ends with the reason, and leaves the conversation as it
/// is.
pub proof fn law_a_failure_ends_the_turn(t: TurnView, history: Seq<Entry>, reason: Seq<char>)
    requires
        t.phase is Generating,
    ensures
        run_turn::advance(t, history, EventView::Failed(reason)) matches Some(p) && {
            &&& p.step.action == ActionView::Abort(reason)
            &&& p.turn.phase is Over
            &&& p.history == history
            &&& p.step.notices.len() == 0
            &&& p.step.logs.len() == 0
            &&& p.step.told is None
        },
{
}

/// The request that was decoded is the one that is put to approval, and the one that
/// runs. That it runs is shown, with the payload that asked for it.
pub proof fn law_the_request_runs_as_it_was_asked(
    t: TurnView,
    history: Seq<Entry>,
    request: RequestView,
)
    requires
        t.phase is Parsing,
    ensures
        run_turn::advance(t, history, EventView::Parsed(Ok(request))) matches Some(p) && {
            &&& p.step.action == ActionView::Decide(request)
            &&& p.history == history
            &&& p.step.notices.len() == 0
            &&& p.step.logs.len() == 0
            &&& p.step.told is None
            &&& run_turn::advance(
                p.turn,
                p.history,
                EventView::Decided(DecisionView::Approve),
            ) matches Some(q) && {
                &&& q.step.action == ActionView::Execute(request)
                &&& q.history == history
                &&& q.step.logs.len() == 0
                &&& q.step.told is None
                &&& q.step.notices.len() == 2
                &&& q.step.notices[0] == NoticeView::CommandPayload(t.phase->Parsing_payload)
                &&& q.step.notices[1] == (NoticeView::CommandExecuting {
                    binary: request.binary,
                    args: request.args,
                })
            }
        },
{
}

/// Whether a step hands a result to the model: it is the next turn of the
/// conversation, in the role of the tool, it is logged, and the model is asked again.
pub open spec fn hands_over(p: Progress, history: Seq<Entry>, r: ResultView) -> bool {
    &&& p.step.told == Some(r)
    &&& p.history.len() == history.len() + 1
    &&& p.history.drop_last() == history
    &&& p.history.last().role == Role::Tool
    &&& p.history.last().content == tool::jresult(r)
    &&& p.turn.input == tool::jresult(r)
    &&& p.turn.phase is Prompting
    &&& p.step.action is Draw
    &&& p.step.logs.len() == 1
    &&& p.step.logs[0].entity == "tool"@
    &&& p.step.logs[0].content == tool::jlogged(r)
}

/// The result of a command that ran is handed to the model, with the status and the
/// output that the command ended with. Output that is not empty is shown, and so is
/// the text that the model reads.
pub proof fn law_output_reaches_the_model(
    t: TurnView,
    history: Seq<Entry>,
    status: Option<i32>,
    stdout: Seq<char>,
    stderr: Seq<char>,
)
    requires
        t.phase is Executing,
    ensures
        run_turn::advance(
            t,
            history,
            EventView::Finished(OutcomeView::Exited { status, stdout, stderr }),
        ) matches Some(p) && {
            let r = ResultView {
                status,
                stdout,
                stderr,
                remaining_commands: t.remaining,
                error: None,
            };
            &&& hands_over(p, history, r)
            &&& p.turn.remaining == t.remaining
            &&& p.step.notices.contains(NoticeView::CommandStdout(stdout)) <==> stdout.len() > 0
            &&& p.step.notices.contains(NoticeView::CommandStderr(stderr)) <==> stderr.len() > 0
            &&& stdout.len() > 0 ==> p.step.notices[0] == NoticeView::CommandStdout(stdout)
            &&& stderr.len() > 0 ==> p.step.notices[p.step.notices.len() - 2]
                == NoticeView::CommandStderr(stderr)
            &&& p.step.notices.last() == NoticeView::CommandResult(tool::jresult(r))
            &&& p.step.notices.len() == 1 + (if stdout.len() > 0 {
                1int
            } else {
                0int
            }) + (if stderr.len() > 0 {
                1int
            } else {
                0int
            })
        },
{
    let p = run_turn::advance(
        t,
        history,
        EventView::Finished(OutcomeView::Exited { status, stdout, stderr }),
    )->0;
    assert(p.history.drop_last() =~= history);
    if stdout.len() > 0 {
        assert(p.step.notices[0] == NoticeView::CommandStdout(stdout));
    }
    if stderr.len() > 0 {
        let i: int = p.step.notices.len() - 2;
        assert(p.step.notices[i] == NoticeView::CommandStderr(stderr));
    }
}

/// A command that is not run, or that does not end by itself, is handed to the model
/// as an error that says why.
pub proof fn law_what_goes_wrong_reaches_the_model(t: TurnView, history: Seq<Entry>, e: EventView)
    requires
        run_turn::advance(t, history, e) is Some,
    ensures
        ({
            let p = run_turn::advance(t, history, e)->0;
            let error = |why: Seq<char>|
                ResultView {
                    status: None,
                    stdout: Seq::empty(),
                    stderr: Seq::empty(),
                    remaining_commands: t.remaining,
                    error: Some(why),
                };
            &&& e matches EventView::Parsed(Err(why)) ==> hands_over(
                p,
                history,
                error("Failed to parse command request: "@ + why),
            )
            &&& e matches EventView::Decided(DecisionView::Deny { reason }) ==> hands_over(
                p,
                history,
                error("Command denied by operator: "@ + reason),
            )
            &&& e matches EventView::Finished(OutcomeView::WaitFailed(why)) ==> hands_over(
                p,
                history,
                error("Execution failed: "@ + why),
            )
            &&& e matches EventView::Finished(OutcomeView::SpawnFailed(why)) ==> hands_over(
                p,
                history,
                error("Failed to spawn: "@ + why),
            )
            &&& e matches EventView::Finished(OutcomeView::TimedOut) ==> hands_over(
                p,
                history,
                error("Execution timed out"@),
            )
            &&& (e is Parsed && e->Parsed_0 is Err) || e is Decided && e->Decided_0 is Deny
                ==> p.step.notices.len() == 0
            &&& e is Finished && !(e->Finished_0 is Exited) ==> p.step.notices == seq![
                NoticeView::CommandResult(tool::jresult(p.step.told->0)),
            ]
        }),
{
    let p = run_turn::advance(t, history, e)->0;
    if p.step.told is Some && !(e is Answered) {
        assert(p.history.drop_last() =~= history);
    }
}

} // verus!
