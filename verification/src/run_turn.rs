//! The turn loop: from a prompt to an answer, with any number of commands in
//! between.
//!
//! The loop decides; whoever drives it acts. Each [`Step`] names one action, and
//! what came of the action is handed back as a [`TurnEvent`]. Commands run only
//! where the loop says so, and it says so only of a request that was approved.

use crate::backend;
use crate::backend::{Entry, Message, Role, Session};
use crate::command;
use crate::json;
use crate::reminders;
use crate::reminders::{Reminder, ReminderView};
use crate::text;
use crate::tool;
use crate::tool::{CommandRequest, CommandResult, Outcome, OutcomeView, RequestView, ResultView};
use crate::turn;
use crate::turn::{Decision, DecisionView, Notice, NoticeView};
use vstd::prelude::*;

verus! {

// ---------------------------------------------------------------------------
// State, events and actions
// ---------------------------------------------------------------------------

/// What a turn starts from.
#[derive(Debug)]
pub struct RunTurnConfig {
    pub system: Option<String>,
    pub initial_prompt: String,
    pub reminders: Vec<Reminder>,
    pub command_per_response: usize,
    pub is_new_session: bool,
}

/// What the loop waits for.
#[derive(Debug)]
pub enum Phase {
    /// The draw for the reminders.
    Prompting,
    /// The answer of the model.
    Generating,
    /// What the payload of a command decodes to.
    Parsing { payload: String },
    /// The decision about a request.
    Deciding { payload: String, request: CommandRequest },
    /// The outcome of a command.
    Executing,
    /// Nothing: the turn is over.
    Over,
}

/// What the loop waits for.
#[verifier::ext_equal]
pub enum PhaseView {
    Prompting,
    Generating,
    Parsing { payload: Seq<char> },
    Deciding { payload: Seq<char>, request: RequestView },
    Executing,
    Over,
}

impl View for Phase {
    type V = PhaseView;

    open spec fn view(&self) -> PhaseView {
        match self {
            Phase::Prompting => PhaseView::Prompting,
            Phase::Generating => PhaseView::Generating,
            Phase::Parsing { payload } => PhaseView::Parsing { payload: payload@ },
            Phase::Deciding { payload, request } => PhaseView::Deciding {
                payload: payload@,
                request: request@,
            },
            Phase::Executing => PhaseView::Executing,
            Phase::Over => PhaseView::Over,
        }
    }
}

/// A turn under way.
pub struct Turn {
    system: Option<String>,
    reminders: Vec<Reminder>,
    input: String,
    remaining: usize,
    fresh: bool,
    phase: Phase,
}

/// A turn under way: what goes with every prompt, the text that is sent next,
/// how many commands may still be asked for, whether the next prompt is the first
/// of a new session, and what the loop waits for.
#[verifier::ext_equal]
pub struct TurnView {
    pub system: Option<Seq<char>>,
    pub reminders: Seq<ReminderView>,
    pub input: Seq<char>,
    pub remaining: nat,
    pub fresh: bool,
    pub phase: PhaseView,
}

impl View for Turn {
    type V = TurnView;

    closed spec fn view(&self) -> TurnView {
        TurnView {
            system: text::opt_text(self.system),
            reminders: reminders::reminder_views(self.reminders@),
            input: self.input@,
            remaining: self.remaining as nat,
            fresh: self.fresh,
            phase: self.phase@,
        }
    }
}

/// What came of an action.
#[derive(Debug)]
pub enum TurnEvent {
    /// Which reminders were drawn.
    Drawn(Vec<bool>),
    /// The answer of the model.
    Answered(String),
    /// The model could not be asked, for this reason.
    Failed(String),
    /// What a payload decodes to, or why it does not.
    Parsed(Result<CommandRequest, String>),
    /// What was decided about a request.
    Decided(Decision),
    /// How a command went.
    Finished(Outcome),
}

/// What came of an action.
#[verifier::ext_equal]
pub enum EventView {
    Drawn(Seq<bool>),
    Answered(Seq<char>),
    Failed(Seq<char>),
    Parsed(Result<RequestView, Seq<char>>),
    Decided(DecisionView),
    Finished(OutcomeView),
}

impl View for TurnEvent {
    type V = EventView;

    open spec fn view(&self) -> EventView {
        match self {
            TurnEvent::Drawn(d) => EventView::Drawn(d@),
            TurnEvent::Answered(s) => EventView::Answered(s@),
            TurnEvent::Failed(s) => EventView::Failed(s@),
            TurnEvent::Parsed(Ok(r)) => EventView::Parsed(Ok(r@)),
            TurnEvent::Parsed(Err(e)) => EventView::Parsed(Err(e@)),
            TurnEvent::Decided(d) => EventView::Decided(d@),
            TurnEvent::Finished(o) => EventView::Finished(o@),
        }
    }
}

/// What is to be done next.
#[derive(Debug)]
pub enum TurnAction {
    /// Draw the reminders.
    Draw,
    /// Ask the model.
    Chat { system: Option<String>, messages: Vec<Message> },
    /// Decode the payload of a command.
    Parse(String),
    /// Decide about a request.
    Decide(CommandRequest),
    /// Run a command.
    Execute(CommandRequest),
    /// Nothing: the model has answered.
    Done,
    /// Nothing: the turn failed for this reason.
    Abort(String),
}

/// What is to be done next.
#[verifier::ext_equal]
pub enum ActionView {
    Draw,
    Chat { system: Option<Seq<char>>, messages: Seq<Entry> },
    Parse(Seq<char>),
    Decide(RequestView),
    Execute(RequestView),
    Done,
    Abort(Seq<char>),
}

impl View for TurnAction {
    type V = ActionView;

    open spec fn view(&self) -> ActionView {
        match self {
            TurnAction::Draw => ActionView::Draw,
            TurnAction::Chat { system, messages } => ActionView::Chat {
                system: text::opt_text(*system),
                messages: backend::entries(messages@),
            },
            TurnAction::Parse(p) => ActionView::Parse(p@),
            TurnAction::Decide(r) => ActionView::Decide(r@),
            TurnAction::Execute(r) => ActionView::Execute(r@),
            TurnAction::Done => ActionView::Done,
            TurnAction::Abort(m) => ActionView::Abort(m@),
        }
    }
}

/// Something for the log: who said it, and what was said as JSON.
#[derive(Debug)]
pub struct LogRecord {
    pub entity: &'static str,
    pub content: serde_json::Value,
}

/// Something for the log.
#[verifier::ext_equal]
pub struct LogView {
    pub entity: Seq<char>,
    pub content: Seq<char>,
}

impl View for LogRecord {
    type V = LogView;

    open spec fn view(&self) -> LogView {
        LogView { entity: self.entity@, content: json::json_text(self.content) }
    }
}

/// What is said in a list of log records.
pub open spec fn log_views(logs: Seq<LogRecord>) -> Seq<LogView> {
    Seq::new(logs.len(), |i: int| logs[i]@)
}

/// One step of the loop: what to show, what to log, what the model is told of a
/// command, and what to do next.
#[derive(Debug)]
pub struct Step {
    pub notices: Vec<Notice>,
    pub logs: Vec<LogRecord>,
    pub told: Option<CommandResult>,
    pub action: TurnAction,
}

/// One step of the loop.
#[verifier::ext_equal]
pub struct StepView {
    pub notices: Seq<NoticeView>,
    pub logs: Seq<LogView>,
    pub told: Option<ResultView>,
    pub action: ActionView,
}

impl View for Step {
    type V = StepView;

    open spec fn view(&self) -> StepView {
        StepView {
            notices: turn::notice_views(self.notices@),
            logs: log_views(self.logs@),
            told: match self.told {
                Some(r) => Some(r@),
                None => None,
            },
            action: self.action@,
        }
    }
}

/// Where the loop stands after a step.
#[verifier::ext_equal]
pub struct Progress {
    pub turn: TurnView,
    pub history: Seq<Entry>,
    pub step: StepView,
}

// ---------------------------------------------------------------------------
// What each event leads to
// ---------------------------------------------------------------------------

/// The start of a turn: the prompt joins the history and is sent.
pub open spec fn opened(
    system: Option<Seq<char>>,
    prompt: Seq<char>,
    known: Seq<ReminderView>,
    budget: nat,
    is_new_session: bool,
    history: Seq<Entry>,
) -> Progress {
    Progress {
        turn: TurnView {
            system,
            reminders: known,
            input: prompt,
            remaining: budget,
            fresh: is_new_session,
            phase: PhaseView::Prompting,
        },
        history: history.push(Entry { role: Role::User, content: prompt }),
        step: StepView {
            notices: Seq::empty(),
            logs: seq![LogView { entity: "user"@, content: json::jstr(prompt) }],
            told: None,
            action: ActionView::Draw,
        },
    }
}

/// The history as it is sent: the text of the latest turn is replaced.
pub open spec fn outgoing(history: Seq<Entry>, latest: Seq<char>) -> Seq<Entry> {
    if history.len() == 0 {
        history
    } else {
        history.update(history.len() - 1, Entry { role: history.last().role, content: latest })
    }
}

/// What is shown of the reminders that apply.
pub open spec fn shown(applied: Seq<ReminderView>) -> Seq<NoticeView> {
    applied.map_values(|r: ReminderView| NoticeView::Reminder(text::trim(r.prompt)))
}

/// The reminders are drawn: the history goes to the model with the latest turn
/// between those that apply. The history itself stays as it is.
pub open spec fn prompted(t: TurnView, history: Seq<Entry>, drawn: Seq<bool>) -> Progress {
    let applied = reminders::active(t.reminders, t.fresh, drawn);
    Progress {
        turn: TurnView { fresh: false, phase: PhaseView::Generating, ..t },
        history,
        step: StepView {
            notices: shown(applied),
            logs: Seq::empty(),
            told: None,
            action: ActionView::Chat {
                system: t.system,
                messages: outgoing(history, reminders::reminded(t.input, applied)),
            },
        },
    }
}

/// A result is handed to the model as the next turn.
pub open spec fn fed_back(
    t: TurnView,
    history: Seq<Entry>,
    result: ResultView,
    notices: Seq<NoticeView>,
    logs: Seq<LogView>,
) -> Progress {
    let json = tool::jresult(result);
    Progress {
        turn: TurnView { input: json, phase: PhaseView::Prompting, ..t },
        history: history.push(Entry { role: Role::Tool, content: json }),
        step: StepView {
            notices,
            logs: logs.push(LogView { entity: "tool"@, content: tool::jlogged(result) }),
            told: Some(result),
            action: ActionView::Draw,
        },
    }
}

/// What is logged of an answer: its text without the white space around it, if
/// there is any.
pub open spec fn answer_logs(answer: Seq<char>) -> Seq<LogView> {
    if text::trim(answer).len() == 0 {
        Seq::empty()
    } else {
        seq![LogView { entity: "llm"@, content: json::jstr(text::trim(answer)) }]
    }
}

/// What the model is told when it asks for more commands than it may.
pub open spec fn limit_reason() -> Seq<char> {
    "Command execution limit exceeded per response."@
}

/// The model has answered: the answer joins the history. An answer without a
/// command ends the turn; a command uses up one of those that are left, and is
/// turned down where none is.
pub open spec fn answered(t: TurnView, history: Seq<Entry>, answer: Seq<char>) -> Progress {
    let heard = history.push(Entry { role: Role::Assistant, content: answer });
    let notices = seq![NoticeView::ResponseEnd];
    let logs = answer_logs(answer);
    match command::command_in(answer) {
        None => Progress {
            turn: TurnView { phase: PhaseView::Over, ..t },
            history: heard,
            step: StepView { notices, logs, told: None, action: ActionView::Done },
        },
        Some(payload) => if t.remaining == 0 {
            fed_back(t, heard, tool::refused(0, limit_reason()), notices, logs)
        } else {
            Progress {
                turn: TurnView {
                    remaining: (t.remaining - 1) as nat,
                    phase: PhaseView::Parsing { payload },
                    ..t
                },
                history: heard,
                step: StepView { notices, logs, told: None, action: ActionView::Parse(payload) },
            }
        },
    }
}

/// A step that shows and logs nothing.
pub open spec fn quiet(action: ActionView) -> StepView {
    StepView { notices: Seq::empty(), logs: Seq::empty(), told: None, action }
}

/// What is shown of the output of a command that was tried.
pub open spec fn output_notices(result: ResultView) -> Seq<NoticeView> {
    let out = if result.stdout.len() == 0 {
        Seq::<NoticeView>::empty()
    } else {
        seq![NoticeView::CommandStdout(result.stdout)]
    };
    let err = if result.stderr.len() == 0 {
        Seq::<NoticeView>::empty()
    } else {
        seq![NoticeView::CommandStderr(result.stderr)]
    };
    out + err + seq![NoticeView::CommandResult(tool::jresult(result))]
}

/// What an event leads to. An event that the loop does not wait for leads
/// nowhere.
pub open spec fn advance(t: TurnView, history: Seq<Entry>, e: EventView) -> Option<Progress> {
    match (t.phase, e) {
        (PhaseView::Prompting, EventView::Drawn(drawn)) => if drawn.len() == t.reminders.len() {
            Some(prompted(t, history, drawn))
        } else {
            None
        },
        (PhaseView::Generating, EventView::Answered(answer)) => Some(answered(t, history, answer)),
        (PhaseView::Generating, EventView::Failed(reason)) => Some(
            Progress {
                turn: TurnView { phase: PhaseView::Over, ..t },
                history,
                step: quiet(ActionView::Abort(reason)),
            },
        ),
        (PhaseView::Parsing { payload }, EventView::Parsed(Ok(request))) => Some(
            Progress {
                turn: TurnView { phase: PhaseView::Deciding { payload, request }, ..t },
                history,
                step: quiet(ActionView::Decide(request)),
            },
        ),
        (PhaseView::Parsing { .. }, EventView::Parsed(Err(reason))) => Some(
            fed_back(
                t,
                history,
                tool::refused(t.remaining, "Failed to parse command request: "@ + reason),
                Seq::empty(),
                Seq::empty(),
            ),
        ),
        (
            PhaseView::Deciding { payload, request },
            EventView::Decided(DecisionView::Approve),
        ) => Some(
            Progress {
                turn: TurnView { phase: PhaseView::Executing, ..t },
                history,
                step: StepView {
                    notices: seq![
                        NoticeView::CommandPayload(payload),
                        NoticeView::CommandExecuting { binary: request.binary, args: request.args },
                    ],
                    logs: Seq::empty(),
                    told: None,
                    action: ActionView::Execute(request),
                },
            },
        ),
        (PhaseView::Deciding { .. }, EventView::Decided(DecisionView::Deny { reason })) => Some(
            fed_back(
                t,
                history,
                tool::refused(t.remaining, "Command denied by operator: "@ + reason),
                Seq::empty(),
                Seq::empty(),
            ),
        ),
        (PhaseView::Executing, EventView::Finished(outcome)) => {
            let result = tool::result_of(outcome, t.remaining);
            Some(fed_back(t, history, result, output_notices(result), Seq::empty()))
        },
        _ => None,
    }
}

// ---------------------------------------------------------------------------
// The loop
// ---------------------------------------------------------------------------

/// An event came that the loop was not waiting for.
#[derive(Clone, Copy, Debug, PartialEq, Eq, Structural)]
pub struct OutOfTurn;

/// Opens a turn: the prompt joins the conversation.
pub fn run_turn(config: RunTurnConfig, session: &mut Session) -> (r: (Turn, Step))
    ensures
        (Progress { turn: r.0@, history: final(session)@, step: r.1@ }) == opened(
            text::opt_text(config.system),
            config.initial_prompt@,
            reminders::reminder_views(config.reminders@),
            config.command_per_response as nat,
            config.is_new_session,
            old(session)@,
        ),
{
    session.say(Role::User, config.initial_prompt.as_str());
    let mut logs: Vec<LogRecord> = Vec::new();
    logs.push(
        LogRecord {
            entity: "user",
            content: json::json_string(config.initial_prompt.as_str()),
        },
    );
    let step = Step { notices: Vec::new(), logs, told: None, action: TurnAction::Draw };
    proof {
        assert(step@.notices =~= Seq::empty());
        assert(step@.logs =~= seq![
            LogView { entity: "user"@, content: json::jstr(config.initial_prompt@) },
        ]);
    }
    let turn = Turn {
        system: config.system,
        reminders: config.reminders,
        input: config.initial_prompt,
        remaining: config.command_per_response,
        fresh: config.is_new_session,
        phase: Phase::Prompting,
    };
    (turn, step)
}

/// A step that shows and logs nothing.
fn quiet_step(action: TurnAction) -> (s: Step)
    ensures
        s@ == quiet(action@),
{
    let s = Step { notices: Vec::new(), logs: Vec::new(), told: None, action };
    proof {
        assert(s@.notices =~= Seq::empty());
        assert(s@.logs =~= Seq::empty());
    }
    s
}

impl Turn {
    /// The reminders that may be drawn.
    pub fn reminders(&self) -> (r: &Vec<Reminder>)
        ensures
            reminders::reminder_views(r@) == self@.reminders,
    {
        &self.reminders
    }

    /// What the loop waits for.
    pub fn phase(&self) -> (r: &Phase)
        ensures
            r@ == self@.phase,
    {
        &self.phase
    }

    /// How many more commands may be asked for.
    pub fn remaining(&self) -> (r: usize)
        ensures
            r == self@.remaining,
    {
        self.remaining
    }

    /// Sends the history with the reminders that apply.
    fn prompt(&mut self, session: &Session, drawn: &Vec<bool>) -> (r: Step)
        requires
            drawn@.len() == old(self)@.reminders.len(),
        ensures
            (Progress { turn: final(self)@, history: session@, step: r@ }) == prompted(
                old(self)@,
                session@,
                drawn@,
            ),
    {
        let ghost applied = reminders::active(self@.reminders, self@.fresh, drawn@);
        let (prompted_input, activated) = reminders::apply_reminders(
            self.input.as_str(),
            self.reminders.as_slice(),
            self.fresh,
            drawn.as_slice(),
        );
        let mut notices: Vec<Notice> = Vec::new();
        let mut i: usize = 0;
        proof {
            assert(text::texts(activated@).len() == applied.len());
        }
        while i < activated.len()
            invariant
                i <= activated.len(),
                text::texts(activated@) == reminders::prompts(applied),
                activated.len() == applied.len(),
                notices.len() == i,
                forall|j: int|
                    0 <= j < i ==> (#[trigger] notices@[j])@ == NoticeView::Reminder(
                        text::trim(applied[j].prompt),
                    ),
            decreases activated.len() - i,
        {
            proof {
                assert(text::texts(activated@)[i as int] == activated@[i as int]@);
                assert(reminders::prompts(applied)[i as int] == applied[i as int].prompt);
            }
            notices.push(Notice::Reminder(text::trim_of(activated[i].as_str()).to_owned()));
            i += 1;
        }
        let mut messages = backend::clone_all(session.messages.as_slice());
        let n: usize = messages.len();
        if n > 0 {
            let role = messages[n - 1].role;
            messages.set(n - 1, Message { role, content: prompted_input });
        }
        proof {
            assert(forall|j: int|
                0 <= j < n ==> backend::entries(session.messages@)[j]
                    == #[trigger] session.messages@[j]@);
            assert(backend::entries(messages@) =~= outgoing(
                session@,
                reminders::reminded(self@.input, applied),
            ));
        }
        self.fresh = false;
        self.phase = Phase::Generating;
        let step = Step {
            notices,
            logs: Vec::new(),
            told: None,
            action: TurnAction::Chat { system: text::clone_option(&self.system), messages },
        };
        proof {
            assert(step@.notices =~= shown(applied));
            assert(step@.logs =~= Seq::empty());
        }
        step
    }

    /// Hands a result to the model.
    fn feed_back(
        &mut self,
        session: &mut Session,
        result: CommandResult,
        notices: Vec<Notice>,
        logs: Vec<LogRecord>,
    ) -> (r: Step)
        ensures
            (Progress { turn: final(self)@, history: final(session)@, step: r@ }) == fed_back(
                old(self)@,
                old(session)@,
                result@,
                turn::notice_views(notices@),
                log_views(logs@),
            ),
    {
        let json = tool::result_text(&result);
        session.say(Role::Tool, json.as_str());
        let mut logs = logs;
        let ghost before = logs@;
        logs.push(LogRecord { entity: "tool", content: tool::result_json(&result) });
        proof {
            assert(log_views(logs@) =~= log_views(before).push(
                LogView { entity: "tool"@, content: tool::jlogged(result@) },
            ));
        }
        self.input = json;
        self.phase = Phase::Prompting;
        Step { notices, logs, told: Some(result), action: TurnAction::Draw }
    }

    /// Takes the answer of the model in.
    fn answer(&mut self, session: &mut Session, answer: String) -> (r: Step)
        ensures
            (Progress { turn: final(self)@, history: final(session)@, step: r@ }) == answered(
                old(self)@,
                old(session)@,
                answer@,
            ),
    {
        let mut notices: Vec<Notice> = Vec::new();
        notices.push(Notice::ResponseEnd);
        let mut logs: Vec<LogRecord> = Vec::new();
        let trimmed = text::trim_of(answer.as_str());
        if !trimmed.is_empty() {
            logs.push(LogRecord { entity: "llm", content: json::json_string(trimmed) });
        }
        proof {
            assert(turn::notice_views(notices@) =~= seq![NoticeView::ResponseEnd]);
            assert(log_views(logs@) =~= answer_logs(answer@));
        }
        session.say(Role::Assistant, answer.as_str());
        match command::extract_command(answer.as_str()) {
            None => {
                self.phase = Phase::Over;
                Step { notices, logs, told: None, action: TurnAction::Done }
            },
            Some(payload) => {
                if self.remaining == 0 {
                    let result = tool::refuse(
                        0,
                        "Command execution limit exceeded per response.".to_owned(),
                    );
                    return self.feed_back(session, result, notices, logs);
                }
                self.remaining = self.remaining - 1;
                self.phase = Phase::Parsing { payload: payload.to_owned() };
                Step { notices, logs, told: None, action: TurnAction::Parse(payload.to_owned()) }
            },
        }
    }

    /// Runs the request that was approved.
    fn approve(&mut self, session: &Session, payload: String, request: CommandRequest) -> (r: Step)
        ensures
            (Progress { turn: final(self)@, history: session@, step: r@ }) == (Progress {
                turn: TurnView { phase: PhaseView::Executing, ..old(self)@ },
                history: session@,
                step: StepView {
                    notices: seq![
                        NoticeView::CommandPayload(payload@),
                        NoticeView::CommandExecuting {
                            binary: request@.binary,
                            args: request@.args,
                        },
                    ],
                    logs: Seq::empty(),
                    told: None,
                    action: ActionView::Execute(request@),
                },
            }),
    {
        let mut notices: Vec<Notice> = Vec::new();
        notices.push(Notice::CommandPayload(payload));
        notices.push(
            Notice::CommandExecuting {
                binary: request.binary.clone(),
                args: tool::clone_strings(&request.args),
            },
        );
        self.phase = Phase::Executing;
        let step = Step { notices, logs: Vec::new(), told: None, action: TurnAction::Execute(request) };
        proof {
            assert(step@.notices =~= seq![
                NoticeView::CommandPayload(payload@),
                NoticeView::CommandExecuting { binary: request@.binary, args: request@.args },
            ]);
            assert(step@.logs =~= Seq::empty());
        }
        step
    }

    /// Hands the outcome of a command to the model.
    fn finish(&mut self, session: &mut Session, outcome: Outcome) -> (r: Step)
        ensures
            (Progress { turn: final(self)@, history: final(session)@, step: r@ }) == fed_back(
                old(self)@,
                old(session)@,
                tool::result_of(outcome@, old(self)@.remaining),
                output_notices(tool::result_of(outcome@, old(self)@.remaining)),
                Seq::empty(),
            ),
    {
        let result = tool::report(outcome, self.remaining);
        let mut notices: Vec<Notice> = Vec::new();
        if !result.stdout.as_str().is_empty() {
            notices.push(Notice::CommandStdout(result.stdout.clone()));
        }
        if !result.stderr.as_str().is_empty() {
            notices.push(Notice::CommandStderr(result.stderr.clone()));
        }
        notices.push(Notice::CommandResult(tool::result_text(&result)));
        let logs: Vec<LogRecord> = Vec::new();
        proof {
            assert(turn::notice_views(notices@) =~= output_notices(result@));
            assert(log_views(logs@) =~= Seq::empty());
        }
        self.feed_back(session, result, notices, logs)
    }

    /// Takes one event in. An event that the loop does not wait for is turned
    /// down and changes nothing.
    pub fn step(&mut self, session: &mut Session, event: TurnEvent) -> (r: Result<Step, OutOfTurn>)
        ensures
            match r {
                Ok(s) => advance(old(self)@, old(session)@, event@) == Some(
                    Progress { turn: final(self)@, history: final(session)@, step: s@ },
                ),
                Err(_) => {
                    &&& advance(old(self)@, old(session)@, event@) is None
                    &&& final(self)@ == old(self)@
                    &&& final(session)@ == old(session)@
                },
            },
    {
        let mut phase = Phase::Over;
        std::mem::swap(&mut phase, &mut self.phase);
        match (phase, event) {
            (Phase::Prompting, TurnEvent::Drawn(drawn)) => {
                if drawn.len() != self.reminders.len() {
                    self.phase = Phase::Prompting;
                    return Err(OutOfTurn);
                }
                Ok(self.prompt(session, &drawn))
            },
            (Phase::Generating, TurnEvent::Answered(answer)) => Ok(self.answer(session, answer)),
            (Phase::Generating, TurnEvent::Failed(reason)) => Ok(
                quiet_step(TurnAction::Abort(reason)),
            ),
            (Phase::Parsing { payload }, TurnEvent::Parsed(Ok(request))) => {
                self.phase = Phase::Deciding { payload, request: request.clone() };
                Ok(quiet_step(TurnAction::Decide(request)))
            },
            (Phase::Parsing { .. }, TurnEvent::Parsed(Err(reason))) => {
                let result = tool::refuse(
                    self.remaining,
                    text::concat2("Failed to parse command request: ", reason.as_str()),
                );
                Ok(self.refuse(session, result))
            },
            (Phase::Deciding { payload, request }, TurnEvent::Decided(Decision::Approve)) => Ok(
                self.approve(session, payload, request),
            ),
            (Phase::Deciding { .. }, TurnEvent::Decided(Decision::Deny { reason })) => {
                let result = tool::refuse(
                    self.remaining,
                    text::concat2("Command denied by operator: ", reason.as_str()),
                );
                Ok(self.refuse(session, result))
            },
            (Phase::Executing, TurnEvent::Finished(outcome)) => Ok(self.finish(session, outcome)),
            (waiting, _) => {
                self.phase = waiting;
                Err(OutOfTurn)
            },
        }
    }

    /// Hands a refusal to the model.
    fn refuse(&mut self, session: &mut Session, result: CommandResult) -> (r: Step)
        ensures
            (Progress { turn: final(self)@, history: final(session)@, step: r@ }) == fed_back(
                old(self)@,
                old(session)@,
                result@,
                Seq::empty(),
                Seq::empty(),
            ),
    {
        let notices: Vec<Notice> = Vec::new();
        let logs: Vec<LogRecord> = Vec::new();
        proof {
            assert(turn::notice_views(notices@) =~= Seq::empty());
            assert(log_views(logs@) =~= Seq::empty());
        }
        self.feed_back(session, result, notices, logs)
    }
}

} // verus!
