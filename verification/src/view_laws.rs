//! What is said of a value is what it holds: nothing is left out of a model, and nothing
//! is put into one.

use crate::backend;
use crate::backend::{
    ChatCall, ChatView, HttpCall, Message, ModelInfo, ModelsCall, ModelsView, ProcessCall, Session,
    WireMessage,
};
use crate::config::{BackendConfig, BackendEnv};
use crate::json;
use crate::log;
use crate::log::LogEntry;
use crate::reminders;
use crate::reminders::Reminder;
use crate::run_turn;
use crate::run_turn::{
    ActionView, EventView, LogRecord, Phase, PhaseView, Step, TurnAction, TurnEvent,
};
use crate::serve::drive::{Work, WorkView};
use crate::serve::record;
use crate::serve::record::{Active, SessionConfigOut, SessionRecord};
use crate::serve::server::{
    Answer, AnswerView, Body, BodyView, CreateSessionReq, Effects, Request, Response, ServeDefaults,
};
use crate::stream;
use crate::stream::{Brings, Brought, NextView};
use crate::text;
use crate::tool::{CommandRequest, CommandResult, Outcome, OutcomeView};
use crate::turn;
use crate::turn::{Decision, DecisionView, Notice, NoticeView};
use vstd::prelude::*;

verus! {

// ---------------------------------------------------------------------------
// Lists
// ---------------------------------------------------------------------------

/// Texts, messages, reminders and the like are told one by one, in their order.
pub proof fn law_lists_are_told_in_order(
    strings: Seq<String>,
    messages: Seq<Message>,
    wire: Seq<WireMessage>,
    models: Seq<ModelInfo>,
    known: Seq<Reminder>,
    headers: Seq<(String, String)>,
    notices: Seq<Notice>,
    logs: Seq<LogRecord>,
)
    ensures
        text::texts(strings).len() == strings.len(),
        forall|i: int| 0 <= i < strings.len() ==> #[trigger] text::texts(strings)[i] == strings[i]@,
        backend::entries(messages).len() == messages.len(),
        forall|i: int|
            0 <= i < messages.len() ==> #[trigger] backend::entries(messages)[i] == messages[i]@,
        backend::wire_views(wire).len() == wire.len(),
        forall|i: int| 0 <= i < wire.len() ==> #[trigger] backend::wire_views(wire)[i] == wire[i]@,
        backend::model_views(models).len() == models.len(),
        forall|i: int|
            0 <= i < models.len() ==> #[trigger] backend::model_views(models)[i] == models[i]@,
        reminders::reminder_views(known).len() == known.len(),
        forall|i: int|
            0 <= i < known.len() ==> #[trigger] reminders::reminder_views(known)[i] == known[i]@,
        backend::header_views(headers).len() == headers.len(),
        forall|i: int|
            0 <= i < headers.len() ==> (#[trigger] backend::header_views(headers)[i]).0
                == headers[i].0@ && backend::header_views(headers)[i].1 == headers[i].1@,
        turn::notice_views(notices).len() == notices.len(),
        forall|i: int|
            0 <= i < notices.len() ==> #[trigger] turn::notice_views(notices)[i] == notices[i]@,
        run_turn::log_views(logs).len() == logs.len(),
        forall|i: int| 0 <= i < logs.len() ==> #[trigger] run_turn::log_views(logs)[i] == logs[i]@,
{
}

/// A text that may be missing is told where it is there.
pub proof fn law_optional_texts(s: String, t: &str)
    ensures
        text::opt_text(Some(s)) == Some(s@),
        text::opt_text(None) is None,
        text::opt_str(Some(t)) == Some(t@),
        text::opt_str(None) is None,
{
}

// ---------------------------------------------------------------------------
// Conversations
// ---------------------------------------------------------------------------

/// A message is told with its role and its text, on the wire too; a session with all of
/// its messages.
pub proof fn law_messages_are_told(m: Message, w: WireMessage, s: Session, i: ModelInfo)
    ensures
        m@.role == m.role,
        m@.content == m.content@,
        w@.role == w.role@,
        w@.content == w.content@,
        s@ == backend::entries(s.messages@),
        i@.name == i.name@,
        i@.detail == i.detail@,
{
}

/// A reminder is told with all that it holds.
pub proof fn law_reminders_are_told(r: Reminder)
    ensures
        r@.probability_bits == r.probability_bits,
        r@.prompt == r.prompt@,
        r@.timing == r.timing,
        r@.init == r.init,
{
}

/// What is to be sent is told as it is sent.
pub proof fn law_calls_are_told(h: HttpCall, p: ProcessCall, c: ChatCall, m: ModelsCall)
    ensures
        h@.url == h.url@,
        h@.headers == backend::header_views(h.headers@),
        h@.body == text::opt_text(h.body),
        p@.binary == p.binary@,
        p@.args == text::texts(p.args@),
        p@.stdin == p.stdin@,
        c matches ChatCall::Http(x) ==> c@ == ChatView::Http(x@),
        c matches ChatCall::Process(x) ==> c@ == ChatView::Process(x@),
        c matches ChatCall::Reply(x) ==> c@ == ChatView::Reply(text::texts(x@)),
        m matches ModelsCall::Http(x) ==> m@ == ModelsView::Http(x@),
        m matches ModelsCall::Known(x) ==> m@ == ModelsView::Known(backend::model_views(x@)),
{
}

/// What a stream offers, and what a payload brings, is told as it is.
pub proof fn law_streams_are_told(text: String, brought: Seq<Brought>)
    ensures
        stream::offer_view(Ok(text)) == NextView::Payload(text@),
        stream::offer_view(Err(text)) == NextView::NotText(text@),
        Brought::Fragment(text)@ == Brings::Fragment(text@),
        Brought::Failure(text)@ == Brings::Failure(text@),
        Brought::Nothing@ == Brings::Nothing,
        stream::brought_views(brought).len() == brought.len(),
        forall|i: int|
            0 <= i < brought.len() ==> #[trigger] stream::brought_views(brought)[i] == brought[i]@,
        stream::unopened().unread.len() == 0,
        stream::unopened().fragments.len() == 0,
        stream::unopened().failure is None,
{
}

// ---------------------------------------------------------------------------
// Commands
// ---------------------------------------------------------------------------

/// A request, a result and an outcome are told with all that they hold.
pub proof fn law_commands_are_told(q: CommandRequest, r: CommandResult, o: Outcome)
    ensures
        q@.timeout == q.timeout,
        q@.binary == q.binary@,
        q@.args == text::texts(q.args@),
        q@.description == q.description@,
        r@.status == r.status,
        r@.stdout == r.stdout@,
        r@.stderr == r.stderr@,
        r@.remaining_commands == r.remaining_commands,
        r@.error == text::opt_text(r.error),
        o matches Outcome::Exited { status, stdout, stderr } ==> o@ == (OutcomeView::Exited {
            status,
            stdout: stdout@,
            stderr: stderr@,
        }),
        o matches Outcome::WaitFailed(e) ==> o@ == OutcomeView::WaitFailed(e@),
        o matches Outcome::SpawnFailed(e) ==> o@ == OutcomeView::SpawnFailed(e@),
        o is TimedOut ==> o@ == OutcomeView::TimedOut,
{
}

// ---------------------------------------------------------------------------
// Turns
// ---------------------------------------------------------------------------

/// What came of an action is told as it came.
pub proof fn law_events_are_told(e: TurnEvent, d: Decision)
    ensures
        e matches TurnEvent::Drawn(x) ==> e@ == EventView::Drawn(x@),
        e matches TurnEvent::Answered(x) ==> e@ == EventView::Answered(x@),
        e matches TurnEvent::Failed(x) ==> e@ == EventView::Failed(x@),
        e matches TurnEvent::Parsed(Ok(x)) ==> e@ == EventView::Parsed(Ok(x@)),
        e matches TurnEvent::Parsed(Err(x)) ==> e@ == EventView::Parsed(Err(x@)),
        e matches TurnEvent::Decided(x) ==> e@ == EventView::Decided(x@),
        e matches TurnEvent::Finished(x) ==> e@ == EventView::Finished(x@),
        d is Approve <==> d@ is Approve,
        d matches Decision::Deny { reason } ==> d@ == (DecisionView::Deny { reason: reason@ }),
{
}

/// What is to be done is told as it is to be done.
pub proof fn law_actions_are_told(a: TurnAction, p: Phase)
    ensures
        a is Draw ==> a@ is Draw,
        a matches TurnAction::Chat { system, messages } ==> a@ == (ActionView::Chat {
            system: text::opt_text(system),
            messages: backend::entries(messages@),
        }),
        a matches TurnAction::Parse(x) ==> a@ == ActionView::Parse(x@),
        a matches TurnAction::Decide(x) ==> a@ == ActionView::Decide(x@),
        a matches TurnAction::Execute(x) ==> a@ == ActionView::Execute(x@),
        a is Done ==> a@ is Done,
        a matches TurnAction::Abort(x) ==> a@ == ActionView::Abort(x@),
        p is Prompting ==> p@ is Prompting,
        p is Generating ==> p@ is Generating,
        p matches Phase::Parsing { payload } ==> p@ == (PhaseView::Parsing { payload: payload@ }),
        p matches Phase::Deciding { payload, request } ==> p@ == (PhaseView::Deciding {
            payload: payload@,
            request: request@,
        }),
        p is Executing ==> p@ is Executing,
        p is Over ==> p@ is Over,
{
}

/// A step is told with all that it shows, logs, tells the model and asks for.
pub proof fn law_steps_are_told(s: Step, l: LogRecord, n: Notice)
    ensures
        s@.notices == turn::notice_views(s.notices@),
        s@.logs == run_turn::log_views(s.logs@),
        s.told matches Some(r) ==> s@.told == Some(r@),
        s.told is None ==> s@.told is None,
        s@.action == s.action@,
        l@.entity == l.entity@,
        l@.content == json::json_text(l.content),
        n matches Notice::Token(x) ==> n@ == NoticeView::Token(x@),
        n matches Notice::Reminder(x) ==> n@ == NoticeView::Reminder(x@),
        n is ResponseEnd ==> n@ is ResponseEnd,
        n matches Notice::CommandPayload(x) ==> n@ == NoticeView::CommandPayload(x@),
        n matches Notice::CommandExecuting { binary, args } ==> n@ == (
        NoticeView::CommandExecuting { binary: binary@, args: text::texts(args@) }),
        n matches Notice::CommandStdout(x) ==> n@ == NoticeView::CommandStdout(x@),
        n matches Notice::CommandStderr(x) ==> n@ == NoticeView::CommandStderr(x@),
        n matches Notice::CommandResult(x) ==> n@ == NoticeView::CommandResult(x@),
{
}

// ---------------------------------------------------------------------------
// The log
// ---------------------------------------------------------------------------

/// A log holds each of its entries, with when, who and what, in their order; one that is
/// not there holds none.
pub proof fn law_a_log_holds_its_entries(logs: Vec<LogEntry>)
    ensures
        log::held(None).len() == 0,
        log::held(Some(logs)).len() == logs@.len(),
        forall|i: int|
            0 <= i < logs@.len() ==> {
                let e = #[trigger] log::held(Some(logs))[i];
                &&& e.timestamp == logs@[i].timestamp@
                &&& e.said.entity == logs@[i].entity@
                &&& e.said.content == json::json_text(logs@[i].content)
            },
        log::log_entry_views(logs@) == log::held(Some(logs)),
{
}

// ---------------------------------------------------------------------------
// Settings
// ---------------------------------------------------------------------------

/// Settings are told with all that they hold.
pub proof fn law_settings_are_told(c: BackendConfig, e: BackendEnv, d: ServeDefaults)
    ensures
        c@.backend == c.backend,
        c@.server == c.server@,
        c@.port == c.port,
        c@.api_base == text::opt_text(c.api_base),
        c@.model == text::opt_text(c.model),
        c@.max_tokens == c.max_tokens,
        e@.family == e.family@,
        e@.mock_backend == text::opt_text(e.mock_backend),
        e@.mock_reply == text::opt_text(e.mock_reply),
        e@.api_key == text::opt_text(e.api_key),
        e@.claude_cli == text::opt_text(e.claude_cli),
        d@.backend_cfg == d.backend_cfg@,
        d@.system == text::opt_text(d.system),
        d@.command_per_response == d.command_per_response,
        d@.reminders == reminders::reminder_views(d.reminders@),
{
}

// ---------------------------------------------------------------------------
// The server
// ---------------------------------------------------------------------------

/// What a request says of the session that it asks for is told whole.
pub proof fn law_wishes_are_told(q: CreateSessionReq)
    ensures
        q@.backend == text::opt_text(q.backend),
        q@.model == text::opt_text(q.model),
        q@.server == text::opt_text(q.server),
        q@.port == q.port,
        q@.api_base == text::opt_text(q.api_base),
        q@.max_tokens == q.max_tokens,
        q@.system == text::opt_text(q.system),
        q.reminders matches Some(r) ==> q@.reminders == Some(reminders::reminder_views(r@)),
        q.reminders is None ==> q@.reminders is None,
        q@.command_per_response == q.command_per_response,
        q@.approval_mode == text::opt_text(q.approval_mode),
        q@.persist_path == text::opt_text(q.persist_path),
{
}

/// A request and its body are told whole.
pub proof fn law_requests_are_told(q: Request, b: Body)
    ensures
        q@.method == q.method@,
        q@.path == q.path@,
        q@.query == q.query@,
        q@.body == q.body@,
        b is Empty ==> b@ is Empty,
        b matches Body::Unreadable(e) ==> b@ == BodyView::Unreadable(e@),
        b matches Body::Invalid(e) ==> b@ == BodyView::Invalid(e@),
        b matches Body::Session(x) ==> b@ == BodyView::Session(x@),
        b matches Body::Message { content } ==> b@ == (BodyView::Message { content: content@ }),
        b matches Body::Denial { reason } ==> b@ == (BodyView::Denial {
            reason: text::opt_text(reason),
        }),
{
}

/// A reply, and what happens in a session with it, is told whole.
pub proof fn law_replies_are_told(r: Response, a: Answer, e: Effects, w: Work)
    ensures
        r@.status == r.status,
        r@.content_type == r.content_type@,
        r@.body == r.body@,
        a matches Answer::Reply(x) ==> a@ == AnswerView::Reply(x@),
        a matches Answer::Models { kind, call } ==> a@ == (AnswerView::Models { kind, call: call@ }),
        a matches Answer::Listen { first } ==> a@ == (AnswerView::Listen { first: first@ }),
        e@.session == e.session@,
        e@.turn == e.turn,
        e@.frames == text::texts(e.frames@),
        e.work matches Some(x) ==> e@.work == Some(x@),
        e.work is None ==> e@.work is None,
        w matches Work::Draw(x) ==> w@ == WorkView::Draw(reminders::reminder_views(x@)),
        w matches Work::Chat { config, system, messages } ==> w@ == (WorkView::Chat {
            config: config@,
            system: text::opt_text(system),
            messages: backend::entries(messages@),
        }),
        w matches Work::Parse(x) ==> w@ == WorkView::Parse(x@),
        w matches Work::Wait { cmd_id } ==> w@ == (WorkView::Wait { cmd_id: cmd_id@ }),
        w matches Work::Execute(x) ==> w@ == WorkView::Execute(x@),
        w matches Work::Save { path, messages } ==> w@ == (WorkView::Save {
            path: path@,
            messages: backend::entries(messages@),
        }),
{
}

/// A session is told with how it was set up, what has been said, and its turn.
pub proof fn law_sessions_are_told(
    r: SessionRecord,
    c: SessionConfigOut,
    a: Active,
    all: Seq<SessionRecord>,
)
    ensures
        r@.number == r.number,
        r@.created_at == r.created_at@,
        r@.config == r.config@,
        r@.backend == r.backend@,
        r@.reminders == reminders::reminder_views(r.reminders@),
        r@.persist_path == text::opt_text(r.persist_path),
        r@.history == backend::entries(r.session.messages@),
        r.active matches Some(x) ==> r@.active == Some(x@),
        r.active is None ==> r@.active is None,
        c@.backend == c.backend@,
        c@.model == text::opt_text(c.model),
        c@.system == text::opt_text(c.system),
        c@.command_per_response == c.command_per_response,
        c@.approval_mode == c.approval_mode@,
        a@.number == a.number,
        a@.turn == a.turn@,
        a@.partial == a.partial@,
        record::record_views(all).len() == all.len(),
        forall|i: int| 0 <= i < all.len() ==> #[trigger] record::record_views(all)[i] == all[i]@,
{
}

} // verus!
