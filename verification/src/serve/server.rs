//! The server: its sessions, and what is answered to each request.

use crate::backend;
use crate::backend::{
    Backend, HttpCall, HttpView, ModelInfo, ModelView, ModelsCall, ModelsView, Session,
};
use crate::config;
use crate::config::{BackendConfig, BackendEnv, BackendKind, ConfigView, EnvView};
use crate::json;
use crate::json::Object;
use crate::log;
use crate::reminders;
use crate::reminders::{Reminder, ReminderView};
use crate::run_turn::{EventView, TurnEvent};
use crate::serve::drive;
use crate::serve::drive::{Moved, Work, WorkView};
use crate::serve::frames;
use crate::serve::laws;
use crate::serve::laws::Happening;
use crate::serve::record;
use crate::serve::record::{ConfigOutView, RecordView, SessionConfigOut, SessionRecord};
use crate::serve::routes;
use crate::serve::routes::{Route, RouteView};
use crate::serve::ui;
use crate::text;
use crate::turn::{Decision, DecisionView};
use vstd::prelude::*;

verus! {

// ---------------------------------------------------------------------------
// Requests
// ---------------------------------------------------------------------------

/// How sessions are set up where a request does not say otherwise.
#[derive(Debug)]
pub struct ServeDefaults {
    pub backend_cfg: BackendConfig,
    pub system: Option<String>,
    pub command_per_response: usize,
    pub reminders: Vec<Reminder>,
}

/// How sessions are set up where a request does not say otherwise.
#[verifier::ext_equal]
pub struct DefaultsView {
    pub backend_cfg: ConfigView,
    pub system: Option<Seq<char>>,
    pub command_per_response: nat,
    pub reminders: Seq<ReminderView>,
}

impl View for ServeDefaults {
    type V = DefaultsView;

    open spec fn view(&self) -> DefaultsView {
        DefaultsView {
            backend_cfg: self.backend_cfg@,
            system: text::opt_text(self.system),
            command_per_response: self.command_per_response as nat,
            reminders: reminders::reminder_views(self.reminders@),
        }
    }
}

/// What a request says of the session that it asks for.
#[derive(Debug)]
pub struct CreateSessionReq {
    pub backend: Option<String>,
    pub model: Option<String>,
    pub server: Option<String>,
    pub port: Option<u16>,
    pub api_base: Option<String>,
    pub max_tokens: Option<u32>,
    pub system: Option<String>,
    pub reminders: Option<Vec<Reminder>>,
    pub command_per_response: Option<usize>,
    pub approval_mode: Option<String>,
    pub persist_path: Option<String>,
}

/// What a request says of the session that it asks for.
#[verifier::ext_equal]
pub struct CreateView {
    pub backend: Option<Seq<char>>,
    pub model: Option<Seq<char>>,
    pub server: Option<Seq<char>>,
    pub port: Option<u16>,
    pub api_base: Option<Seq<char>>,
    pub max_tokens: Option<u32>,
    pub system: Option<Seq<char>>,
    pub reminders: Option<Seq<ReminderView>>,
    pub command_per_response: Option<usize>,
    pub approval_mode: Option<Seq<char>>,
    pub persist_path: Option<Seq<char>>,
}

impl View for CreateSessionReq {
    type V = CreateView;

    open spec fn view(&self) -> CreateView {
        CreateView {
            backend: text::opt_text(self.backend),
            model: text::opt_text(self.model),
            server: text::opt_text(self.server),
            port: self.port,
            api_base: text::opt_text(self.api_base),
            max_tokens: self.max_tokens,
            system: text::opt_text(self.system),
            reminders: match self.reminders {
                Some(r) => Some(reminders::reminder_views(r@)),
                None => None,
            },
            command_per_response: self.command_per_response,
            approval_mode: text::opt_text(self.approval_mode),
            persist_path: text::opt_text(self.persist_path),
        }
    }
}

/// A request that says nothing of the session that it asks for.
pub open spec fn nothing_said() -> CreateView {
    CreateView {
        backend: None,
        model: None,
        server: None,
        port: None,
        api_base: None,
        max_tokens: None,
        system: None,
        reminders: None,
        command_per_response: None,
        approval_mode: None,
        persist_path: None,
    }
}

impl Default for CreateSessionReq {
    /// A request that says nothing of the session that it asks for.
    fn default() -> (r: CreateSessionReq)
        ensures
            r@ == nothing_said(),
    {
        CreateSessionReq {
            backend: None,
            model: None,
            server: None,
            port: None,
            api_base: None,
            max_tokens: None,
            system: None,
            reminders: None,
            command_per_response: None,
            approval_mode: None,
            persist_path: None,
        }
    }
}

/// The body of a request, decoded as its path wants it.
#[derive(Debug)]
pub enum Body {
    /// There is none.
    Empty,
    /// It could not be read, for this reason.
    Unreadable(String),
    /// It is not the JSON that its path takes, for this reason.
    Invalid(String),
    /// The session that is asked for.
    Session(CreateSessionReq),
    /// What is said to the model.
    Message { content: String },
    /// Why a command is denied.
    Denial { reason: Option<String> },
}

/// The body of a request.
#[verifier::ext_equal]
pub enum BodyView {
    Empty,
    Unreadable(Seq<char>),
    Invalid(Seq<char>),
    Session(CreateView),
    Message { content: Seq<char> },
    Denial { reason: Option<Seq<char>> },
}

impl View for Body {
    type V = BodyView;

    open spec fn view(&self) -> BodyView {
        match self {
            Body::Empty => BodyView::Empty,
            Body::Unreadable(e) => BodyView::Unreadable(e@),
            Body::Invalid(e) => BodyView::Invalid(e@),
            Body::Session(q) => BodyView::Session(q@),
            Body::Message { content } => BodyView::Message { content: content@ },
            Body::Denial { reason } => BodyView::Denial { reason: text::opt_text(*reason) },
        }
    }
}

/// What is said of a body that its path cannot take.
pub open spec fn body_error(b: BodyView) -> Seq<char> {
    match b {
        BodyView::Unreadable(e) => e,
        BodyView::Invalid(e) => "invalid JSON: "@ + e,
        _ => "invalid JSON: not what this path takes"@,
    }
}

/// What is said of a body that its path cannot take.
fn body_error_of(b: &Body) -> (r: String)
    ensures
        r@ == body_error(b@),
{
    match b {
        Body::Unreadable(e) => e.clone(),
        Body::Invalid(e) => text::concat2("invalid JSON: ", e.as_str()),
        _ => "invalid JSON: not what this path takes".to_owned(),
    }
}

/// A request.
#[derive(Debug)]
pub struct Request {
    pub method: String,
    pub path: String,
    pub query: String,
    pub body: Body,
}

/// A request.
#[verifier::ext_equal]
pub struct AskedView {
    pub method: Seq<char>,
    pub path: Seq<char>,
    pub query: Seq<char>,
    pub body: BodyView,
}

impl View for Request {
    type V = AskedView;

    open spec fn view(&self) -> AskedView {
        AskedView {
            method: self.method@,
            path: self.path@,
            query: self.query@,
            body: self.body@,
        }
    }
}

// ---------------------------------------------------------------------------
// Replies
// ---------------------------------------------------------------------------

/// A reply.
#[derive(Debug)]
pub struct Response {
    pub status: u16,
    pub content_type: &'static str,
    pub body: String,
}

/// A reply.
#[verifier::ext_equal]
pub struct ResponseView {
    pub status: u16,
    pub content_type: Seq<char>,
    pub body: Seq<char>,
}

impl View for Response {
    type V = ResponseView;

    open spec fn view(&self) -> ResponseView {
        ResponseView {
            status: self.status,
            content_type: self.content_type@,
            body: self.body@,
        }
    }
}

/// How a request is answered.
#[derive(Debug)]
pub enum Answer {
    /// With this reply.
    Reply(Response),
    /// With the models that this exchange with a backend of this kind lists.
    Models { kind: BackendKind, call: HttpCall },
    /// With the events of the session from now on, this one first.
    Listen { first: String },
}

/// How a request is answered.
#[verifier::ext_equal]
pub enum AnswerView {
    Reply(ResponseView),
    Models { kind: BackendKind, call: HttpView },
    Listen { first: Seq<char> },
}

impl View for Answer {
    type V = AnswerView;

    open spec fn view(&self) -> AnswerView {
        match self {
            Answer::Reply(r) => AnswerView::Reply(r@),
            Answer::Models { kind, call } => AnswerView::Models { kind: *kind, call: call@ },
            Answer::Listen { first } => AnswerView::Listen { first: first@ },
        }
    }
}

/// What happens in a session: its listeners are told these events, and this is to
/// be done for this turn.
#[derive(Debug)]
pub struct Effects {
    pub session: String,
    pub turn: u64,
    pub frames: Vec<String>,
    pub work: Option<Work>,
}

/// What happens in a session.
#[verifier::ext_equal]
pub struct EffectsView {
    pub session: Seq<char>,
    pub turn: nat,
    pub frames: Seq<Seq<char>>,
    pub work: Option<WorkView>,
}

impl View for Effects {
    type V = EffectsView;

    open spec fn view(&self) -> EffectsView {
        EffectsView {
            session: self.session@,
            turn: self.turn as nat,
            frames: text::texts(self.frames@),
            work: drive::work_view(self.work),
        }
    }
}

/// The view of effects that there may be.
pub open spec fn effects_view(e: Option<Effects>) -> Option<EffectsView> {
    match e {
        Some(e) => Some(e@),
        None => None,
    }
}

/// What comes of a request.
#[derive(Debug)]
pub struct Handled {
    pub answer: Answer,
    pub effects: Option<Effects>,
}

/// What comes of a request.
#[verifier::ext_equal]
pub struct HandledView {
    pub answer: AnswerView,
    pub effects: Option<EffectsView>,
}

impl View for Handled {
    type V = HandledView;

    open spec fn view(&self) -> HandledView {
        HandledView { answer: self.answer@, effects: effects_view(self.effects) }
    }
}

/// A reply with a JSON body.
pub open spec fn json_reply(status: u16, body: Seq<char>) -> ResponseView {
    ResponseView { status, content_type: "application/json"@, body }
}

/// A reply that reports an error.
pub open spec fn error_reply(status: u16, message: Seq<char>) -> ResponseView {
    json_reply(status, frames::jsingle("error"@, message))
}

/// A reply with a JSON body.
pub fn json(status: u16, body: &serde_json::Value) -> (r: Response)
    ensures
        r@ == json_reply(status, json::json_text(*body)),
{
    Response { status, content_type: "application/json", body: json::json_to_string(body) }
}

/// A reply that reports an error.
pub fn err(status: u16, msg: &str) -> (r: Response)
    ensures
        r@ == error_reply(status, msg@),
{
    json(status, &frames::single_json("error", msg))
}

/// A request that is answered and changes nothing.
pub open spec fn only(r: ResponseView) -> HandledView {
    HandledView { answer: AnswerView::Reply(r), effects: None }
}

/// A request that is answered and changes nothing.
fn only_of(r: Response) -> (h: Handled)
    ensures
        h@ == only(r@),
{
    Handled { answer: Answer::Reply(r), effects: None }
}

/// The text of a list of models.
pub open spec fn jmodels(models: Seq<ModelView>) -> Seq<char> {
    json::jobj(
        seq![
            (
                "models"@,
                json::jarr(
                    Seq::new(
                        models.len(),
                        |i: int|
                            json::jobj(
                                seq![
                                    ("detail"@, json::jstr(models[i].detail)),
                                    ("name"@, json::jstr(models[i].name)),
                                ],
                            ),
                    ),
                ),
            ),
        ],
    )
}

/// A list of models as a JSON value.
fn models_json(models: &Vec<ModelInfo>) -> (v: serde_json::Value)
    ensures
        json::json_text(v) == jmodels(backend::model_views(models@)),
{
    let ghost views = backend::model_views(models@);
    let ghost text_of = |i: int|
        json::jobj(
            seq![
                ("detail"@, json::jstr(views[i].detail)),
                ("name"@, json::jstr(views[i].name)),
            ],
        );
    let mut out: Vec<serde_json::Value> = Vec::new();
    let mut i: usize = 0;
    while i < models.len()
        invariant
            i <= models.len(),
            out.len() == i,
            views == backend::model_views(models@),
            text_of == |i: int|
                json::jobj(
                    seq![
                        ("detail"@, json::jstr(views[i].detail)),
                        ("name"@, json::jstr(views[i].name)),
                    ],
                ),
            forall|j: int| 0 <= j < i ==> json::json_text(#[trigger] out@[j]) == text_of(j),
        decreases models.len() - i,
    {
        let o = Object::new().with_str("detail", models[i].detail.as_str()).with_str(
            "name",
            models[i].name.as_str(),
        );
        proof {
            reveal_strlit("detail");
            reveal_strlit("name");
            assert(json::precedes_at("detail"@, "name"@, 0));
            assert(o@ =~= seq![
                ("detail"@, json::jstr(views[i as int].detail)),
                ("name"@, json::jstr(views[i as int].name)),
            ]);
        }
        out.push(o.build());
        i += 1;
    }
    proof {
        assert(json::json_texts(out@) =~= Seq::new(views.len(), text_of));
    }
    let o = Object::new().with("models", json::json_array(out));
    proof {
        assert(o@ =~= seq![("models"@, json::jarr(Seq::new(views.len(), text_of)))]);
    }
    o.build()
}

/// The reply to a request for models, once the backend has been asked.
pub open spec fn models_answer(listed: Result<Seq<ModelView>, Seq<char>>) -> ResponseView {
    match listed {
        Ok(models) => json_reply(200, jmodels(models)),
        Err(e) => error_reply(502, e),
    }
}

/// The reply to a request for models, once the backend has been asked.
pub fn models_reply(listed: Result<Vec<ModelInfo>, String>) -> (r: Response)
    ensures
        r@ == models_answer(
            match listed {
                Ok(models) => Ok(backend::model_views(models@)),
                Err(e) => Err(e@),
            },
        ),
{
    match listed {
        Ok(models) => json(200, &models_json(&models)),
        Err(e) => err(502, e.as_str()),
    }
}

// ---------------------------------------------------------------------------
// The server
// ---------------------------------------------------------------------------

/// The server.
pub struct AppState {
    sessions: Vec<SessionRecord>,
    next_id: u64,
    defaults: ServeDefaults,
    env: BackendEnv,
    version: String,
}

/// The server: its sessions, the number of the next one, and its settings.
#[verifier::ext_equal]
pub struct ServerView {
    pub sessions: Seq<RecordView>,
    pub next_id: nat,
    pub defaults: DefaultsView,
    pub env: EnvView,
    pub version: Seq<char>,
}

impl View for AppState {
    type V = ServerView;

    closed spec fn view(&self) -> ServerView {
        ServerView {
            sessions: record::record_views(self.sessions@),
            next_id: self.next_id as nat,
            defaults: self.defaults@,
            env: self.env@,
            version: self.version@,
        }
    }
}

/// The names of the sessions.
pub open spec fn ids(s: ServerView) -> Seq<Seq<char>> {
    Seq::new(s.sessions.len(), |i: int| record::session_id(s.sessions[i].number))
}

/// Where the session with this name is, or how many there are.
pub open spec fn find(s: ServerView, id: Seq<char>) -> int {
    text::first_index(ids(s), id)
}

/// Whether there is a session with this name.
pub open spec fn is_known(s: ServerView, id: Seq<char>) -> bool {
    find(s, id) < s.sessions.len()
}

/// The session with this name.
pub open spec fn session(s: ServerView, id: Seq<char>) -> RecordView {
    s.sessions[find(s, id)]
}

/// The server with another state of the session with this name.
pub open spec fn put(s: ServerView, id: Seq<char>, r: RecordView) -> ServerView {
    ServerView { sessions: s.sessions.update(find(s, id), r), ..s }
}

/// The server after a request, and what came of it.
#[verifier::ext_equal]
pub struct Turned {
    pub server: ServerView,
    pub out: HandledView,
}

/// The server after something else happened, and what came of it.
#[verifier::ext_equal]
pub struct Shifted {
    pub server: ServerView,
    pub effects: Option<EffectsView>,
}

/// A request that is answered and changes nothing.
pub open spec fn unchanged(s: ServerView, r: ResponseView) -> Turned {
    Turned { server: s, out: only(r) }
}

/// The settings for a backend of this name; those of the command line where there
/// is no such backend.
pub open spec fn resolved(s: ServerView, name: Option<Seq<char>>) -> ConfigView {
    let cfg = s.defaults.backend_cfg;
    match name {
        Some(n) => match config::kind_named(n, s.env.family) {
            Some(kind) => ConfigView { backend: kind, ..cfg },
            None => cfg,
        },
        None => cfg,
    }
}

/// `a`, or `b` where there is none.
pub open spec fn or<T>(a: Option<T>, b: T) -> T {
    match a {
        Some(v) => v,
        None => b,
    }
}

/// `a`, or `b` where there is none.
pub open spec fn or_other<T>(a: Option<T>, b: Option<T>) -> Option<T> {
    match a {
        Some(_) => a,
        None => b,
    }
}

/// A session as it is asked for, before anything has been said in it.
pub open spec fn fresh(s: ServerView, q: CreateView, now: Seq<char>) -> RecordView {
    let d = s.defaults;
    let model = or_other(q.model, d.backend_cfg.model);
    let base = resolved(s, q.backend);
    RecordView {
        number: s.next_id,
        created_at: now,
        config: ConfigOutView {
            backend: or(q.backend, config::kind_name(d.backend_cfg.backend, s.env.family)),
            model,
            system: or_other(q.system, d.system),
            command_per_response: match q.command_per_response {
                Some(n) => n as nat,
                None => d.command_per_response,
            },
            approval_mode: or(q.approval_mode, "gated"@),
        },
        backend: ConfigView {
            backend: base.backend,
            server: or(q.server, base.server),
            port: or(q.port, base.port),
            api_base: or_other(q.api_base, base.api_base),
            model,
            max_tokens: or(q.max_tokens, base.max_tokens),
        },
        reminders: or(q.reminders, d.reminders),
        persist_path: q.persist_path,
        history: Seq::empty(),
        active: None,
    }
}

/// The text that announces a new session.
pub open spec fn jcreated(r: RecordView) -> Seq<char> {
    json::jobj(
        seq![
            ("created_at"@, json::jstr(r.created_at)),
            ("id"@, json::jstr(record::session_id(r.number))),
            ("state"@, json::jstr("idle"@)),
        ],
    )
}

/// A session is created. Once the numbers have run out there can be no other.
pub open spec fn created(s: ServerView, q: CreateView, now: Seq<char>) -> Turned {
    if s.next_id >= u64::MAX {
        unchanged(s, error_reply(503, "too many sessions"@))
    } else {
        let r = fresh(s, q, now);
        Turned {
            server: ServerView { sessions: s.sessions.push(r), next_id: s.next_id + 1, ..s },
            out: only(json_reply(201, jcreated(r))),
        }
    }
}

/// The reply where there is no session with the name that was asked for.
pub open spec fn no_session() -> ResponseView {
    error_reply(404, "no such session"@)
}

/// The reply where no command with the name that was asked for waits.
pub open spec fn no_command() -> ResponseView {
    error_reply(404, "no such pending command"@)
}

/// What happens in the session with this name when it moves.
pub open spec fn told(id: Seq<char>, turn: nat, m: Moved) -> EffectsView {
    EffectsView { session: id, turn, frames: m.frames, work: m.work }
}

/// The models that a backend offers.
pub open spec fn models_asked(s: ServerView, query: Seq<char>) -> Turned {
    let cfg = resolved(s, routes::asked_backend(query));
    match config::built(cfg, s.env) {
        Err(e) => unchanged(s, error_reply(400, e)),
        Ok(b) => match config::models_request(b) {
            ModelsView::Known(models) => unchanged(s, models_answer(Ok(models))),
            ModelsView::Http(call) => Turned {
                server: s,
                out: HandledView {
                    answer: AnswerView::Models { kind: cfg.backend, call },
                    effects: None,
                },
            },
        },
    }
}

/// A session is dropped, with whatever is under way in it.
pub open spec fn deleted(s: ServerView, id: Seq<char>) -> Turned {
    if is_known(s, id) {
        Turned {
            server: ServerView { sessions: s.sessions.remove(find(s, id)), ..s },
            out: only(
                json_reply(200, json::jobj(seq![("deleted"@, "true"@)])),
            ),
        }
    } else {
        unchanged(s, no_session())
    }
}

/// The text that announces a new turn.
pub open spec fn jaccepted(turn: nat) -> Seq<char> {
    json::jobj(
        seq![
            ("state"@, json::jstr("generating"@)),
            ("turn_id"@, json::jstr(record::turn_id(turn))),
        ],
    )
}

/// Something is said to the model. Only one turn is under way at a time.
pub open spec fn message_posted(s: ServerView, id: Seq<char>, body: BodyView) -> Turned {
    if !is_known(s, id) {
        unchanged(s, no_session())
    } else {
        match body {
            BodyView::Message { content } => {
                let r = session(s, id);
                if r.active is Some {
                    unchanged(s, error_reply(409, "a turn is already in flight"@))
                } else {
                    let m = drive::posted(r, content);
                    let turn = m.record.active->0.number;
                    Turned {
                        server: put(s, id, m.record),
                        out: HandledView {
                            answer: AnswerView::Reply(json_reply(202, jaccepted(turn))),
                            effects: Some(told(id, turn, m)),
                        },
                    }
                }
            },
            _ => unchanged(s, error_reply(400, body_error(body))),
        }
    }
}

/// Whether this command of this session waits for a decision.
pub open spec fn waits(s: ServerView, id: Seq<char>, cmd_id: Seq<char>) -> bool {
    is_known(s, id) && match record::pending(session(s, id)) {
        Some(p) => p.cmd_id == cmd_id,
        None => false,
    }
}

/// The command that waits in this session is decided about.
pub open spec fn decided(s: ServerView, id: Seq<char>, d: DecisionView) -> Shifted {
    let r = session(s, id);
    match drive::moved(r, EventView::Decided(d)) {
        Some(m) => Shifted {
            server: put(s, id, m.record),
            effects: Some(told(id, r.active->0.number, m)),
        },
        None => Shifted { server: s, effects: None },
    }
}

/// Somebody decides about a command. Only the one that waits can be decided about.
pub open spec fn decision_posted(
    s: ServerView,
    id: Seq<char>,
    cmd_id: Seq<char>,
    d: DecisionView,
) -> Turned {
    if !is_known(s, id) {
        unchanged(s, no_session())
    } else if !waits(s, id, cmd_id) {
        unchanged(s, no_command())
    } else {
        let after = decided(s, id, d);
        Turned {
            server: after.server,
            out: HandledView {
                answer: AnswerView::Reply(
                    json_reply(200, frames::jsingle("state"@, "generating"@)),
                ),
                effects: after.effects,
            },
        }
    }
}

/// Somebody denies a command. A reason need not be given.
pub open spec fn denial_posted(
    s: ServerView,
    id: Seq<char>,
    cmd_id: Seq<char>,
    body: BodyView,
) -> Turned {
    if !is_known(s, id) {
        unchanged(s, no_session())
    } else if !waits(s, id, cmd_id) {
        unchanged(s, no_command())
    } else {
        match body {
            BodyView::Denial { reason } => decision_posted(
                s,
                id,
                cmd_id,
                DecisionView::Deny { reason: or(reason, "no reason given"@) },
            ),
            BodyView::Empty => decision_posted(
                s,
                id,
                cmd_id,
                DecisionView::Deny { reason: "no reason given"@ },
            ),
            _ => unchanged(s, error_reply(400, body_error(body))),
        }
    }
}

/// The turn of a session is stopped, where one is under way.
pub open spec fn cancel_posted(s: ServerView, id: Seq<char>) -> Turned {
    let reply = json_reply(200, frames::jsingle("state"@, "idle"@));
    if !is_known(s, id) {
        unchanged(s, no_session())
    } else if session(s, id).active is None {
        unchanged(s, reply)
    } else {
        let m = drive::canceled(session(s, id));
        Turned {
            server: put(s, id, m.record),
            out: HandledView {
                answer: AnswerView::Reply(reply),
                effects: Some(told(id, session(s, id).active->0.number, m)),
            },
        }
    }
}

/// What comes of a request about one session.
pub open spec fn session_asked(s: ServerView, route: RouteView, body: BodyView) -> Turned {
    match route {
        RouteView::GetSession { id } => if is_known(s, id) {
            unchanged(s, json_reply(200, record::jsnapshot(session(s, id))))
        } else {
            unchanged(s, no_session())
        },
        RouteView::DeleteSession { id } => deleted(s, id),
        RouteView::PostMessage { id } => message_posted(s, id, body),
        RouteView::Events { id } => if is_known(s, id) {
            Turned {
                server: s,
                out: HandledView {
                    answer: AnswerView::Listen {
                        first: frames::frame(
                            "snapshot"@,
                            record::jsnapshot(session(s, id)),
                        ),
                    },
                    effects: None,
                },
            }
        } else {
            unchanged(s, no_session())
        },
        RouteView::Approve { id, cmd_id } => decision_posted(
            s,
            id,
            cmd_id,
            DecisionView::Approve,
        ),
        RouteView::Deny { id, cmd_id } => denial_posted(s, id, cmd_id, body),
        RouteView::Cancel { id } => cancel_posted(s, id),
        _ => unchanged(s, error_reply(404, "not found"@)),
    }
}

/// What comes of a request that asks for `route` at `now`.
pub open spec fn routed(
    s: ServerView,
    route: RouteView,
    query: Seq<char>,
    body: BodyView,
    now: Seq<char>,
) -> Turned {
    match route {
        RouteView::Index => unchanged(
            s,
            ResponseView {
                status: 200,
                content_type: "text/html; charset=utf-8"@,
                body: ui::INDEX@,
            },
        ),
        RouteView::Health => unchanged(
            s,
            json_reply(
                200,
                json::jobj(seq![("ok"@, "true"@), ("version"@, json::jstr(s.version))]),
            ),
        ),
        RouteView::Models => models_asked(s, query),
        RouteView::CreateSession => match body {
            BodyView::Empty => created(s, nothing_said(), now),
            BodyView::Session(wanted) => created(s, wanted, now),
            _ => unchanged(s, error_reply(400, body_error(body))),
        },
        RouteView::ListSessions => unchanged(s, json_reply(200, record::jlist(s.sessions))),
        _ => session_asked(s, route, body),
    }
}

/// What comes of a request that arrives at `now`.
pub open spec fn handled(s: ServerView, q: AskedView, now: Seq<char>) -> Turned {
    routed(s, routes::route(q.method, q.path), q.query, q.body, now)
}

/// Whether this turn is under way in this session.
pub open spec fn under_way(s: ServerView, id: Seq<char>, turn: nat) -> bool {
    is_known(s, id) && match session(s, id).active {
        Some(a) => a.number == turn,
        None => false,
    }
}

/// Something came of the work for a turn. It counts only while the turn is under
/// way and waits for it, and it is never a decision: those are made by others.
pub open spec fn progressed(s: ServerView, id: Seq<char>, turn: nat, e: EventView) -> Shifted {
    if e is Decided || !under_way(s, id, turn) {
        Shifted { server: s, effects: None }
    } else {
        match drive::moved(session(s, id), e) {
            Some(m) => Shifted {
                server: put(s, id, m.record),
                effects: Some(told(id, turn, m)),
            },
            None => Shifted { server: s, effects: None },
        }
    }
}

/// A fragment of an answer came. It counts only while the turn is under way and
/// waits for the answer.
pub open spec fn fragment_came(s: ServerView, id: Seq<char>, turn: nat, frag: Seq<char>) -> Shifted {
    if !under_way(s, id, turn) {
        Shifted { server: s, effects: None }
    } else {
        match drive::streamed(session(s, id), frag) {
            Some(m) => Shifted {
                server: put(s, id, m.record),
                effects: Some(told(id, turn, m)),
            },
            None => Shifted { server: s, effects: None },
        }
    }
}

/// The time for a decision has run out: a command that still waits is denied.
pub open spec fn expired(s: ServerView, id: Seq<char>, cmd_id: Seq<char>) -> Shifted {
    if waits(s, id, cmd_id) {
        decided(s, id, DecisionView::Deny { reason: "approval timed out"@ })
    } else {
        Shifted { server: s, effects: None }
    }
}

// ---------------------------------------------------------------------------
// Doing it
// ---------------------------------------------------------------------------

/// The settings for a backend of this name; those of the command line where there
/// is no such backend.
pub fn resolve_backend(state: &AppState, name: Option<&str>) -> (r: BackendConfig)
    ensures
        r@ == resolved(state@, text::opt_str(name)),
{
    let mut cfg = state.defaults.backend_cfg.clone();
    if let Some(n) = name {
        if let Some(kind) = BackendKind::from_name(n, state.env.family.as_str()) {
            cfg.backend = kind;
        }
    }
    cfg
}

/// `a`, or a copy of `b` where there is none.
fn or_text(a: Option<String>, b: &str) -> (r: String)
    ensures
        r@ == or(text::opt_text(a), b@),
{
    match a {
        Some(v) => v,
        None => b.to_owned(),
    }
}

/// `a`, or a copy of `b` where there is none.
fn or_other_text(a: Option<String>, b: &Option<String>) -> (r: Option<String>)
    ensures
        text::opt_text(r) == or_other(text::opt_text(a), text::opt_text(*b)),
{
    match a {
        Some(v) => Some(v),
        None => text::clone_option(b),
    }
}

impl AppState {
    /// A server without sessions.
    pub fn new(defaults: ServeDefaults, env: BackendEnv, version: String) -> (s: AppState)
        ensures
            s@ == (ServerView {
                sessions: Seq::empty(),
                next_id: 1,
                defaults: defaults@,
                env: env@,
                version: version@,
            }),
            laws::well_formed(s@),
    {
        let s = AppState { sessions: Vec::new(), next_id: 1, defaults, env, version };
        proof {
            assert(s@.sessions =~= Seq::empty());
        }
        s
    }

    /// What the environment of the server says.
    pub fn env(&self) -> (r: &BackendEnv)
        ensures
            r@ == self@.env,
    {
        &self.env
    }

    /// Where the session with this name is, or how many there are.
    fn find(&self, id: &str) -> (r: usize)
        ensures
            r == find(self@, id@),
            r <= self.sessions.len(),
    {
        let ghost names = ids(self@);
        let mut i: usize = 0;
        while i < self.sessions.len()
            invariant
                i <= self.sessions.len(),
                names == ids(self@),
                forall|j: int| 0 <= j < i ==> #[trigger] names[j] != id@,
            decreases self.sessions.len() - i,
        {
            let name = self.sessions[i].id();
            proof {
                assert(names[i as int] == name@);
            }
            if text::same_text(name.as_str(), id) {
                proof {
                    text::lemma_first_index_at(names, id@, i as int);
                }
                return i;
            }
            i += 1;
        }
        proof {
            text::lemma_first_index_at(names, id@, i as int);
        }
        i
    }

    /// A session as it is asked for, before anything has been said in it.
    fn fresh(&self, q: CreateSessionReq, now: String) -> (r: SessionRecord)
        ensures
            r@ == fresh(self@, q@, now@),
    {
        let d = &self.defaults;
        let named: Option<&str> = match &q.backend {
            Some(n) => Some(n.as_str()),
            None => None,
        };
        let base = resolve_backend(self, named);
        let model = or_other_text(q.model, &d.backend_cfg.model);
        let kind = d.backend_cfg.backend.name(self.env.family.as_str());
        let config = SessionConfigOut {
            backend: or_text(q.backend, kind.as_str()),
            model: text::clone_option(&model),
            system: or_other_text(q.system, &d.system),
            command_per_response: match q.command_per_response {
                Some(n) => n,
                None => d.command_per_response,
            },
            approval_mode: or_text(q.approval_mode, "gated"),
        };
        let backend = BackendConfig {
            backend: base.backend,
            server: or_text(q.server, base.server.as_str()),
            port: match q.port {
                Some(p) => p,
                None => base.port,
            },
            api_base: or_other_text(q.api_base, &base.api_base),
            model,
            max_tokens: match q.max_tokens {
                Some(n) => n,
                None => base.max_tokens,
            },
        };
        let reminders = match q.reminders {
            Some(r) => r,
            None => reminders::clone_all(&d.reminders),
        };
        SessionRecord {
            number: self.next_id,
            created_at: now,
            config,
            backend,
            reminders,
            persist_path: q.persist_path,
            session: Session::default(),
            active: None,
        }
    }

    /// Creates a session.
    fn create(&mut self, q: CreateSessionReq, now: String) -> (h: Handled)
        ensures
            (Turned { server: final(self)@, out: h@ }) == created(old(self)@, q@, now@),
    {
        if self.next_id == u64::MAX {
            return only_of(err(503, "too many sessions"));
        }
        let ghost before = self@;
        let r = self.fresh(q, now);
        let o = Object::new().with_str("created_at", r.created_at.as_str()).with_str(
            "id",
            r.id().as_str(),
        ).with_str("state", "idle");
        proof {
            reveal_strlit("created_at");
            reveal_strlit("id");
            reveal_strlit("state");
            assert(json::precedes_at("created_at"@, "id"@, 0));
            assert(json::precedes_at("id"@, "state"@, 0));
            assert(o@ =~= seq![
                ("created_at"@, json::jstr(r@.created_at)),
                ("id"@, json::jstr(record::session_id(r@.number))),
                ("state"@, json::jstr("idle"@)),
            ]);
        }
        let ghost sessions = self.sessions@;
        self.sessions.push(r);
        self.next_id = self.next_id + 1;
        proof {
            assert(record::record_views(self.sessions@) =~= record::record_views(sessions).push(r@));
        }
        only_of(json(201, &o.build()))
    }

    /// Lists the models that a backend offers.
    fn models(&self, query: &str) -> (h: Handled)
        ensures
            (Turned { server: self@, out: h@ }) == models_asked(self@, query@),
    {
        let name = routes::asked_backend_of(query);
        let named: Option<&str> = match &name {
            Some(n) => Some(n.as_str()),
            None => None,
        };
        let cfg = resolve_backend(self, named);
        match config::build_backend(&cfg, &self.env) {
            Err(e) => only_of(err(400, e.as_str())),
            Ok(b) => match b.list_models() {
                ModelsCall::Known(models) => only_of(models_reply(Ok(models))),
                ModelsCall::Http(call) => Handled {
                    answer: Answer::Models { kind: cfg.backend, call },
                    effects: None,
                },
            },
        }
    }

    /// Drops a session.
    fn delete(&mut self, id: &str) -> (h: Handled)
        ensures
            (Turned { server: final(self)@, out: h@ }) == deleted(old(self)@, id@),
    {
        let i: usize = self.find(id);
        if i >= self.sessions.len() {
            return only_of(err(404, "no such session"));
        }
        let ghost sessions = self.sessions@;
        let _ = self.sessions.remove(i);
        proof {
            assert(record::record_views(self.sessions@) =~= record::record_views(sessions).remove(
                i as int,
            ));
        }
        let o = Object::new().with("deleted", json::json_bool(true));
        proof {
            assert(o@ =~= seq![("deleted"@, "true"@)]);
        }
        only_of(json(200, &o.build()))
    }

    /// Says something to the model.
    fn post_message(&mut self, id: &str, body: Body) -> (h: Handled)
        ensures
            (Turned { server: final(self)@, out: h@ }) == message_posted(old(self)@, id@, body@),
    {
        let i: usize = self.find(id);
        if i >= self.sessions.len() {
            return only_of(err(404, "no such session"));
        }
        let content = match body {
            Body::Message { content } => content,
            other => {
                return only_of(err(400, body_error_of(&other).as_str()));
            },
        };
        if self.sessions[i].active.is_some() {
            return only_of(err(409, "a turn is already in flight"));
        }
        let ghost sessions = self.sessions@;
        let m = self.sessions[i].post(content);
        proof {
            assert(record::record_views(self.sessions@) =~= record::record_views(sessions).update(
                i as int,
                self.sessions@[i as int]@,
            ));
        }
        let turn: u64 = self.sessions[i].session.messages.len() as u64;
        let o = Object::new().with_str("state", "generating").with_str(
            "turn_id",
            record::turn_id_of(turn).as_str(),
        );
        proof {
            reveal_strlit("state");
            reveal_strlit("turn_id");
            assert(json::precedes_at("state"@, "turn_id"@, 0));
            assert(o@ =~= seq![
                ("state"@, json::jstr("generating"@)),
                ("turn_id"@, json::jstr(record::turn_id(turn as nat))),
            ]);
        }
        Handled {
            answer: Answer::Reply(json(202, &o.build())),
            effects: Some(
                Effects { session: id.to_owned(), turn, frames: m.frames, work: m.work },
            ),
        }
    }

    /// Whether this command of the session at `i` waits for a decision.
    fn waits(&self, i: usize, cmd_id: &str) -> (r: bool)
        requires
            i < self@.sessions.len(),
        ensures
            r == match record::pending(self@.sessions[i as int]) {
                Some(p) => p.cmd_id == cmd_id@,
                None => false,
            },
    {
        match self.sessions[i].pending_id() {
            Some(p) => text::same_text(p.as_str(), cmd_id),
            None => false,
        }
    }

    /// Hands an event to the session at `i`, which has this name.
    fn advance(&mut self, i: usize, id: &str, event: TurnEvent) -> (r: Option<Effects>)
        requires
            i == find(old(self)@, id@),
            i < old(self)@.sessions.len(),
        ensures
            match drive::moved(session(old(self)@, id@), event@) {
                Some(m) => {
                    &&& final(self)@ == put(old(self)@, id@, m.record)
                    &&& effects_view(r) == Some(
                        told(id@, session(old(self)@, id@).active->0.number, m),
                    )
                },
                None => final(self)@ == old(self)@ && r is None,
            },
    {
        let ghost sessions = self.sessions@;
        let turn: u64 = match &self.sessions[i].active {
            Some(a) => a.number,
            None => 0,
        };
        let moved = self.sessions[i].advance(event);
        proof {
            assert(record::record_views(self.sessions@) =~= record::record_views(sessions).update(
                i as int,
                self.sessions@[i as int]@,
            ));
            if moved is None {
                assert(record::record_views(self.sessions@) =~= record::record_views(sessions));
            }
        }
        match moved {
            Some(m) => Some(
                Effects { session: id.to_owned(), turn, frames: m.frames, work: m.work },
            ),
            None => None,
        }
    }

    /// Decides about a command.
    fn decide(&mut self, id: &str, cmd_id: &str, decision: Decision) -> (h: Handled)
        ensures
            (Turned { server: final(self)@, out: h@ }) == decision_posted(
                old(self)@,
                id@,
                cmd_id@,
                decision@,
            ),
    {
        let i: usize = self.find(id);
        if i >= self.sessions.len() {
            return only_of(err(404, "no such session"));
        }
        if !self.waits(i, cmd_id) {
            return only_of(err(404, "no such pending command"));
        }
        let effects = self.advance(i, id, TurnEvent::Decided(decision));
        Handled {
            answer: Answer::Reply(json(200, &frames::single_json("state", "generating"))),
            effects,
        }
    }

    /// Denies a command.
    fn deny(&mut self, id: &str, cmd_id: &str, body: Body) -> (h: Handled)
        ensures
            (Turned { server: final(self)@, out: h@ }) == denial_posted(
                old(self)@,
                id@,
                cmd_id@,
                body@,
            ),
    {
        let i: usize = self.find(id);
        if i >= self.sessions.len() {
            return only_of(err(404, "no such session"));
        }
        if !self.waits(i, cmd_id) {
            return only_of(err(404, "no such pending command"));
        }
        let reason = match body {
            Body::Denial { reason } => or_text(reason, "no reason given"),
            Body::Empty => "no reason given".to_owned(),
            other => {
                return only_of(err(400, body_error_of(&other).as_str()));
            },
        };
        self.decide(id, cmd_id, Decision::Deny { reason })
    }

    /// Stops the turn of a session.
    fn cancel(&mut self, id: &str) -> (h: Handled)
        ensures
            (Turned { server: final(self)@, out: h@ }) == cancel_posted(old(self)@, id@),
    {
        let i: usize = self.find(id);
        if i >= self.sessions.len() {
            return only_of(err(404, "no such session"));
        }
        let reply = json(200, &frames::single_json("state", "idle"));
        let turn: u64 = match &self.sessions[i].active {
            Some(a) => a.number,
            None => {
                return only_of(reply);
            },
        };
        let ghost sessions = self.sessions@;
        let m = self.sessions[i].cancel();
        proof {
            assert(record::record_views(self.sessions@) =~= record::record_views(sessions).update(
                i as int,
                self.sessions@[i as int]@,
            ));
        }
        Handled {
            answer: Answer::Reply(reply),
            effects: Some(
                Effects { session: id.to_owned(), turn, frames: m.frames, work: m.work },
            ),
        }
    }

    /// Shows a session.
    fn show(&self, id: &str) -> (h: Handled)
        ensures
            (Turned { server: self@, out: h@ }) == if is_known(self@, id@) {
                unchanged(self@, json_reply(200, record::jsnapshot(session(self@, id@))))
            } else {
                unchanged(self@, no_session())
            },
    {
        let i: usize = self.find(id);
        if i >= self.sessions.len() {
            return only_of(err(404, "no such session"));
        }
        only_of(json(200, &record::snapshot(&self.sessions[i])))
    }

    /// Lets somebody listen to a session.
    fn listen(&self, id: &str) -> (h: Handled)
        ensures
            h@ == if is_known(self@, id@) {
                HandledView {
                    answer: AnswerView::Listen {
                        first: frames::frame(
                            "snapshot"@,
                            record::jsnapshot(session(self@, id@)),
                        ),
                    },
                    effects: None,
                }
            } else {
                only(no_session())
            },
    {
        let i: usize = self.find(id);
        if i >= self.sessions.len() {
            return only_of(err(404, "no such session"));
        }
        let first = frames::frame_of("snapshot", &record::snapshot(&self.sessions[i]));
        Handled { answer: Answer::Listen { first }, effects: None }
    }

    /// Says that the server is there.
    fn health(&self) -> (h: Handled)
        ensures
            h@ == only(
                json_reply(
                    200,
                    json::jobj(seq![("ok"@, "true"@), ("version"@, json::jstr(self@.version))]),
                ),
            ),
    {
        let o = Object::new().with("ok", json::json_bool(true)).with_str(
            "version",
            self.version.as_str(),
        );
        proof {
            reveal_strlit("ok");
            reveal_strlit("version");
            assert(json::precedes_at("ok"@, "version"@, 0));
            assert(o@ =~= seq![("ok"@, "true"@), ("version"@, json::jstr(self@.version))]);
        }
        only_of(json(200, &o.build()))
    }

    /// Answers a request about one session.
    #[verifier::spinoff_prover]
    #[verifier::rlimit(40)]
    fn answer_session(&mut self, route: Route, body: Body) -> (h: Handled)
        ensures
            (Turned { server: final(self)@, out: h@ }) == session_asked(
                old(self)@,
                route@,
                body@,
            ),
    {
        match route {
            Route::GetSession { id } => self.show(id.as_str()),
            Route::DeleteSession { id } => self.delete(id.as_str()),
            Route::PostMessage { id } => self.post_message(id.as_str(), body),
            Route::Events { id } => self.listen(id.as_str()),
            Route::Approve { id, cmd_id } => self.decide(
                id.as_str(),
                cmd_id.as_str(),
                Decision::Approve,
            ),
            Route::Deny { id, cmd_id } => self.deny(id.as_str(), cmd_id.as_str(), body),
            Route::Cancel { id } => self.cancel(id.as_str()),
            _ => only_of(err(404, "not found")),
        }
    }

    /// Answers a request that asks for `route` at `now`.
    #[verifier::spinoff_prover]
    #[verifier::rlimit(40)]
    fn answer(&mut self, route: Route, query: &str, body: Body, now: String) -> (h: Handled)
        ensures
            (Turned { server: final(self)@, out: h@ }) == routed(
                old(self)@,
                route@,
                query@,
                body@,
                now@,
            ),
    {
        match route {
            Route::Index => only_of(
                Response {
                    status: 200,
                    content_type: "text/html; charset=utf-8",
                    body: ui::INDEX.to_owned(),
                },
            ),
            Route::Health => self.health(),
            Route::Models => self.models(query),
            Route::CreateSession => match body {
                Body::Empty => self.create(CreateSessionReq::default(), now),
                Body::Session(wanted) => self.create(wanted, now),
                other => only_of(err(400, body_error_of(&other).as_str())),
            },
            Route::ListSessions => only_of(json(200, &record::list_json(&self.sessions))),
            other => self.answer_session(other, body),
        }
    }

    /// Answers a request that arrives at `now`.
    #[verifier::spinoff_prover]
    pub fn handle_at(&mut self, request: Request, now: String) -> (h: Handled)
        ensures
            (Turned { server: final(self)@, out: h@ }) == handled(old(self)@, request@, now@),
            laws::well_formed(old(self)@) ==> laws::well_formed(final(self)@),
    {
        proof {
            if laws::well_formed(self@) {
                laws::law_a_server_stays_well_formed(
                    self@,
                    Happening::Asked { request: request@, now: now@ },
                );
            }
        }
        let route = routes::route_of(request.method.as_str(), request.path.as_str());
        self.answer(route, request.query.as_str(), request.body, now)
    }

    /// Answers a request that arrives now.
    pub fn handle(&mut self, request: Request) -> (h: Handled)
        ensures
            exists|now: Seq<char>|
                now.len() >= 19 && (Turned { server: final(self)@, out: h@ }) == #[trigger] handled(
                    old(self)@,
                    request@,
                    now,
                ),
            laws::well_formed(old(self)@) ==> laws::well_formed(final(self)@),
    {
        let now = log::local_timestamp();
        self.handle_at(request, now)
    }

    /// Whether this turn is under way in the session at `i`.
    fn under_way(&self, i: usize, turn: u64) -> (r: bool)
        requires
            i < self@.sessions.len(),
        ensures
            r == match self@.sessions[i as int].active {
                Some(a) => a.number == turn,
                None => false,
            },
    {
        match &self.sessions[i].active {
            Some(a) => a.number == turn,
            None => false,
        }
    }

    /// Takes in what came of the work for a turn.
    #[verifier::spinoff_prover]
    fn take_event(&mut self, id: &str, turn: u64, event: TurnEvent) -> (r: Option<Effects>)
        ensures
            (Shifted { server: final(self)@, effects: effects_view(r) }) == progressed(
                old(self)@,
                id@,
                turn as nat,
                event@,
            ),
    {
        if let TurnEvent::Decided(_) = &event {
            return None;
        }
        let i: usize = self.find(id);
        if i >= self.sessions.len() || !self.under_way(i, turn) {
            return None;
        }
        self.advance(i, id, event)
    }

    /// Takes in what came of the work for a turn.
    #[verifier::spinoff_prover]
    pub fn progress(&mut self, id: &str, turn: u64, event: TurnEvent) -> (r: Option<Effects>)
        ensures
            (Shifted { server: final(self)@, effects: effects_view(r) }) == progressed(
                old(self)@,
                id@,
                turn as nat,
                event@,
            ),
            laws::well_formed(old(self)@) ==> laws::well_formed(final(self)@),
    {
        proof {
            if laws::well_formed(self@) {
                laws::law_a_server_stays_well_formed(
                    self@,
                    Happening::Came { id: id@, turn: turn as nat, event: event@ },
                );
            }
        }
        self.take_event(id, turn, event)
    }

    /// Takes a fragment of an answer in.
    #[verifier::spinoff_prover]
    fn take_fragment(&mut self, id: &str, turn: u64, frag: &str) -> (r: Option<Effects>)
        ensures
            (Shifted { server: final(self)@, effects: effects_view(r) }) == fragment_came(
                old(self)@,
                id@,
                turn as nat,
                frag@,
            ),
    {
        let i: usize = self.find(id);
        if i >= self.sessions.len() || !self.under_way(i, turn) {
            return None;
        }
        let ghost sessions = self.sessions@;
        let streamed = self.sessions[i].stream(frag);
        proof {
            assert(record::record_views(self.sessions@) =~= record::record_views(sessions).update(
                i as int,
                self.sessions@[i as int]@,
            ));
            if streamed is None {
                assert(record::record_views(self.sessions@) =~= record::record_views(sessions));
            }
        }
        match streamed {
            Some(m) => Some(
                Effects { session: id.to_owned(), turn, frames: m.frames, work: m.work },
            ),
            None => None,
        }
    }

    /// Takes a fragment of an answer in.
    #[verifier::spinoff_prover]
    pub fn token(&mut self, id: &str, turn: u64, frag: &str) -> (r: Option<Effects>)
        ensures
            (Shifted { server: final(self)@, effects: effects_view(r) }) == fragment_came(
                old(self)@,
                id@,
                turn as nat,
                frag@,
            ),
            laws::well_formed(old(self)@) ==> laws::well_formed(final(self)@),
    {
        proof {
            if laws::well_formed(self@) {
                laws::law_a_server_stays_well_formed(
                    self@,
                    Happening::Streamed { id: id@, turn: turn as nat, frag: frag@ },
                );
            }
        }
        self.take_fragment(id, turn, frag)
    }

    /// Ends the waiting for a decision.
    #[verifier::spinoff_prover]
    fn end_waiting(&mut self, id: &str, cmd_id: &str) -> (r: Option<Effects>)
        ensures
            (Shifted { server: final(self)@, effects: effects_view(r) }) == expired(
                old(self)@,
                id@,
                cmd_id@,
            ),
    {
        let i: usize = self.find(id);
        if i >= self.sessions.len() || !self.waits(i, cmd_id) {
            return None;
        }
        let reason = "approval timed out".to_owned();
        self.advance(i, id, TurnEvent::Decided(Decision::Deny { reason }))
    }

    /// Ends the waiting for a decision.
    #[verifier::spinoff_prover]
    pub fn expire(&mut self, id: &str, cmd_id: &str) -> (r: Option<Effects>)
        ensures
            (Shifted { server: final(self)@, effects: effects_view(r) }) == expired(
                old(self)@,
                id@,
                cmd_id@,
            ),
            laws::well_formed(old(self)@) ==> laws::well_formed(final(self)@),
    {
        proof {
            if laws::well_formed(self@) {
                laws::law_a_server_stays_well_formed(
                    self@,
                    Happening::Expired { id: id@, cmd_id: cmd_id@ },
                );
            }
        }
        self.end_waiting(id, cmd_id)
    }
}

// ---------------------------------------------------------------------------
// Settings
// ---------------------------------------------------------------------------

/// The number that digits stand for, where they are digits and it is small enough.
pub open spec fn number_of(digits: Seq<char>) -> Option<nat>
    decreases digits.len(),
{
    if digits.len() == 0 {
        Some(0)
    } else {
        let d = digits.last();
        match number_of(digits.drop_last()) {
            Some(n) => if '0' <= d && d <= '9' && n * 10 + (d as nat - '0' as nat) <= u64::MAX {
                Some((n * 10 + (d as nat - '0' as nat)) as nat)
            } else {
                None
            },
            None => None,
        }
    }
}

/// How many seconds there are for a decision about a command: what the setting
/// says, and ten minutes where it says nothing that can be used.
pub open spec fn approval_seconds(setting: Option<Seq<char>>) -> nat {
    match setting {
        Some(s) => {
            let digits = match text::strip_prefix(s, "+"@) {
                Some(rest) => rest,
                None => s,
            };
            match number_of(digits) {
                Some(n) => if digits.len() == 0 {
                    600
                } else {
                    n
                },
                None => 600,
            }
        },
        None => 600,
    }
}

/// No number is read once something else has come in front.
proof fn lemma_number_prefix(digits: Seq<char>, i: int)
    requires
        0 <= i <= digits.len(),
        number_of(digits.take(i)) is None,
    ensures
        number_of(digits) is None,
    decreases digits.len() - i,
{
    if i < digits.len() {
        assert(digits.take(i + 1).drop_last() =~= digits.take(i));
        lemma_number_prefix(digits, i + 1);
    } else {
        assert(digits.take(i) =~= digits);
    }
}

/// The number that digits stand for.
fn read_number(digits: &str) -> (r: Option<u64>)
    ensures
        match r {
            Some(n) => number_of(digits@) == Some(n as nat),
            None => number_of(digits@) is None,
        },
{
    let chars = text::chars_of(digits);
    let mut n: u64 = 0;
    let mut i: usize = 0;
    proof {
        assert(digits@.take(0) =~= Seq::empty());
    }
    while i < chars.len()
        invariant
            i <= chars.len(),
            chars@ == digits@,
            number_of(digits@.take(i as int)) == Some(n as nat),
        decreases chars.len() - i,
    {
        let c = chars[i];
        proof {
            let t = digits@.take(i + 1);
            assert(t.drop_last() =~= digits@.take(i as int));
            assert(t.last() == c);
        }
        if c < '0' || c > '9' {
            proof {
                lemma_number_prefix(digits@, i + 1);
            }
            return None;
        }
        let d: u64 = c as u64 - '0' as u64;
        if n > u64::MAX / 10 || n * 10 > u64::MAX - d {
            proof {
                lemma_number_prefix(digits@, i + 1);
            }
            return None;
        }
        n = n * 10 + d;
        i += 1;
    }
    proof {
        assert(digits@.take(chars.len() as int) =~= digits@);
    }
    Some(n)
}

/// How many seconds there are for a decision about a command.
pub fn approval_timeout(setting: Option<&str>) -> (r: u64)
    ensures
        r == approval_seconds(text::opt_str(setting)),
{
    match setting {
        Some(s) => {
            let digits = match text::strip_prefix_of(s, "+") {
                Some(rest) => rest,
                None => s,
            };
            match read_number(digits) {
                Some(n) => if digits.is_empty() {
                    600
                } else {
                    n
                },
                None => 600,
            }
        },
        None => 600,
    }
}

} // verus!
