//! How requests are answered.

use crate::backend::{ModelView, ModelsView};
use crate::config;
use crate::json;
use crate::run_turn::EventView;
use crate::serve::drive;
use crate::serve::frames;
use crate::serve::laws;
use crate::serve::record;
use crate::serve::routes;
use crate::serve::routes::RouteView;
use crate::serve::server;
use crate::serve::server::{
    AnswerView, AskedView, BodyView, CreateView, ServerView, Shifted, Turned,
};
use crate::serve::ui;
use crate::text;
use crate::turn::DecisionView;
use vstd::prelude::*;

verus! {

// ---------------------------------------------------------------------------
// Replies
// ---------------------------------------------------------------------------

/// Whether a request is answered with this status and this JSON, and changes nothing.
pub open spec fn answered_with(t: Turned, s: ServerView, status: u16, body: Seq<char>) -> bool {
    &&& t.server == s
    &&& t.out.effects is None
    &&& replies(t, status, body)
}

/// Whether a request is answered with this status and this JSON.
pub open spec fn replies(t: Turned, status: u16, body: Seq<char>) -> bool {
    &&& t.out.answer matches AnswerView::Reply(r)
    &&& r.status == status
    &&& r.content_type == "application/json"@
    &&& r.body == body
}

/// Whether a request is turned down with this status and this message, and changes
/// nothing.
pub open spec fn turned_down(t: Turned, s: ServerView, status: u16, message: Seq<char>) -> bool {
    answered_with(t, s, status, json::jobj(seq![("error"@, json::jstr(message))]))
}

/// Whether what is asked for is about the session with this name.
pub open spec fn is_about(route: RouteView, id: Seq<char>) -> bool {
    match route {
        RouteView::GetSession { id: i } => i == id,
        RouteView::DeleteSession { id: i } => i == id,
        RouteView::PostMessage { id: i } => i == id,
        RouteView::Events { id: i } => i == id,
        RouteView::Approve { id: i, .. } => i == id,
        RouteView::Deny { id: i, .. } => i == id,
        RouteView::Cancel { id: i } => i == id,
        _ => false,
    }
}

/// What is asked of a session that is not there is turned down, whatever it is.
pub proof fn law_an_unknown_session_is_not_found(
    s: ServerView,
    id: Seq<char>,
    route: RouteView,
    query: Seq<char>,
    body: BodyView,
    now: Seq<char>,
)
    requires
        !server::is_known(s, id),
        is_about(route, id),
    ensures
        turned_down(server::routed(s, route, query, body, now), s, 404, "no such session"@),
{
    let gone = server::unchanged(s, server::no_session());
    match route {
        RouteView::DeleteSession { .. } => {
            assert(server::deleted(s, id) == gone);
        },
        RouteView::PostMessage { .. } => {
            assert(server::message_posted(s, id, body) == gone);
        },
        RouteView::Approve { cmd_id, .. } => {
            assert(server::decision_posted(s, id, cmd_id, DecisionView::Approve) == gone);
        },
        RouteView::Deny { cmd_id, .. } => {
            assert(server::denial_posted(s, id, cmd_id, body) == gone);
        },
        RouteView::Cancel { .. } => {
            assert(server::cancel_posted(s, id) == gone);
        },
        _ => {},
    }
    assert(server::session_asked(s, route, body) == gone);
    assert(server::routed(s, route, query, body, now) == gone);
}

/// What there is not is not found.
pub proof fn law_an_unknown_path_is_not_found(
    s: ServerView,
    query: Seq<char>,
    body: BodyView,
    now: Seq<char>,
)
    ensures
        turned_down(
            server::routed(s, RouteView::Unknown, query, body, now),
            s,
            404,
            "not found"@,
        ),
{
}

/// A session that is asked for is shown as it stands, and nothing changes.
pub proof fn law_a_session_is_shown(
    s: ServerView,
    id: Seq<char>,
    query: Seq<char>,
    body: BodyView,
    now: Seq<char>,
)
    requires
        server::is_known(s, id),
    ensures
        answered_with(
            server::routed(s, RouteView::GetSession { id }, query, body, now),
            s,
            200,
            record::jsnapshot(server::session(s, id)),
        ),
{
}

/// Who begins to listen to a session is shown it first, as it stands, and nothing changes.
pub proof fn law_a_listener_is_shown_the_session(
    s: ServerView,
    id: Seq<char>,
    query: Seq<char>,
    body: BodyView,
    now: Seq<char>,
)
    requires
        server::is_known(s, id),
    ensures
        ({
            let heard = server::routed(s, RouteView::Events { id }, query, body, now);
            &&& heard.server == s
            &&& heard.out.effects is None
            &&& heard.out.answer matches AnswerView::Listen { first } && first == frames::frame(
                "snapshot"@,
                record::jsnapshot(server::session(s, id)),
            )
        }),
{
}

/// The page, the health of the server and its sessions are shown, and nothing changes.
pub proof fn law_what_is_shown_of_the_server(
    s: ServerView,
    query: Seq<char>,
    body: BodyView,
    now: Seq<char>,
)
    ensures
        ({
            let page = server::routed(s, RouteView::Index, query, body, now);
            let health = server::routed(s, RouteView::Health, query, body, now);
            let list = server::routed(s, RouteView::ListSessions, query, body, now);
            &&& page.server == s
            &&& page.out.effects is None
            &&& page.out.answer matches AnswerView::Reply(r) && {
                &&& r.status == 200
                &&& r.content_type == "text/html; charset=utf-8"@
                &&& r.body == ui::INDEX@
            }
            &&& answered_with(
                health,
                s,
                200,
                json::jobj(seq![("ok"@, "true"@), ("version"@, json::jstr(s.version))]),
            )
            &&& answered_with(list, s, 200, record::jlist(s.sessions))
        }),
{
}

/// A creation is answered with the name of the new session, the time and its state; it
/// asks for what its body says, and for nothing in particular where there is none. A
/// body that is not about a session is turned down.
pub proof fn law_a_creation_is_answered(
    s: ServerView,
    query: Seq<char>,
    body: BodyView,
    now: Seq<char>,
)
    requires
        s.next_id < u64::MAX,
    ensures
        ({
            let t = server::routed(s, RouteView::CreateSession, query, body, now);
            let nothing = CreateView {
                backend: None,
                model: None,
                server: None,
                port: None,
                api_base: None,
                max_tokens: None,
                system: None,
                reminders: None,
                command_per_response: None,
                approval_mode: None,
                persist_path: None,
            };
            let made = json::jobj(
                seq![
                    ("created_at"@, json::jstr(now)),
                    ("id"@, json::jstr("s_"@ + text::numeral(s.next_id, 16))),
                    ("state"@, json::jstr("idle"@)),
                ],
            );
            &&& body matches BodyView::Session(q) ==> t == server::created(s, q, now) && replies(
                t,
                201,
                made,
            ) && t.out.effects is None
            &&& body is Empty ==> t == server::created(s, nothing, now) && replies(t, 201, made)
                && t.out.effects is None
            &&& body matches BodyView::Unreadable(e) ==> turned_down(t, s, 400, e)
            &&& body matches BodyView::Invalid(e) ==> turned_down(t, s, 400, "invalid JSON: "@ + e)
            &&& body is Message || body is Denial ==> t.server == s && t.out.effects is None
                && t.out.answer is Reply && t.out.answer->Reply_0.status == 400
        }),
{
}

/// A session that is deleted is taken out, and the others stay in their order.
pub proof fn law_a_deletion_is_answered(
    s: ServerView,
    id: Seq<char>,
    query: Seq<char>,
    body: BodyView,
    now: Seq<char>,
)
    requires
        server::is_known(s, id),
    ensures
        ({
            let t = server::routed(s, RouteView::DeleteSession { id }, query, body, now);
            let k = server::find(s, id);
            &&& replies(t, 200, json::jobj(seq![("deleted"@, "true"@)]))
            &&& t.out.effects is None
            &&& t.server.sessions == s.sessions.take(k) + s.sessions.skip(k + 1)
            &&& t.server.next_id == s.next_id
        }),
{
    let k = server::find(s, id);
    laws::lemma_found(s, id);
    assert(s.sessions.remove(k) =~= s.sessions.take(k) + s.sessions.skip(k + 1));
    assert(server::deleted(s, id).server.sessions == s.sessions.remove(k));
}

/// A prompt in an idle session is accepted under the name of its turn; one in a busy
/// session is turned down, and so is a body that is no prompt.
pub proof fn law_a_prompt_is_answered(
    s: ServerView,
    id: Seq<char>,
    query: Seq<char>,
    body: BodyView,
    now: Seq<char>,
)
    requires
        server::is_known(s, id),
    ensures
        ({
            let t = server::routed(s, RouteView::PostMessage { id }, query, body, now);
            let r = server::session(s, id);
            &&& body is Message && r.active is Some ==> turned_down(
                t,
                s,
                409,
                "a turn is already in flight"@,
            )
            &&& body is Message && r.active is None ==> {
                &&& replies(
                    t,
                    202,
                    json::jobj(
                        seq![
                            ("state"@, json::jstr("generating"@)),
                            (
                                "turn_id"@,
                                json::jstr("t_"@ + text::numeral(r.history.len() + 1, 16)),
                            ),
                        ],
                    ),
                )
                &&& t.out.effects is Some
                &&& t.out.effects->0.session == id
                &&& t.out.effects->0.turn == r.history.len() + 1
                &&& t.out.effects->0.frames == drive::posted(
                    r,
                    body->Message_content,
                ).frames
                &&& t.out.effects->0.work == drive::posted(r, body->Message_content).work
                &&& t.server.sessions == s.sessions.update(
                    server::find(s, id),
                    drive::posted(r, body->Message_content).record,
                )
            }
            &&& body matches BodyView::Unreadable(e) ==> turned_down(t, s, 400, e)
            &&& body matches BodyView::Invalid(e) ==> turned_down(t, s, 400, "invalid JSON: "@ + e)
            &&& body is Empty || body is Session || body is Denial ==> t.server == s
                && t.out.effects is None && t.out.answer is Reply && t.out.answer->Reply_0.status
                == 400
        }),
{
}

/// Whether a decision about the command that waits in a session has been taken: the
/// session has moved on with it, and its listeners and what is to be done are told.
pub open spec fn is_taken(
    s: ServerView,
    id: Seq<char>,
    d: DecisionView,
    after: ServerView,
    effects: Option<server::EffectsView>,
) -> bool {
    let r = server::session(s, id);
    drive::moved(r, EventView::Decided(d)) matches Some(m) && {
        &&& after.sessions == s.sessions.update(server::find(s, id), m.record)
        &&& effects is Some
        &&& effects->0.session == id
        &&& effects->0.turn == r.active->0.number
        &&& effects->0.frames == m.frames
        &&& effects->0.work == m.work
    }
}

/// Whether the command with this name is the one that waits in this session.
pub open spec fn is_waiting(s: ServerView, id: Seq<char>, cmd_id: Seq<char>) -> bool {
    record::pending(server::session(s, id)) matches Some(p) && p.cmd_id == cmd_id
}

/// The reply to a decision that is taken.
pub open spec fn taken_reply() -> Seq<char> {
    json::jobj(seq![("state"@, json::jstr("generating"@))])
}

/// What a decision about the command that waits leads to.
proof fn lemma_taken(s: ServerView, id: Seq<char>, d: DecisionView)
    requires
        server::is_known(s, id),
        record::pending(server::session(s, id)) is Some,
    ensures
        is_taken(s, id, d, server::decided(s, id, d).server, server::decided(s, id, d).effects),
{
}

/// A command that waits is approved by the request that names it; one that does not wait
/// cannot be approved.
#[verifier::spinoff_prover]
pub proof fn law_an_approval_is_answered(
    s: ServerView,
    id: Seq<char>,
    cmd_id: Seq<char>,
    query: Seq<char>,
    body: BodyView,
    now: Seq<char>,
)
    requires
        server::is_known(s, id),
    ensures
        ({
            let t = server::routed(s, RouteView::Approve { id, cmd_id }, query, body, now);
            &&& !is_waiting(s, id, cmd_id) ==> turned_down(t, s, 404, "no such pending command"@)
            &&& is_waiting(s, id, cmd_id) ==> replies(t, 200, taken_reply()) && is_taken(
                s,
                id,
                DecisionView::Approve,
                t.server,
                t.out.effects,
            )
        }),
{
    let t = server::decision_posted(s, id, cmd_id, DecisionView::Approve);
    assert(server::routed(s, RouteView::Approve { id, cmd_id }, query, body, now) == t);
    if is_waiting(s, id, cmd_id) {
        lemma_taken(s, id, DecisionView::Approve);
    }
}

/// A command that waits is denied by the request that names it, for the reason that is
/// given, or for none; one that does not wait cannot be denied. A body that is no denial
/// is turned down.
#[verifier::spinoff_prover]
pub proof fn law_a_denial_is_answered(
    s: ServerView,
    id: Seq<char>,
    cmd_id: Seq<char>,
    query: Seq<char>,
    body: BodyView,
    now: Seq<char>,
)
    requires
        server::is_known(s, id),
    ensures
        ({
            let t = server::routed(s, RouteView::Deny { id, cmd_id }, query, body, now);
            let why = match body {
                BodyView::Denial { reason: Some(given) } => given,
                _ => "no reason given"@,
            };
            &&& !is_waiting(s, id, cmd_id) ==> turned_down(t, s, 404, "no such pending command"@)
            &&& is_waiting(s, id, cmd_id) && (body is Denial || body is Empty) ==> replies(
                t,
                200,
                taken_reply(),
            ) && is_taken(s, id, DecisionView::Deny { reason: why }, t.server, t.out.effects)
            &&& is_waiting(s, id, cmd_id) && !(body is Denial || body is Empty) ==> t.server == s
                && t.out.effects is None && t.out.answer is Reply && t.out.answer->Reply_0.status
                == 400
            &&& is_waiting(s, id, cmd_id) ==> (body matches BodyView::Unreadable(e) ==> turned_down(
                t,
                s,
                400,
                e,
            ))
            &&& is_waiting(s, id, cmd_id) ==> (body matches BodyView::Invalid(e) ==> turned_down(
                t,
                s,
                400,
                "invalid JSON: "@ + e,
            ))
        }),
{
    let why = match body {
        BodyView::Denial { reason: Some(given) } => given,
        _ => "no reason given"@,
    };
    let t = server::denial_posted(s, id, cmd_id, body);
    assert(server::routed(s, RouteView::Deny { id, cmd_id }, query, body, now) == t);
    if is_waiting(s, id, cmd_id) {
        lemma_taken(s, id, DecisionView::Deny { reason: why });
    }
}

/// When the time for a decision has run out, the command that waits is denied for that
/// reason; where it does not wait any more, nothing happens.
pub proof fn law_the_end_of_the_time_denies(s: ServerView, id: Seq<char>, cmd_id: Seq<char>)
    requires
        server::is_known(s, id),
    ensures
        ({
            let t = server::expired(s, id, cmd_id);
            &&& !is_waiting(s, id, cmd_id) ==> t.server == s && t.effects is None
            &&& is_waiting(s, id, cmd_id) ==> is_taken(
                s,
                id,
                DecisionView::Deny { reason: "approval timed out"@ },
                t.server,
                t.effects,
            )
        }),
{
    if is_waiting(s, id, cmd_id) {
        lemma_taken(s, id, DecisionView::Deny { reason: "approval timed out"@ });
    }
}

/// A turn that is under way is stopped; where none is, nothing happens. Either way the
/// session is idle.
pub proof fn law_a_cancellation_is_answered(
    s: ServerView,
    id: Seq<char>,
    query: Seq<char>,
    body: BodyView,
    now: Seq<char>,
)
    requires
        server::is_known(s, id),
    ensures
        ({
            let t = server::routed(s, RouteView::Cancel { id }, query, body, now);
            let r = server::session(s, id);
            &&& replies(t, 200, json::jobj(seq![("state"@, json::jstr("idle"@))]))
            &&& r.active is None ==> t.server == s && t.out.effects is None
            &&& r.active is Some ==> {
                &&& t.server.sessions == s.sessions.update(
                    server::find(s, id),
                    drive::canceled(r).record,
                )
                &&& t.out.effects is Some
                &&& t.out.effects->0.session == id
                &&& t.out.effects->0.turn == r.active->0.number
                &&& t.out.effects->0.frames == drive::canceled(r).frames
                &&& t.out.effects->0.work is None
            }
        }),
{
}

/// What comes of the work for a turn moves its session on, while the turn is under way
/// and waits for it; it is never a decision. Fragments do likewise.
pub proof fn law_work_moves_its_session_on(
    s: ServerView,
    id: Seq<char>,
    e: EventView,
    frag: Seq<char>,
)
    requires
        server::is_known(s, id),
        server::session(s, id).active is Some,
    ensures
        ({
            let r = server::session(s, id);
            let turn = r.active->0.number;
            let t = server::progressed(s, id, turn, e);
            let u = server::fragment_came(s, id, turn, frag);
            &&& e is Decided || drive::moved(r, e) is None ==> t == (Shifted {
                server: s,
                effects: None,
            })
            &&& !(e is Decided) && drive::moved(r, e) is Some ==> {
                let m = drive::moved(r, e)->0;
                &&& t.server.sessions == s.sessions.update(server::find(s, id), m.record)
                &&& t.effects is Some
                &&& t.effects->0.session == id
                &&& t.effects->0.turn == turn
                &&& t.effects->0.frames == m.frames
                &&& t.effects->0.work == m.work
            }
            &&& drive::streamed(r, frag) is Some ==> {
                let m = drive::streamed(r, frag)->0;
                &&& u.server.sessions == s.sessions.update(server::find(s, id), m.record)
                &&& u.effects is Some
                &&& u.effects->0.session == id
                &&& u.effects->0.turn == turn
                &&& u.effects->0.frames == m.frames
            }
        }),
{
}

// ---------------------------------------------------------------------------
// Models
// ---------------------------------------------------------------------------

/// The models of the backend that is named are asked for, or those of the server's own
/// backend where none is named or nobody knows the name, with the server's other
/// settings. A backend that cannot be used is reported.
pub proof fn law_the_models_asked_for_are_listed(
    s: ServerView,
    query: Seq<char>,
    body: BodyView,
    now: Seq<char>,
)
    ensures
        ({
            let t = server::routed(s, RouteView::Models, query, body, now);
            let d = s.defaults.backend_cfg;
            let named = match routes::asked_backend(query) {
                Some(name) => config::kind_named(name, s.env.family),
                None => None,
            };
            let kind = match named {
                Some(k) => k,
                None => d.backend,
            };
            let cfg = config::ConfigView {
                backend: kind,
                server: d.server,
                port: d.port,
                api_base: d.api_base,
                model: d.model,
                max_tokens: d.max_tokens,
            };
            &&& t.server == s
            &&& t.out.effects is None
            &&& match config::built(cfg, s.env) {
                Err(e) => turned_down(t, s, 400, e),
                Ok(b) => match config::models_request(b) {
                    ModelsView::Known(models) => replies(t, 200, server::jmodels(models)),
                    ModelsView::Http(call) => t.out.answer == (AnswerView::Models { kind, call }),
                },
            }
        }),
{
    let name = routes::asked_backend(query);
    let d = s.defaults.backend_cfg;
    let cfg = server::resolved(s, name);
    assert(cfg == (config::ConfigView {
        backend: cfg.backend,
        server: d.server,
        port: d.port,
        api_base: d.api_base,
        model: d.model,
        max_tokens: d.max_tokens,
    }));
}

/// One model of a list, as it is written.
pub open spec fn one_model(m: ModelView) -> Seq<char> {
    json::written(
        seq![
            json::named("detail"@, json::jstr(m.detail)),
            json::named("name"@, json::jstr(m.name)),
        ],
    )
}

proof fn lemma_one_model(m: ModelView)
    ensures
        json::jobj(seq![("detail"@, json::jstr(m.detail)), ("name"@, json::jstr(m.name))])
            == one_model(m),
{
    reveal_strlit("detail");
    reveal_strlit("name");
    let one = seq![("detail"@, json::jstr(m.detail)), ("name"@, json::jstr(m.name))];
    json::lemma_written(one);
    assert(Seq::new(one.len(), |k: int| json::named(one[k].0, one[k].1)) =~= seq![
        json::named("detail"@, json::jstr(m.detail)),
        json::named("name"@, json::jstr(m.name)),
    ]);
}

/// What a backend lists is passed on, model by model and in its order; what it fails with
/// is reported.
pub proof fn law_models_are_passed_on(models: Seq<ModelView>, reason: Seq<char>)
    ensures
        server::models_answer(Ok(models)).status == 200,
        server::models_answer(Ok(models)).content_type == "application/json"@,
        server::models_answer(Ok(models)).body == json::written(
            seq![
                json::named(
                    "models"@,
                    json::jarr(Seq::new(models.len(), |i: int| one_model(models[i]))),
                ),
            ],
        ),
        server::jmodels(models) == server::models_answer(Ok(models)).body,
        server::models_answer(Err(reason)).status == 502,
        server::models_answer(Err(reason)).content_type == "application/json"@,
        server::models_answer(Err(reason)).body == json::jobj(seq![("error"@, json::jstr(reason))]),
{
    reveal_strlit("models");
    let items = Seq::new(
        models.len(),
        |i: int|
            json::jobj(
                seq![
                    ("detail"@, json::jstr(models[i].detail)),
                    ("name"@, json::jstr(models[i].name)),
                ],
            ),
    );
    let shown = Seq::new(models.len(), |i: int| one_model(models[i]));
    assert forall|i: int| 0 <= i < models.len() implies items[i] == shown[i] by {
        lemma_one_model(models[i]);
    }
    assert(items =~= shown);
    let all = seq![("models"@, json::jarr(items))];
    json::lemma_written(all);
    assert(Seq::new(all.len(), |k: int| json::named(all[k].0, all[k].1)) =~= seq![
        json::named("models"@, json::jarr(shown)),
    ]);
}

// ---------------------------------------------------------------------------
// Time for a decision
// ---------------------------------------------------------------------------

/// A number that is set is the number of seconds for a decision, with or without a plus
/// in front.
pub proof fn law_the_time_that_is_set(n: nat)
    requires
        n <= u64::MAX,
    ensures
        server::approval_seconds(Some(text::decimal(n))) == n,
        server::approval_seconds(Some("+"@ + text::decimal(n))) == n,
        server::approval_seconds(None) == 600,
{
    lemma_number(n);
    text::law_a_number_is_read_back(n, 10);
    text::law_a_prefix_is_stripped("+"@, text::decimal(n));
    let digits = text::decimal(n);
    reveal_strlit("+");
    lemma_digits(n);
    assert(digits[0] != '+');
    assert(!"+"@.is_prefix_of(digits)) by {
        assert("+"@[0] == '+');
    }
}

/// A decimal number has digits only.
proof fn lemma_digits(n: nat)
    ensures
        text::decimal(n).len() > 0,
        forall|i: int|
            0 <= i < text::decimal(n).len() ==> '0' <= #[trigger] text::decimal(n)[i] <= '9',
    decreases n,
{
    reveal_strlit("0123456789abcdef");
    if n >= 10 {
        lemma_digits(n / 10);
    }
}

/// A decimal number is read.
proof fn lemma_number(n: nat)
    requires
        n <= u64::MAX,
    ensures
        server::number_of(text::decimal(n)) == Some(n),
    decreases n,
{
    reveal_strlit("0123456789abcdef");
    reveal_with_fuel(server::number_of, 2);
    let digits = text::decimal(n);
    if n >= 10 {
        lemma_number(n / 10);
        assert(digits.drop_last() =~= text::decimal(n / 10));
    } else {
        assert(digits.drop_last() =~= Seq::<char>::empty());
    }
}

/// Anything that is not a number gives ten minutes: nothing at all, and anything with a
/// character in it that is no digit, but for a plus in front.
pub proof fn law_the_time_when_none_is_set(setting: Seq<char>, k: int)
    requires
        0 <= k < setting.len(),
        !('0' <= setting[k] <= '9'),
        k > 0 || setting[0] != '+' || setting.len() == 1,
    ensures
        server::approval_seconds(Some(setting)) == 600,
        server::approval_seconds(Some(Seq::empty())) == 600,
{
    reveal_strlit("+");
    let none = Seq::<char>::empty();
    assert(!"+"@.is_prefix_of(none));
    match text::strip_prefix(setting, "+"@) {
        Some(rest) => {
            text::law_a_prefix_is_stripped("+"@, setting);
            assert(setting[0] == '+');
            if k > 0 {
                assert(rest[k - 1] == setting[k]);
                lemma_no_number(rest, k - 1);
            }
        },
        None => {
            lemma_no_number(setting, k);
        },
    }
}

proof fn lemma_no_number(digits: Seq<char>, k: int)
    requires
        0 <= k < digits.len(),
        !('0' <= digits[k] <= '9'),
    ensures
        server::number_of(digits) is None,
    decreases digits.len(),
{
    if k < digits.len() - 1 {
        lemma_no_number(digits.drop_last(), k);
    }
}

// ---------------------------------------------------------------------------
// Requests
// ---------------------------------------------------------------------------

/// A request is answered by what its method and its path ask for, with its own query and
/// its own body.
pub proof fn law_a_request_is_answered_by_its_route(s: ServerView, q: AskedView, now: Seq<char>)
    ensures
        server::handled(s, q, now) == server::routed(
            s,
            routes::route(q.method, q.path),
            q.query,
            q.body,
            now,
        ),
{
}

/// A number that is too large to count the seconds by gives ten minutes.
pub proof fn law_the_time_when_too_much_is_set(n: nat)
    requires
        n > u64::MAX,
    ensures
        server::approval_seconds(Some(text::decimal(n))) == 600,
{
    lemma_too_large(n);
    lemma_digits(n);
    reveal_strlit("+");
    let digits = text::decimal(n);
    assert(digits[0] != '+');
    assert(!"+"@.is_prefix_of(digits)) by {
        assert("+"@[0] == '+');
    }
}

proof fn lemma_too_large(n: nat)
    requires
        n > u64::MAX,
    ensures
        server::number_of(text::decimal(n)) is None,
    decreases n,
{
    reveal_strlit("0123456789abcdef");
    let digits = text::decimal(n);
    assert(digits.drop_last() =~= text::decimal(n / 10));
    if n / 10 > u64::MAX {
        lemma_too_large(n / 10);
    } else {
        lemma_number(n / 10);
    }
}

// ---------------------------------------------------------------------------
// Names
// ---------------------------------------------------------------------------

/// A session is known by a name exactly when one of the sessions has it.
pub proof fn law_a_session_is_known_by_its_name(s: ServerView, id: Seq<char>)
    ensures
        server::is_known(s, id) <==> exists|i: int|
            0 <= i < s.sessions.len() && id == "s_"@ + text::numeral(
                (#[trigger] s.sessions[i]).number,
                16,
            ),
        server::is_known(s, id) ==> server::session(s, id) == s.sessions[server::find(s, id)] && id
            == "s_"@ + text::numeral(server::session(s, id).number, 16),
{
    laws::lemma_found(s, id);
    text::lemma_first_index(server::ids(s), id);
    if exists|i: int|
        0 <= i < s.sessions.len() && id == "s_"@ + text::numeral(
            (#[trigger] s.sessions[i]).number,
            16,
        ) {
        let i = choose|i: int|
            0 <= i < s.sessions.len() && id == "s_"@ + text::numeral(
                (#[trigger] s.sessions[i]).number,
                16,
            );
        assert(server::ids(s)[i] == id);
    }
    if server::is_known(s, id) {
        let k = server::find(s, id);
        assert(s.sessions[k].number == server::session(s, id).number);
    }
}

} // verus!
