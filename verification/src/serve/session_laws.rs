//! How a session is set up, and that it stays so.

use crate::backend::{Entry, Role};
use crate::config;
use crate::run_turn::PhaseView;
use crate::serve::drive;
use crate::serve::laws;
use crate::serve::laws::Happening;
use crate::serve::record;
use crate::serve::server;
use crate::serve::server::{BodyView, CreateView, ServerView};
use vstd::prelude::*;

verus! {

/// The session that a creation leads to is the one that was asked for: each setting that
/// the request gives is the session's, whatever the server's own settings are.
pub proof fn law_a_session_has_what_was_asked_for(s: ServerView, q: CreateView, now: Seq<char>)
    requires
        laws::well_formed(s),
        s.next_id < u64::MAX,
    ensures
        ({
            let t = server::created(s, q, now).server;
            let r = server::session(t, record::session_id(s.next_id));
            &&& q.command_per_response matches Some(n) ==> r.config.command_per_response == n
            &&& q.system is Some ==> r.config.system == q.system
            &&& q.approval_mode is Some ==> Some(r.config.approval_mode) == q.approval_mode
            &&& q.backend is Some ==> Some(r.config.backend) == q.backend
            &&& q.model is Some ==> r.config.model == q.model && r.backend.model == q.model
            &&& q.server is Some ==> Some(r.backend.server) == q.server
            &&& q.port is Some ==> Some(r.backend.port) == q.port
            &&& q.api_base is Some ==> r.backend.api_base == q.api_base
            &&& q.max_tokens is Some ==> Some(r.backend.max_tokens) == q.max_tokens
            &&& q.reminders is Some ==> Some(r.reminders) == q.reminders
            &&& r.persist_path == q.persist_path
            &&& r.created_at == now
            &&& q.backend matches Some(name) ==> (config::kind_named(name, s.env.family) matches Some(
                kind,
            ) ==> r.backend.backend == kind)
        }),
{
    laws::law_a_new_session_is_there(s, q, now);
}

/// The server's own settings stand for what the request leaves out, and only for that;
/// commands then wait for somebody. A backend that nobody knows is the server's own.
pub proof fn law_what_is_left_out_comes_from_the_server(
    s: ServerView,
    q: CreateView,
    now: Seq<char>,
)
    requires
        laws::well_formed(s),
        s.next_id < u64::MAX,
    ensures
        ({
            let t = server::created(s, q, now).server;
            let r = server::session(t, record::session_id(s.next_id));
            let d = s.defaults;
            &&& q.command_per_response is None ==> r.config.command_per_response
                == d.command_per_response
            &&& q.system is None ==> r.config.system == d.system
            &&& q.approval_mode is None ==> r.config.approval_mode == "gated"@
            &&& q.backend is None ==> r.backend.backend == d.backend_cfg.backend
                && r.config.backend == config::kind_name(d.backend_cfg.backend, s.env.family)
            &&& q.backend matches Some(name) ==> (config::kind_named(name, s.env.family) is None
                ==> r.backend.backend == d.backend_cfg.backend)
            &&& q.model is None ==> r.config.model == d.backend_cfg.model && r.backend.model
                == d.backend_cfg.model
            &&& q.server is None ==> r.backend.server == d.backend_cfg.server
            &&& q.port is None ==> r.backend.port == d.backend_cfg.port
            &&& q.api_base is None ==> r.backend.api_base == d.backend_cfg.api_base
            &&& q.max_tokens is None ==> r.backend.max_tokens == d.backend_cfg.max_tokens
            &&& q.reminders is None ==> r.reminders == d.reminders
        }),
{
    laws::law_a_new_session_is_there(s, q, now);
}

/// Creating a session touches no other: the others stand as they did, the new one stands
/// behind them, and the server's own settings stay.
pub proof fn law_a_creation_adds_one_session(s: ServerView, q: CreateView, now: Seq<char>)
    requires
        s.next_id < u64::MAX,
    ensures
        ({
            let t = server::created(s, q, now).server;
            &&& t.sessions.len() == s.sessions.len() + 1
            &&& t.sessions.drop_last() == s.sessions
            &&& t.sessions.last().number == s.next_id
            &&& t.sessions.last().history.len() == 0
            &&& t.sessions.last().active is None
            &&& t.next_id == s.next_id + 1
            &&& t.defaults == s.defaults
            &&& t.env == s.env
            &&& t.version == s.version
        }),
{
    assert(server::created(s, q, now).server.sessions.drop_last() =~= s.sessions);
}

/// A session stays as it was set up, whatever happens to the server.
pub proof fn law_settings_of_a_session_stay(s: ServerView, h: Happening, id: Seq<char>)
    requires
        laws::well_formed(s),
        server::is_known(s, id),
        server::is_known(laws::next(s, h).server, id),
    ensures
        ({
            let before = server::session(s, id);
            let after = server::session(laws::next(s, h).server, id);
            &&& after.number == before.number
            &&& after.created_at == before.created_at
            &&& after.config == before.config
            &&& after.backend == before.backend
            &&& after.reminders == before.reminders
            &&& after.persist_path == before.persist_path
        }),
{
    laws::lemma_stays(s, h, id);
}

/// The server's own settings stay as they are, whatever happens.
pub proof fn law_settings_of_the_server_stay(s: ServerView, h: Happening)
    requires
        laws::well_formed(s),
    ensures
        laws::next(s, h).server.defaults == s.defaults,
        laws::next(s, h).server.env == s.env,
        laws::next(s, h).server.version == s.version,
{
    laws::lemma_kept(s, h);
}

/// A prompt opens a turn with what the session was set up with: as many commands as the
/// session allows, its system prompt and its reminders. The prompt is what is sent, and
/// it counts as the first one exactly where nothing was said before.
pub proof fn law_a_turn_has_the_settings_of_its_session(
    s: ServerView,
    id: Seq<char>,
    content: Seq<char>,
)
    requires
        laws::well_formed(s),
        server::is_known(s, id),
        server::session(s, id).active is None,
    ensures
        ({
            let before = server::session(s, id);
            let t = server::message_posted(s, id, BodyView::Message { content });
            let r = server::session(t.server, id);
            &&& r.active matches Some(a) && {
                &&& a.turn.remaining == before.config.command_per_response
                &&& a.turn.system == before.config.system
                &&& a.turn.reminders == before.reminders
                &&& a.turn.input == content
                &&& a.turn.fresh <==> before.history.len() == 0
                &&& a.turn.phase == PhaseView::Prompting
                &&& a.partial.len() == 0
            }
            &&& r.history == before.history.push(Entry { role: Role::User, content })
        }),
{
    laws::law_a_prompt_opens_a_turn(s, id, content);
    laws::lemma_found(s, id);
    let m = drive::posted(server::session(s, id), content);
    laws::lemma_put(s, id, m.record);
    assert(server::session(server::put(s, id, m.record), id) == m.record);
}

/// From the request to the turn: the first prompt in a session that was asked for with a
/// number of commands opens a turn that has that many, and one that was asked for
/// without has the server's number; the system prompt and the reminders likewise.
pub proof fn law_the_first_turn_has_what_was_asked_for(
    s: ServerView,
    q: CreateView,
    now: Seq<char>,
    content: Seq<char>,
)
    requires
        laws::well_formed(s),
        s.next_id < u64::MAX,
    ensures
        ({
            let id = record::session_id(s.next_id);
            let t = server::created(s, q, now).server;
            let u = server::message_posted(t, id, BodyView::Message { content }).server;
            server::session(u, id).active matches Some(a) && {
                &&& q.command_per_response matches Some(n) ==> a.turn.remaining == n
                &&& q.command_per_response is None ==> a.turn.remaining
                    == s.defaults.command_per_response
                &&& q.system is Some ==> a.turn.system == q.system
                &&& q.system is None ==> a.turn.system == s.defaults.system
                &&& q.reminders is Some ==> Some(a.turn.reminders) == q.reminders
                &&& q.reminders is None ==> a.turn.reminders == s.defaults.reminders
                &&& a.turn.fresh
            }
        }),
{
    let id = record::session_id(s.next_id);
    let t = server::created(s, q, now).server;
    laws::law_a_new_session_is_there(s, q, now);
    law_a_turn_has_the_settings_of_its_session(t, id, content);
}

} // verus!
