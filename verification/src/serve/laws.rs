//! What holds of a server, whatever happens to it.

use crate::backend::{Entry, Role};
use crate::run_turn;
use crate::run_turn::EventView;
use crate::serve::drive;
use crate::serve::drive::WorkView;
use crate::serve::frames;
use crate::serve::record;
use crate::serve::record::RecordView;
use crate::serve::routes;
use crate::serve::routes::RouteView;
use crate::serve::server;
use crate::serve::server::{AskedView, BodyView, CreateView, ServerView, Shifted};
use crate::text;
use crate::tool;
use crate::turn::DecisionView;
use vstd::prelude::*;

verus! {

// ---------------------------------------------------------------------------
// What can happen
// ---------------------------------------------------------------------------

/// Anything that can happen to a server.
pub enum Happening {
    /// A request arrives at some time.
    Asked { request: AskedView, now: Seq<char> },
    /// Something came of the work for a turn.
    Came { id: Seq<char>, turn: nat, event: EventView },
    /// A fragment of an answer came.
    Streamed { id: Seq<char>, turn: nat, frag: Seq<char> },
    /// The time for a decision ran out.
    Expired { id: Seq<char>, cmd_id: Seq<char> },
}

/// What a happening leads to.
pub open spec fn next(s: ServerView, h: Happening) -> Shifted {
    match h {
        Happening::Asked { request, now } => {
            let t = server::handled(s, request, now);
            Shifted { server: t.server, effects: t.out.effects }
        },
        Happening::Came { id, turn, event } => server::progressed(s, id, turn, event),
        Happening::Streamed { id, turn, frag } => server::fragment_came(s, id, turn, frag),
        Happening::Expired { id, cmd_id } => server::expired(s, id, cmd_id),
    }
}

/// The session that a happening is about.
pub open spec fn subject(h: Happening) -> Option<Seq<char>> {
    match h {
        Happening::Asked { request, .. } => match routes::route(request.method, request.path) {
            RouteView::GetSession { id } => Some(id),
            RouteView::DeleteSession { id } => Some(id),
            RouteView::PostMessage { id } => Some(id),
            RouteView::Events { id } => Some(id),
            RouteView::Approve { id, .. } => Some(id),
            RouteView::Deny { id, .. } => Some(id),
            RouteView::Cancel { id } => Some(id),
            _ => None,
        },
        Happening::Came { id, .. } => Some(id),
        Happening::Streamed { id, .. } => Some(id),
        Happening::Expired { id, .. } => Some(id),
    }
}

// ---------------------------------------------------------------------------
// Well-formed servers
// ---------------------------------------------------------------------------

/// A session is well-formed: a turn under way is not over, its prompt is in the
/// history, part of an answer is there only while the model answers, and nothing
/// waits for a decision where nobody is asked for one.
pub open spec fn well_formed_record(r: RecordView) -> bool {
    match r.active {
        None => true,
        Some(a) => {
            &&& a.turn.phase !is Over
            &&& a.number <= r.history.len()
            &&& a.turn.phase !is Generating ==> a.partial.len() == 0
            &&& record::is_auto(r) ==> a.turn.phase !is Deciding
        },
    }
}

/// A server is well-formed: its sessions stand in the order in which they were
/// created, none has a number that is still to come, and each is well-formed.
pub open spec fn well_formed(s: ServerView) -> bool {
    &&& forall|i: int, j: int|
        0 <= i < j < s.sessions.len() ==> (#[trigger] s.sessions[i]).number < (
        #[trigger] s.sessions[j]).number
    &&& forall|i: int|
        0 <= i < s.sessions.len() ==> (#[trigger] s.sessions[i]).number < s.next_id
            && well_formed_record(s.sessions[i])
}

/// The names of different sessions differ.
pub proof fn lemma_session_ids_differ(n: nat, m: nat)
    requires
        record::session_id(n) == record::session_id(m),
    ensures
        n == m,
{
    let a = record::session_id(n);
    let b = record::session_id(m);
    assert(a.skip("s_"@.len() as int) =~= text::hexadecimal(n));
    assert(b.skip("s_"@.len() as int) =~= text::hexadecimal(m));
    text::law_numerals_are_told_apart(n, m, 16);
}

/// The names of different commands differ.
proof fn lemma_command_ids_differ(n: nat, m: nat)
    requires
        record::command_id(n) == record::command_id(m),
    ensures
        n == m,
{
    let a = record::command_id(n);
    let b = record::command_id(m);
    assert(a.skip("c_"@.len() as int) =~= text::hexadecimal(n));
    assert(b.skip("c_"@.len() as int) =~= text::hexadecimal(m));
    text::law_numerals_are_told_apart(n, m, 16);
}

/// Each session is found under its name, and no other one has that name.
pub proof fn law_each_session_has_its_name(s: ServerView, i: int)
    requires
        well_formed(s),
        0 <= i < s.sessions.len(),
    ensures
        server::find(s, record::session_id(s.sessions[i].number)) == i,
        forall|j: int|
            0 <= j < s.sessions.len() && j != i ==> #[trigger] server::ids(s)[j]
                != record::session_id(s.sessions[i].number),
{
    let id = record::session_id(s.sessions[i].number);
    assert forall|j: int| 0 <= j < s.sessions.len() && j != i implies #[trigger] server::ids(s)[j]
        != id by {
        if server::ids(s)[j] == id {
            lemma_session_ids_differ(s.sessions[j].number, s.sessions[i].number);
        }
    }
    assert(server::ids(s)[i] == id);
    text::lemma_first_index_at(server::ids(s), id, i);
}

/// What is known of a session that is found.
pub proof fn lemma_found(s: ServerView, id: Seq<char>)
    ensures
        0 <= server::find(s, id) <= s.sessions.len(),
        server::is_known(s, id) ==> id == record::session_id(server::session(s, id).number),
{
    text::lemma_first_index(server::ids(s), id);
    if server::is_known(s, id) {
        assert(server::ids(s)[server::find(s, id)] == id);
    }
}

/// How a turn goes on: as the one that it was, or as one that begins and that no
/// other one was before.
pub open spec fn turn_goes_on(r: RecordView, q: RecordView) -> bool {
    q.active is Some ==> {
        ||| r.active is Some && q.active->0.number == r.active->0.number
        ||| q.active->0.number > r.history.len()
    }
}

/// Whether a command has been asked for and not been decided about.
pub open spec fn is_asking(r: RecordView) -> bool {
    r.active is Some && (r.active->0.turn.phase is Parsing || r.active->0.turn.phase is Deciding)
}

/// How commands go on: as the one that it was, or as one that is asked for in a
/// new answer.
pub open spec fn command_goes_on(r: RecordView, q: RecordView) -> bool {
    is_asking(q) ==> {
        ||| q.history.len() > r.history.len()
        ||| is_asking(r) && q.history.len() == r.history.len()
    }
}

/// How a session goes on: what it was set up with stays, and its history only
/// grows.
pub open spec fn follows(r: RecordView, q: RecordView) -> bool {
    &&& q == (RecordView { history: q.history, active: q.active, ..r })
    &&& r.history.is_prefix_of(q.history)
    &&& well_formed_record(q)
    &&& turn_goes_on(r, q)
    &&& command_goes_on(r, q)
}

/// A session goes on with a move.
proof fn lemma_moved(r: RecordView, e: EventView)
    requires
        well_formed_record(r),
    ensures
        drive::moved(r, e) matches Some(m) ==> follows(r, m.record),
{
    if let Some(m) = drive::moved(r, e) {
        let a = r.active->0;
        let first = run_turn::advance(a.turn, r.history, e)->0;
        assert(r.history.is_prefix_of(first.history));
        assert(m.record.history == first.history);
    }
}

/// The same of a session that is put to a server.
pub proof fn lemma_put(s: ServerView, id: Seq<char>, r: RecordView)
    requires
        well_formed(s),
        server::is_known(s, id),
        r.number == server::session(s, id).number,
        well_formed_record(r),
    ensures
        well_formed(server::put(s, id, r)),
        server::ids(server::put(s, id, r)) == server::ids(s),
{
    lemma_found(s, id);
    assert(server::ids(server::put(s, id, r)) =~= server::ids(s));
}

/// A session goes on from where it stood.
pub open spec fn goes_on(s: ServerView, t: ServerView, id: Seq<char>) -> bool {
    let r = server::session(s, id);
    let q = t.sessions[server::find(s, id)];
    t == server::put(s, id, q) && follows(r, q)
}

/// A session is gone.
pub open spec fn is_dropped(s: ServerView, t: ServerView, id: Seq<char>) -> bool {
    t == (ServerView { sessions: s.sessions.remove(server::find(s, id)), ..s })
}

/// A session has joined the others.
pub open spec fn is_joined(s: ServerView, t: ServerView) -> bool {
    &&& t.sessions.len() == s.sessions.len() + 1
    &&& t == (ServerView {
        sessions: s.sessions.push(t.sessions.last()),
        next_id: s.next_id + 1,
        ..s
    })
    &&& t.sessions.last().number == s.next_id
    &&& well_formed_record(t.sessions.last())
}

/// Whether a happening is a request to drop a session.
pub open spec fn is_deletion(h: Happening) -> bool {
    h matches Happening::Asked { request, .. } && routes::route(
        request.method,
        request.path,
    ) is DeleteSession
}

/// How a server changes when something happens to one session.
pub open spec fn one_step(s: ServerView, t: ServerView, id: Seq<char>) -> bool {
    is_dropped(s, t, id) || goes_on(s, t, id)
}

/// How a server changes when something happens to it.
pub open spec fn change(s: ServerView, t: ServerView, about: Option<Seq<char>>) -> bool {
    match about {
        Some(id) => if server::is_known(s, id) {
            one_step(s, t, id)
        } else {
            t == s
        },
        None => t == s || is_joined(s, t),
    }
}

/// A session that goes on from where it stood.
proof fn lemma_goes_on(s: ServerView, id: Seq<char>, q: RecordView)
    requires
        well_formed(s),
        server::is_known(s, id),
        follows(server::session(s, id), q),
    ensures
        goes_on(s, server::put(s, id, q), id),
{
    lemma_found(s, id);
    assert(server::put(s, id, q).sessions[server::find(s, id)] == q);
}

/// Nothing happens to a session.
proof fn lemma_stands(s: ServerView, id: Seq<char>)
    requires
        well_formed(s),
        server::is_known(s, id),
    ensures
        goes_on(s, s, id),
{
    lemma_found(s, id);
    let r = server::session(s, id);
    assert(s.sessions.update(server::find(s, id), r) =~= s.sessions);
    lemma_goes_on(s, id, r);
}

/// A session that a decision is made about.
proof fn lemma_decided(s: ServerView, id: Seq<char>, d: DecisionView)
    requires
        well_formed(s),
        server::is_known(s, id),
    ensures
        goes_on(s, server::decided(s, id, d).server, id),
{
    let e = EventView::Decided(d);
    lemma_found(s, id);
    lemma_moved(server::session(s, id), e);
    lemma_stands(s, id);
    if let Some(m) = drive::moved(server::session(s, id), e) {
        lemma_goes_on(s, id, m.record);
    }
}

/// A session that a request is about.
#[verifier::spinoff_prover]
#[verifier::rlimit(40)]
proof fn lemma_asked(s: ServerView, request: AskedView, now: Seq<char>, id: Seq<char>)
    requires
        well_formed(s),
        subject(Happening::Asked { request, now }) == Some(id),
        server::is_known(s, id),
    ensures
        one_step(s, server::handled(s, request, now).server, id),
        !is_deletion(Happening::Asked { request, now }) ==> goes_on(
            s,
            server::handled(s, request, now).server,
            id,
        ),
{
    lemma_found(s, id);
    lemma_stands(s, id);
    let r = server::session(s, id);
    match routes::route(request.method, request.path) {
        RouteView::PostMessage { .. } => {
            if let BodyView::Message { content } = request.body {
                if r.active is None {
                    let q = drive::posted(r, content).record;
                    assert(r.history.is_prefix_of(q.history));
                    lemma_goes_on(s, id, q);
                }
            }
        },
        RouteView::Approve { .. } => {
            lemma_decided(s, id, DecisionView::Approve);
        },
        RouteView::Deny { .. } => {
            let reason = match request.body {
                BodyView::Denial { reason } => server::or(reason, "no reason given"@),
                _ => "no reason given"@,
            };
            lemma_decided(s, id, DecisionView::Deny { reason });
        },
        RouteView::Cancel { .. } => {
            if r.active is Some {
                let q = drive::canceled(r).record;
                assert(r.history.is_prefix_of(q.history));
                lemma_goes_on(s, id, q);
            }
        },
        _ => {},
    }
}

/// A session that something happens to.
pub proof fn lemma_step(s: ServerView, h: Happening, id: Seq<char>)
    requires
        well_formed(s),
        subject(h) == Some(id),
        server::is_known(s, id),
    ensures
        one_step(s, next(s, h).server, id),
        !is_deletion(h) ==> goes_on(s, next(s, h).server, id),
{
    lemma_found(s, id);
    lemma_stands(s, id);
    let r = server::session(s, id);
    match h {
        Happening::Asked { request, now } => lemma_asked(s, request, now, id),
        Happening::Came { event, .. } => {
            lemma_moved(r, event);
            if let Some(m) = drive::moved(r, event) {
                lemma_goes_on(s, id, m.record);
            }
        },
        Happening::Streamed { frag, .. } => {
            if let Some(m) = drive::streamed(r, frag) {
                lemma_goes_on(s, id, m.record);
            }
        },
        Happening::Expired { .. } => lemma_decided(
            s,
            id,
            DecisionView::Deny { reason: "approval timed out"@ },
        ),
    }
}

/// Nothing happens where there is no session with the name that is asked for.
#[verifier::spinoff_prover]
#[verifier::rlimit(40)]
pub proof fn lemma_no_step(s: ServerView, h: Happening, id: Seq<char>)
    requires
        subject(h) == Some(id),
        !server::is_known(s, id),
    ensures
        next(s, h) == (Shifted { server: s, effects: None }),
        h matches Happening::Asked { request, now } ==> server::handled(s, request, now).out
            == server::only(server::no_session()),
{
}

/// A step keeps a server well-formed.
proof fn lemma_one_step(s: ServerView, t: ServerView, id: Seq<char>)
    requires
        well_formed(s),
        server::is_known(s, id),
        one_step(s, t, id),
    ensures
        well_formed(t),
        t.next_id == s.next_id,
{
    lemma_found(s, id);
    let i = server::find(s, id);
    if t != (ServerView { sessions: s.sessions.remove(i), ..s }) {
        lemma_put(s, id, t.sessions[i]);
    }
}

/// A request that is about no session creates one, or nothing.
proof fn lemma_joined(s: ServerView, request: AskedView, now: Seq<char>)
    requires
        well_formed(s),
        subject(Happening::Asked { request, now }) is None,
    ensures
        ({
            let t = server::handled(s, request, now).server;
            t == s || is_joined(s, t)
        }),
{
    match request.body {
        BodyView::Session(q) => lemma_created(s, q, now),
        _ => lemma_created(s, server::nothing_said(), now),
    }
}

/// A session that is created joins the others.
proof fn lemma_created(s: ServerView, q: CreateView, now: Seq<char>)
    requires
        well_formed(s),
    ensures
        server::created(s, q, now).server == s || is_joined(s, server::created(s, q, now).server),
{
    let t = server::created(s, q, now).server;
    if s.next_id < u64::MAX {
        assert(t.sessions.last() == server::fresh(s, q, now));
    }
}

/// How a server changes, whatever happens to it.
proof fn lemma_change(s: ServerView, h: Happening)
    requires
        well_formed(s),
    ensures
        change(s, next(s, h).server, subject(h)),
{
    match subject(h) {
        Some(id) => {
            if server::is_known(s, id) {
                lemma_step(s, h, id);
            } else {
                lemma_no_step(s, h, id);
            }
        },
        None => {
            if let Happening::Asked { request, now } = h {
                lemma_joined(s, request, now);
            }
        },
    }
}

/// A change keeps a server well-formed.
proof fn lemma_changed(s: ServerView, t: ServerView, about: Option<Seq<char>>)
    requires
        well_formed(s),
        change(s, t, about),
    ensures
        well_formed(t),
        s.next_id <= t.next_id,
{
    if let Some(id) = about {
        if server::is_known(s, id) {
            lemma_one_step(s, t, id);
        }
    }
}

/// A server stays well-formed, whatever happens.
pub proof fn law_a_server_stays_well_formed(s: ServerView, h: Happening)
    requires
        well_formed(s),
    ensures
        well_formed(next(s, h).server),
{
    lemma_change(s, h);
    lemma_changed(s, next(s, h).server, subject(h));
}

// ---------------------------------------------------------------------------
// Sessions
// ---------------------------------------------------------------------------

/// A server starts well-formed.
pub proof fn law_a_server_starts_well_formed(s: ServerView)
    requires
        s.sessions.len() == 0,
    ensures
        well_formed(s),
{
}

/// A session that a change is not about stays what it was.
proof fn lemma_others(s: ServerView, t: ServerView, about: Option<Seq<char>>, id: Seq<char>)
    requires
        well_formed(s),
        well_formed(t),
        server::is_known(s, id),
        about != Some(id),
        change(s, t, about),
    ensures
        server::is_known(t, id),
        server::session(t, id) == server::session(s, id),
{
    let i = server::find(s, id);
    lemma_found(s, id);
    let mut at = i;
    if let Some(other) = about {
        if server::is_known(s, other) {
            lemma_found(s, other);
            if is_dropped(s, t, other) && server::find(s, other) < i {
                at = i - 1;
            }
        }
    }
    assert(t.sessions[at] == s.sessions[i]);
    law_each_session_has_its_name(t, at);
}

/// What happens to one session leaves every other one what it was.
pub proof fn law_sessions_do_not_interfere(s: ServerView, h: Happening, id: Seq<char>)
    requires
        well_formed(s),
        server::is_known(s, id),
        subject(h) != Some(id),
    ensures
        server::is_known(next(s, h).server, id),
        server::session(next(s, h).server, id) == server::session(s, id),
{
    lemma_change(s, h);
    lemma_changed(s, next(s, h).server, subject(h));
    lemma_others(s, next(s, h).server, subject(h), id);
}

/// A session that is created was not there before and is there afterwards: idle,
/// with nothing said in it, set up as was asked for, and with commands waiting
/// for somebody unless something else was asked for.
pub proof fn law_a_new_session_is_there(s: ServerView, q: CreateView, now: Seq<char>)
    requires
        well_formed(s),
        s.next_id < u64::MAX,
    ensures
        ({
            let id = record::session_id(s.next_id);
            let t = server::created(s, q, now).server;
            let r = server::session(t, id);
            &&& !server::is_known(s, id)
            &&& server::is_known(t, id)
            &&& well_formed(t)
            &&& r == server::fresh(s, q, now)
            &&& r.history.len() == 0
            &&& record::state_name(r) == "idle"@
            &&& record::pending(r) is None
            &&& q.approval_mode is None ==> !record::is_auto(r)
        }),
{
    let id = record::session_id(s.next_id);
    let t = server::created(s, q, now).server;
    lemma_found(s, id);
    if server::is_known(s, id) {
        lemma_session_ids_differ(server::session(s, id).number, s.next_id);
    }
    assert(well_formed(t));
    law_each_session_has_its_name(t, s.sessions.len() as int);
    reveal_strlit("auto");
    reveal_strlit("gated");
    assert("auto"@.len() == 4 && "gated"@.len() == 5);
}

/// The name of a session that is gone is not known any more.
proof fn lemma_dropped(s: ServerView, t: ServerView, id: Seq<char>)
    requires
        well_formed(s),
        server::is_known(s, id),
        is_dropped(s, t, id),
    ensures
        !server::is_known(t, id),
{
    let i = server::find(s, id);
    lemma_found(s, id);
    lemma_found(t, id);
    law_each_session_has_its_name(s, i);
    if server::is_known(t, id) {
        let j = server::find(t, id);
        let k = if j < i {
            j
        } else {
            j + 1
        };
        assert(t.sessions[j] == s.sessions[k]);
        assert(server::ids(s)[k] == id);
    }
}

/// A session that is dropped is gone: nothing that asks for it finds it, and
/// nothing that was still to come for it counts.
pub proof fn law_a_deleted_session_is_gone(s: ServerView, id: Seq<char>, h: Happening)
    requires
        well_formed(s),
        server::is_known(s, id),
        subject(h) == Some(id),
    ensures
        ({
            let t = server::deleted(s, id).server;
            &&& !server::is_known(t, id)
            &&& next(t, h) == (Shifted { server: t, effects: None })
            &&& h matches Happening::Asked { request, now } ==> server::handled(
                t,
                request,
                now,
            ).out == server::only(server::no_session())
        }),
{
    let t = server::deleted(s, id).server;
    lemma_dropped(s, t, id);
    lemma_no_step(t, h, id);
}

/// A name that was given once and is not known does not come back with a change.
proof fn lemma_unknown(s: ServerView, t: ServerView, about: Option<Seq<char>>, number: nat)
    requires
        well_formed(s),
        number < s.next_id,
        !server::is_known(s, record::session_id(number)),
        change(s, t, about),
    ensures
        !server::is_known(t, record::session_id(number)),
{
    let id = record::session_id(number);
    lemma_found(t, id);
    text::lemma_first_index(server::ids(s), id);
    if server::is_known(t, id) {
        let j = server::find(t, id);
        let mut at = j;
        if let Some(other) = about {
            if server::is_known(s, other) {
                lemma_found(s, other);
                if is_dropped(s, t, other) && j >= server::find(s, other) {
                    at = j + 1;
                }
            }
        }
        if at < s.sessions.len() {
            assert(t.sessions[j].number == s.sessions[at].number);
            assert(server::ids(s)[at] == id);
        } else {
            lemma_session_ids_differ(number, s.next_id);
        }
    }
}

/// A name is never given twice: the name of a session that was there once and is
/// gone stays unknown.
pub proof fn law_names_are_not_given_again(s: ServerView, h: Happening, number: nat)
    requires
        well_formed(s),
        number < s.next_id,
        !server::is_known(s, record::session_id(number)),
    ensures
        number < next(s, h).server.next_id,
        !server::is_known(next(s, h).server, record::session_id(number)),
{
    lemma_change(s, h);
    lemma_changed(s, next(s, h).server, subject(h));
    lemma_unknown(s, next(s, h).server, subject(h), number);
}

/// A session that a change is about goes on from where it stood, or is gone.
proof fn lemma_same(s: ServerView, t: ServerView, id: Seq<char>)
    requires
        well_formed(s),
        server::is_known(s, id),
        server::is_known(t, id),
        one_step(s, t, id),
    ensures
        goes_on(s, t, id),
        server::session(t, id) == t.sessions[server::find(s, id)],
{
    lemma_found(s, id);
    if is_dropped(s, t, id) {
        lemma_dropped(s, t, id);
    }
    lemma_one_step(s, t, id);
    law_each_session_has_its_name(t, server::find(s, id));
}

/// A session that stays goes on from where it stood.
pub proof fn lemma_stays(s: ServerView, h: Happening, id: Seq<char>)
    requires
        well_formed(s),
        server::is_known(s, id),
        server::is_known(next(s, h).server, id),
    ensures
        ({
            let r = server::session(s, id);
            let q = server::session(next(s, h).server, id);
            q == (RecordView { history: q.history, active: q.active, ..r })
        }),
{
    lemma_change(s, h);
    lemma_changed(s, next(s, h).server, subject(h));
    if subject(h) == Some(id) {
        lemma_same(s, next(s, h).server, id);
    } else {
        lemma_others(s, next(s, h).server, subject(h), id);
    }
}

/// A change is one of the sessions, and of what is counted.
pub proof fn lemma_kept(s: ServerView, h: Happening)
    requires
        well_formed(s),
    ensures
        ({
            let t = next(s, h).server;
            t == (ServerView { sessions: t.sessions, next_id: t.next_id, ..s })
        }),
{
    lemma_change(s, h);
}

/// What has been said in a session is never changed: its history only grows.
pub proof fn law_histories_only_grow(s: ServerView, h: Happening, id: Seq<char>)
    requires
        well_formed(s),
        server::is_known(s, id),
        server::is_known(next(s, h).server, id),
    ensures
        server::session(s, id).history.is_prefix_of(server::session(next(s, h).server, id).history),
{
    lemma_change(s, h);
    lemma_changed(s, next(s, h).server, subject(h));
    if subject(h) == Some(id) {
        lemma_same(s, next(s, h).server, id);
    } else {
        lemma_others(s, next(s, h).server, subject(h), id);
    }
}

// ---------------------------------------------------------------------------
// Turns
// ---------------------------------------------------------------------------

/// While a turn is under way in a session, another prompt is turned down and
/// changes nothing.
pub proof fn law_one_turn_at_a_time(s: ServerView, id: Seq<char>, content: Seq<char>)
    requires
        server::is_known(s, id),
        server::session(s, id).active is Some,
    ensures
        ({
            let t = server::message_posted(s, id, BodyView::Message { content });
            &&& t.server == s
            &&& t.out.effects is None
            &&& t.out.answer matches server::AnswerView::Reply(r) && r.status == 409
        }),
{
}

/// A prompt in an idle session is accepted: it joins the history, the turn is
/// under way, and the session generates.
pub proof fn law_a_prompt_opens_a_turn(s: ServerView, id: Seq<char>, content: Seq<char>)
    requires
        well_formed(s),
        server::is_known(s, id),
        server::session(s, id).active is None,
    ensures
        ({
            let before = server::session(s, id);
            let t = server::message_posted(s, id, BodyView::Message { content });
            let r = server::session(t.server, id);
            &&& server::is_known(t.server, id)
            &&& r.history == before.history.push(Entry { role: Role::User, content })
            &&& server::under_way(t.server, id, r.history.len())
            &&& record::state_name(r) == "generating"@
            &&& t.out.answer matches server::AnswerView::Reply(reply) && reply.status == 202
            &&& t.out.effects matches Some(e) && e.session == id && e.turn == r.history.len()
                && e.work == Some(WorkView::Draw(r.reminders))
        }),
{
    lemma_found(s, id);
    let m = drive::posted(server::session(s, id), content);
    lemma_put(s, id, m.record);
}

/// Whatever still comes for a turn that is not under way any more changes nothing.
pub proof fn law_late_work_is_ignored(
    s: ServerView,
    id: Seq<char>,
    turn: nat,
    event: EventView,
    frag: Seq<char>,
)
    requires
        !server::under_way(s, id, turn),
    ensures
        server::progressed(s, id, turn, event) == (Shifted { server: s, effects: None }),
        server::fragment_came(s, id, turn, frag) == (Shifted { server: s, effects: None }),
{
}

/// A turn of this session that is over, if the session is still there.
pub open spec fn is_over(s: ServerView, number: nat, turn: nat) -> bool {
    let id = record::session_id(number);
    &&& number < s.next_id
    &&& server::is_known(s, id) ==> {
        let r = server::session(s, id);
        &&& turn <= r.history.len()
        &&& r.active is Some ==> r.active->0.number != turn
    }
}

/// A turn that is over stays over, whatever happens.
pub proof fn law_a_turn_ends_once(s: ServerView, h: Happening, number: nat, turn: nat)
    requires
        well_formed(s),
        is_over(s, number, turn),
    ensures
        is_over(next(s, h).server, number, turn),
        !server::under_way(next(s, h).server, record::session_id(number), turn),
{
    let id = record::session_id(number);
    let t = next(s, h).server;
    lemma_change(s, h);
    lemma_changed(s, t, subject(h));
    if !server::is_known(s, id) {
        law_names_are_not_given_again(s, h, number);
    } else if subject(h) != Some(id) {
        law_sessions_do_not_interfere(s, h, id);
    } else {
        if server::is_known(t, id) {
            lemma_same(s, t, id);
        }
    }
}

/// A turn that is stopped is over: the session is idle, nothing is to be done, and
/// what had come of an answer is the last thing that was said.
pub proof fn law_cancel_stops_the_turn(s: ServerView, id: Seq<char>)
    requires
        well_formed(s),
        server::is_known(s, id),
        server::session(s, id).active is Some,
    ensures
        ({
            let before = server::session(s, id);
            let partial = before.active->0.partial;
            let t = server::cancel_posted(s, id);
            let r = server::session(t.server, id);
            &&& server::is_known(t.server, id)
            &&& record::state_name(r) == "idle"@
            &&& is_over(t.server, before.number, before.active->0.number)
            &&& r.history == if partial.len() == 0 {
                before.history
            } else {
                before.history.push(Entry { role: Role::Assistant, content: partial })
            }
            &&& t.out.effects matches Some(e) && e.work is None && e.frames.len() > 0
                && e.frames.last() == frames::state_frame("idle"@)
        }),
{
    lemma_found(s, id);
    let m = drive::canceled(server::session(s, id));
    lemma_put(s, id, m.record);
}

/// A turn that ends leaves its session idle, and the listeners are told so last.
pub proof fn law_a_turn_that_ends_leaves_the_session_idle(r: RecordView, e: EventView)
    requires
        drive::moved(r, e) is Some,
    ensures
        ({
            let m = drive::moved(r, e)->0;
            m.record.active is None ==> {
                &&& record::state_name(m.record) == "idle"@
                &&& m.frames.len() > 0
                &&& m.frames.last() == frames::state_frame("idle"@)
            }
        }),
{
}

/// Every change of the state of a session is told its listeners.
#[verifier::spinoff_prover]
#[verifier::rlimit(40)]
pub proof fn law_changes_of_state_are_told(r: RecordView, e: EventView)
    requires
        drive::moved(r, e) is Some,
        record::state_name((drive::moved(r, e)->0).record) != record::state_name(r),
    ensures
        (drive::moved(r, e)->0).frames.contains(
            frames::state_frame(record::state_name((drive::moved(r, e)->0).record)),
        ),
{
    let p = drive::driven(r, e)->0;
    let m = drive::moved(r, e)->0;
    let lead = drive::lead_frames(r);
    if m.record.active is None || record::pending(m.record) is Some {
        assert(m.frames.last() == frames::state_frame(record::state_name(m.record)));
    } else {
        assert(record::pending(r) is Some);
        assert(m.frames[0] == lead[0]);
    }
}

// ---------------------------------------------------------------------------
// Approval
// ---------------------------------------------------------------------------

/// A decision about a command that does not wait is turned down and changes
/// nothing, whatever the decision is.
pub proof fn law_only_the_waiting_command_can_be_decided_about(
    s: ServerView,
    id: Seq<char>,
    cmd_id: Seq<char>,
    d: DecisionView,
    body: BodyView,
)
    requires
        server::is_known(s, id),
        !server::waits(s, id, cmd_id),
    ensures
        server::decision_posted(s, id, cmd_id, d) == server::unchanged(s, server::no_command()),
        server::denial_posted(s, id, cmd_id, body) == server::unchanged(s, server::no_command()),
        server::expired(s, id, cmd_id) == (Shifted { server: s, effects: None }),
{
}

/// What a decision about the command that waits leads to.
proof fn lemma_decision(r: RecordView, d: DecisionView)
    requires
        well_formed_record(r),
        record::pending(r) is Some,
    ensures
        ({
            let p = record::pending(r)->0;
            let a = r.active->0;
            match drive::moved(r, EventView::Decided(d)) {
                Some(m) => match d {
                    DecisionView::Approve => {
                        &&& m.work == Some(WorkView::Execute(p.request))
                        &&& m.record.history == r.history
                        &&& m.record.active matches Some(b) && b.number == a.number
                            && b.turn.phase is Executing
                    },
                    DecisionView::Deny { reason } => {
                        let result = tool::refused(
                            p.remaining,
                            "Command denied by operator: "@ + reason,
                        );
                        &&& m.work == Some(WorkView::Draw(a.turn.reminders))
                        &&& m.record.history == r.history.push(
                            Entry { role: Role::Tool, content: tool::jresult(result) },
                        )
                        &&& m.record.active matches Some(b) && b.number == a.number
                            && b.turn.phase is Prompting && b.turn.input == tool::jresult(result)
                    },
                },
                None => false,
            }
        }),
{
}

/// A command that is approved is run: exactly the one that waited, and the turn
/// goes on.
pub proof fn law_an_approved_command_is_run(s: ServerView, id: Seq<char>, cmd_id: Seq<char>)
    requires
        well_formed(s),
        server::waits(s, id, cmd_id),
    ensures
        ({
            let p = record::pending(server::session(s, id))->0;
            let t = server::decision_posted(s, id, cmd_id, DecisionView::Approve);
            &&& t.out.answer matches server::AnswerView::Reply(reply) && reply.status == 200
            &&& t.out.effects matches Some(e) && e.session == id && e.work == Some(
                WorkView::Execute(p.request),
            )
            &&& server::under_way(t.server, id, server::session(s, id).active->0.number)
            &&& record::state_name(server::session(t.server, id)) == "generating"@
        }),
{
    let r = server::session(s, id);
    let e = EventView::Decided(DecisionView::Approve);
    lemma_found(s, id);
    lemma_decision(r, DecisionView::Approve);
    lemma_moved(r, e);
    lemma_put(s, id, (drive::moved(r, e)->0).record);
}

/// A command that is denied is not run; the model is told the reason, and the
/// turn goes on.
pub proof fn law_a_denied_command_is_fed_back(s: ServerView, id: Seq<char>, reason: Seq<char>)
    requires
        well_formed(s),
        server::is_known(s, id),
        record::pending(server::session(s, id)) is Some,
    ensures
        ({
            let before = server::session(s, id);
            let p = record::pending(before)->0;
            let told = tool::jresult(
                tool::refused(p.remaining, "Command denied by operator: "@ + reason),
            );
            let t = server::decided(s, id, DecisionView::Deny { reason });
            let r = server::session(t.server, id);
            &&& r.history == before.history.push(Entry { role: Role::Tool, content: told })
            &&& t.effects matches Some(e) && e.work == Some(
                WorkView::Draw(before.active->0.turn.reminders),
            )
            &&& server::under_way(t.server, id, before.active->0.number)
            &&& record::state_name(r) == "generating"@
        }),
{
    let r = server::session(s, id);
    let d = DecisionView::Deny { reason };
    let e = EventView::Decided(d);
    lemma_found(s, id);
    lemma_decision(r, d);
    lemma_moved(r, e);
    lemma_put(s, id, (drive::moved(r, e)->0).record);
}

/// Nobody is waited for without end: when the time has run out, the command that
/// waits is denied for that reason, and the turn goes on.
pub proof fn law_silence_is_a_denial(s: ServerView, id: Seq<char>, cmd_id: Seq<char>)
    requires
        well_formed(s),
        server::waits(s, id, cmd_id),
    ensures
        ({
            let before = server::session(s, id);
            let p = record::pending(before)->0;
            let told = tool::jresult(
                tool::refused(
                    p.remaining,
                    "Command denied by operator: "@ + "approval timed out"@,
                ),
            );
            let t = server::expired(s, id, cmd_id);
            let r = server::session(t.server, id);
            &&& t.effects is Some
            &&& r.history == before.history.push(Entry { role: Role::Tool, content: told })
            &&& server::under_way(t.server, id, before.active->0.number)
            &&& record::state_name(r) == "generating"@
        }),
{
    law_a_denied_command_is_fed_back(s, id, "approval timed out"@);
}

/// Work that comes of events other than decisions is never the running of a
/// command, unless nobody is to be asked.
proof fn lemma_no_execution(r: RecordView, e: EventView)
    requires
        e !is Decided,
        !record::is_auto(r),
    ensures
        drive::moved(r, e) matches Some(m) ==> (m.work matches Some(w) ==> w !is Execute),
{
}

/// A denial is never the running of a command.
proof fn lemma_no_execution_denied(s: ServerView, id: Seq<char>, reason: Seq<char>)
    ensures
        server::decided(s, id, DecisionView::Deny { reason }).effects matches Some(e) ==> (
        e.work matches Some(w) ==> w !is Execute),
{
}

/// What a happening has to be for a command to be run.
pub open spec fn is_consent(
    s: ServerView,
    h: Happening,
    id: Seq<char>,
    request: tool::RequestView,
) -> bool {
    h matches Happening::Asked { request: q, .. } && routes::route(
        q.method,
        q.path,
    ) matches RouteView::Approve { id: approved, cmd_id } && approved == id && server::waits(
        s,
        id,
        cmd_id,
    ) && (record::pending(server::session(s, id))->0).request == request
}

/// Nothing runs unless somebody approves it. In a session in which somebody is to
/// be asked, a command is run only in answer to a request that approves of it by
/// its name while it waits, and it is the very command that waits.
pub proof fn law_nothing_runs_without_consent(s: ServerView, h: Happening)
    requires
        next(s, h).effects matches Some(e) && e.work matches Some(WorkView::Execute(_))
            && !record::is_auto(server::session(s, e.session)),
    ensures
        ({
            let e = next(s, h).effects->0;
            is_consent(s, h, e.session, e.work->0->Execute_0)
        }),
{
    let e = next(s, h).effects->0;
    match h {
        Happening::Asked { request, now } => lemma_consent(s, request, now),
        Happening::Came { id, event, .. } => lemma_no_execution(server::session(s, id), event),
        Happening::Streamed { .. } => {},
        Happening::Expired { id, .. } => lemma_no_execution_denied(
            s,
            id,
            "approval timed out"@,
        ),
    }
}

/// The same of a request.
proof fn lemma_consent(s: ServerView, q: AskedView, now: Seq<char>)
    requires
        server::handled(s, q, now).out.effects matches Some(e) && e.work matches Some(
            WorkView::Execute(_),
        ),
    ensures
        ({
            let e = server::handled(s, q, now).out.effects->0;
            is_consent(s, Happening::Asked { request: q, now }, e.session, e.work->0->Execute_0)
        }),
{
    match routes::route(q.method, q.path) {
        RouteView::Approve { id, cmd_id } => {
            lemma_approval(server::session(s, id));
        },
        RouteView::Deny { id, .. } => {
            let reason = match q.body {
                BodyView::Denial { reason } => server::or(reason, "no reason given"@),
                _ => "no reason given"@,
            };
            lemma_no_execution_denied(s, id, reason);
        },
        _ => {},
    }
}

/// What is approved of is what waits.
proof fn lemma_approval(r: RecordView)
    ensures
        drive::moved(r, EventView::Decided(DecisionView::Approve)) matches Some(m) ==> (
        m.work matches Some(WorkView::Execute(request)) ==> record::pending(r) is Some
            && request == (record::pending(r)->0).request),
{
}

/// A command of this session that has been decided about, if the session is still
/// there.
pub open spec fn is_spent(s: ServerView, number: nat, command: nat) -> bool {
    let id = record::session_id(number);
    &&& number < s.next_id
    &&& server::is_known(s, id) ==> {
        let r = server::session(s, id);
        &&& command <= r.history.len()
        &&& is_asking(r) ==> command < r.history.len()
    }
}

/// A command that is decided about is spent.
pub proof fn law_a_decision_is_taken(s: ServerView, id: Seq<char>, d: DecisionView)
    requires
        well_formed(s),
        server::is_known(s, id),
        record::pending(server::session(s, id)) is Some,
    ensures
        is_spent(
            server::decided(s, id, d).server,
            server::session(s, id).number,
            server::session(s, id).history.len(),
        ),
{
    let r = server::session(s, id);
    let e = EventView::Decided(d);
    lemma_found(s, id);
    lemma_decision(r, d);
    lemma_moved(r, e);
    lemma_put(s, id, (drive::moved(r, e)->0).record);
}

/// A command that is spent never waits again, whatever happens: it cannot be
/// decided about twice.
pub proof fn law_a_decision_is_taken_once(
    s: ServerView,
    h: Happening,
    number: nat,
    command: nat,
)
    requires
        well_formed(s),
        is_spent(s, number, command),
    ensures
        is_spent(next(s, h).server, number, command),
        !server::waits(s, record::session_id(number), record::command_id(command)),
{
    let id = record::session_id(number);
    let t = next(s, h).server;
    lemma_change(s, h);
    lemma_changed(s, t, subject(h));
    if server::waits(s, id, record::command_id(command)) {
        lemma_command_ids_differ(server::session(s, id).history.len(), command);
    }
    if !server::is_known(s, id) {
        lemma_unknown(s, t, subject(h), number);
    } else if subject(h) != Some(id) {
        lemma_others(s, t, subject(h), id);
    } else if server::is_known(t, id) {
        lemma_same(s, t, id);
    }
}

// ---------------------------------------------------------------------------
// Names
// ---------------------------------------------------------------------------

/// A number in hexadecimal has no slash in it.
proof fn lemma_hexadecimal_part(n: nat)
    ensures
        !text::hexadecimal(n).contains('/'),
    decreases n,
{
    reveal_strlit("0123456789abcdef");
    let d = n % 16;
    assert(text::digit(d as int) != '/');
    if n >= 16 {
        lemma_hexadecimal_part(n / 16);
        let front = text::hexadecimal(n / 16);
        let all = text::hexadecimal(n);
        assert(all == front.push(text::digit(d as int)));
        assert forall|i: int| 0 <= i < all.len() implies all[i] != '/' by {
            if i < front.len() {
                assert(front.contains(front[i]));
            }
        }
    } else {
        assert(text::hexadecimal(n) == seq![text::digit(n as int)]);
    }
}

/// A short prefix without a slash leaves a part of a path one.
proof fn lemma_named_part(prefix: Seq<char>, n: nat)
    requires
        prefix.len() > 0,
        !prefix.contains('/'),
    ensures
        routes::is_part(prefix + text::hexadecimal(n)),
{
    lemma_hexadecimal_part(n);
    let h = text::hexadecimal(n);
    let all = prefix + h;
    assert forall|i: int| 0 <= i < all.len() implies all[i] != '/' by {
        if i < prefix.len() {
            assert(prefix.contains(prefix[i]));
        } else {
            assert(h.contains(h[i - prefix.len()]));
        }
    }
}

/// The names of sessions and commands can stand in a path as they are.
pub proof fn law_names_fit_into_paths(n: nat)
    ensures
        routes::is_part(record::session_id(n)),
        routes::is_part(record::command_id(n)),
{
    reveal_strlit("s_");
    reveal_strlit("c_");
    lemma_named_part("s_"@, n);
    lemma_named_part("c_"@, n);
}

} // verus!
