//! What holds of the sessions of a server over all that has happened to it.

use crate::json;
use crate::serve::laws;
use crate::serve::laws::Happening;
use crate::serve::record;
use crate::serve::routes;
use crate::serve::routes::RouteView;
use crate::serve::server;
use crate::serve::server::{AnswerView, AskedView, BodyView, CreateView, ServerView};
use vstd::prelude::*;

verus! {

/// The server after all of these happenings.
pub open spec fn after_all(s: ServerView, all: Seq<Happening>) -> ServerView
    decreases all.len(),
{
    if all.len() == 0 {
        s
    } else {
        laws::next(after_all(s, all.drop_last()), all.last()).server
    }
}

/// Whether a request is answered with a reply that has this status.
pub open spec fn is_answered(s: ServerView, request: AskedView, now: Seq<char>, status: u16) -> bool {
    server::handled(s, request, now).out.answer matches AnswerView::Reply(r) && r.status == status
}

/// The name that a happening gives to a session that it creates.
pub open spec fn gives(s: ServerView, h: Happening) -> Option<Seq<char>> {
    match h {
        Happening::Asked { request, now } => if routes::route(request.method, request.path)
            is CreateSession && is_answered(s, request, now, 201) {
            Some(record::session_id(s.next_id))
        } else {
            None
        },
        _ => None,
    }
}

/// The name that a happening takes back with the session that it drops.
pub open spec fn takes_back(s: ServerView, h: Happening) -> Option<Seq<char>> {
    match h {
        Happening::Asked { request, now } => match routes::route(request.method, request.path) {
            RouteView::DeleteSession { id } => if is_answered(s, request, now, 200) {
                Some(id)
            } else {
                None
            },
            _ => None,
        },
        _ => None,
    }
}

/// All names that were given, in the order in which they were.
pub open spec fn given(s: ServerView, all: Seq<Happening>) -> Seq<Seq<char>>
    decreases all.len(),
{
    if all.len() == 0 {
        Seq::empty()
    } else {
        let before = given(s, all.drop_last());
        match gives(after_all(s, all.drop_last()), all.last()) {
            Some(id) => before.push(id),
            None => before,
        }
    }
}

/// Whether a name is another one than `id`.
pub open spec fn differs(id: Seq<char>) -> spec_fn(Seq<char>) -> bool {
    |other: Seq<char>| other != id
}

/// The names that were given and not taken back, in the order in which they were
/// given.
pub open spec fn standing(s: ServerView, all: Seq<Happening>) -> Seq<Seq<char>>
    decreases all.len(),
{
    if all.len() == 0 {
        Seq::empty()
    } else {
        let t = after_all(s, all.drop_last());
        let before = standing(s, all.drop_last());
        match (gives(t, all.last()), takes_back(t, all.last())) {
            (Some(id), _) => before.push(id),
            (None, Some(id)) => before.filter(differs(id)),
            (None, None) => before,
        }
    }
}

/// Taking out the one place where a name stands takes the name out.
proof fn lemma_taken_out(names: Seq<Seq<char>>, i: int)
    requires
        0 <= i < names.len(),
        forall|j: int| 0 <= j < names.len() && j != i ==> #[trigger] names[j] != names[i],
    ensures
        names.filter(differs(names[i])) == names.remove(i),
    decreases names.len(),
{
    reveal(Seq::filter);
    let id = names[i];
    let front = names.drop_last();
    if i == names.len() - 1 {
        assert forall|j: int| 0 <= j < front.len() implies #[trigger] front[j] != id by {
            assert(front[j] == names[j]);
        }
        lemma_all_differ(front, id);
        assert(names.remove(i) =~= front);
    } else {
        assert forall|j: int| 0 <= j < front.len() && j != i implies #[trigger] front[j]
            != front[i] by {
            assert(front[j] == names[j]);
        }
        lemma_taken_out(front, i);
        assert(names[names.len() - 1] != id);
        assert(names.remove(i) =~= front.remove(i).push(names.last()));
    }
}

/// Where a name does not stand, nothing is taken out.
proof fn lemma_all_differ(names: Seq<Seq<char>>, id: Seq<char>)
    requires
        forall|j: int| 0 <= j < names.len() ==> #[trigger] names[j] != id,
    ensures
        names.filter(differs(id)) == names,
    decreases names.len(),
{
    reveal(Seq::filter);
    if names.len() > 0 {
        let front = names.drop_last();
        assert forall|j: int| 0 <= j < front.len() implies #[trigger] front[j] != id by {
            assert(front[j] == names[j]);
        }
        lemma_all_differ(front, id);
        assert(names[names.len() - 1] != id);
        assert(front.push(names.last()) =~= names);
    }
}

/// How a creation changes the names.
proof fn lemma_names_created(s: ServerView, q: CreateView, now: Seq<char>)
    ensures
        ({
            let t = server::created(s, q, now);
            if s.next_id < u64::MAX {
                &&& server::ids(t.server) == server::ids(s).push(record::session_id(s.next_id))
                &&& t.server.next_id == s.next_id + 1
                &&& t.out.answer matches AnswerView::Reply(r) && r.status == 201
            } else {
                &&& t.server == s
                &&& t.out.answer matches AnswerView::Reply(r) && r.status == 503
            }
        }),
{
    let t = server::created(s, q, now).server;
    if s.next_id < u64::MAX {
        assert(server::ids(t) =~= server::ids(s).push(record::session_id(s.next_id)));
    }
}

/// How a request that is about no session changes the names.
proof fn lemma_names_asked(s: ServerView, request: AskedView, now: Seq<char>)
    requires
        laws::subject(Happening::Asked { request, now }) is None,
    ensures
        ({
            let h = Happening::Asked { request, now };
            let t = server::handled(s, request, now).server;
            match gives(s, h) {
                Some(id) => {
                    &&& id == record::session_id(s.next_id)
                    &&& server::ids(t) == server::ids(s).push(id)
                    &&& t.next_id == s.next_id + 1
                },
                None => t == s,
            }
        }),
{
    match request.body {
        BodyView::Session(q) => lemma_names_created(s, q, now),
        _ => lemma_names_created(s, server::nothing_said(), now),
    }
}

/// How the dropping of a session changes the names.
proof fn lemma_names_deleted(s: ServerView, id: Seq<char>)
    requires
        laws::well_formed(s),
    ensures
        ({
            let t = server::deleted(s, id);
            &&& t.server.next_id == s.next_id
            &&& if server::is_known(s, id) {
                &&& server::ids(t.server) == server::ids(s).filter(differs(id))
                &&& t.out.answer matches AnswerView::Reply(r) && r.status == 200
            } else {
                &&& t.server == s
                &&& t.out.answer matches AnswerView::Reply(r) && r.status == 404
            }
        }),
{
    let t = server::deleted(s, id).server;
    let i = server::find(s, id);
    laws::lemma_found(s, id);
    if server::is_known(s, id) {
        laws::law_each_session_has_its_name(s, i);
        assert(server::ids(s)[i] == id);
        lemma_taken_out(server::ids(s), i);
        assert(server::ids(t) =~= server::ids(s).remove(i));
    }
}

/// How one happening changes the names.
proof fn lemma_names(s: ServerView, h: Happening)
    requires
        laws::well_formed(s),
    ensures
        ({
            let t = laws::next(s, h).server;
            match (gives(s, h), takes_back(s, h)) {
                (Some(id), _) => {
                    &&& id == record::session_id(s.next_id)
                    &&& server::ids(t) == server::ids(s).push(id)
                    &&& t.next_id == s.next_id + 1
                },
                (None, Some(id)) => {
                    &&& server::ids(t) == server::ids(s).filter(differs(id))
                    &&& t.next_id == s.next_id
                },
                (None, None) => server::ids(t) == server::ids(s) && t.next_id == s.next_id,
            }
        }),
{
    match laws::subject(h) {
        None => {
            if let Happening::Asked { request, now } = h {
                lemma_names_asked(s, request, now);
            }
        },
        Some(id) => {
            if laws::is_deletion(h) {
                lemma_names_deleted(s, id);
            } else if server::is_known(s, id) {
                laws::lemma_step(s, h, id);
                lemma_names_kept(s, laws::next(s, h).server, id);
            } else {
                laws::lemma_no_step(s, h, id);
            }
        },
    }
}

/// A session that goes on keeps its name.
proof fn lemma_names_kept(s: ServerView, t: ServerView, id: Seq<char>)
    requires
        laws::well_formed(s),
        server::is_known(s, id),
        laws::goes_on(s, t, id),
    ensures
        server::ids(t) == server::ids(s),
        t.next_id == s.next_id,
{
    laws::lemma_found(s, id);
    laws::lemma_put(s, id, t.sessions[server::find(s, id)]);
}

/// What holds after any happenings.
#[verifier::spinoff_prover]
#[verifier::rlimit(40)]
proof fn lemma_run(s: ServerView, all: Seq<Happening>)
    requires
        s.sessions.len() == 0,
    ensures
        laws::well_formed(after_all(s, all)),
        server::ids(after_all(s, all)) == standing(s, all),
        given(s, all) == Seq::new(
            given(s, all).len(),
            |i: int| record::session_id((s.next_id + i) as nat),
        ),
        after_all(s, all).next_id == s.next_id + given(s, all).len(),
    decreases all.len(),
{
    if all.len() == 0 {
        assert(server::ids(s) =~= Seq::empty());
    } else {
        let before = all.drop_last();
        let t = after_all(s, before);
        lemma_run(s, before);
        laws::law_a_server_stays_well_formed(t, all.last());
        lemma_names(t, all.last());
        let old_names = given(s, before);
        let names = given(s, all);
        assert(names =~= Seq::new(
            names.len(),
            |i: int| record::session_id((s.next_id + i) as nat),
        )) by {
            assert forall|i: int| 0 <= i < names.len() implies #[trigger] names[i]
                == record::session_id((s.next_id + i) as nat) by {
                if i < old_names.len() {
                    assert(names[i] == old_names[i]);
                    assert(old_names[i] == Seq::new(
                        old_names.len(),
                        |i: int| record::session_id((s.next_id + i) as nat),
                    )[i]);
                }
            }
        }
    }
}

/// A creation is answered with the name that it gives.
pub proof fn law_a_creation_returns_the_name(s: ServerView, h: Happening)
    requires
        gives(s, h) is Some,
    ensures
        h matches Happening::Asked { request, now } && server::handled(s, request, now).out
            == server::only(
            server::json_reply(
                201,
                json::jobj(
                    seq![
                        ("created_at"@, json::jstr(now)),
                        ("id"@, json::jstr(gives(s, h)->0)),
                        ("state"@, json::jstr("idle"@)),
                    ],
                ),
            ),
        ),
{
    if let Happening::Asked { request, now } = h {
        match request.body {
            BodyView::Session(q) => lemma_names_created(s, q, now),
            _ => lemma_names_created(s, server::nothing_said(), now),
        }
    }
}

/// No name is given twice, whatever happens in between, and not even once its session
/// is gone.
pub proof fn law_no_name_is_given_twice(s: ServerView, all: Seq<Happening>, i: int, j: int)
    requires
        s.sessions.len() == 0,
        0 <= i < j < given(s, all).len(),
    ensures
        given(s, all)[i] != given(s, all)[j],
{
    lemma_run(s, all);
    let names = Seq::new(
        given(s, all).len(),
        |i: int| record::session_id((s.next_id + i) as nat),
    );
    assert(given(s, all)[i] == names[i] && given(s, all)[j] == names[j]);
    if given(s, all)[i] == given(s, all)[j] {
        laws::lemma_session_ids_differ((s.next_id + i) as nat, (s.next_id + j) as nat);
    }
}

/// The list of sessions is what was created and not deleted. After anything that has
/// happened since the server started, it has an entry for each name that was given
/// and not taken back, in the order of creation and each once, with the state, the
/// number of messages and the settings of the session that has the name.
#[verifier::spinoff_prover]
#[verifier::rlimit(40)]
pub proof fn law_the_list_is_what_was_created_and_not_deleted(
    s: ServerView,
    all: Seq<Happening>,
    request: AskedView,
    now: Seq<char>,
)
    requires
        s.sessions.len() == 0,
        routes::route(request.method, request.path) is ListSessions,
    ensures
        ({
            let t = after_all(s, all);
            let names = standing(s, all);
            &&& server::ids(t) == names
            &&& names.no_duplicates()
            &&& forall|i: int|
                0 <= i < names.len() ==> server::is_known(t, #[trigger] names[i])
                    && names[i] == record::session_id(server::session(t, names[i]).number)
            &&& server::handled(t, request, now) == server::unchanged(
                t,
                server::json_reply(
                    200,
                    json::jarr(
                        Seq::new(
                            names.len(),
                            |i: int| record::jlisted(server::session(t, names[i])),
                        ),
                    ),
                ),
            )
        }),
{
    let t = after_all(s, all);
    let names = standing(s, all);
    lemma_run(s, all);
    assert forall|i: int| 0 <= i < names.len() implies server::is_known(t, #[trigger] names[i])
        && server::session(t, names[i]) == t.sessions[i] && names[i] == record::session_id(
        t.sessions[i].number,
    ) by {
        assert(server::ids(t)[i] == record::session_id(t.sessions[i].number));
        laws::law_each_session_has_its_name(t, i);
    }
    assert forall|i: int, j: int| 0 <= i < names.len() && 0 <= j < names.len() && i
        != j implies names[i] != names[j] by {
        laws::law_each_session_has_its_name(t, i);
        assert(server::ids(t)[j] == names[j]);
    }
    assert(Seq::new(t.sessions.len(), |i: int| record::jlisted(t.sessions[i])) =~= Seq::new(
        names.len(),
        |i: int| record::jlisted(server::session(t, names[i])),
    ));
}

} // verus!
