//! Which request asks for what.

use crate::text;
use vstd::prelude::*;

verus! {

/// What a request asks for.
#[derive(Debug)]
pub enum Route {
    /// The page that the server is used through.
    Index,
    Health,
    Models,
    CreateSession,
    ListSessions,
    GetSession { id: String },
    DeleteSession { id: String },
    PostMessage { id: String },
    Events { id: String },
    Approve { id: String, cmd_id: String },
    Deny { id: String, cmd_id: String },
    Cancel { id: String },
    /// Nothing that there is.
    Unknown,
}

/// What a request asks for.
#[verifier::ext_equal]
pub enum RouteView {
    Index,
    Health,
    Models,
    CreateSession,
    ListSessions,
    GetSession { id: Seq<char> },
    DeleteSession { id: Seq<char> },
    PostMessage { id: Seq<char> },
    Events { id: Seq<char> },
    Approve { id: Seq<char>, cmd_id: Seq<char> },
    Deny { id: Seq<char>, cmd_id: Seq<char> },
    Cancel { id: Seq<char> },
    Unknown,
}

impl View for Route {
    type V = RouteView;

    open spec fn view(&self) -> RouteView {
        match self {
            Route::Index => RouteView::Index,
            Route::Health => RouteView::Health,
            Route::Models => RouteView::Models,
            Route::CreateSession => RouteView::CreateSession,
            Route::ListSessions => RouteView::ListSessions,
            Route::GetSession { id } => RouteView::GetSession { id: id@ },
            Route::DeleteSession { id } => RouteView::DeleteSession { id: id@ },
            Route::PostMessage { id } => RouteView::PostMessage { id: id@ },
            Route::Events { id } => RouteView::Events { id: id@ },
            Route::Approve { id, cmd_id } => RouteView::Approve { id: id@, cmd_id: cmd_id@ },
            Route::Deny { id, cmd_id } => RouteView::Deny { id: id@, cmd_id: cmd_id@ },
            Route::Cancel { id } => RouteView::Cancel { id: id@ },
            Route::Unknown => RouteView::Unknown,
        }
    }
}

/// `s` without the slashes that it starts with.
pub open spec fn after_slashes(s: Seq<char>) -> Seq<char>
    decreases s.len(),
{
    if s.len() > 0 && s[0] == '/' {
        after_slashes(s.drop_first())
    } else {
        s
    }
}

/// `s` without the slashes that it ends with.
pub open spec fn before_slashes(s: Seq<char>) -> Seq<char>
    decreases s.len(),
{
    if s.len() > 0 && s.last() == '/' {
        before_slashes(s.drop_last())
    } else {
        s
    }
}

/// The parts of a path between its slashes, those at its ends aside.
pub open spec fn segments(path: Seq<char>) -> Seq<Seq<char>> {
    text::split(before_slashes(after_slashes(path)), '/')
}

/// The parts of a path.
pub fn segments_of(path: &str) -> (r: Vec<String>)
    ensures
        text::texts(r@) == segments(path@),
{
    let chars = text::chars_of(path);
    let n: usize = chars.len();
    let mut from: usize = 0;
    proof {
        assert(path@.skip(0) =~= path@);
    }
    while from < n && chars[from] == '/'
        invariant
            n == chars.len(),
            chars@ == path@,
            from <= n,
            after_slashes(path@) == after_slashes(path@.skip(from as int)),
        decreases n - from,
    {
        proof {
            assert(path@.skip(from as int).drop_first() =~= path@.skip(from + 1));
        }
        from += 1;
    }
    let ghost tail = path@.skip(from as int);
    proof {
        assert(from < n ==> tail[0] == chars@[from as int]);
        assert(after_slashes(path@) == tail);
        assert(tail =~= path@.subrange(from as int, n as int));
    }
    let mut to: usize = n;
    while from < to && chars[to - 1] == '/'
        invariant
            n == chars.len(),
            chars@ == path@,
            from <= to <= n,
            before_slashes(tail) == before_slashes(path@.subrange(from as int, to as int)),
        decreases to,
    {
        proof {
            let s = path@.subrange(from as int, to as int);
            assert(s.last() == '/');
            assert(s.drop_last() =~= path@.subrange(from as int, to - 1));
        }
        to -= 1;
    }
    proof {
        let s = path@.subrange(from as int, to as int);
        assert(from < to ==> s.last() == chars@[to - 1]);
        assert(before_slashes(tail) == s);
    }
    text::split_of(path.substring_char(from, to), '/')
}

/// What a request asks for.
pub open spec fn route(method: Seq<char>, path: Seq<char>) -> RouteView {
    let s = segments(path);
    let get = method == "GET"@;
    let post = method == "POST"@;
    let delete = method == "DELETE"@;
    if s.len() == 1 && get && s[0].len() == 0 {
        RouteView::Index
    } else if s.len() < 2 || s[0] != "api"@ {
        RouteView::Unknown
    } else if s.len() == 2 && get && s[1] == "health"@ {
        RouteView::Health
    } else if s.len() == 2 && get && s[1] == "models"@ {
        RouteView::Models
    } else if s[1] != "sessions"@ {
        RouteView::Unknown
    } else if s.len() == 2 && post {
        RouteView::CreateSession
    } else if s.len() == 2 && get {
        RouteView::ListSessions
    } else if s.len() == 3 && get {
        RouteView::GetSession { id: s[2] }
    } else if s.len() == 3 && delete {
        RouteView::DeleteSession { id: s[2] }
    } else if s.len() == 4 && post && s[3] == "messages"@ {
        RouteView::PostMessage { id: s[2] }
    } else if s.len() == 4 && get && s[3] == "events"@ {
        RouteView::Events { id: s[2] }
    } else if s.len() == 4 && post && s[3] == "cancel"@ {
        RouteView::Cancel { id: s[2] }
    } else if s.len() == 6 && post && s[3] == "commands"@ && s[5] == "approve"@ {
        RouteView::Approve { id: s[2], cmd_id: s[4] }
    } else if s.len() == 6 && post && s[3] == "commands"@ && s[5] == "deny"@ {
        RouteView::Deny { id: s[2], cmd_id: s[4] }
    } else {
        RouteView::Unknown
    }
}

/// What a request asks for.
pub fn route_of(method: &str, path: &str) -> (r: Route)
    ensures
        r@ == route(method@, path@),
{
    let s = segments_of(path);
    let n: usize = s.len();
    let get = text::same_text(method, "GET");
    let post = text::same_text(method, "POST");
    let delete = text::same_text(method, "DELETE");
    proof {
        assert(forall|i: int| 0 <= i < n ==> segments(path@)[i] == (#[trigger] s@[i])@);
    }
    if n == 1 && get && s[0].as_str().is_empty() {
        Route::Index
    } else if n < 2 || !text::same_text(s[0].as_str(), "api") {
        Route::Unknown
    } else if n == 2 && get && text::same_text(s[1].as_str(), "health") {
        Route::Health
    } else if n == 2 && get && text::same_text(s[1].as_str(), "models") {
        Route::Models
    } else if !text::same_text(s[1].as_str(), "sessions") {
        Route::Unknown
    } else if n == 2 && post {
        Route::CreateSession
    } else if n == 2 && get {
        Route::ListSessions
    } else if n == 3 && get {
        Route::GetSession { id: s[2].clone() }
    } else if n == 3 && delete {
        Route::DeleteSession { id: s[2].clone() }
    } else if n == 4 && post && text::same_text(s[3].as_str(), "messages") {
        Route::PostMessage { id: s[2].clone() }
    } else if n == 4 && get && text::same_text(s[3].as_str(), "events") {
        Route::Events { id: s[2].clone() }
    } else if n == 4 && post && text::same_text(s[3].as_str(), "cancel") {
        Route::Cancel { id: s[2].clone() }
    } else if n == 6 && post && text::same_text(s[3].as_str(), "commands") && text::same_text(
        s[5].as_str(),
        "approve",
    ) {
        Route::Approve { id: s[2].clone(), cmd_id: s[4].clone() }
    } else if n == 6 && post && text::same_text(s[3].as_str(), "commands") && text::same_text(
        s[5].as_str(),
        "deny",
    ) {
        Route::Deny { id: s[2].clone(), cmd_id: s[4].clone() }
    } else {
        Route::Unknown
    }
}

/// What stands behind `prefix` in the first of the parts that start with it.
pub open spec fn first_behind(parts: Seq<Seq<char>>, prefix: Seq<char>) -> Option<Seq<char>>
    decreases parts.len(),
{
    if parts.len() == 0 {
        None
    } else if text::strip_prefix(parts[0], prefix) is Some {
        text::strip_prefix(parts[0], prefix)
    } else {
        first_behind(parts.drop_first(), prefix)
    }
}

/// The backend that a query names.
pub open spec fn asked_backend(query: Seq<char>) -> Option<Seq<char>> {
    first_behind(text::split(query, '&'), "backend="@)
}

/// The backend that a query names.
pub fn asked_backend_of(query: &str) -> (r: Option<String>)
    ensures
        text::opt_text(r) == asked_backend(query@),
{
    let parts = text::split_of(query, '&');
    let ghost all = text::texts(parts@);
    let mut i: usize = 0;
    proof {
        assert(all.skip(0) =~= all);
    }
    while i < parts.len()
        invariant
            i <= parts.len(),
            all == text::texts(parts@),
            all == text::split(query@, '&'),
            first_behind(all, "backend="@) == first_behind(all.skip(i as int), "backend="@),
        decreases parts.len() - i,
    {
        proof {
            assert(all.skip(i as int)[0] == parts@[i as int]@);
            assert(all.skip(i as int).drop_first() =~= all.skip(i + 1));
        }
        if let Some(name) = text::strip_prefix_of(parts[i].as_str(), "backend=") {
            return Some(name.to_owned());
        }
        i += 1;
    }
    None
}

// ---------------------------------------------------------------------------
// Laws
// ---------------------------------------------------------------------------

/// Whether a text can be one part of a path.
pub open spec fn is_part(s: Seq<char>) -> bool {
    s.len() > 0 && !s.contains('/')
}

/// A text with one more piece behind it is cut there too.
proof fn lemma_split_behind(a: Seq<char>, b: Seq<char>)
    requires
        !b.contains('/'),
    ensures
        text::split(a + seq!['/'] + b, '/') == text::split(a, '/').push(b),
    decreases a.len(),
{
    let s = a + seq!['/'] + b;
    let i = text::first_index(a, '/');
    text::lemma_first_index(a, '/');
    text::lemma_first_index_at(s, '/', i);
    assert(s.take(i) =~= a.take(i));
    if i < a.len() {
        let rest = a.skip(i + 1);
        assert(s.skip(i + 1) =~= rest + seq!['/'] + b);
        lemma_split_behind(rest, b);
        assert(text::split(a, '/').push(b) =~= seq![a.take(i)] + text::split(rest, '/').push(b));
    } else {
        assert(s.skip(i + 1) =~= b);
        text::lemma_first_index_at(b, '/', b.len() as int);
        assert(a.take(i) =~= a);
        assert(text::split(b, '/') =~= seq![b]);
        assert(text::split(a, '/') =~= seq![a]);
    }
}

/// Parts that are put together are found again.
proof fn lemma_split_join(parts: Seq<Seq<char>>)
    requires
        parts.len() > 0,
        forall|i: int| 0 <= i < parts.len() ==> is_part(#[trigger] parts[i]),
    ensures
        text::split(text::join(parts, seq!['/']), '/') == parts,
        text::join(parts, seq!['/']).len() > 0,
        text::join(parts, seq!['/'])[0] != '/',
        text::join(parts, seq!['/']).last() != '/',
    decreases parts.len(),
{
    let last = parts.last();
    assert(is_part(parts[parts.len() - 1]));
    assert(last.last() != '/') by {
        assert(last.contains(last[last.len() - 1]));
    }
    if parts.len() == 1 {
        text::lemma_first_index_at(last, '/', last.len() as int);
        assert(last[0] != '/') by {
            assert(last.contains(last[0]));
        }
        assert(text::split(last, '/') =~= parts);
    } else {
        let front = parts.drop_last();
        assert forall|i: int| 0 <= i < front.len() implies is_part(#[trigger] front[i]) by {
            assert(front[i] == parts[i]);
        }
        lemma_split_join(front);
        lemma_split_behind(text::join(front, seq!['/']), last);
        assert(front.push(last) =~= parts);
    }
}

/// A path says its parts: whatever they are, they are found again, with or without
/// a slash at the end of the path.
pub proof fn law_paths_are_taken_apart(parts: Seq<Seq<char>>)
    requires
        parts.len() > 0,
        forall|i: int| 0 <= i < parts.len() ==> is_part(#[trigger] parts[i]),
    ensures
        segments(seq!['/'] + text::join(parts, seq!['/'])) == parts,
        segments(seq!['/'] + text::join(parts, seq!['/']) + seq!['/']) == parts,
{
    let j = text::join(parts, seq!['/']);
    lemma_split_join(parts);
    let a = seq!['/'] + j;
    assert(a.drop_first() =~= j);
    assert(after_slashes(a) == after_slashes(j));
    let b = a + seq!['/'];
    assert(b.drop_first() =~= j + seq!['/']);
    assert((j + seq!['/'])[0] == j[0]);
    assert(after_slashes(b) == after_slashes(j + seq!['/']));
    assert((j + seq!['/']).drop_last() =~= j);
    assert((j + seq!['/']).last() == '/');
    assert(before_slashes(j + seq!['/']) == before_slashes(j));
}

/// What is asked for of a session or of one of its commands is what the path names.
pub proof fn law_session_paths_lead_to_sessions(id: Seq<char>, cmd_id: Seq<char>)
    requires
        is_part(id),
        is_part(cmd_id),
    ensures
        ({
            let path = |rest: Seq<Seq<char>>|
                seq!['/'] + text::join(seq!["api"@, "sessions"@, id] + rest, seq!['/']);
            let own = path(Seq::empty());
            let messages = path(seq!["messages"@]);
            let events = path(seq!["events"@]);
            let cancel = path(seq!["cancel"@]);
            let approve = path(seq!["commands"@, cmd_id, "approve"@]);
            let deny = path(seq!["commands"@, cmd_id, "deny"@]);
            &&& route("GET"@, own) == RouteView::GetSession { id }
            &&& route("DELETE"@, own) == RouteView::DeleteSession { id }
            &&& route("POST"@, messages) == RouteView::PostMessage { id }
            &&& route("GET"@, events) == RouteView::Events { id }
            &&& route("POST"@, cancel) == RouteView::Cancel { id }
            &&& route("POST"@, approve) == RouteView::Approve { id, cmd_id }
            &&& route("POST"@, deny) == RouteView::Deny { id, cmd_id }
        }),
{
    lemma_words();
    let s = seq!["api"@, "sessions"@, id];
    law_paths_are_taken_apart(s + Seq::empty());
    law_paths_are_taken_apart(s + seq!["messages"@]);
    law_paths_are_taken_apart(s + seq!["events"@]);
    law_paths_are_taken_apart(s + seq!["cancel"@]);
    law_paths_are_taken_apart(s + seq!["commands"@, cmd_id, "approve"@]);
    law_paths_are_taken_apart(s + seq!["commands"@, cmd_id, "deny"@]);
}

/// The words of paths and methods are told apart.
proof fn lemma_words()
    ensures
        is_part("api"@),
        is_part("sessions"@),
        is_part("messages"@),
        is_part("events"@),
        is_part("cancel"@),
        is_part("commands"@),
        is_part("approve"@),
        is_part("deny"@),
        "GET"@ != "POST"@,
        "GET"@ != "DELETE"@,
        "POST"@ != "DELETE"@,
        "messages"@ != "events"@,
        "messages"@ != "cancel"@,
        "events"@ != "cancel"@,
        "approve"@ != "deny"@,
        "sessions"@ != "health"@,
        "sessions"@ != "models"@,
{
    reveal_strlit("api");
    reveal_strlit("sessions");
    reveal_strlit("messages");
    reveal_strlit("events");
    reveal_strlit("cancel");
    reveal_strlit("commands");
    reveal_strlit("approve");
    reveal_strlit("deny");
    reveal_strlit("health");
    reveal_strlit("models");
    reveal_strlit("GET");
    reveal_strlit("POST");
    reveal_strlit("DELETE");
    assert("GET"@.len() == 3 && "POST"@.len() == 4 && "DELETE"@.len() == 6);
    assert("messages"@.len() == 8 && "events"@.len() == 6 && "cancel"@.len() == 6);
    assert("events"@[0] != "cancel"@[0]);
    assert("approve"@.len() == 7 && "deny"@.len() == 4);
    assert("sessions"@.len() == 8 && "health"@.len() == 6 && "models"@.len() == 6);
}

/// The page, the health of the server, its models and its sessions are found at their
/// paths, by their methods.
pub proof fn law_server_paths_lead_to_the_server()
    ensures
        route("GET"@, seq!['/']) == RouteView::Index,
        route("GET"@, seq!['/'] + text::join(seq!["api"@, "health"@], seq!['/']))
            == RouteView::Health,
        route("GET"@, seq!['/'] + text::join(seq!["api"@, "models"@], seq!['/']))
            == RouteView::Models,
        route("POST"@, seq!['/'] + text::join(seq!["api"@, "sessions"@], seq!['/']))
            == RouteView::CreateSession,
        route("GET"@, seq!['/'] + text::join(seq!["api"@, "sessions"@], seq!['/']))
            == RouteView::ListSessions,
{
    lemma_words();
    reveal_strlit("health");
    reveal_strlit("models");
    assert(is_part("health"@) && is_part("models"@));
    assert("health"@[0] != "models"@[0]);
    law_paths_are_taken_apart(seq!["api"@, "health"@]);
    law_paths_are_taken_apart(seq!["api"@, "models"@]);
    law_paths_are_taken_apart(seq!["api"@, "sessions"@]);
    let none = Seq::<char>::empty();
    assert(seq!['/'].drop_first() =~= none);
    assert(after_slashes(seq!['/']) == after_slashes(none));
    text::lemma_first_index_at(none, '/', 0);
    assert(segments(seq!['/']) =~= seq![none]);
}

/// Other methods find nothing anywhere, and no path outside `/api` leads anywhere but the
/// root to the page.
pub proof fn law_nothing_else_is_found(method: Seq<char>, path: Seq<char>)
    ensures
        method != "GET"@ && method != "POST"@ && method != "DELETE"@ ==> route(method, path)
            is Unknown,
        segments(path)[0] != "api"@ && segments(path)[0].len() > 0 ==> route(method, path)
            is Unknown,
        method == "DELETE"@ ==> route(method, path) is Unknown || route(method, path)
            is DeleteSession,
        method == "POST"@ ==> !(route(method, path) is DeleteSession),
        method == "GET"@ ==> !(route(method, path) is DeleteSession) && !(route(method, path)
            is Approve) && !(route(method, path) is Deny) && !(route(method, path) is Cancel) && !(
        route(method, path) is PostMessage) && !(route(method, path) is CreateSession),
{
    lemma_words();
    reveal_strlit("api");
}

/// The backend that a query names is what stands behind `backend=` in the first part of
/// the query that starts so, and none where no part does.
pub proof fn law_the_first_backend_is_asked_for(query: Seq<char>, k: int)
    requires
        0 <= k < text::split(query, '&').len(),
        forall|j: int|
            0 <= j < k ==> !"backend="@.is_prefix_of(#[trigger] text::split(query, '&')[j]),
    ensures
        forall|name: Seq<char>|
            text::split(query, '&')[k] == #[trigger] ("backend="@ + name) ==> asked_backend(query)
                == Some(name),
        asked_backend(query) is Some <==> exists|i: int|
            0 <= i < text::split(query, '&').len() && "backend="@.is_prefix_of(
                #[trigger] text::split(query, '&')[i],
            ),
{
    let parts = text::split(query, '&');
    lemma_first_behind(parts, "backend="@);
    assert forall|name: Seq<char>| parts[k] == #[trigger] ("backend="@ + name) implies asked_backend(
        query,
    ) == Some(name) by {
        text::law_a_prefix_is_stripped("backend="@, name);
        lemma_first_behind_at(parts, "backend="@, k);
    }
}

proof fn lemma_first_behind(parts: Seq<Seq<char>>, prefix: Seq<char>)
    ensures
        first_behind(parts, prefix) is Some <==> exists|i: int|
            0 <= i < parts.len() && prefix.is_prefix_of(#[trigger] parts[i]),
    decreases parts.len(),
{
    if parts.len() > 0 {
        let tail = parts.drop_first();
        lemma_first_behind(tail, prefix);
        if exists|i: int| 0 <= i < tail.len() && prefix.is_prefix_of(#[trigger] tail[i]) {
            let i = choose|i: int| 0 <= i < tail.len() && prefix.is_prefix_of(#[trigger] tail[i]);
            assert(prefix.is_prefix_of(parts[i + 1]));
        }
        if exists|i: int| 0 <= i < parts.len() && prefix.is_prefix_of(#[trigger] parts[i]) {
            let i = choose|i: int| 0 <= i < parts.len() && prefix.is_prefix_of(#[trigger] parts[i]);
            if i > 0 {
                assert(tail[i - 1] == parts[i]);
            }
        }
    }
}

proof fn lemma_first_behind_at(parts: Seq<Seq<char>>, prefix: Seq<char>, k: int)
    requires
        0 <= k < parts.len(),
        prefix.is_prefix_of(parts[k]),
        forall|j: int| 0 <= j < k ==> !prefix.is_prefix_of(#[trigger] parts[j]),
    ensures
        first_behind(parts, prefix) == text::strip_prefix(parts[k], prefix),
    decreases k,
{
    if k > 0 {
        let tail = parts.drop_first();
        assert(!prefix.is_prefix_of(parts[0]));
        assert forall|j: int| 0 <= j < k - 1 implies !prefix.is_prefix_of(#[trigger] tail[j]) by {
            assert(tail[j] == parts[j + 1]);
        }
        lemma_first_behind_at(tail, prefix, k - 1);
    }
}

/// Slashes at the ends of a path do not count, however many there are.
pub proof fn law_slashes_at_the_ends_do_not_count(path: Seq<char>)
    ensures
        segments(seq!['/'] + path) == segments(path),
        segments(path + seq!['/']) == segments(path),
{
    let a = seq!['/'] + path;
    assert(a.drop_first() =~= path);
    let b = path + seq!['/'];
    lemma_slash_behind(path);
    let inner = after_slashes(path);
    if inner.len() > 0 {
        assert((inner + seq!['/']).drop_last() =~= inner);
        assert((inner + seq!['/']).last() == '/');
    } else {
        assert(inner =~= Seq::<char>::empty());
        assert(after_slashes(b) =~= Seq::<char>::empty());
    }
}

proof fn lemma_slash_behind(s: Seq<char>)
    ensures
        after_slashes(s).len() > 0 ==> after_slashes(s + seq!['/']) == after_slashes(s) + seq!['/'],
        after_slashes(s).len() == 0 ==> after_slashes(s + seq!['/']).len() == 0,
    decreases s.len(),
{
    let b = s + seq!['/'];
    if s.len() == 0 {
        assert(b.drop_first() =~= Seq::<char>::empty());
        assert(b[0] == '/');
        assert(after_slashes(b) == after_slashes(b.drop_first()));
    } else {
        assert(b[0] == s[0]);
        if s[0] == '/' {
            assert(b.drop_first() =~= s.drop_first() + seq!['/']);
            lemma_slash_behind(s.drop_first());
        }
    }
}

} // verus!
