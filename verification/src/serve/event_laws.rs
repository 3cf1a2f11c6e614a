//! Whatever the listeners of a session are told can be read back line by line.

use crate::backend;
use crate::backend::Entry;
use crate::json;
use crate::run_turn::{ActionView, EventView, Progress};
use crate::serve::drive;
use crate::serve::frames;
use crate::serve::laws;
use crate::serve::laws::Happening;
use crate::serve::record;
use crate::serve::record::{ConfigOutView, PendingView, RecordView};
use crate::serve::routes;
use crate::serve::routes::RouteView;
use crate::serve::server;
use crate::serve::server::{AnswerView, AskedView, BodyView, ServerView};
use crate::tool;
use crate::tool::{RequestView, ResultView};
use crate::turn::{DecisionView, NoticeView};
use vstd::prelude::*;

verus! {

/// Whether a text is an event with its kind and its data on a line each.
pub open spec fn is_event(f: Seq<char>) -> bool {
    exists|event: Seq<char>, data: Seq<char>|
        json::one_line(event) && json::one_line(data) && f == #[trigger] frames::frame(event, data)
}

/// Whether all of these are events.
pub open spec fn are_events(all: Seq<Seq<char>>) -> bool {
    forall|i: int| 0 <= i < all.len() ==> is_event(#[trigger] all[i])
}

proof fn lemma_concat(a: Seq<Seq<char>>, b: Seq<Seq<char>>)
    requires
        are_events(a),
        are_events(b),
    ensures
        are_events(a + b),
{
    assert forall|i: int| 0 <= i < (a + b).len() implies is_event(#[trigger] (a + b)[i]) by {
        if i < a.len() {
            assert((a + b)[i] == a[i]);
        } else {
            assert((a + b)[i] == b[i - a.len()]);
        }
    }
}

proof fn lemma_event(event: Seq<char>, data: Seq<char>)
    requires
        json::one_line(event),
        json::one_line(data),
    ensures
        is_event(frames::frame(event, data)),
{
}

proof fn lemma_single(key: Seq<char>, value: Seq<char>)
    ensures
        json::one_line(frames::jsingle(key, value)),
{
    json::law_strings_are_one_line(value);
    json::law_objects_are_one_line(seq![(key, json::jstr(value))]);
}

proof fn lemma_state(state: Seq<char>)
    ensures
        is_event(frames::state_frame(state)),
{
    reveal_strlit("state");
    lemma_single("state"@, state);
    lemma_event("state"@, frames::jsingle("state"@, state));
}

proof fn lemma_message(e: Entry)
    ensures
        json::one_line(record::jmessage(e)),
        is_event(drive::message_frame(e)),
{
    reveal_strlit("message");
    json::law_strings_are_one_line(e.content);
    json::law_strings_are_one_line(backend::role_name(e.role));
    json::law_objects_are_one_line(
        seq![
            ("content"@, json::jstr(e.content)),
            ("role"@, json::jstr(backend::role_name(e.role))),
        ],
    );
    lemma_event("message"@, record::jmessage(e));
}

proof fn lemma_request(r: RequestView)
    ensures
        json::one_line(tool::jrequest(r)),
{
    let args = Seq::new(r.args.len(), |i: int| json::jstr(r.args[i]));
    assert forall|i: int| 0 <= i < args.len() implies json::one_line(#[trigger] args[i]) by {
        json::law_strings_are_one_line(r.args[i]);
    }
    json::law_arrays_are_one_line(args);
    json::law_strings_are_one_line(r.binary);
    json::law_strings_are_one_line(r.description);
    json::law_numbers_are_one_line(r.timeout as int);
    json::law_objects_are_one_line(
        seq![
            ("args"@, json::jarr(args)),
            ("binary"@, json::jstr(r.binary)),
            ("description"@, json::jstr(r.description)),
            ("timeout"@, json::jint(r.timeout as int)),
        ],
    );
}

proof fn lemma_pending(p: PendingView)
    ensures
        json::one_line(record::jpending(p)),
{
    lemma_request(p.request);
    json::law_strings_are_one_line(p.cmd_id);
    json::law_numbers_are_one_line(p.remaining as int);
    json::law_objects_are_one_line(
        seq![
            ("cmd_id"@, json::jstr(p.cmd_id)),
            ("remaining_commands"@, json::jint(p.remaining as int)),
            ("request"@, tool::jrequest(p.request)),
        ],
    );
}

proof fn lemma_result(number: nat, r: ResultView)
    ensures
        is_event(drive::result_frame(number, r)),
{
    reveal_strlit("null");
    reveal_strlit("command_result");
    let id = seq![("cmd_id"@, json::jstr(record::command_id(number)))];
    let fields = id + tool::sorted_members(r);
    json::law_strings_are_one_line(record::command_id(number));
    json::law_strings_are_one_line(r.stdout);
    json::law_strings_are_one_line(r.stderr);
    json::law_numbers_are_one_line(r.remaining_commands as int);
    if let Some(n) = r.status {
        json::law_numbers_are_one_line(n as int);
    }
    if let Some(e) = r.error {
        json::law_strings_are_one_line(e);
    }
    assert forall|i: int| 0 <= i < fields.len() implies json::one_line(
        (#[trigger] fields[i]).1,
    ) by {
        if i > 0 {
            assert(fields[i] == tool::sorted_members(r)[i - 1]);
        }
    }
    json::law_objects_are_one_line(fields);
    lemma_event("command_result"@, json::jobj(fields));
}

proof fn lemma_config(c: ConfigOutView)
    ensures
        json::one_line(record::jconfig(c)),
{
    json::law_strings_are_one_line(c.approval_mode);
    json::law_strings_are_one_line(c.backend);
    json::law_numbers_are_one_line(c.command_per_response as int);
    json::law_optional_strings_are_one_line(c.model);
    json::law_optional_strings_are_one_line(c.system);
    json::law_objects_are_one_line(
        seq![
            ("approval_mode"@, json::jstr(c.approval_mode)),
            ("backend"@, json::jstr(c.backend)),
            ("command_per_response"@, json::jint(c.command_per_response as int)),
            ("model"@, json::jopt(c.model)),
            ("system"@, json::jopt(c.system)),
        ],
    );
}

proof fn lemma_snapshot(r: RecordView)
    ensures
        json::one_line(record::jsnapshot(r)),
{
    reveal_strlit("null");
    lemma_config(r.config);
    json::law_strings_are_one_line(r.created_at);
    json::law_strings_are_one_line(record::session_id(r.number));
    json::law_strings_are_one_line(record::state_name(r));
    let messages = Seq::new(r.history.len(), |i: int| record::jmessage(r.history[i]));
    assert forall|i: int| 0 <= i < messages.len() implies json::one_line(#[trigger] messages[i]) by {
        lemma_message(r.history[i]);
    }
    json::law_arrays_are_one_line(messages);
    if let Some(p) = record::pending(r) {
        lemma_pending(p);
    }
    json::law_objects_are_one_line(
        seq![
            ("config"@, record::jconfig(r.config)),
            ("created_at"@, json::jstr(r.created_at)),
            ("id"@, json::jstr(record::session_id(r.number))),
            ("messages"@, record::jmessages(r.history)),
            ("pending_command"@, record::jpending_of(r)),
            ("state"@, json::jstr(record::state_name(r))),
        ],
    );
}

proof fn lemma_notices(notices: Seq<NoticeView>)
    ensures
        are_events(drive::notice_frames(notices)),
{
    let all = notices.map_values(|n: NoticeView| frames::notice_frame(n));
    lemma_filtered(notices, all);
}

proof fn lemma_filtered(notices: Seq<NoticeView>, all: Seq<Seq<char>>)
    requires
        all == notices.map_values(|n: NoticeView| frames::notice_frame(n)),
    ensures
        are_events(all.filter(drive::is_told())),
    decreases all.len(),
{
    reveal(Seq::filter);
    if all.len() > 0 {
        assert(all.drop_last() =~= notices.drop_last().map_values(
            |n: NoticeView| frames::notice_frame(n),
        ));
        lemma_filtered(notices.drop_last(), all.drop_last());
        lemma_notice(notices.last());
        assert(all.last() == frames::notice_frame(notices.last()));
    }
}

proof fn lemma_notice(n: NoticeView)
    ensures
        frames::notice_frame(n).len() > 0 ==> is_event(frames::notice_frame(n)),
        n is Token ==> is_event(frames::notice_frame(n)),
{
    reveal_strlit("token");
    reveal_strlit("reminder");
    match n {
        NoticeView::Token(t) => {
            lemma_single("text"@, t);
            lemma_event("token"@, frames::jsingle("text"@, t));
        },
        NoticeView::Reminder(t) => {
            lemma_single("text"@, t);
            lemma_event("reminder"@, frames::jsingle("text"@, t));
        },
        _ => {},
    }
}

proof fn lemma_tail(r: RecordView, p: Progress)
    ensures
        are_events(drive::tail_frames(r, p)),
{
    reveal_strlit("command_pending");
    reveal_strlit("turn_complete");
    reveal_strlit("error");
    lemma_state("awaiting_approval"@);
    lemma_state("idle"@);
    lemma_state("error"@);
    match p.step.action {
        ActionView::Decide(request) => {
            let w = PendingView {
                cmd_id: record::command_id(p.history.len()),
                request,
                remaining: p.turn.remaining,
            };
            lemma_pending(w);
            lemma_event("command_pending"@, record::jpending(w));
        },
        ActionView::Done => {
            let id = record::turn_id(r.active->0.number);
            lemma_single("turn_id"@, id);
            lemma_event("turn_complete"@, frames::jsingle("turn_id"@, id));
        },
        ActionView::Abort(reason) => {
            lemma_single("message"@, reason);
            lemma_event("error"@, frames::jsingle("message"@, reason));
        },
        _ => {},
    }
}

/// Whatever the listeners are told of a move can be read back.
pub proof fn law_moves_are_told_as_events(r: RecordView, e: EventView)
    ensures
        drive::moved(r, e) matches Some(m) ==> are_events(m.frames),
{
    if let Some(p) = drive::driven(r, e) {
        lemma_state("generating"@);
        lemma_notices(p.step.notices);
        lemma_tail(r, p);
        if let EventView::Answered(answer) = e {
            lemma_message(Entry { role: backend::Role::Assistant, content: answer });
        }
        if let Some(result) = p.step.told {
            lemma_result((p.history.len() - 1) as nat, result);
        }
        let a = drive::lead_frames(r);
        let b = drive::answer_frames(e);
        let c = drive::notice_frames(p.step.notices);
        let d = drive::told_frames(p);
        lemma_concat(a, b);
        lemma_concat(a + b, c);
        lemma_concat(a + b + c, d);
        lemma_concat(a + b + c + d, drive::tail_frames(r, p));
    }
}

proof fn lemma_canceled(r: RecordView)
    ensures
        are_events(drive::canceled(r).frames),
{
    lemma_state("canceled"@);
    lemma_state("idle"@);
    lemma_message(Entry { role: backend::Role::Assistant, content: r.active->0.partial });
}

proof fn lemma_decided(s: ServerView, id: Seq<char>, d: DecisionView)
    ensures
        server::decided(s, id, d).effects matches Some(e) ==> are_events(e.frames),
{
    law_moves_are_told_as_events(server::session(s, id), EventView::Decided(d));
}

proof fn lemma_denied(s: ServerView, id: Seq<char>, cmd_id: Seq<char>, body: BodyView)
    ensures
        server::denial_posted(s, id, cmd_id, body).out.effects matches Some(e) ==> are_events(
            e.frames,
        ),
        server::denial_posted(s, id, cmd_id, body).out.answer is Reply,
{
    let reason = match body {
        BodyView::Denial { reason } => server::or(reason, "no reason given"@),
        _ => "no reason given"@,
    };
    lemma_decided(s, id, DecisionView::Deny { reason });
}

proof fn lemma_posted(s: ServerView, id: Seq<char>, body: BodyView)
    ensures
        server::message_posted(s, id, body).out.effects matches Some(e) ==> are_events(e.frames),
        server::message_posted(s, id, body).out.answer is Reply,
{
    lemma_state("generating"@);
}

proof fn lemma_stopped(s: ServerView, id: Seq<char>)
    ensures
        server::cancel_posted(s, id).out.effects matches Some(e) ==> are_events(e.frames),
        server::cancel_posted(s, id).out.answer is Reply,
{
    lemma_canceled(server::session(s, id));
}

proof fn lemma_listen(r: RecordView)
    ensures
        is_event(frames::frame("snapshot"@, record::jsnapshot(r))),
{
    reveal_strlit("snapshot");
    lemma_snapshot(r);
    lemma_event("snapshot"@, record::jsnapshot(r));
}

proof fn lemma_asked(s: ServerView, q: AskedView, now: Seq<char>)
    ensures
        server::handled(s, q, now).out.effects matches Some(e) ==> are_events(e.frames),
        server::handled(s, q, now).out.answer matches AnswerView::Listen { first } ==> is_event(
            first,
        ),
{
    match routes::route(q.method, q.path) {
        RouteView::PostMessage { id } => lemma_posted(s, id, q.body),
        RouteView::Events { id } => lemma_listen(server::session(s, id)),
        RouteView::Approve { id, .. } => lemma_decided(s, id, DecisionView::Approve),
        RouteView::Deny { id, cmd_id } => lemma_denied(s, id, cmd_id, q.body),
        RouteView::Cancel { id } => lemma_stopped(s, id),
        _ => {},
    }
}

/// Whatever happens, the listeners are told events that can be read back line by
/// line, and so is the first thing that somebody who begins to listen is told.
pub proof fn law_listeners_are_told_events(s: ServerView, h: Happening)
    ensures
        laws::next(s, h).effects matches Some(e) ==> are_events(e.frames),
        h matches Happening::Asked { request, now } ==> (server::handled(
            s,
            request,
            now,
        ).out.answer matches AnswerView::Listen { first } ==> is_event(first)),
{
    match h {
        Happening::Asked { request, now } => lemma_asked(s, request, now),
        Happening::Came { id, event, .. } => law_moves_are_told_as_events(
            server::session(s, id),
            event,
        ),
        Happening::Streamed { frag, .. } => lemma_notice(NoticeView::Token(frag)),
        Happening::Expired { id, .. } => law_moves_are_told_as_events(
            server::session(s, id),
            EventView::Decided(DecisionView::Deny { reason: "approval timed out"@ }),
        ),
    }
}

} // verus!
