//! Server-sent events: what the listeners of a session are told.

use crate::json;
use crate::json::Object;
use crate::text;
use crate::turn::{NoticeView, TurnObserver};
use vstd::prelude::*;

verus! {

/// One event on the stream: its kind and its JSON data, each on a line, and a
/// blank line.
pub open spec fn frame(event: Seq<char>, data: Seq<char>) -> Seq<char> {
    "event: "@ + event + "\ndata: "@ + data + "\n\n"@
}

/// One event on the stream.
pub fn frame_of(event: &str, data: &serde_json::Value) -> (r: String)
    ensures
        r@ == frame(event@, json::json_text(*data)),
{
    let mut out = text::concat3("event: ", event, "\ndata: ");
    out.append(json::json_to_string(data).as_str());
    out.append("\n\n");
    out
}

/// An object with one member that holds a string.
pub open spec fn jsingle(key: Seq<char>, value: Seq<char>) -> Seq<char> {
    json::jobj(seq![(key, json::jstr(value))])
}

/// An object with one member that holds a string.
pub fn single_json(key: &str, value: &str) -> (v: serde_json::Value)
    ensures
        json::json_text(v) == jsingle(key@, value@),
{
    let o = Object::new().with_str(key, value);
    proof {
        assert(o@ =~= seq![(key@, json::jstr(value@))]);
    }
    o.build()
}

/// The session has come into this state.
pub open spec fn state_frame(state: Seq<char>) -> Seq<char> {
    frame("state"@, jsingle("state"@, state))
}

/// The session has come into this state.
pub fn state_frame_of(state: &str) -> (r: String)
    ensures
        r@ == state_frame(state@),
{
    frame_of("state", &single_json("state", state))
}

/// Renders what the loop has to show as events. Only fragments and reminders are
/// events of their own; the course of a command is told by other events.
pub struct SseObserver;

/// The event for a notice, or nothing.
pub open spec fn notice_frame(notice: NoticeView) -> Seq<char> {
    match notice {
        NoticeView::Token(frag) => frame("token"@, jsingle("text"@, frag)),
        NoticeView::Reminder(t) => frame("reminder"@, jsingle("text"@, t)),
        _ => Seq::empty(),
    }
}

impl TurnObserver for SseObserver {
    open spec fn writes(&self, notice: NoticeView) -> Seq<char> {
        notice_frame(notice)
    }

    fn token(&self, frag: &str) -> (r: String) {
        frame_of("token", &single_json("text", frag))
    }

    fn reminder(&self, text: &str) -> (r: String) {
        frame_of("reminder", &single_json("text", text))
    }

    fn response_end(&self) -> (r: String) {
        String::new()
    }

    fn command_payload(&self, json: &str) -> (r: String) {
        String::new()
    }

    fn command_executing(&self, binary: &str, args: &Vec<String>) -> (r: String) {
        String::new()
    }

    fn command_stdout(&self, s: &str) -> (r: String) {
        String::new()
    }

    fn command_stderr(&self, s: &str) -> (r: String) {
        String::new()
    }

    fn command_result(&self, json: &str) -> (r: String) {
        String::new()
    }
}

// ---------------------------------------------------------------------------
// Laws
// ---------------------------------------------------------------------------

/// A piece in front of a line break is a line of its own.
proof fn lemma_split_line(line: Seq<char>, rest: Seq<char>)
    requires
        !line.contains('\n'),
    ensures
        text::split(line + seq!['\n'] + rest, '\n') == seq![line] + text::split(rest, '\n'),
{
    let s = line + seq!['\n'] + rest;
    text::lemma_first_index_at(s, '\n', line.len() as int);
    assert(s.take(line.len() as int) =~= line);
    assert(s.skip(line.len() as int + 1) =~= rest);
}

/// A listener that reads lines finds the kind and the data of an event again,
/// each on its line, and then the blank line that ends it.
pub proof fn law_an_event_is_read_back(event: Seq<char>, data: Seq<char>)
    requires
        json::one_line(event),
        json::one_line(data),
    ensures
        text::split(frame(event, data), '\n') == seq![
            "event: "@ + event,
            "data: "@ + data,
            Seq::empty(),
            Seq::empty(),
        ],
{
    reveal_strlit("event: ");
    reveal_strlit("data: ");
    reveal_strlit("\ndata: ");
    reveal_strlit("\n\n");
    let a = "event: "@ + event;
    let b = "data: "@ + data;
    let none = Seq::<char>::empty();
    assert(frame(event, data) =~= a + seq!['\n'] + (b + seq!['\n'] + (none + seq!['\n'] + none)));
    assert(!a.contains('\n')) by {
        assert forall|i: int| 0 <= i < a.len() implies a[i] != '\n' by {
            if i >= 7 {
                assert(a[i] == event[i - 7]);
            }
        }
    }
    assert(!b.contains('\n')) by {
        assert forall|i: int| 0 <= i < b.len() implies b[i] != '\n' by {
            if i >= 6 {
                assert(b[i] == data[i - 6]);
            }
        }
    }
    lemma_split_line(a, b + seq!['\n'] + (none + seq!['\n'] + none));
    lemma_split_line(b, none + seq!['\n'] + none);
    lemma_split_line(none, none);
    assert(text::split(none, '\n') =~= seq![none]);
    assert(text::split(frame(event, data), '\n') =~= seq![a, b, none, none]);
}

/// A state, a fragment and a reminder are events of these kinds, with the state or the
/// text in them and nothing else; nothing else that the loop shows is an event of its
/// own.
pub proof fn law_what_is_an_event(s: Seq<char>, n: NoticeView)
    ensures
        state_frame(s) == frame(
            "state"@,
            json::written(seq![json::named("state"@, json::jstr(s))]),
        ),
        notice_frame(NoticeView::Token(s)) == frame(
            "token"@,
            json::written(seq![json::named("text"@, json::jstr(s))]),
        ),
        notice_frame(NoticeView::Reminder(s)) == frame(
            "reminder"@,
            json::written(seq![json::named("text"@, json::jstr(s))]),
        ),
        !(n is Token) && !(n is Reminder) ==> notice_frame(n).len() == 0,
        SseObserver.writes(n) == notice_frame(n),
{
    reveal_strlit("state");
    reveal_strlit("text");
    law_one_member("state"@, s);
    law_one_member("text"@, s);
}

/// An object with one member is written as that member alone.
pub proof fn law_one_member(key: Seq<char>, value: Seq<char>)
    requires
        json::plain(key),
    ensures
        jsingle(key, value) == json::written(seq![json::named(key, json::jstr(value))]),
{
    let m = seq![(key, json::jstr(value))];
    json::lemma_written(m);
    assert(Seq::new(m.len(), |k: int| json::named(m[k].0, m[k].1)) =~= seq![
        json::named(key, json::jstr(value)),
    ]);
}

} // verus!
