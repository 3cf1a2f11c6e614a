//! How a session moves with its turn, what its listeners are told, and what is to be
//! done next.

use crate::backend::{Entry, Role};
use crate::command;
use crate::json;
use crate::reminders;
use crate::run_turn;
use crate::run_turn::{ActionView, EventView, PhaseView};
use crate::serve::drive;
use crate::serve::drive::WorkView;
use crate::serve::frames;
use crate::serve::record;
use crate::serve::record::RecordView;
use crate::text;
use crate::tool;
use crate::tool::{OutcomeView, RequestView, ResultView};
use crate::turn::{DecisionView, NoticeView};
use vstd::prelude::*;

verus! {

// ---------------------------------------------------------------------------
// The session and its turn
// ---------------------------------------------------------------------------

/// A session moves exactly when its turn does, and stands where its turn then stands: the
/// conversation is the turn's, the turn is still the same one, and it is gone from the
/// session once it is over. Where nobody is asked, a command that was decoded is as good
/// as approved.
pub proof fn law_a_session_moves_with_its_turn(r: RecordView, e: EventView)
    ensures
        r.active is None ==> drive::moved(r, e) is None,
        r.active matches Some(a) ==> match run_turn::advance(a.turn, r.history, e) {
            None => drive::moved(r, e) is None,
            Some(p) => {
                let asks = p.step.action is Decide;
                let ends = p.step.action is Done || p.step.action is Abort;
                let unasked = asks && r.config.approval_mode == "auto"@;
                &&& drive::moved(r, e) is Some
                &&& (drive::moved(r, e)->0).record.history == p.history
                &&& ends ==> (drive::moved(r, e)->0).record.active is None
                &&& !ends ==> (drive::moved(r, e)->0).record.active is Some
                &&& !ends && !unasked ==> ((drive::moved(r, e)->0).record.active->0).turn == p.turn
                &&& unasked ==> ((drive::moved(r, e)->0).record.active->0).turn.phase is Executing
                &&& !ends ==> ((drive::moved(r, e)->0).record.active->0).number == a.number
                    && ((drive::moved(r, e)->0).record.active->0).partial.len() == 0
            },
        },
{
}

/// What is to be done next is what the turn asks for: for the session's own backend, with
/// the reminders of the turn, and for the very request. Once the turn has ended with an
/// answer, the whole conversation is saved where the session has a file for it.
pub proof fn law_what_is_done_is_what_the_turn_asks_for(r: RecordView, e: EventView)
    requires
        r.active is Some,
        run_turn::advance(r.active->0.turn, r.history, e) is Some,
    ensures
        ({
            let p = run_turn::advance(r.active->0.turn, r.history, e)->0;
            let work = (drive::moved(r, e)->0).work;
            match p.step.action {
                ActionView::Draw => work == Some(WorkView::Draw(p.turn.reminders)),
                ActionView::Chat { system, messages } => work == Some(
                    WorkView::Chat { config: r.backend, system, messages },
                ),
                ActionView::Parse(payload) => work == Some(WorkView::Parse(payload)),
                ActionView::Decide(request) => work == Some(
                    if r.config.approval_mode == "auto"@ {
                        WorkView::Execute(request)
                    } else {
                        WorkView::Wait { cmd_id: "c_"@ + text::numeral(p.history.len(), 16) }
                    },
                ),
                ActionView::Execute(request) => work == Some(WorkView::Execute(request)),
                ActionView::Done => if r.persist_path is Some {
                    work == Some(
                        WorkView::Save { path: r.persist_path->0, messages: p.history },
                    )
                } else {
                    work is None
                },
                ActionView::Abort(_) => work is None,
            }
        }),
{
}

/// A fragment joins the part of the answer that has come, and is told the listeners; it
/// is taken only while the model answers, and changes nothing else.
pub proof fn law_a_fragment_joins_the_answer(r: RecordView, frag: Seq<char>)
    ensures
        drive::streamed(r, frag) is Some <==> r.active is Some && r.active->0.turn.phase
            is Generating,
        drive::streamed(r, frag) matches Some(m) ==> {
            &&& m.record.active is Some
            &&& m.record.active->0.partial == r.active->0.partial + frag
            &&& m.record.active->0.number == r.active->0.number
            &&& m.record.active->0.turn == r.active->0.turn
            &&& m.record.history == r.history
            &&& m.work is None
            &&& m.frames == seq![
                frames::frame("token"@, json::jobj(seq![("text"@, json::jstr(frag))])),
            ]
        },
{
}

/// A turn that is stopped leaves the part of its answer that has come as the last
/// message, if any has; the listeners are told that message and that the session is
/// idle again, by way of being canceled.
pub proof fn law_what_is_told_of_a_canceled_turn(r: RecordView)
    requires
        r.active is Some,
    ensures
        ({
            let m = drive::canceled(r);
            let partial = r.active->0.partial;
            let said = Entry { role: Role::Assistant, content: partial };
            let ends = seq![state("canceled"@), state("idle"@)];
            &&& m.record.active is None
            &&& m.work is None
            &&& partial.len() == 0 ==> m.record.history == r.history && m.frames == ends
            &&& partial.len() > 0 ==> m.record.history == r.history.push(said) && m.frames == seq![
                message(said),
            ] + ends
        }),
{
}

// ---------------------------------------------------------------------------
// What listeners are told
// ---------------------------------------------------------------------------

/// The event that tells a state.
pub open spec fn state(name: Seq<char>) -> Seq<char> {
    frames::frame("state"@, json::jobj(seq![("state"@, json::jstr(name))]))
}

/// The event that tells a message.
pub open spec fn message(e: Entry) -> Seq<char> {
    frames::frame("message"@, record::jmessage(e))
}

/// The event that tells the result of the command that was asked for in the message with
/// this number.
pub open spec fn result(number: nat, r: ResultView) -> Seq<char> {
    frames::frame(
        "command_result"@,
        tool::jnamed_result("c_"@ + text::numeral(number, 16), r),
    )
}

proof fn lemma_silent(notices: Seq<NoticeView>)
    requires
        forall|i: int|
            0 <= i < notices.len() ==> !((#[trigger] notices[i]) is Token) && !(notices[i]
                is Reminder),
    ensures
        drive::notice_frames(notices) == Seq::<Seq<char>>::empty(),
    decreases notices.len(),
{
    reveal(Seq::filter);
    let texts = notices.map_values(|n: NoticeView| frames::notice_frame(n));
    if notices.len() > 0 {
        let front = notices.drop_last();
        assert forall|i: int| 0 <= i < front.len() implies !((#[trigger] front[i]) is Token)
            && !(front[i] is Reminder) by {
            assert(front[i] == notices[i]);
        }
        lemma_silent(front);
        assert(texts.drop_last() =~= front.map_values(|n: NoticeView| frames::notice_frame(n)));
        let last = notices[notices.len() - 1];
        assert(texts.last() == frames::notice_frame(last));
    }
}

proof fn lemma_spoken(notices: Seq<NoticeView>)
    requires
        forall|i: int| 0 <= i < notices.len() ==> (#[trigger] notices[i]) is Reminder,
    ensures
        drive::notice_frames(notices) == notices.map_values(
            |n: NoticeView| frames::notice_frame(n),
        ),
    decreases notices.len(),
{
    reveal(Seq::filter);
    let texts = notices.map_values(|n: NoticeView| frames::notice_frame(n));
    if notices.len() > 0 {
        let front = notices.drop_last();
        assert forall|i: int| 0 <= i < front.len() implies (#[trigger] front[i]) is Reminder by {
            assert(front[i] == notices[i]);
        }
        lemma_spoken(front);
        let before = front.map_values(|n: NoticeView| frames::notice_frame(n));
        assert(texts.drop_last() =~= before);
        let last = notices[notices.len() - 1];
        reveal_strlit("event: ");
        assert(frames::notice_frame(last).len() > 0);
        assert(texts =~= before.push(frames::notice_frame(last)));
        assert(drive::notice_frames(notices) =~= texts);
    } else {
        assert(drive::notice_frames(notices) =~= texts);
    }
}

/// Of a prompt the listeners are told the reminders that apply, in their order.
#[verifier::spinoff_prover]
#[verifier::rlimit(40)]
pub proof fn law_what_is_told_of_a_prompt(r: RecordView, drawn: Seq<bool>)
    requires
        r.active is Some,
        r.active->0.turn.phase is Prompting,
        drawn.len() == r.active->0.turn.reminders.len(),
    ensures
        ({
            let t = r.active->0.turn;
            let applied = reminders::active(t.reminders, t.fresh, drawn);
            drive::moved(r, EventView::Drawn(drawn)) matches Some(m) && {
                &&& m.frames.len() == applied.len()
                &&& forall|i: int|
                    0 <= i < applied.len() ==> #[trigger] m.frames[i] == frames::frame(
                        "reminder"@,
                        json::jobj(seq![("text"@, json::jstr(text::trim(applied[i].prompt)))]),
                    )
            }
        }),
{
    let t = r.active->0.turn;
    let applied = reminders::active(t.reminders, t.fresh, drawn);
    let notices = run_turn::shown(applied);
    lemma_spoken(notices);
    let m = drive::moved(r, EventView::Drawn(drawn))->0;
    assert(m.frames =~= notices.map_values(|n: NoticeView| frames::notice_frame(n)));
}

/// Of an answer the listeners are told the whole message; of one that ends the turn also
/// that the turn is complete and the session idle; and of one that asks for a command
/// when none is left also what the model is told.
pub proof fn law_what_is_told_of_an_answer(r: RecordView, answer: Seq<char>)
    requires
        r.active is Some,
        r.active->0.turn.phase is Generating,
    ensures
        ({
            let t = r.active->0.turn;
            let said = message(Entry { role: Role::Assistant, content: answer });
            drive::moved(r, EventView::Answered(answer)) matches Some(m) && {
                &&& command::command_in(answer) is None ==> m.frames == seq![
                    said,
                    frames::frame(
                        "turn_complete"@,
                        json::jobj(
                            seq![
                                (
                                    "turn_id"@,
                                    json::jstr("t_"@ + text::numeral(r.active->0.number, 16)),
                                ),
                            ],
                        ),
                    ),
                    state("idle"@),
                ]
                &&& command::command_in(answer) is Some && t.remaining > 0 ==> m.frames == seq![said]
                &&& command::command_in(answer) is Some && t.remaining == 0 ==> m.frames == seq![
                    said,
                    result(
                        r.history.len() + 1,
                        ResultView {
                            status: None,
                            stdout: Seq::empty(),
                            stderr: Seq::empty(),
                            remaining_commands: 0,
                            error: Some("Command execution limit exceeded per response."@),
                        },
                    ),
                ]
            }
        }),
{
    let notices = seq![NoticeView::ResponseEnd];
    lemma_silent(notices);
    let m = drive::moved(r, EventView::Answered(answer))->0;
    let p = drive::driven(r, EventView::Answered(answer))->0;
    assert(p.step.notices == notices);
    if command::command_in(answer) is Some && r.active->0.turn.remaining == 0 {
        assert(p.history.len() - 1 == r.history.len() + 1);
    }
}

/// Of a model that fails the listeners are told the reason, the error and that the
/// session is idle.
pub proof fn law_what_is_told_of_a_failure(r: RecordView, reason: Seq<char>)
    requires
        r.active is Some,
        r.active->0.turn.phase is Generating,
    ensures
        drive::moved(r, EventView::Failed(reason)) matches Some(m) && m.frames == seq![
            frames::frame("error"@, json::jobj(seq![("message"@, json::jstr(reason))])),
            state("error"@),
            state("idle"@),
        ],
{
    lemma_silent(Seq::empty());
}

/// Of a command that waits for a decision the listeners are told its name, the request
/// and how many are left, and that the session waits for approval; where nobody is
/// asked, they are told nothing yet. Of one that cannot be decoded they are told what
/// the model is told.
pub proof fn law_what_is_told_of_a_request(
    r: RecordView,
    request: RequestView,
    reason: Seq<char>,
)
    requires
        r.active is Some,
        r.active->0.turn.phase is Parsing,
    ensures
        ({
            let t = r.active->0.turn;
            &&& drive::moved(r, EventView::Parsed(Ok(request))) matches Some(m) && {
                &&& r.config.approval_mode == "auto"@ ==> m.frames.len() == 0
                &&& r.config.approval_mode != "auto"@ ==> m.frames == seq![
                    frames::frame(
                        "command_pending"@,
                        json::jobj(
                            seq![
                                (
                                    "cmd_id"@,
                                    json::jstr("c_"@ + text::numeral(r.history.len(), 16)),
                                ),
                                ("remaining_commands"@, json::jint(t.remaining as int)),
                                ("request"@, tool::jrequest(request)),
                            ],
                        ),
                    ),
                    state("awaiting_approval"@),
                ]
            }
            &&& drive::moved(r, EventView::Parsed(Err(reason))) matches Some(m) && m.frames == seq![
                result(
                    r.history.len(),
                    ResultView {
                        status: None,
                        stdout: Seq::empty(),
                        stderr: Seq::empty(),
                        remaining_commands: t.remaining,
                        error: Some("Failed to parse command request: "@ + reason),
                    },
                ),
            ]
        }),
{
    let payload = r.active->0.turn.phase->Parsing_payload;
    lemma_silent(Seq::empty());
    lemma_silent(
        seq![
            NoticeView::CommandPayload(payload),
            NoticeView::CommandExecuting { binary: request.binary, args: request.args },
        ],
    );
}

/// Of a decision the listeners are told that the session generates again, and of a
/// denial also what the model is told.
pub proof fn law_what_is_told_of_a_decision(r: RecordView, reason: Seq<char>)
    requires
        r.active is Some,
        r.active->0.turn.phase is Deciding,
    ensures
        ({
            let t = r.active->0.turn;
            &&& drive::moved(r, EventView::Decided(DecisionView::Approve)) matches Some(m)
                && m.frames == seq![state("generating"@)]
            &&& drive::moved(r, EventView::Decided(DecisionView::Deny { reason })) matches Some(m)
                && m.frames == seq![
                state("generating"@),
                result(
                    r.history.len(),
                    ResultView {
                        status: None,
                        stdout: Seq::empty(),
                        stderr: Seq::empty(),
                        remaining_commands: t.remaining,
                        error: Some("Command denied by operator: "@ + reason),
                    },
                ),
            ]
        }),
{
    match r.active->0.turn.phase {
        PhaseView::Deciding { payload, request } => {
            lemma_silent(Seq::empty());
            lemma_silent(
                seq![
                    NoticeView::CommandPayload(payload),
                    NoticeView::CommandExecuting { binary: request.binary, args: request.args },
                ],
            );
        },
        _ => {},
    }
}

/// Of a command that has run the listeners are told what the model is told: how it
/// ended, with all of its output.
pub proof fn law_what_is_told_of_a_command(
    r: RecordView,
    status: Option<i32>,
    stdout: Seq<char>,
    stderr: Seq<char>,
)
    requires
        r.active is Some,
        r.active->0.turn.phase is Executing,
    ensures
        drive::moved(
            r,
            EventView::Finished(OutcomeView::Exited { status, stdout, stderr }),
        ) matches Some(m) && m.frames == seq![
            result(
                r.history.len(),
                ResultView {
                    status,
                    stdout,
                    stderr,
                    remaining_commands: r.active->0.turn.remaining,
                    error: None,
                },
            ),
        ],
{
    let e = EventView::Finished(OutcomeView::Exited { status, stdout, stderr });
    let p = drive::driven(r, e)->0;
    lemma_silent(p.step.notices);
}

/// A prompt that opens a turn is told as the session generating.
pub proof fn law_what_is_told_of_a_new_turn(r: RecordView, prompt: Seq<char>)
    ensures
        drive::posted(r, prompt).frames == seq![state("generating"@)],
        drive::posted(r, prompt).work == Some(WorkView::Draw(r.reminders)),
        drive::posted(r, prompt).record.history == r.history.push(
            Entry { role: Role::User, content: prompt },
        ),
        drive::posted(r, prompt).record.active matches Some(a) && a.number == r.history.len() + 1,
{
}

} // verus!
