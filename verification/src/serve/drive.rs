//! One session on its way through a turn: what each event leads to, what the
//! listeners are told of it, and what is to be done next.

use crate::backend;
use crate::backend::{Entry, Message, Role};
use crate::config::{BackendConfig, ConfigView};
use crate::json;
use crate::json::Object;
use crate::reminders;
use crate::reminders::{Reminder, ReminderView};
use crate::run_turn;
use crate::run_turn::{
    ActionView, EventView, Phase, Progress, RunTurnConfig, Step, Turn, TurnAction, TurnEvent,
};
use crate::serve::frames;
use crate::serve::frames::SseObserver;
use crate::serve::record;
use crate::serve::record::{Active, ActiveView, RecordView, SessionRecord};
use crate::text;
use crate::tool;
use crate::tool::{CommandRequest, CommandResult, RequestView, ResultView};
use crate::turn;
use crate::turn::{AutoApprover, CommandApprover, Notice, NoticeView};
use vstd::prelude::*;

verus! {

// ---------------------------------------------------------------------------
// What is to be done
// ---------------------------------------------------------------------------

/// What is to be done for a session.
#[derive(Debug)]
pub enum Work {
    /// Draw these reminders.
    Draw(Vec<Reminder>),
    /// Ask the model.
    Chat { config: BackendConfig, system: Option<String>, messages: Vec<Message> },
    /// Decode the payload of a command.
    Parse(String),
    /// Let the time run that is left for a decision about this command.
    Wait { cmd_id: String },
    /// Run a command.
    Execute(CommandRequest),
    /// Write the conversation to a file. Nothing is reported back.
    Save { path: String, messages: Vec<Message> },
}

/// What is to be done for a session.
#[verifier::ext_equal]
pub enum WorkView {
    Draw(Seq<ReminderView>),
    Chat { config: ConfigView, system: Option<Seq<char>>, messages: Seq<Entry> },
    Parse(Seq<char>),
    Wait { cmd_id: Seq<char> },
    Execute(RequestView),
    Save { path: Seq<char>, messages: Seq<Entry> },
}

impl View for Work {
    type V = WorkView;

    open spec fn view(&self) -> WorkView {
        match self {
            Work::Draw(r) => WorkView::Draw(reminders::reminder_views(r@)),
            Work::Chat { config, system, messages } => WorkView::Chat {
                config: config@,
                system: text::opt_text(*system),
                messages: backend::entries(messages@),
            },
            Work::Parse(p) => WorkView::Parse(p@),
            Work::Wait { cmd_id } => WorkView::Wait { cmd_id: cmd_id@ },
            Work::Execute(r) => WorkView::Execute(r@),
            Work::Save { path, messages } => WorkView::Save {
                path: path@,
                messages: backend::entries(messages@),
            },
        }
    }
}

/// The view of work that there may be.
pub open spec fn work_view(work: Option<Work>) -> Option<WorkView> {
    match work {
        Some(w) => Some(w@),
        None => None,
    }
}

/// What the listeners are told, and what is to be done next, if anything.
#[derive(Debug)]
pub struct Move {
    pub frames: Vec<String>,
    pub work: Option<Work>,
}

/// Where a session stands after a move, what the listeners are told, and what is
/// to be done next.
#[verifier::ext_equal]
pub struct Moved {
    pub record: RecordView,
    pub frames: Seq<Seq<char>>,
    pub work: Option<WorkView>,
}

/// The move of a session that has come to stand at `record`.
pub open spec fn seen(record: RecordView, m: Move) -> Moved {
    Moved { record, frames: text::texts(m.frames@), work: work_view(m.work) }
}

// ---------------------------------------------------------------------------
// What each event leads to
// ---------------------------------------------------------------------------

/// Where the turn of this session stands after an event. A session in which
/// commands run without anybody being asked decides at once.
pub open spec fn driven(r: RecordView, e: EventView) -> Option<Progress> {
    match r.active {
        None => None,
        Some(a) => match run_turn::advance(a.turn, r.history, e) {
            None => None,
            Some(p) => match p.step.action {
                ActionView::Decide(request) => if record::is_auto(r) {
                    run_turn::advance(
                        p.turn,
                        p.history,
                        EventView::Decided(AutoApprover.decides(request)),
                    )
                } else {
                    Some(p)
                },
                _ => Some(p),
            },
        },
    }
}

/// Whether a turn is over with this action.
pub open spec fn is_last(action: ActionView) -> bool {
    action is Done || action is Abort
}

/// The session after its turn has come to stand at `p`.
pub open spec fn after(r: RecordView, p: Progress) -> RecordView {
    RecordView {
        history: p.history,
        active: if is_last(p.step.action) {
            None
        } else {
            Some(
                ActiveView {
                    number: r.active->0.number,
                    turn: p.turn,
                    partial: Seq::empty(),
                },
            )
        },
        ..r
    }
}

/// What is to be done after its turn has come to stand at `p`.
pub open spec fn work_for(r: RecordView, p: Progress) -> Option<WorkView> {
    match p.step.action {
        ActionView::Draw => Some(WorkView::Draw(p.turn.reminders)),
        ActionView::Chat { system, messages } => Some(
            WorkView::Chat { config: r.backend, system, messages },
        ),
        ActionView::Parse(payload) => Some(WorkView::Parse(payload)),
        ActionView::Decide(_) => Some(
            WorkView::Wait { cmd_id: record::command_id(p.history.len()) },
        ),
        ActionView::Execute(request) => Some(WorkView::Execute(request)),
        ActionView::Done => match r.persist_path {
            Some(path) => Some(WorkView::Save { path, messages: p.history }),
            None => None,
        },
        ActionView::Abort(_) => None,
    }
}

/// The event for a message that has joined the conversation.
pub open spec fn message_frame(e: Entry) -> Seq<char> {
    frames::frame("message"@, record::jmessage(e))
}

/// The event for what the model is told of a command.
pub open spec fn result_frame(number: nat, result: ResultView) -> Seq<char> {
    frames::frame("command_result"@, tool::jnamed_result(record::command_id(number), result))
}

/// A decision ends the waiting for it.
pub open spec fn lead_frames(r: RecordView) -> Seq<Seq<char>> {
    if record::pending(r) is Some {
        seq![frames::state_frame("generating"@)]
    } else {
        Seq::empty()
    }
}

/// An answer is told as a message.
pub open spec fn answer_frames(e: EventView) -> Seq<Seq<char>> {
    match e {
        EventView::Answered(answer) => seq![
            message_frame(Entry { role: Role::Assistant, content: answer }),
        ],
        _ => Seq::empty(),
    }
}

/// Whether there is anything to tell.
pub open spec fn is_told() -> spec_fn(Seq<char>) -> bool {
    |f: Seq<char>| f.len() > 0
}

/// What is told of notices: those that are events of their own.
pub open spec fn notice_frames(notices: Seq<NoticeView>) -> Seq<Seq<char>> {
    notices.map_values(|n: NoticeView| frames::notice_frame(n)).filter(is_told())
}

/// What the model is told of a command is told the listeners too.
pub open spec fn told_frames(p: Progress) -> Seq<Seq<char>> {
    match p.step.told {
        Some(result) => seq![result_frame((p.history.len() - 1) as nat, result)],
        None => Seq::empty(),
    }
}

/// A command that waits, and the end of a turn.
pub open spec fn tail_frames(r: RecordView, p: Progress) -> Seq<Seq<char>> {
    match p.step.action {
        ActionView::Decide(request) => seq![
            frames::frame(
                "command_pending"@,
                record::jpending(
                    record::PendingView {
                        cmd_id: record::command_id(p.history.len()),
                        request,
                        remaining: p.turn.remaining,
                    },
                ),
            ),
            frames::state_frame("awaiting_approval"@),
        ],
        ActionView::Done => seq![
            frames::frame(
                "turn_complete"@,
                frames::jsingle("turn_id"@, record::turn_id(r.active->0.number)),
            ),
            frames::state_frame("idle"@),
        ],
        ActionView::Abort(reason) => seq![
            frames::frame("error"@, frames::jsingle("message"@, reason)),
            frames::state_frame("error"@),
            frames::state_frame("idle"@),
        ],
        _ => Seq::empty(),
    }
}

/// What an event leads to in a session. One that its turn does not wait for leads
/// nowhere.
pub open spec fn moved(r: RecordView, e: EventView) -> Option<Moved> {
    match driven(r, e) {
        None => None,
        Some(p) => Some(
            Moved {
                record: after(r, p),
                frames: lead_frames(r) + answer_frames(e) + notice_frames(p.step.notices)
                    + told_frames(p) + tail_frames(r, p),
                work: work_for(r, p),
            },
        ),
    }
}

/// A prompt opens a turn in an idle session.
pub open spec fn posted(r: RecordView, prompt: Seq<char>) -> Moved {
    let p = run_turn::opened(
        r.config.system,
        prompt,
        r.reminders,
        r.config.command_per_response,
        r.history.len() == 0,
        r.history,
    );
    Moved {
        record: RecordView {
            history: p.history,
            active: Some(
                ActiveView { number: p.history.len(), turn: p.turn, partial: Seq::empty() },
            ),
            ..r
        },
        frames: seq![frames::state_frame("generating"@)],
        work: Some(WorkView::Draw(r.reminders)),
    }
}

/// A fragment of the answer that the turn of this session waits for.
pub open spec fn streamed(r: RecordView, frag: Seq<char>) -> Option<Moved> {
    match r.active {
        Some(a) => if a.turn.phase is Generating {
            Some(
                Moved {
                    record: RecordView {
                        active: Some(ActiveView { partial: a.partial + frag, ..a }),
                        ..r
                    },
                    frames: seq![frames::notice_frame(NoticeView::Token(frag))],
                    work: None,
                },
            )
        } else {
            None
        },
        None => None,
    }
}

/// The turn of this session is stopped. What had come of an answer is kept.
pub open spec fn canceled(r: RecordView) -> Moved {
    let partial = r.active->0.partial;
    let kept = Entry { role: Role::Assistant, content: partial };
    let ends = seq![frames::state_frame("canceled"@), frames::state_frame("idle"@)];
    if partial.len() == 0 {
        Moved { record: RecordView { active: None, ..r }, frames: ends, work: None }
    } else {
        Moved {
            record: RecordView { history: r.history.push(kept), active: None, ..r },
            frames: seq![message_frame(kept)] + ends,
            work: None,
        }
    }
}

// ---------------------------------------------------------------------------
// Events as text
// ---------------------------------------------------------------------------

/// The event for a message that has joined the conversation.
fn message_frame_of(role: Role, content: &str) -> (r: String)
    ensures
        r@ == message_frame(Entry { role, content: content@ }),
{
    frames::frame_of("message", &record::message_json(&Message::new(role, content)))
}

/// The event for what the model is told of a command.
fn result_frame_of(number: u64, result: &CommandResult) -> (r: String)
    ensures
        r@ == result_frame(number as nat, result@),
{
    let id = record::command_id_of(number);
    frames::frame_of("command_result", &tool::named_result_json(id.as_str(), result))
}

/// What is told of the first `i + 1` of these.
proof fn lemma_told_take(all: Seq<Seq<char>>, i: int)
    requires
        0 <= i < all.len(),
    ensures
        all.take(i + 1).filter(is_told()) == if all[i].len() > 0 {
            all.take(i).filter(is_told()).push(all[i])
        } else {
            all.take(i).filter(is_told())
        },
{
    reveal(Seq::filter);
    assert(all.take(i + 1).drop_last() =~= all.take(i));
    assert(all.take(i + 1).last() == all[i]);
}

/// Adds what is told of notices to `out`.
fn push_notices(out: &mut Vec<String>, notices: &Vec<Notice>)
    ensures
        text::texts(final(out)@) == text::texts(old(out)@) + notice_frames(
            turn::notice_views(notices@),
        ),
{
    let ghost first = text::texts(out@);
    let ghost all = turn::notice_views(notices@).map_values(
        |n: NoticeView| frames::notice_frame(n),
    );
    let mut i: usize = 0;
    proof {
        reveal(Seq::filter);
        assert(all.take(0).filter(is_told()) =~= Seq::<Seq<char>>::empty());
        assert(first + all.take(0).filter(is_told()) =~= first);
    }
    while i < notices.len()
        invariant
            i <= notices.len(),
            all == turn::notice_views(notices@).map_values(
                |n: NoticeView| frames::notice_frame(n),
            ),
            text::texts(out@) == first + all.take(i as int).filter(is_told()),
        decreases notices.len() - i,
    {
        let f = turn::observe(&SseObserver, &notices[i]);
        proof {
            lemma_told_take(all, i as int);
            assert(all[i as int] == f@);
        }
        if !f.as_str().is_empty() {
            let ghost before = out@;
            out.push(f);
            proof {
                text::lemma_texts_push(before, out@.last());
                assert(first + all.take(i as int).filter(is_told()).push(f@) =~= (first + all.take(
                    i as int,
                ).filter(is_told())).push(f@));
            }
        }
        i += 1;
    }
    proof {
        assert(all.take(notices.len() as int) =~= all);
    }
}

// ---------------------------------------------------------------------------
// Moves
// ---------------------------------------------------------------------------

/// A loop that asks for a decision waits for it.
proof fn lemma_deciding(p: Progress)
    requires
        exists|t: run_turn::TurnView, h: Seq<Entry>, e: EventView|
            run_turn::advance(t, h, e) == Some(p),
    ensures
        p.step.action is Decide ==> p.turn.phase is Deciding,
{
}

/// One event of a turn, and the decision too where nobody is asked for it.
fn drive(turn: &mut Turn, session: &mut backend::Session, auto: bool, event: TurnEvent) -> (r: Option<
    Step,
>)
    ensures
        ({
            let first = run_turn::advance(old(turn)@, old(session)@, event@);
            match r {
                None => first is None && final(turn)@ == old(turn)@ && final(session)@ == old(
                    session,
                )@,
                Some(s) => {
                    let p = Progress { turn: final(turn)@, history: final(session)@, step: s@ };
                    &&& first is Some
                    &&& match first->0.step.action {
                        ActionView::Decide(request) => if auto {
                            run_turn::advance(
                                first->0.turn,
                                first->0.history,
                                EventView::Decided(AutoApprover.decides(request)),
                            ) == Some(p)
                        } else {
                            first == Some(p)
                        },
                        _ => first == Some(p),
                    }
                },
            }
        }),
{
    match turn.step(session, event) {
        Err(_) => None,
        Ok(step) => {
            proof {
                lemma_deciding(Progress { turn: turn@, history: session@, step: step@ });
            }
            if auto {
                if let TurnAction::Decide(request) = &step.action {
                    let decision = AutoApprover.decide(request);
                    return match turn.step(session, TurnEvent::Decided(decision)) {
                        Ok(next) => Some(next),
                        Err(_) => {
                            proof {
                                assert(false);
                            }
                            None
                        },
                    };
                }
            }
            Some(step)
        },
    }
}

impl SessionRecord {
    /// What is told of a command that waits, and of the end of a turn.
    fn push_tail(&self, out: &mut Vec<String>, number: u64, turn: &Turn, action: &TurnAction)
        ensures
            forall|r: RecordView, p: Progress|
                r.active is Some && r.active->0.number == number && p.turn == turn@ && p.history
                    == self@.history && p.step.action == action@ ==> text::texts(final(out)@)
                    == text::texts(old(out)@) + #[trigger] tail_frames(r, p),
    {
        let ghost before = text::texts(out@);
        match action {
            TurnAction::Decide(request) => {
                let o = Object::new().with_str(
                    "cmd_id",
                    record::command_id_of(self.session.messages.len() as u64).as_str(),
                ).with("remaining_commands", json::json_unsigned(turn.remaining() as u64)).with(
                    "request",
                    tool::request_json(request),
                );
                let ghost p = record::PendingView {
                    cmd_id: record::command_id(self@.history.len()),
                    request: request@,
                    remaining: turn@.remaining,
                };
                proof {
                    reveal_strlit("cmd_id");
                    reveal_strlit("remaining_commands");
                    reveal_strlit("request");
                    assert(json::precedes_at("cmd_id"@, "remaining_commands"@, 0));
                    assert(json::precedes_at("remaining_commands"@, "request"@, 2));
                    assert(o@ =~= seq![
                        ("cmd_id"@, json::jstr(p.cmd_id)),
                        ("remaining_commands"@, json::jint(p.remaining as int)),
                        ("request"@, tool::jrequest(p.request)),
                    ]);
                }
                out.push(frames::frame_of("command_pending", &o.build()));
                out.push(frames::state_frame_of("awaiting_approval"));
                proof {
                    assert(text::texts(out@) =~= before + seq![
                        frames::frame("command_pending"@, record::jpending(p)),
                        frames::state_frame("awaiting_approval"@),
                    ]);
                }
            },
            TurnAction::Done => {
                let id = record::turn_id_of(number);
                out.push(
                    frames::frame_of("turn_complete", &frames::single_json("turn_id", id.as_str())),
                );
                out.push(frames::state_frame_of("idle"));
                proof {
                    assert(text::texts(out@) =~= before + seq![
                        frames::frame("turn_complete"@, frames::jsingle("turn_id"@, id@)),
                        frames::state_frame("idle"@),
                    ]);
                }
            },
            TurnAction::Abort(reason) => {
                out.push(
                    frames::frame_of("error", &frames::single_json("message", reason.as_str())),
                );
                out.push(frames::state_frame_of("error"));
                out.push(frames::state_frame_of("idle"));
                proof {
                    assert(text::texts(out@) =~= before + seq![
                        frames::frame("error"@, frames::jsingle("message"@, reason@)),
                        frames::state_frame("error"@),
                        frames::state_frame("idle"@),
                    ]);
                }
            },
            _ => {
                proof {
                    assert(before + Seq::<Seq<char>>::empty() =~= before);
                }
            },
        }
    }

    /// What is to be done for an action.
    fn assign(&self, turn: &Turn, action: TurnAction) -> (w: Option<Work>)
        ensures
            forall|r: RecordView, p: Progress|
                r.backend == self@.backend && r.persist_path == self@.persist_path && p.turn
                    == turn@ && p.history == self@.history && p.step.action == action@
                    ==> work_view(w) == #[trigger] work_for(r, p),
    {
        match action {
            TurnAction::Draw => Some(Work::Draw(reminders::clone_all(turn.reminders()))),
            TurnAction::Chat { system, messages } => Some(
                Work::Chat { config: self.backend.clone(), system, messages },
            ),
            TurnAction::Parse(payload) => Some(Work::Parse(payload)),
            TurnAction::Decide(_) => Some(
                Work::Wait {
                    cmd_id: record::command_id_of(self.session.messages.len() as u64),
                },
            ),
            TurnAction::Execute(request) => Some(Work::Execute(request)),
            TurnAction::Done => match &self.persist_path {
                Some(path) => Some(
                    Work::Save {
                        path: path.clone(),
                        messages: backend::clone_all(self.session.messages.as_slice()),
                    },
                ),
                None => None,
            },
            TurnAction::Abort(_) => None,
        }
    }

    /// Takes one event of the turn in. One that the turn does not wait for changes
    /// nothing.
    #[verifier::spinoff_prover]
    #[verifier::rlimit(40)]
    pub fn advance(&mut self, event: TurnEvent) -> (r: Option<Move>)
        ensures
            match r {
                Some(m) => moved(old(self)@, event@) == Some(seen(final(self)@, m)),
                None => moved(old(self)@, event@) is None && final(self)@ == old(self)@,
            },
    {
        let ghost r = self@;
        let auto = self.is_auto();
        let mut out: Vec<String> = Vec::new();
        if self.pending_id().is_some() {
            out.push(frames::state_frame_of("generating"));
        }
        let ghost lead = text::texts(out@);
        if let TurnEvent::Answered(answer) = &event {
            out.push(message_frame_of(Role::Assistant, answer.as_str()));
        }
        let ghost opening = text::texts(out@);
        proof {
            assert(lead =~= lead_frames(r));
            assert(opening =~= lead_frames(r) + answer_frames(event@));
        }
        match self.active.take() {
            None => None,
            Some(active) => {
                let Active { number, mut turn, partial } = active;
                match drive(&mut turn, &mut self.session, auto, event) {
                    None => {
                        self.active = Some(Active { number, turn, partial });
                        None
                    },
                    Some(step) => {
                        let ghost p = Progress {
                            turn: turn@,
                            history: self.session@,
                            step: step@,
                        };
                        push_notices(&mut out, &step.notices);
                        let ghost mid = text::texts(out@);
                        if let Some(result) = &step.told {
                            proof {
                                lemma_told_history(r, event@);
                            }
                            let n: u64 = self.session.messages.len() as u64;
                            out.push(result_frame_of(n - 1, result));
                        }
                        proof {
                            assert(text::texts(out@) =~= mid + told_frames(p));
                        }
                        self.push_tail(&mut out, number, &turn, &step.action);
                        proof {
                            assert(text::texts(out@) == mid + told_frames(p) + tail_frames(r, p));
                        }
                        let last = match &step.action {
                            TurnAction::Done => true,
                            TurnAction::Abort(_) => true,
                            _ => false,
                        };
                        let work = self.assign(&turn, step.action);
                        proof {
                            assert(work_view(work) == work_for(r, p));
                        }
                        if !last {
                            self.active = Some(Active { number, turn, partial: String::new() });
                        }
                        proof {
                            assert(self@ =~= after(r, p));
                        }
                        Some(Move { frames: out, work })
                    },
                }
            },
        }
    }

    /// Opens a turn.
    pub fn post(&mut self, prompt: String) -> (m: Move)
        requires
            old(self)@.active is None,
        ensures
            seen(final(self)@, m) == posted(old(self)@, prompt@),
    {
        let ghost r = self@;
        let config = RunTurnConfig {
            system: text::clone_option(&self.config.system),
            initial_prompt: prompt,
            reminders: reminders::clone_all(&self.reminders),
            command_per_response: self.config.command_per_response,
            is_new_session: self.session.is_new(),
        };
        let (turn, step) = run_turn::run_turn(config, &mut self.session);
        let number: u64 = self.session.messages.len() as u64;
        self.active = Some(Active { number, turn, partial: String::new() });
        let mut out: Vec<String> = Vec::new();
        out.push(frames::state_frame_of("generating"));
        let m = Move {
            frames: out,
            work: Some(Work::Draw(reminders::clone_all(&self.reminders))),
        };
        proof {
            let expected = posted(r, prompt@);
            assert(self@ =~= expected.record);
            assert(text::texts(m.frames@) =~= expected.frames);
        }
        m
    }

    /// Takes a fragment of the answer in.
    pub fn stream(&mut self, frag: &str) -> (r: Option<Move>)
        ensures
            match r {
                Some(m) => streamed(old(self)@, frag@) == Some(seen(final(self)@, m)),
                None => streamed(old(self)@, frag@) is None && final(self)@ == old(self)@,
            },
    {
        let ghost r = self@;
        match self.active.take() {
            None => None,
            Some(active) => {
                let Active { number, turn, mut partial } = active;
                let wanted = match turn.phase() {
                    Phase::Generating => true,
                    _ => false,
                };
                if !wanted {
                    self.active = Some(Active { number, turn, partial });
                    return None;
                }
                partial.append(frag);
                self.active = Some(Active { number, turn, partial });
                let mut out: Vec<String> = Vec::new();
                out.push(turn::observe(&SseObserver, &Notice::Token(frag.to_owned())));
                let m = Move { frames: out, work: None };
                proof {
                    let expected = streamed(r, frag@)->0;
                    assert(self@ =~= expected.record);
                    assert(text::texts(m.frames@) =~= expected.frames);
                }
                Some(m)
            },
        }
    }

    /// Stops the turn.
    pub fn cancel(&mut self) -> (m: Move)
        requires
            old(self)@.active is Some,
        ensures
            seen(final(self)@, m) == canceled(old(self)@),
    {
        let ghost r = self@;
        let mut out: Vec<String> = Vec::new();
        if let Some(active) = self.active.take() {
            if !active.partial.as_str().is_empty() {
                self.session.say(Role::Assistant, active.partial.as_str());
                out.push(message_frame_of(Role::Assistant, active.partial.as_str()));
            }
        }
        out.push(frames::state_frame_of("canceled"));
        out.push(frames::state_frame_of("idle"));
        let m = Move { frames: out, work: None };
        proof {
            let expected = canceled(r);
            assert(self@ =~= expected.record);
            assert(text::texts(m.frames@) =~= expected.frames);
        }
        m
    }
}

/// Whatever the model is told has joined the conversation.
proof fn lemma_told_history(r: RecordView, e: EventView)
    ensures
        driven(r, e) matches Some(p) ==> (p.step.told is Some ==> p.history.len() > 0),
{
}

} // verus!
