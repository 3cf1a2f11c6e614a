//! The seams of the turn loop.
//!
//! [`TurnObserver`] renders whatever the loop has to show; [`StdoutObserver`]
//! renders it for a terminal. [`CommandApprover`] is the single decision point
//! between a command that was asked for and one that runs; [`AutoApprover`]
//! approves every one.

use crate::text;
use crate::tool::{CommandRequest, RequestView};
use vstd::prelude::*;

verus! {

// ---------------------------------------------------------------------------
// Approval
// ---------------------------------------------------------------------------

/// What is decided about a command.
#[derive(Debug)]
pub enum Decision {
    Approve,
    /// The reason is handed to the model.
    Deny { reason: String },
}

/// What is decided about a command.
#[verifier::ext_equal]
pub enum DecisionView {
    Approve,
    Deny { reason: Seq<char> },
}

impl View for Decision {
    type V = DecisionView;

    open spec fn view(&self) -> DecisionView {
        match self {
            Decision::Approve => DecisionView::Approve,
            Decision::Deny { reason } => DecisionView::Deny { reason: reason@ },
        }
    }
}

/// Decides whether a command may run. It only gates the command; the loop stays
/// the one point where commands run.
pub trait CommandApprover {
    /// What this approver decides about a request.
    spec fn decides(&self, request: RequestView) -> DecisionView;

    /// Decides about a request.
    fn decide(&self, req: &CommandRequest) -> (d: Decision)
        ensures
            d@ == self.decides(req@),
    ;
}

/// Approves every command.
pub struct AutoApprover;

impl CommandApprover for AutoApprover {
    open spec fn decides(&self, request: RequestView) -> DecisionView {
        DecisionView::Approve
    }

    fn decide(&self, req: &CommandRequest) -> (d: Decision) {
        Decision::Approve
    }
}

// ---------------------------------------------------------------------------
// Observation
// ---------------------------------------------------------------------------

/// Something that the loop has to show.
#[derive(Debug)]
pub enum Notice {
    /// A fragment of the answer.
    Token(String),
    /// A reminder that applies, trimmed.
    Reminder(String),
    /// The answer is complete.
    ResponseEnd,
    /// The payload of a command that is about to run.
    CommandPayload(String),
    /// The command that is about to run.
    CommandExecuting { binary: String, args: Vec<String> },
    /// What a command wrote to its standard output, where that is not empty.
    CommandStdout(String),
    /// What a command wrote to its standard error, where that is not empty.
    CommandStderr(String),
    /// The result of a command that ran, as it is handed to the model.
    CommandResult(String),
}

/// Something that the loop has to show.
#[verifier::ext_equal]
pub enum NoticeView {
    Token(Seq<char>),
    Reminder(Seq<char>),
    ResponseEnd,
    CommandPayload(Seq<char>),
    CommandExecuting { binary: Seq<char>, args: Seq<Seq<char>> },
    CommandStdout(Seq<char>),
    CommandStderr(Seq<char>),
    CommandResult(Seq<char>),
}

impl View for Notice {
    type V = NoticeView;

    open spec fn view(&self) -> NoticeView {
        match self {
            Notice::Token(s) => NoticeView::Token(s@),
            Notice::Reminder(s) => NoticeView::Reminder(s@),
            Notice::ResponseEnd => NoticeView::ResponseEnd,
            Notice::CommandPayload(s) => NoticeView::CommandPayload(s@),
            Notice::CommandExecuting { binary, args } => NoticeView::CommandExecuting {
                binary: binary@,
                args: text::texts(args@),
            },
            Notice::CommandStdout(s) => NoticeView::CommandStdout(s@),
            Notice::CommandStderr(s) => NoticeView::CommandStderr(s@),
            Notice::CommandResult(s) => NoticeView::CommandResult(s@),
        }
    }
}

/// What a list of notices says.
pub open spec fn notice_views(notices: Seq<Notice>) -> Seq<NoticeView> {
    Seq::new(notices.len(), |i: int| notices[i]@)
}

/// Renders what the loop has to show. Each method gives the text that is to be
/// written where the observer's readers look.
pub trait TurnObserver {
    /// What this observer writes for a notice.
    spec fn writes(&self, notice: NoticeView) -> Seq<char>;

    /// A fragment of the answer.
    fn token(&self, frag: &str) -> (r: String)
        ensures
            r@ == self.writes(NoticeView::Token(frag@)),
    ;

    /// A reminder that applies, trimmed.
    fn reminder(&self, text: &str) -> (r: String)
        ensures
            r@ == self.writes(NoticeView::Reminder(text@)),
    ;

    /// The end of an answer.
    fn response_end(&self) -> (r: String)
        ensures
            r@ == self.writes(NoticeView::ResponseEnd),
    ;

    /// The payload of a command that is about to run.
    fn command_payload(&self, json: &str) -> (r: String)
        ensures
            r@ == self.writes(NoticeView::CommandPayload(json@)),
    ;

    /// The command that is about to run.
    fn command_executing(&self, binary: &str, args: &Vec<String>) -> (r: String)
        ensures
            r@ == self.writes(
                NoticeView::CommandExecuting { binary: binary@, args: text::texts(args@) },
            ),
    ;

    /// What a command wrote to its standard output.
    fn command_stdout(&self, s: &str) -> (r: String)
        ensures
            r@ == self.writes(NoticeView::CommandStdout(s@)),
    ;

    /// What a command wrote to its standard error.
    fn command_stderr(&self, s: &str) -> (r: String)
        ensures
            r@ == self.writes(NoticeView::CommandStderr(s@)),
    ;

    /// The result of a command that ran.
    fn command_result(&self, json: &str) -> (r: String)
        ensures
            r@ == self.writes(NoticeView::CommandResult(json@)),
    ;
}

/// What `observer` writes for `notice`.
pub fn observe<O: TurnObserver>(observer: &O, notice: &Notice) -> (r: String)
    ensures
        r@ == observer.writes(notice@),
{
    match notice {
        Notice::Token(s) => observer.token(s.as_str()),
        Notice::Reminder(s) => observer.reminder(s.as_str()),
        Notice::ResponseEnd => observer.response_end(),
        Notice::CommandPayload(s) => observer.command_payload(s.as_str()),
        Notice::CommandExecuting { binary, args } => observer.command_executing(
            binary.as_str(),
            args,
        ),
        Notice::CommandStdout(s) => observer.command_stdout(s.as_str()),
        Notice::CommandStderr(s) => observer.command_stderr(s.as_str()),
        Notice::CommandResult(s) => observer.command_result(s.as_str()),
    }
}

/// The terminal: fragments as they come, everything else on lines of its own.
pub struct StdoutObserver;

/// What a terminal shows for a notice.
pub open spec fn terminal_text(notice: NoticeView) -> Seq<char> {
    match notice {
        NoticeView::Token(frag) => frag,
        NoticeView::Reminder(t) => "[Reminder: "@ + t + "]\n"@,
        NoticeView::ResponseEnd => "\n"@,
        NoticeView::CommandPayload(json) => "[Payload: "@ + json + "]\n"@,
        NoticeView::CommandExecuting { binary, args } => "[Executing: "@ + binary + " "@ + text::join(
            args,
            " "@,
        ) + "]\n"@,
        NoticeView::CommandStdout(s) => "STDOUT:\n"@ + s + "\n"@,
        NoticeView::CommandStderr(s) => "STDERR:\n"@ + s + "\n"@,
        NoticeView::CommandResult(json) => "[Result: "@ + json + "]\n"@,
    }
}

impl TurnObserver for StdoutObserver {
    open spec fn writes(&self, notice: NoticeView) -> Seq<char> {
        terminal_text(notice)
    }

    fn token(&self, frag: &str) -> (r: String) {
        frag.to_owned()
    }

    fn reminder(&self, text: &str) -> (r: String) {
        crate::text::concat3("[Reminder: ", text, "]\n")
    }

    fn response_end(&self) -> (r: String) {
        "\n".to_owned()
    }

    fn command_payload(&self, json: &str) -> (r: String) {
        text::concat3("[Payload: ", json, "]\n")
    }

    fn command_executing(&self, binary: &str, args: &Vec<String>) -> (r: String) {
        let mut out = text::concat3("[Executing: ", binary, " ");
        out.append(text::join_of(args, " ").as_str());
        out.append("]\n");
        out
    }

    fn command_stdout(&self, s: &str) -> (r: String) {
        text::concat3("STDOUT:\n", s, "\n")
    }

    fn command_stderr(&self, s: &str) -> (r: String) {
        text::concat3("STDERR:\n", s, "\n")
    }

    fn command_result(&self, json: &str) -> (r: String) {
        text::concat3("[Result: ", json, "]\n")
    }
}

// ---------------------------------------------------------------------------
// Laws
// ---------------------------------------------------------------------------

/// A terminal shows the fragments of an answer as they are, and everything else on
/// lines of its own, whole, under a heading that says what it is.
pub proof fn law_what_a_terminal_shows(
    s: Seq<char>,
    first: Seq<char>,
    args: Seq<Seq<char>>,
    last: Seq<char>,
)
    ensures
        terminal_text(NoticeView::Token(s)) == s,
        terminal_text(NoticeView::Reminder(s)) == "[Reminder: "@ + s + "]\n"@,
        terminal_text(NoticeView::ResponseEnd) == "\n"@,
        terminal_text(NoticeView::CommandPayload(s)) == "[Payload: "@ + s + "]\n"@,
        terminal_text(NoticeView::CommandStdout(s)) == "STDOUT:\n"@ + s + "\n"@,
        terminal_text(NoticeView::CommandStderr(s)) == "STDERR:\n"@ + s + "\n"@,
        terminal_text(NoticeView::CommandResult(s)) == "[Result: "@ + s + "]\n"@,
        terminal_text(NoticeView::CommandExecuting { binary: s, args: seq![first] })
            == "[Executing: "@ + s + " "@ + first + "]\n"@,
        terminal_text(NoticeView::CommandExecuting { binary: s, args: Seq::empty() })
            == "[Executing: "@ + s + " "@ + "]\n"@,
        args.len() > 0 ==> terminal_text(
            NoticeView::CommandExecuting { binary: s, args: args.push(last) },
        ) == "[Executing: "@ + s + " "@ + text::join(args, " "@) + " "@ + last + "]\n"@,
{
    let none = Seq::<Seq<char>>::empty();
    assert("[Executing: "@ + s + " "@ + text::join(none, " "@) + "]\n"@ =~= "[Executing: "@ + s
        + " "@ + "]\n"@);
    assert(args.push(last).drop_last() =~= args);
    if args.len() > 0 {
        assert(text::join(args.push(last), " "@) == text::join(args, " "@) + " "@ + last);
        assert("[Executing: "@ + s + " "@ + (text::join(args, " "@) + " "@ + last) + "]\n"@
            =~= "[Executing: "@ + s + " "@ + text::join(args, " "@) + " "@ + last + "]\n"@);
    }
}

/// Whoever renders what the loop shows, a terminal shows what [`terminal_text`] says, and
/// the terminal's approver approves every request.
pub proof fn law_the_terminal(o: StdoutObserver, a: AutoApprover, n: NoticeView, r: RequestView)
    ensures
        o.writes(n) == terminal_text(n),
        a.decides(r) is Approve,
{
}

} // verus!
