//! The locally installed, already authenticated command-line program of Anthropic,
//! in print mode.
//!
//! It is used purely as a text-completion engine. Its built-in tools are removed
//! (`--tools ""`), so it cannot execute anything itself, and a system prompt is
//! always given, so that its own agent prompt is replaced by one that points to
//! the plain-text command protocol. The turn loop stays the single point where
//! commands are approved and run, as for every other backend.

use crate::backend;
use crate::backend::{
    Backend, ChatCall, ChatView, Entry, Message, ModelInfo, ModelView, ModelsCall, ModelsView,
    ProcessCall, ProcessView, Role,
};
use crate::stream;
use crate::stream::Framing;
use crate::text;
use vstd::prelude::*;

verus! {

/// What the model is told about its situation in front of any other prompt.
pub const AGENTIC_SYSTEM: &'static str =
    "You are a plain-text assistant. You have no tools of your own and cannot execute anything yourself. If you need a command to be run, ask for it by writing one line of the form !!!OCHA_RUN_CMD{\"binary\": \"ls\", \"args\": [\"-la\"], \"timeout\": 5, \"description\": \"Listing files\"} and stop. The operator decides whether it runs, and the next message holds its result as JSON. If no command is needed, just answer.";

/// The program, the family of models that it serves, and the model to ask it for.
pub struct ClaudeCliBackend {
    family: String,
    binary: String,
    model: Option<String>,
}

/// What the backend was set up with.
#[verifier::ext_equal]
pub struct ClaudeCliView {
    pub family: Seq<char>,
    pub binary: Seq<char>,
    pub model: Option<Seq<char>>,
}

impl View for ClaudeCliBackend {
    type V = ClaudeCliView;

    closed spec fn view(&self) -> ClaudeCliView {
        ClaudeCliView {
            family: self.family@,
            binary: self.binary@,
            model: text::opt_text(self.model),
        }
    }
}

/// What stands in front of a turn of this speaker.
pub open spec fn label(role: Role) -> Seq<char> {
    match role {
        Role::System => Seq::empty(),
        Role::User => "User: "@,
        Role::Assistant => "Assistant: "@,
        Role::Tool => "Tool result: "@,
    }
}

/// A turn with its speaker in front.
pub open spec fn labelled() -> spec_fn(Entry) -> Seq<char> {
    |e: Entry| label(e.role) + e.content
}

/// The turns of the dialogue as one text, with a blank line between each two.
pub open spec fn prompt_of(history: Seq<Entry>) -> Seq<char> {
    text::join(backend::dialogue(history).map_values(labelled()), "\n\n"@)
}

/// The system prompt that is given: always the preamble, and then whatever the
/// system says.
pub open spec fn full_system(system: Option<Seq<char>>) -> Seq<char> {
    match system {
        Some(s) => AGENTIC_SYSTEM@ + "\n\n"@ + s,
        None => AGENTIC_SYSTEM@,
    }
}

/// The arguments of the program.
pub open spec fn arguments(model: Option<Seq<char>>, system: Option<Seq<char>>) -> Seq<Seq<char>> {
    let fixed = seq![
        "-p"@,
        "--output-format"@,
        "stream-json"@,
        "--include-partial-messages"@,
        "--verbose"@,
        "--no-session-persistence"@,
        "--tools"@,
        ""@,
        "--system-prompt"@,
        full_system(system),
    ];
    match model {
        Some(m) => fixed + seq!["--model"@, m],
        None => fixed,
    }
}

/// What the system says is merged, as for the Messages API; the other turns
/// become one text in which each names its speaker.
pub fn flatten(system: Option<&str>, messages: &[Message]) -> (r: (Option<String>, String))
    ensures
        text::opt_text(r.0) == backend::merged_system(
            text::opt_str(system),
            backend::entries(messages@),
        ),
        r.1@ == prompt_of(backend::entries(messages@)),
{
    let ghost history = backend::entries(messages@);
    let mut turns: Vec<String> = Vec::new();
    let mut i: usize = 0;
    proof {
        reveal(Seq::filter);
        assert(backend::dialogue(history.take(0)) =~= Seq::<Entry>::empty());
        assert(text::texts(turns@) =~= backend::dialogue(history.take(0)).map_values(labelled()));
    }
    while i < messages.len()
        invariant
            i <= messages.len(),
            history == backend::entries(messages@),
            text::texts(turns@) == backend::dialogue(history.take(i as int)).map_values(labelled()),
        decreases messages.len() - i,
    {
        proof {
            backend::lemma_filter_take(history, i as int, backend::from_dialogue());
        }
        let ghost kept = backend::dialogue(history.take(i as int));
        let ghost before = turns@;
        let said = messages[i].content.as_str();
        match messages[i].role {
            Role::System => {},
            Role::User => turns.push(text::concat2("User: ", said)),
            Role::Assistant => turns.push(text::concat2("Assistant: ", said)),
            Role::Tool => turns.push(text::concat2("Tool result: ", said)),
        }
        proof {
            let e = history[i as int];
            if e.role != Role::System {
                text::lemma_texts_push(before, turns@.last());
                assert(kept.push(e).map_values(labelled()) =~= kept.map_values(labelled()).push(
                    labelled()(e),
                ));
            }
        }
        i += 1;
    }
    proof {
        assert(history.take(messages.len() as int) =~= history);
    }
    (backend::merge_system(system, messages), text::join_of(&turns, "\n\n"))
}

impl ClaudeCliBackend {
    /// The program `binary`, which serves the models of `family`, asked for `model`
    /// where one is given.
    pub fn new(family: String, binary: String, model: Option<String>) -> (b: ClaudeCliBackend)
        ensures
            b@ == (ClaudeCliView {
                family: family@,
                binary: binary@,
                model: text::opt_text(model),
            }),
    {
        ClaudeCliBackend { family, binary, model }
    }

    /// The arguments of the program.
    fn args(&self, system: &Option<String>) -> (args: Vec<String>)
        ensures
            text::texts(args@) == arguments(self@.model, text::opt_text(*system)),
    {
        let prompt = match system {
            Some(s) => text::concat3(AGENTIC_SYSTEM, "\n\n", s.as_str()),
            None => AGENTIC_SYSTEM.to_owned(),
        };
        let mut args: Vec<String> = Vec::new();
        args.push("-p".to_owned());
        args.push("--output-format".to_owned());
        args.push("stream-json".to_owned());
        args.push("--include-partial-messages".to_owned());
        args.push("--verbose".to_owned());
        args.push("--no-session-persistence".to_owned());
        args.push("--tools".to_owned());
        args.push("".to_owned());
        args.push("--system-prompt".to_owned());
        args.push(prompt);
        if let Some(m) = &self.model {
            args.push("--model".to_owned());
            args.push(m.clone());
        }
        proof {
            assert(text::texts(args@) =~= arguments(self@.model, text::opt_text(*system)));
        }
        args
    }
}

/// The names that the program understands for models.
pub open spec fn models_known(b: ClaudeCliView) -> ModelsView {
    let detail = alias_detail(b.family);
    ModelsView::Known(
        seq![
            ModelView { name: "opus"@, detail },
            ModelView { name: "sonnet"@, detail },
            ModelView { name: "haiku"@, detail },
        ],
    )
}

impl Backend for ClaudeCliBackend {
    open spec fn chat_sends(&self, system: Option<Seq<char>>, history: Seq<Entry>) -> ChatView {
        ChatView::Process(
            ProcessView {
                binary: self@.binary,
                args: arguments(self@.model, backend::merged_system(system, history)),
                stdin: prompt_of(history),
            },
        )
    }

    open spec fn models_sends(&self) -> ModelsView {
        models_known(self@)
    }

    fn chat(&self, system: Option<&str>, messages: &[Message]) -> (c: ChatCall) {
        let (system, prompt) = flatten(system, messages);
        ChatCall::Process(
            ProcessCall { binary: self.binary.clone(), args: self.args(&system), stdin: prompt },
        )
    }

    fn list_models(&self) -> (c: ModelsCall) {
        let mut models: Vec<ModelInfo> = Vec::new();
        models.push(alias(self.family.as_str(), "opus"));
        models.push(alias(self.family.as_str(), "sonnet"));
        models.push(alias(self.family.as_str(), "haiku"));
        proof {
            let detail = alias_detail(self@.family);
            assert(backend::model_views(models@) =~= seq![
                ModelView { name: "opus"@, detail },
                ModelView { name: "sonnet"@, detail },
                ModelView { name: "haiku"@, detail },
            ]);
        }
        ModelsCall::Known(models)
    }
}

/// What is said of a name that the program understands for a model.
pub open spec fn alias_detail(family: Seq<char>) -> Seq<char> {
    family + " CLI alias (--model)"@
}

/// A name that the program understands for a model.
fn alias(family: &str, name: &str) -> (m: ModelInfo)
    ensures
        m@ == (ModelView { name: name@, detail: alias_detail(family@) }),
{
    ModelInfo { name: name.to_owned(), detail: text::concat2(family, " CLI alias (--model)") }
}

/// What is reported when the program, which belongs to `product`, cannot be started.
pub fn spawn_error(product: &str, binary: &str, reason: &str) -> (r: String)
    ensures
        r@ == "failed to spawn `"@ + binary@ + "`: "@ + reason@ + " (is the "@ + product@
            + " CLI installed and on PATH?)"@,
{
    let mut out = text::concat3("failed to spawn `", binary, "`: ");
    out.append(reason);
    out.append(" (is the ");
    out.append(product);
    out.append(" CLI installed and on PATH?)");
    out
}

// ---------------------------------------------------------------------------
// The stream of an answer
// ---------------------------------------------------------------------------

/// The part of an answer that an inner event carries.
#[derive(Debug)]
pub struct Delta {
    pub kind: String,
    pub text: Option<String>,
}

/// An event of the model, passed on by the program.
#[derive(Debug)]
pub struct InnerEvent {
    pub kind: String,
    pub delta: Option<Delta>,
}

/// One line of the program's output, as far as it matters.
#[derive(Debug)]
pub struct StreamLine {
    pub kind: String,
    pub event: Option<InnerEvent>,
    pub result: Option<String>,
    pub is_error: Option<bool>,
    pub subtype: Option<String>,
}

/// The fragment of the answer that a line brings, if any.
pub open spec fn line_brings(l: StreamLine) -> Option<Seq<char>> {
    if l.kind@ == "stream_event"@ {
        match l.event {
            Some(InnerEvent { kind, delta: Some(Delta { kind: inner, text: Some(t) }) }) => {
                if kind@ == "content_block_delta"@ && inner@ == "text_delta"@ && t@.len() > 0 {
                    Some(t@)
                } else {
                    None
                }
            },
            _ => None,
        }
    } else {
        None
    }
}

/// The line that sums the run up.
pub open spec fn is_summary(l: StreamLine) -> bool {
    l.kind@ == "result"@
}

/// Whether the line that sums the run up reports a failure.
pub open spec fn is_failure(l: StreamLine) -> bool {
    is_summary(l) && l.is_error == Some(true)
}

/// What a failed run says of itself.
pub open spec fn failure(l: StreamLine) -> Seq<char> {
    match l.result {
        Some(r) => r@,
        None => match l.subtype {
            Some(s) => s@,
            None => "unknown error"@,
        },
    }
}

/// What has been read of the program's output.
pub struct CliAnswer {
    streamed: String,
    result: Option<String>,
    error: Option<String>,
}

/// What has been read: the fragments put together, the last result that was
/// announced, and the last error.
#[verifier::ext_equal]
pub struct CliAnswerView {
    pub streamed: Seq<char>,
    pub result: Option<Seq<char>>,
    pub error: Option<Seq<char>>,
}

impl View for CliAnswer {
    type V = CliAnswerView;

    closed spec fn view(&self) -> CliAnswerView {
        CliAnswerView {
            streamed: self.streamed@,
            result: text::opt_text(self.result),
            error: text::opt_text(self.error),
        }
    }
}

/// What has been read once this line has been read too.
pub open spec fn with_line(a: CliAnswerView, l: StreamLine) -> CliAnswerView {
    CliAnswerView {
        streamed: match line_brings(l) {
            Some(t) => a.streamed + t,
            None => a.streamed,
        },
        result: if is_summary(l) && !is_failure(l) && l.result is Some {
            Some(l.result->0@)
        } else {
            a.result
        },
        error: if is_failure(l) {
            Some(failure(l))
        } else {
            a.error
        },
    }
}

/// What has been read once one more line has been, which stands for `said` or for
/// nothing.
pub open spec fn read_on(a: CliAnswerView, said: Option<StreamLine>) -> CliAnswerView {
    match said {
        Some(l) => with_line(a, l),
        None => a,
    }
}

/// The fragment that is shown of a line which stands for `said` or for nothing.
pub open spec fn shows(said: Option<StreamLine>) -> Option<Seq<char>> {
    match said {
        Some(l) => line_brings(l),
        None => None,
    }
}

/// What the turn comes to: an announced error first, then a failed exit. The
/// announced result is authoritative; the fragments stand in where there is none.
pub open spec fn outcome(
    family: Seq<char>,
    a: CliAnswerView,
    success: bool,
    status: Seq<char>,
    stderr: Seq<char>,
) -> Result<Seq<char>, Seq<char>> {
    match a.error {
        Some(e) => Err(family + " CLI error: "@ + e),
        None => if !success {
            Err(family + " CLI exited with "@ + status + ": "@ + text::trim(stderr))
        } else {
            match a.result {
                Some(r) => Ok(r),
                None => Ok(a.streamed),
            }
        },
    }
}

/// The part of a line of output that is to be decoded; blank lines have none.
pub fn line_to_decode(line: &str) -> (r: Option<String>)
    ensures
        text::opt_text(r) == (if text::trim(line@).len() == 0 {
            None
        } else {
            Some(text::trim(line@))
        }),
{
    stream::line_payload_of(Framing::Ndjson, line)
}

impl CliAnswer {
    /// Nothing has been read.
    pub fn new() -> (a: CliAnswer)
        ensures
            a@ == unread(),
    {
        let a = CliAnswer { streamed: String::new(), result: None, error: None };
        proof {
            assert(a@ =~= unread());
        }
        a
    }

    /// Reads one line of output, which was decoded to `said` or stands for nothing: the
    /// fragment to show, if it brings one.
    pub fn take_line(&mut self, said: Option<StreamLine>) -> (r: Option<String>)
        ensures
            text::opt_text(r) == shows(said),
            final(self)@ == read_on(old(self)@, said),
    {
        match said {
            Some(line) => self.accept(line),
            None => None,
        }
    }

    /// Takes one line in: the fragment to show, if it brings one.
    fn accept(&mut self, line: StreamLine) -> (r: Option<String>)
        ensures
            text::opt_text(r) == line_brings(line),
            final(self)@ == with_line(old(self)@, line),
    {
        let is_event = text::same_text(line.kind.as_str(), "stream_event");
        proof {
            reveal_strlit("stream_event");
            reveal_strlit("result");
            assert("stream_event"@.len() == 12 && "result"@.len() == 6);
        }
        if is_event {
            match line.event {
                Some(InnerEvent { kind, delta: Some(Delta { kind: inner, text: Some(t) }) }) => {
                    if text::same_text(kind.as_str(), "content_block_delta") && text::same_text(
                        inner.as_str(),
                        "text_delta",
                    ) && !t.as_str().is_empty() {
                        self.streamed.append(t.as_str());
                        return Some(t);
                    }
                    return None;
                },
                _ => {
                    return None;
                },
            }
        }
        if text::same_text(line.kind.as_str(), "result") {
            let failed = match line.is_error {
                Some(b) => b,
                None => false,
            };
            if failed {
                self.error = Some(
                    match line.result {
                        Some(r) => r,
                        None => match line.subtype {
                            Some(s) => s,
                            None => "unknown error".to_owned(),
                        },
                    },
                );
            } else if line.result.is_some() {
                self.result = line.result;
            }
        }
        None
    }

    /// What the turn comes to, when the program that serves `family` has ended.
    pub fn finish(self, family: &str, success: bool, status: &str, stderr: &str) -> (r: Result<
        String,
        String,
    >)
        ensures
            match r {
                Ok(s) => outcome(family@, self@, success, status@, stderr@) == Ok::<
                    Seq<char>,
                    Seq<char>,
                >(s@),
                Err(e) => outcome(family@, self@, success, status@, stderr@) == Err::<
                    Seq<char>,
                    Seq<char>,
                >(e@),
            },
    {
        if let Some(e) = self.error {
            return Err(text::concat3(family, " CLI error: ", e.as_str()));
        }
        if !success {
            let mut m = text::concat3(family, " CLI exited with ", status);
            m.append(": ");
            m.append(text::trim_of(stderr));
            return Err(m);
        }
        match self.result {
            Some(r) => Ok(r),
            None => Ok(self.streamed),
        }
    }
}

// ---------------------------------------------------------------------------
// Laws
// ---------------------------------------------------------------------------

/// The program never gets tools, and its own agent prompt is always replaced:
/// whatever the history and the prompts, `--tools` is followed by nothing and
/// `--system-prompt` by a text that starts with the preamble.
pub proof fn law_tools_are_always_removed(
    b: ClaudeCliBackend,
    system: Option<Seq<char>>,
    history: Seq<Entry>,
)
    ensures
        b.chat_sends(system, history) matches ChatView::Process(p) && p.args.len() >= 10
            && p.args[6] == "--tools"@ && p.args[7] == ""@ && p.args[8] == "--system-prompt"@
            && AGENTIC_SYSTEM@.is_prefix_of(p.args[9]),
{
    let full = full_system(backend::merged_system(system, history));
    assert(full.take(AGENTIC_SYSTEM@.len() as int) =~= AGENTIC_SYSTEM@);
}

/// Nothing has been read of the program's output.
pub open spec fn unread() -> CliAnswerView {
    CliAnswerView { streamed: Seq::empty(), result: None, error: None }
}

/// What a line of output says, where `decode` says what a text that is not blank
/// stands for. A line that stands for nothing is passed over.
pub open spec fn line_says(
    line: Seq<char>,
    decode: spec_fn(Seq<char>) -> Option<StreamLine>,
) -> Option<StreamLine> {
    if text::trim(line).len() == 0 {
        None
    } else {
        decode(text::trim(line))
    }
}

/// What has been read once all these lines of output have been.
pub open spec fn output_read(
    output: Seq<Seq<char>>,
    decode: spec_fn(Seq<char>) -> Option<StreamLine>,
) -> CliAnswerView
    decreases output.len(),
{
    if output.len() == 0 {
        unread()
    } else {
        read_on(output_read(output.drop_last(), decode), line_says(output.last(), decode))
    }
}

/// The fragments that are shown of all these lines of output, in their order.
pub open spec fn output_shown(
    output: Seq<Seq<char>>,
    decode: spec_fn(Seq<char>) -> Option<StreamLine>,
) -> Seq<Seq<char>>
    decreases output.len(),
{
    if output.len() == 0 {
        Seq::empty()
    } else {
        let before = output_shown(output.drop_last(), decode);
        match shows(line_says(output.last(), decode)) {
            Some(t) => before.push(t),
            None => before,
        }
    }
}

/// Whether a line of output is an event of the model or the one that sums the run up.
pub open spec fn counts(decode: spec_fn(Seq<char>) -> Option<StreamLine>) -> spec_fn(Seq<char>) -> bool {
    |line: Seq<char>|
        match line_says(line, decode) {
            Some(l) => l.kind@ == "stream_event"@ || is_summary(l),
            None => false,
        }
}

/// Reading one more line of output is one step: where `said` is what the line stands
/// for, [`CliAnswer::take_line`] leads from what was read before to what has been read
/// then, and shows what is shown then.
pub proof fn law_output_is_read_line_by_line(
    output: Seq<Seq<char>>,
    line: Seq<char>,
    decode: spec_fn(Seq<char>) -> Option<StreamLine>,
)
    ensures
        output_read(Seq::empty(), decode) == unread(),
        output_shown(Seq::empty(), decode) == Seq::<Seq<char>>::empty(),
        output_read(output.push(line), decode) == read_on(
            output_read(output, decode),
            line_says(line, decode),
        ),
        output_shown(output.push(line), decode) == match shows(line_says(line, decode)) {
            Some(t) => output_shown(output, decode).push(t),
            None => output_shown(output, decode),
        },
{
    assert(output.push(line).drop_last() =~= output);
}

/// Lines that do not count can be left out.
proof fn lemma_left_out(
    output: Seq<Seq<char>>,
    decode: spec_fn(Seq<char>) -> Option<StreamLine>,
)
    ensures
        output_read(output, decode) == output_read(output.filter(counts(decode)), decode),
        output_shown(output, decode) == output_shown(output.filter(counts(decode)), decode),
    decreases output.len(),
{
    reveal(Seq::filter);
    if output.len() > 0 {
        let kept = output.drop_last().filter(counts(decode));
        lemma_left_out(output.drop_last(), decode);
        if counts(decode)(output.last()) {
            assert(kept.push(output.last()).drop_last() =~= kept);
        }
    }
}

/// Lines of other kinds say nothing. Two outputs that differ only in blank lines, in
/// lines that stand for nothing, and in lines that are neither events of the model
/// nor sum the run up, show the same fragments in the same order and come to the
/// same, however the program ends.
pub proof fn law_other_lines_say_nothing(
    a: Seq<Seq<char>>,
    b: Seq<Seq<char>>,
    decode: spec_fn(Seq<char>) -> Option<StreamLine>,
    family: Seq<char>,
    success: bool,
    status: Seq<char>,
    stderr: Seq<char>,
)
    requires
        a.filter(counts(decode)) == b.filter(counts(decode)),
    ensures
        output_shown(a, decode) == output_shown(b, decode),
        outcome(family, output_read(a, decode), success, status, stderr) == outcome(
            family,
            output_read(b, decode),
            success,
            status,
            stderr,
        ),
{
    lemma_left_out(a, decode);
    lemma_left_out(b, decode);
}

/// Whether a line is an event of the model that adds the text `t` to the answer.
pub open spec fn adds_text(l: StreamLine, t: Seq<char>) -> bool {
    &&& l.kind@ == "stream_event"@
    &&& l.event matches Some(e)
    &&& e.kind@ == "content_block_delta"@
    &&& e.delta matches Some(d)
    &&& d.kind@ == "text_delta"@
    &&& d.text matches Some(x)
    &&& x@ == t
    &&& t.len() > 0
}

/// Only the text of the answer is shown: a line shows something exactly when it is an
/// event that adds text, and then that text. Whatever else the model emits, such as
/// its thoughts, is not passed on.
pub proof fn law_only_text_is_shown(l: StreamLine, t: Seq<char>)
    ensures
        line_brings(l) == Some(t) <==> adds_text(l, t),
{
}

// ---------------------------------------------------------------------------
// What each line does, and what a run comes to
// ---------------------------------------------------------------------------

/// A line that sums the run up is an error exactly when it says that it is one, and
/// then its result, or else its subtype, tells what went wrong. Any other one announces
/// its result, if it has one, and touches no error.
pub proof fn law_a_summary_is_an_error_when_it_says_so(a: CliAnswerView, l: StreamLine)
    requires
        l.kind@ == "result"@,
    ensures
        with_line(a, l).streamed == a.streamed,
        l.is_error == Some(true) ==> with_line(a, l).result == a.result && with_line(a, l).error
            == Some(
            if l.result is Some {
                l.result->0@
            } else if l.subtype is Some {
                l.subtype->0@
            } else {
                "unknown error"@
            },
        ),
        l.is_error != Some(true) ==> with_line(a, l).error == a.error && with_line(a, l).result
            == if l.result is Some {
            Some(l.result->0@)
        } else {
            a.result
        },
        line_brings(l) is None,
{
    reveal_strlit("stream_event");
    reveal_strlit("result");
    assert("stream_event"@.len() == 12 && "result"@.len() == 6);
}

/// A line of any other kind announces neither a result nor an error; an event that adds
/// text puts it behind what was streamed, and no other line changes that.
pub proof fn law_other_lines_announce_nothing(a: CliAnswerView, l: StreamLine, t: Seq<char>)
    requires
        l.kind@ != "result"@,
    ensures
        with_line(a, l).result == a.result,
        with_line(a, l).error == a.error,
        adds_text(l, t) ==> with_line(a, l).streamed == a.streamed + t,
        line_brings(l) is None ==> with_line(a, l).streamed == a.streamed,
        read_on(a, Some(l)) == with_line(a, l),
        read_on(a, None) == a,
        shows(Some(l)) == line_brings(l),
        shows(None) is None,
{
    law_only_text_is_shown(l, t);
}

/// Whether a line of output sums the run up as failed.
pub open spec fn fails(line: Seq<char>, decode: spec_fn(Seq<char>) -> Option<StreamLine>) -> bool {
    &&& text::trim(line).len() > 0
    &&& decode(text::trim(line)) matches Some(l)
    &&& l.kind@ == "result"@
    &&& l.is_error == Some(true)
}

/// Whether a line of output sums the run up, without an error, with the result `r`.
pub open spec fn announces(
    line: Seq<char>,
    decode: spec_fn(Seq<char>) -> Option<StreamLine>,
    r: Seq<char>,
) -> bool {
    &&& text::trim(line).len() > 0
    &&& decode(text::trim(line)) matches Some(l)
    &&& l.kind@ == "result"@
    &&& l.is_error != Some(true)
    &&& l.result matches Some(x)
    &&& x@ == r
}

/// Whether a line of output sums the run up, without an error, with some result.
pub open spec fn announces_some(
    line: Seq<char>,
    decode: spec_fn(Seq<char>) -> Option<StreamLine>,
) -> bool {
    exists|r: Seq<char>| announces(line, decode, r)
}

proof fn lemma_no_error(output: Seq<Seq<char>>, decode: spec_fn(Seq<char>) -> Option<StreamLine>)
    requires
        forall|i: int| 0 <= i < output.len() ==> !fails(#[trigger] output[i], decode),
    ensures
        output_read(output, decode).error is None,
    decreases output.len(),
{
    if output.len() > 0 {
        let front = output.drop_last();
        assert forall|i: int| 0 <= i < front.len() implies !fails(#[trigger] front[i], decode) by {
            assert(front[i] == output[i]);
        }
        lemma_no_error(front, decode);
        assert(!fails(output[output.len() - 1], decode));
    }
}

proof fn lemma_no_result(output: Seq<Seq<char>>, decode: spec_fn(Seq<char>) -> Option<StreamLine>)
    requires
        forall|i: int| 0 <= i < output.len() ==> !announces_some(#[trigger] output[i], decode),
    ensures
        output_read(output, decode).result is None,
    decreases output.len(),
{
    if output.len() > 0 {
        let front = output.drop_last();
        assert forall|i: int| 0 <= i < front.len() implies !announces_some(
            #[trigger] front[i],
            decode,
        ) by {
            assert(front[i] == output[i]);
        }
        lemma_no_result(front, decode);
        let last = output[output.len() - 1];
        assert(!announces_some(last, decode));
        match line_says(last, decode) {
            Some(l) => {
                if is_summary(l) && !is_failure(l) && l.result is Some {
                    assert(announces(last, decode, l.result->0@));
                }
            },
            None => {},
        }
    }
}

proof fn lemma_last_result(
    output: Seq<Seq<char>>,
    decode: spec_fn(Seq<char>) -> Option<StreamLine>,
    k: int,
    r: Seq<char>,
)
    requires
        0 <= k < output.len(),
        announces(output[k], decode, r),
        forall|i: int| k < i < output.len() ==> !announces_some(#[trigger] output[i], decode),
    ensures
        output_read(output, decode).result == Some(r),
    decreases output.len(),
{
    let last = output[output.len() - 1];
    if k < output.len() - 1 {
        let front = output.drop_last();
        assert forall|i: int| k < i < front.len() implies !announces_some(
            #[trigger] front[i],
            decode,
        ) by {
            assert(front[i] == output[i]);
        }
        lemma_last_result(front, decode, k, r);
        assert(!announces_some(last, decode));
        match line_says(last, decode) {
            Some(l) => {
                if is_summary(l) && !is_failure(l) && l.result is Some {
                    assert(announces(last, decode, l.result->0@));
                }
            },
            None => {},
        }
    }
}

/// A run that ends well, and of which no line says that it failed, comes to the last
/// result that was announced.
pub proof fn law_a_run_comes_to_its_last_result(
    output: Seq<Seq<char>>,
    decode: spec_fn(Seq<char>) -> Option<StreamLine>,
    k: int,
    r: Seq<char>,
    family: Seq<char>,
    status: Seq<char>,
    stderr: Seq<char>,
)
    requires
        forall|i: int| 0 <= i < output.len() ==> !fails(#[trigger] output[i], decode),
        0 <= k < output.len(),
        announces(output[k], decode, r),
        forall|i: int| k < i < output.len() ==> !announces_some(#[trigger] output[i], decode),
    ensures
        outcome(family, output_read(output, decode), true, status, stderr) == Ok::<
            Seq<char>,
            Seq<char>,
        >(r),
{
    lemma_no_error(output, decode);
    lemma_last_result(output, decode, k, r);
}

/// What was streamed is what was shown, put together.
proof fn lemma_streamed(output: Seq<Seq<char>>, decode: spec_fn(Seq<char>) -> Option<StreamLine>)
    ensures
        output_read(output, decode).streamed == text::join(
            output_shown(output, decode),
            Seq::empty(),
        ),
    decreases output.len(),
{
    if output.len() > 0 {
        lemma_streamed(output.drop_last(), decode);
        let before = output_shown(output.drop_last(), decode);
        match shows(line_says(output.last(), decode)) {
            Some(t) => {
                assert(before.push(t).drop_last() =~= before);
                assert(text::join(before.push(t), Seq::empty()) =~= text::join(
                    before,
                    Seq::empty(),
                ) + t);
            },
            None => {},
        }
    }
}

/// A run that ends well, and of which no line announces a failure or a result, comes to
/// the fragments that were shown, put together.
pub proof fn law_a_run_without_a_result_comes_to_what_was_shown(
    output: Seq<Seq<char>>,
    decode: spec_fn(Seq<char>) -> Option<StreamLine>,
    family: Seq<char>,
    status: Seq<char>,
    stderr: Seq<char>,
)
    requires
        forall|i: int| 0 <= i < output.len() ==> !fails(#[trigger] output[i], decode),
        forall|i: int| 0 <= i < output.len() ==> !announces_some(#[trigger] output[i], decode),
    ensures
        outcome(family, output_read(output, decode), true, status, stderr) == Ok::<
            Seq<char>,
            Seq<char>,
        >(text::join(output_shown(output, decode), Seq::empty())),
{
    lemma_no_error(output, decode);
    lemma_no_result(output, decode);
    lemma_streamed(output, decode);
}

/// A run of which no line says that it failed, but which ends badly, is an error that
/// tells how it ended and what it wrote about that.
pub proof fn law_a_bad_end_is_an_error(
    output: Seq<Seq<char>>,
    decode: spec_fn(Seq<char>) -> Option<StreamLine>,
    family: Seq<char>,
    status: Seq<char>,
    stderr: Seq<char>,
)
    requires
        forall|i: int| 0 <= i < output.len() ==> !fails(#[trigger] output[i], decode),
    ensures
        outcome(family, output_read(output, decode), false, status, stderr) == Err::<
            Seq<char>,
            Seq<char>,
        >(family + " CLI exited with "@ + status + ": "@ + text::trim(stderr)),
{
    lemma_no_error(output, decode);
}

proof fn lemma_last_error(
    output: Seq<Seq<char>>,
    decode: spec_fn(Seq<char>) -> Option<StreamLine>,
    k: int,
    l: StreamLine,
)
    requires
        0 <= k < output.len(),
        fails(output[k], decode),
        decode(text::trim(output[k])) == Some(l),
        forall|i: int| k < i < output.len() ==> !fails(#[trigger] output[i], decode),
    ensures
        output_read(output, decode).error == Some(failure(l)),
    decreases output.len(),
{
    if k < output.len() - 1 {
        let front = output.drop_last();
        assert forall|i: int| k < i < front.len() implies !fails(#[trigger] front[i], decode) by {
            assert(front[i] == output[i]);
        }
        lemma_last_error(front, decode, k, l);
        assert(!fails(output[output.len() - 1], decode));
    }
}

/// A run of which a line says that it failed is an error, however it ends: the last such
/// line tells what went wrong.
pub proof fn law_a_failed_run_is_an_error(
    output: Seq<Seq<char>>,
    decode: spec_fn(Seq<char>) -> Option<StreamLine>,
    k: int,
    l: StreamLine,
    family: Seq<char>,
    success: bool,
    status: Seq<char>,
    stderr: Seq<char>,
)
    requires
        0 <= k < output.len(),
        fails(output[k], decode),
        decode(text::trim(output[k])) == Some(l),
        forall|i: int| k < i < output.len() ==> !fails(#[trigger] output[i], decode),
    ensures
        outcome(family, output_read(output, decode), success, status, stderr) == Err::<
            Seq<char>,
            Seq<char>,
        >(
            family + " CLI error: "@ + (if l.result is Some {
                l.result->0@
            } else if l.subtype is Some {
                l.subtype->0@
            } else {
                "unknown error"@
            }),
        ),
{
    lemma_last_error(output, decode, k, l);
}

// ---------------------------------------------------------------------------
// What the program is given
// ---------------------------------------------------------------------------

/// What the program is asked grows with the conversation: a turn is added behind a blank
/// line, with its speaker in front and exactly its text, and a turn of the system adds
/// nothing.
pub proof fn law_the_prompt_grows_with_the_history(history: Seq<Entry>, e: Entry)
    ensures
        prompt_of(Seq::empty()).len() == 0,
        e.role == Role::System ==> prompt_of(history.push(e)) == prompt_of(history),
        e.role != Role::System ==> prompt_of(history.push(e)) == (if (forall|i: int|
            0 <= i < history.len() ==> (#[trigger] history[i]).role == Role::System) {
            Seq::<char>::empty()
        } else {
            prompt_of(history) + "\n\n"@
        }) + (if e.role == Role::User {
            "User: "@
        } else if e.role == Role::Assistant {
            "Assistant: "@
        } else {
            "Tool result: "@
        }) + e.content,
{
    reveal(Seq::filter);
    let none = Seq::<Entry>::empty();
    assert(backend::dialogue(none).map_values(labelled()) =~= Seq::<Seq<char>>::empty());
    assert(history.push(e).drop_last() =~= history);
    let kept = backend::dialogue(history);
    backend::law_the_dialogue_keeps_order(history);
    if e.role != Role::System {
        assert(backend::dialogue(history.push(e)) =~= kept.push(e));
        let before = kept.map_values(labelled());
        let after = kept.push(e).map_values(labelled());
        assert(after =~= before.push(label(e.role) + e.content));
        assert(after.drop_last() =~= before);
        if kept.len() == 0 {
            assert forall|i: int| 0 <= i < history.len() implies (#[trigger] history[i]).role
                == Role::System by {
                if history[i].role != Role::System {
                    let j = choose|j: int|
                        0 <= j < kept.len() && #[trigger] backend::place(history, j) == i;
                }
            }
        } else {
            let k = backend::place(history, 0);
            assert(history[k].role != Role::System);
        }
        assert(prompt_of(history.push(e)) =~= (if kept.len() == 0 {
            Seq::<char>::empty()
        } else {
            prompt_of(history) + "\n\n"@
        }) + label(e.role) + e.content);
    }
}

/// The program is run as it was set up: for one printed answer as a stream of JSON with
/// its fragments, keeping nothing, without tools, with the preamble in front of what
/// the system says, for the model where one is given; and it is asked the dialogue.
pub proof fn law_how_the_program_is_run(
    b: ClaudeCliBackend,
    system: Option<Seq<char>>,
    history: Seq<Entry>,
)
    ensures
        b.chat_sends(system, history) matches ChatView::Process(p) && {
            &&& p.binary == b@.binary
            &&& p.stdin == prompt_of(history)
            &&& p.args.take(6) == seq![
                "-p"@,
                "--output-format"@,
                "stream-json"@,
                "--include-partial-messages"@,
                "--verbose"@,
                "--no-session-persistence"@,
            ]
            &&& p.args[6] == "--tools"@
            &&& p.args[7].len() == 0
            &&& p.args[8] == "--system-prompt"@
            &&& backend::merged_system(system, history) is None ==> p.args[9] == AGENTIC_SYSTEM@
            &&& backend::merged_system(system, history) matches Some(s) ==> p.args[9]
                == AGENTIC_SYSTEM@ + "\n\n"@ + s
            &&& b@.model is None ==> p.args.len() == 10
            &&& b@.model matches Some(m) ==> p.args.len() == 12 && p.args[10] == "--model"@
                && p.args[11] == m
        },
{
    reveal_strlit("");
    match b.chat_sends(system, history) {
        ChatView::Process(p) => {
            assert(p.args.take(6) =~= seq![
                "-p"@,
                "--output-format"@,
                "stream-json"@,
                "--include-partial-messages"@,
                "--verbose"@,
                "--no-session-persistence"@,
            ]);
        },
        _ => {},
    }
}

/// The models on offer are the three names that the program understands.
pub proof fn law_which_models_are_known(b: ClaudeCliBackend)
    ensures
        b.models_sends() matches ModelsView::Known(m) && {
            &&& m.len() == 3
            &&& m[0].name == "opus"@
            &&& m[1].name == "sonnet"@
            &&& m[2].name == "haiku"@
            &&& forall|i: int|
                0 <= i < 3 ==> (#[trigger] m[i]).detail == b@.family + " CLI alias (--model)"@
        },
{
}

} // verus!
