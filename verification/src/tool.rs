//! Commands and their results.

use crate::json;
use crate::json::{Object, Record};
use crate::text;
use vstd::prelude::*;

verus! {

// ---------------------------------------------------------------------------
// Requests
// ---------------------------------------------------------------------------

/// A command that the model asks for.
#[derive(Debug)]
pub struct CommandRequest {
    pub timeout: u64,
    pub binary: String,
    pub args: Vec<String>,
    pub description: String,
}

/// What a request says.
#[verifier::ext_equal]
pub struct RequestView {
    pub timeout: u64,
    pub binary: Seq<char>,
    pub args: Seq<Seq<char>>,
    pub description: Seq<char>,
}

impl View for CommandRequest {
    type V = RequestView;

    open spec fn view(&self) -> RequestView {
        RequestView {
            timeout: self.timeout,
            binary: self.binary@,
            args: text::texts(self.args@),
            description: self.description@,
        }
    }
}

/// The same strings.
pub fn clone_strings(v: &Vec<String>) -> (r: Vec<String>)
    ensures
        text::texts(r@) == text::texts(v@),
{
    let mut out: Vec<String> = Vec::new();
    let mut i: usize = 0;
    while i < v.len()
        invariant
            i <= v.len(),
            out.len() == i,
            forall|j: int| 0 <= j < i ==> (#[trigger] out@[j])@ == v@[j]@,
        decreases v.len() - i,
    {
        out.push(v[i].clone());
        i += 1;
    }
    proof {
        assert(text::texts(out@) =~= text::texts(v@));
    }
    out
}

impl Clone for CommandRequest {
    /// The same request.
    fn clone(&self) -> (r: CommandRequest)
        ensures
            r@ == self@,
    {
        CommandRequest {
            timeout: self.timeout,
            binary: self.binary.clone(),
            args: clone_strings(&self.args),
            description: self.description.clone(),
        }
    }
}

/// The text of a request.
pub open spec fn jrequest(r: RequestView) -> Seq<char> {
    json::jobj(
        seq![
            ("args"@, json::jarr(Seq::new(r.args.len(), |i: int| json::jstr(r.args[i])))),
            ("binary"@, json::jstr(r.binary)),
            ("description"@, json::jstr(r.description)),
            ("timeout"@, json::jint(r.timeout as int)),
        ],
    )
}

/// A request as a JSON value.
pub fn request_json(r: &CommandRequest) -> (v: serde_json::Value)
    ensures
        json::json_text(v) == jrequest(r@),
{
    let o = Object::new().with("args", json::json_strings(&r.args)).with_str(
        "binary",
        r.binary.as_str(),
    ).with_str("description", r.description.as_str()).with("timeout", json::json_unsigned(r.timeout));
    proof {
        reveal_strlit("args");
        reveal_strlit("binary");
        reveal_strlit("description");
        reveal_strlit("timeout");
        assert(json::precedes_at("args"@, "binary"@, 0));
        assert(json::precedes_at("binary"@, "description"@, 0));
        assert(json::precedes_at("description"@, "timeout"@, 0));
        let a = r@.args;
        assert(Seq::new(a.len(), |i: int| json::jstr(a[i])) =~= Seq::new(
            r.args@.len(),
            |i: int| json::jstr(r.args@[i]@),
        ));
        assert(o@ =~= seq![
            ("args"@, json::jarr(Seq::new(a.len(), |i: int| json::jstr(a[i])))),
            ("binary"@, json::jstr(r@.binary)),
            ("description"@, json::jstr(r@.description)),
            ("timeout"@, json::jint(r@.timeout as int)),
        ]);
    }
    o.build()
}

// ---------------------------------------------------------------------------
// Results
// ---------------------------------------------------------------------------

/// What the model is told of a command.
#[derive(Debug)]
pub struct CommandResult {
    pub status: Option<i32>,
    pub stdout: String,
    pub stderr: String,
    pub remaining_commands: usize,
    pub error: Option<String>,
}

/// What a result says.
#[verifier::ext_equal]
pub struct ResultView {
    pub status: Option<i32>,
    pub stdout: Seq<char>,
    pub stderr: Seq<char>,
    pub remaining_commands: nat,
    pub error: Option<Seq<char>>,
}

impl View for CommandResult {
    type V = ResultView;

    open spec fn view(&self) -> ResultView {
        ResultView {
            status: self.status,
            stdout: self.stdout@,
            stderr: self.stderr@,
            remaining_commands: self.remaining_commands as nat,
            error: text::opt_text(self.error),
        }
    }
}

/// The text of an exit status; a command that did not exit has none.
pub open spec fn jstatus(status: Option<i32>) -> Seq<char> {
    match status {
        Some(n) => json::jint(n as int),
        None => "null"@,
    }
}

/// The fields of a result. The error is left out where there is none.
pub open spec fn result_members(r: ResultView) -> Seq<(Seq<char>, Seq<char>)> {
    let always = seq![
        ("status"@, jstatus(r.status)),
        ("stdout"@, json::jstr(r.stdout)),
        ("stderr"@, json::jstr(r.stderr)),
        ("remaining_commands"@, json::jint(r.remaining_commands as int)),
    ];
    match r.error {
        Some(e) => always.push(("error"@, json::jstr(e))),
        None => always,
    }
}

/// The text of a result, as it is handed to the model.
pub open spec fn jresult(r: ResultView) -> Seq<char> {
    json::jobj(result_members(r))
}

/// The members of a result in the order of their keys.
pub open spec fn sorted_members(r: ResultView) -> Seq<(Seq<char>, Seq<char>)> {
    let always = seq![
        ("remaining_commands"@, json::jint(r.remaining_commands as int)),
        ("status"@, jstatus(r.status)),
        ("stderr"@, json::jstr(r.stderr)),
        ("stdout"@, json::jstr(r.stdout)),
    ];
    match r.error {
        Some(e) => seq![("error"@, json::jstr(e))] + always,
        None => always,
    }
}

/// The text of a result, as it is logged.
pub open spec fn jlogged(r: ResultView) -> Seq<char> {
    json::jobj(sorted_members(r))
}

/// An exit status as a JSON value.
fn status_json(status: Option<i32>) -> (v: serde_json::Value)
    ensures
        json::json_text(v) == jstatus(status),
{
    match status {
        Some(n) => json::json_signed(n),
        None => json::json_null(),
    }
}

/// The text of a result, as it is handed to the model.
pub fn result_text(r: &CommandResult) -> (t: String)
    ensures
        t@ == jresult(r@),
{
    let mut o = Record::new().with("status", status_json(r.status)).with_str(
        "stdout",
        r.stdout.as_str(),
    ).with_str("stderr", r.stderr.as_str()).with(
        "remaining_commands",
        json::json_unsigned(r.remaining_commands as u64),
    );
    if let Some(e) = &r.error {
        o = o.with_str("error", e.as_str());
    }
    proof {
        assert(o@ =~= result_members(r@));
    }
    o.text()
}

/// The keys of a result and of a command's name are in order.
proof fn lemma_result_keys()
    ensures
        json::precedes("cmd_id"@, "error"@),
        json::precedes("cmd_id"@, "remaining_commands"@),
        json::precedes("error"@, "remaining_commands"@),
        json::precedes("remaining_commands"@, "status"@),
        json::precedes("status"@, "stderr"@),
        json::precedes("stderr"@, "stdout"@),
{
    reveal_strlit("cmd_id");
    reveal_strlit("error");
    reveal_strlit("remaining_commands");
    reveal_strlit("status");
    reveal_strlit("stderr");
    reveal_strlit("stdout");
    assert(json::precedes_at("cmd_id"@, "error"@, 0));
    assert(json::precedes_at("cmd_id"@, "remaining_commands"@, 0));
    assert(json::precedes_at("error"@, "remaining_commands"@, 0));
    assert(json::precedes_at("remaining_commands"@, "status"@, 0));
    assert(json::precedes_at("status"@, "stderr"@, 2));
    assert(json::precedes_at("stderr"@, "stdout"@, 3));
}

/// An object with the members of a result behind those that it has.
fn with_result(o: Object, r: &CommandResult) -> (out: Object)
    ensures
        out@ == o@ + sorted_members(r@),
{
    let ghost before = o@;
    let mut o = o;
    if let Some(e) = &r.error {
        o = o.with_str("error", e.as_str());
    }
    let out = o.with("remaining_commands", json::json_unsigned(r.remaining_commands as u64)).with(
        "status",
        status_json(r.status),
    ).with_str("stderr", r.stderr.as_str()).with_str("stdout", r.stdout.as_str());
    proof {
        assert(out@ =~= before + sorted_members(r@));
    }
    out
}

/// A result as a JSON value.
pub fn result_json(r: &CommandResult) -> (v: serde_json::Value)
    ensures
        json::json_text(v) == jlogged(r@),
{
    let o = with_result(Object::new(), r);
    proof {
        lemma_result_keys();
        assert(o@ =~= sorted_members(r@));
    }
    o.build()
}

/// The text of the result of the command with this name.
pub open spec fn jnamed_result(cmd_id: Seq<char>, r: ResultView) -> Seq<char> {
    json::jobj(seq![("cmd_id"@, json::jstr(cmd_id))] + sorted_members(r))
}

/// The result of the command with this name as a JSON value.
pub fn named_result_json(cmd_id: &str, r: &CommandResult) -> (v: serde_json::Value)
    ensures
        json::json_text(v) == jnamed_result(cmd_id@, r@),
{
    let first = Object::new().with_str("cmd_id", cmd_id);
    proof {
        assert(first@ =~= seq![("cmd_id"@, json::jstr(cmd_id@))]);
    }
    let o = with_result(first, r);
    proof {
        lemma_result_keys();
    }
    o.build()
}

/// What is said of a command that could not be run, for this reason.
pub open spec fn refused(remaining: nat, reason: Seq<char>) -> ResultView {
    ResultView {
        status: None,
        stdout: Seq::empty(),
        stderr: Seq::empty(),
        remaining_commands: remaining,
        error: Some(reason),
    }
}

/// What is said of a command that could not be run, for this reason.
pub fn refuse(remaining: usize, reason: String) -> (r: CommandResult)
    ensures
        r@ == refused(remaining as nat, reason@),
{
    CommandResult {
        status: None,
        stdout: String::new(),
        stderr: String::new(),
        remaining_commands: remaining,
        error: Some(reason),
    }
}

/// How running a command went.
#[derive(Debug)]
pub enum Outcome {
    /// It ended, with this status and output. A command that a signal ended has
    /// no status.
    Exited { status: Option<i32>, stdout: String, stderr: String },
    /// Waiting for its end failed.
    WaitFailed(String),
    /// It took longer than it was given, and was stopped.
    TimedOut,
    /// It could not be started.
    SpawnFailed(String),
}

/// How running a command went.
#[verifier::ext_equal]
pub enum OutcomeView {
    Exited { status: Option<i32>, stdout: Seq<char>, stderr: Seq<char> },
    WaitFailed(Seq<char>),
    TimedOut,
    SpawnFailed(Seq<char>),
}

impl View for Outcome {
    type V = OutcomeView;

    open spec fn view(&self) -> OutcomeView {
        match self {
            Outcome::Exited { status, stdout, stderr } => OutcomeView::Exited {
                status: *status,
                stdout: stdout@,
                stderr: stderr@,
            },
            Outcome::WaitFailed(e) => OutcomeView::WaitFailed(e@),
            Outcome::TimedOut => OutcomeView::TimedOut,
            Outcome::SpawnFailed(e) => OutcomeView::SpawnFailed(e@),
        }
    }
}

/// What is said of a command that was tried.
pub open spec fn result_of(outcome: OutcomeView, remaining: nat) -> ResultView {
    match outcome {
        OutcomeView::Exited { status, stdout, stderr } => ResultView {
            status,
            stdout,
            stderr,
            remaining_commands: remaining,
            error: None,
        },
        OutcomeView::WaitFailed(e) => refused(remaining, "Execution failed: "@ + e),
        OutcomeView::TimedOut => refused(remaining, "Execution timed out"@),
        OutcomeView::SpawnFailed(e) => refused(remaining, "Failed to spawn: "@ + e),
    }
}

/// What is said of a command that was tried.
pub fn report(outcome: Outcome, remaining: usize) -> (r: CommandResult)
    ensures
        r@ == result_of(outcome@, remaining as nat),
{
    match outcome {
        Outcome::Exited { status, stdout, stderr } => CommandResult {
            status,
            stdout,
            stderr,
            remaining_commands: remaining,
            error: None,
        },
        Outcome::WaitFailed(e) => refuse(remaining, text::concat2("Execution failed: ", e.as_str())),
        Outcome::TimedOut => refuse(remaining, "Execution timed out".to_owned()),
        Outcome::SpawnFailed(e) => refuse(remaining, text::concat2("Failed to spawn: ", e.as_str())),
    }
}

// ---------------------------------------------------------------------------
// Laws
// ---------------------------------------------------------------------------

/// A command that ended is told as it ended, whatever its status: the status, all of
/// its standard output and all of its standard error, and no error beside them.
pub proof fn law_a_command_is_told_as_it_ended(
    status: Option<i32>,
    stdout: Seq<char>,
    stderr: Seq<char>,
    remaining: nat,
)
    ensures
        ({
            let r = result_of(OutcomeView::Exited { status, stdout, stderr }, remaining);
            &&& r.status == status
            &&& r.stdout == stdout
            &&& r.stderr == stderr
            &&& r.error is None
        }),
{
}

/// A command that did not end by itself has neither status nor output, and the error
/// says what became of it.
pub proof fn law_a_failure_is_told(outcome: OutcomeView, remaining: nat)
    requires
        !(outcome is Exited),
    ensures
        result_of(outcome, remaining).status is None,
        result_of(outcome, remaining).stdout.len() == 0,
        result_of(outcome, remaining).stderr.len() == 0,
        result_of(outcome, remaining).error matches Some(e) && {
            &&& outcome matches OutcomeView::WaitFailed(why) ==> e == "Execution failed: "@ + why
            &&& outcome is TimedOut ==> e == "Execution timed out"@
            &&& outcome matches OutcomeView::SpawnFailed(why) ==> e == "Failed to spawn: "@ + why
        },
{
}

/// However a command went, the model is told how many it has left.
pub proof fn law_the_rest_is_told(outcome: OutcomeView, remaining: nat, reason: Seq<char>)
    ensures
        result_of(outcome, remaining).remaining_commands == remaining,
        refused(remaining, reason).remaining_commands == remaining,
{
}

/// A command that is turned down has neither status nor output, and its error is the
/// reason.
pub proof fn law_a_refusal_gives_its_reason(remaining: nat, reason: Seq<char>)
    ensures
        refused(remaining, reason).error == Some(reason),
        refused(remaining, reason).status is None,
        refused(remaining, reason).stdout.len() == 0,
        refused(remaining, reason).stderr.len() == 0,
{
}

/// A key as it is written.
proof fn lemma_key(key: Seq<char>)
    requires
        key == "status"@ || key == "stdout"@ || key == "stderr"@ || key == "remaining_commands"@
            || key == "error"@,
    ensures
        json::jstr(key) == seq!['"'] + key + seq!['"'],
{
    lemma_plain_keys();
    json::lemma_plain(key);
}

/// The text that the model reads of a result, to the letter.
#[verifier::rlimit(40)]
pub proof fn law_what_the_model_reads(r: ResultView)
    ensures
        jresult(r) == "{\"status\":"@ + (match r.status {
            Some(n) => json::jint(n as int),
            None => "null"@,
        }) + ",\"stdout\":"@ + json::jstr(r.stdout) + ",\"stderr\":"@ + json::jstr(r.stderr)
            + ",\"remaining_commands\":"@ + text::decimal(r.remaining_commands) + (match r.error {
            Some(e) => ",\"error\":"@ + json::jstr(e),
            None => Seq::<char>::empty(),
        }) + "}"@,
{
    let none = Seq::<(Seq<char>, Seq<char>)>::empty();
    let a = ("status"@, jstatus(r.status));
    let b = ("stdout"@, json::jstr(r.stdout));
    let c = ("stderr"@, json::jstr(r.stderr));
    let d = ("remaining_commands"@, json::jint(r.remaining_commands as int));
    json::lemma_one_more_member(none, a);
    json::lemma_one_more_member(none.push(a), b);
    json::lemma_one_more_member(none.push(a).push(b), c);
    json::lemma_one_more_member(none.push(a).push(b).push(c), d);
    let always = none.push(a).push(b).push(c).push(d);
    lemma_key("status"@);
    lemma_key("stdout"@);
    lemma_key("stderr"@);
    lemma_key("remaining_commands"@);
    lemma_key("error"@);
    lemma_heads();
    let s = jstatus(r.status);
    let so = json::jstr(r.stdout);
    let se = json::jstr(r.stderr);
    let n = json::jint(r.remaining_commands as int);
    let close = "}"@;
    let t1 = "{\"status\":"@ + s;
    assert(json::jobj(none.push(a)) =~= t1 + close);
    let t2 = t1 + ",\"stdout\":"@ + so;
    assert(json::jobj(none.push(a).push(b)) =~= t2 + close);
    let t3 = t2 + ",\"stderr\":"@ + se;
    assert(json::jobj(none.push(a).push(b).push(c)) =~= t3 + close);
    let t4 = t3 + ",\"remaining_commands\":"@ + n;
    assert(json::jobj(always) =~= t4 + close);
    match r.error {
        Some(e) => {
            let f = ("error"@, json::jstr(e));
            json::lemma_one_more_member(always, f);
            assert(result_members(r) =~= always.push(f));
            assert(json::jobj(always.push(f)) =~= t4 + (",\"error\":"@ + json::jstr(e)) + close);
        },
        None => {
            assert(result_members(r) =~= always);
            assert(t4 + Seq::<char>::empty() =~= t4);
        },
    }
}

/// The keys between their quotes.
proof fn lemma_heads()
    ensures
        "{\"status\":"@ =~= seq!['{'] + (seq!['"'] + "status"@ + seq!['"']) + seq![':'],
        ",\"stdout\":"@ =~= seq![','] + (seq!['"'] + "stdout"@ + seq!['"']) + seq![':'],
        ",\"stderr\":"@ =~= seq![','] + (seq!['"'] + "stderr"@ + seq!['"']) + seq![':'],
        ",\"remaining_commands\":"@ =~= seq![','] + (seq!['"'] + "remaining_commands"@ + seq!['"'])
            + seq![':'],
        ",\"error\":"@ =~= seq![','] + (seq!['"'] + "error"@ + seq!['"']) + seq![':'],
        "}"@ =~= seq!['}'],
{
    reveal_strlit("{\"status\":");
    reveal_strlit(",\"stdout\":");
    reveal_strlit(",\"stderr\":");
    reveal_strlit(",\"remaining_commands\":");
    reveal_strlit(",\"error\":");
    reveal_strlit("}");
    reveal_strlit("status");
    reveal_strlit("stdout");
    reveal_strlit("stderr");
    reveal_strlit("remaining_commands");
    reveal_strlit("error");
}

/// What is logged of a result, to the letter: the same members in the order of their
/// keys.
pub proof fn law_what_is_logged(r: ResultView)
    ensures
        jlogged(r) == json::written(
            (match r.error {
                Some(e) => seq![json::named("error"@, json::jstr(e))],
                None => Seq::<Seq<char>>::empty(),
            }) + seq![
                json::named("remaining_commands"@, text::decimal(r.remaining_commands)),
                json::named(
                    "status"@,
                    match r.status {
                        Some(n) => json::jint(n as int),
                        None => "null"@,
                    },
                ),
                json::named("stderr"@, json::jstr(r.stderr)),
                json::named("stdout"@, json::jstr(r.stdout)),
            ],
        ),
{
    lemma_plain_keys();
    let m = sorted_members(r);
    assert forall|k: int| 0 <= k < m.len() implies json::plain(#[trigger] m[k].0) by {
        assert(m[k].0 == "error"@ || m[k].0 == "remaining_commands"@ || m[k].0 == "status"@ || m[k].0
            == "stderr"@ || m[k].0 == "stdout"@);
    }
    json::lemma_written(m);
    let always = seq![
        json::named("remaining_commands"@, text::decimal(r.remaining_commands)),
        json::named(
            "status"@,
            match r.status {
                Some(n) => json::jint(n as int),
                None => "null"@,
            },
        ),
        json::named("stderr"@, json::jstr(r.stderr)),
        json::named("stdout"@, json::jstr(r.stdout)),
    ];
    let all = Seq::new(m.len(), |k: int| json::named(m[k].0, m[k].1));
    match r.error {
        Some(e) => {
            assert(all =~= seq![json::named("error"@, json::jstr(e))] + always);
        },
        None => {
            assert(all =~= Seq::<Seq<char>>::empty() + always);
        },
    }
}

/// Those who watch are told what is logged of a result, with the name of the command in
/// front.
pub proof fn law_what_those_who_watch_are_told(cmd_id: Seq<char>, r: ResultView)
    ensures
        jnamed_result(cmd_id, r) == seq!['{'] + json::named("cmd_id"@, json::jstr(cmd_id)) + seq![
            ',',
        ] + jlogged(r).drop_first(),
{
    reveal_strlit("cmd_id");
    json::lemma_plain("cmd_id"@);
    let first = ("cmd_id"@, json::jstr(cmd_id));
    let m = sorted_members(r);
    let a = seq![json::jmember(first)];
    let b = Seq::new(m.len(), |i: int| json::jmember(m[i]));
    let whole = seq![first] + m;
    assert(Seq::new(whole.len(), |i: int| json::jmember(whole[i])) =~= a + b);
    text::law_joined_pieces(a, b, seq![',']);
    assert(json::jmember(first) =~= json::named("cmd_id"@, json::jstr(cmd_id)));
    assert(jnamed_result(cmd_id, r) =~= seq!['{'] + json::named("cmd_id"@, json::jstr(cmd_id))
        + seq![','] + jlogged(r).drop_first());
}

/// The keys of a result are written as they are.
proof fn lemma_plain_keys()
    ensures
        json::plain("status"@),
        json::plain("stdout"@),
        json::plain("stderr"@),
        json::plain("remaining_commands"@),
        json::plain("error"@),
{
    reveal_strlit("status");
    reveal_strlit("stdout");
    reveal_strlit("stderr");
    reveal_strlit("remaining_commands");
    reveal_strlit("error");
}

/// What is asked for is put to the operator as it was asked, to the letter: the program,
/// each argument in its place, the reason and the time.
pub proof fn law_a_request_is_shown_in_full(r: RequestView)
    ensures
        jrequest(r) == json::written(
            seq![
                json::named(
                    "args"@,
                    json::jarr(Seq::new(r.args.len(), |i: int| json::jstr(r.args[i]))),
                ),
                json::named("binary"@, json::jstr(r.binary)),
                json::named("description"@, json::jstr(r.description)),
                json::named("timeout"@, text::decimal(r.timeout as nat)),
            ],
        ),
{
    reveal_strlit("args");
    reveal_strlit("binary");
    reveal_strlit("description");
    reveal_strlit("timeout");
    let args = json::jarr(Seq::new(r.args.len(), |i: int| json::jstr(r.args[i])));
    let m = seq![
        ("args"@, args),
        ("binary"@, json::jstr(r.binary)),
        ("description"@, json::jstr(r.description)),
        ("timeout"@, json::jint(r.timeout as int)),
    ];
    json::lemma_written(m);
    assert(Seq::new(m.len(), |k: int| json::named(m[k].0, m[k].1)) =~= seq![
        json::named("args"@, args),
        json::named("binary"@, json::jstr(r.binary)),
        json::named("description"@, json::jstr(r.description)),
        json::named("timeout"@, text::decimal(r.timeout as nat)),
    ]);
}

} // verus!
