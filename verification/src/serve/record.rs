//! One session: how it was set up, what has been said, and the turn under way.

use crate::backend;
use crate::backend::{Entry, Message, Session};
use crate::config::{BackendConfig, ConfigView};
use crate::json;
use crate::json::Object;
use crate::reminders;
use crate::reminders::{Reminder, ReminderView};
use crate::run_turn::{Phase, PhaseView, Turn, TurnView};
use crate::text;
use crate::tool;
use crate::tool::RequestView;
use vstd::prelude::*;

verus! {

// ---------------------------------------------------------------------------
// Names
// ---------------------------------------------------------------------------

/// The name of a session.
pub open spec fn session_id(number: nat) -> Seq<char> {
    "s_"@ + text::hexadecimal(number)
}

/// The name of a turn: a session counts them by the messages that it held when
/// the prompt had joined them.
pub open spec fn turn_id(number: nat) -> Seq<char> {
    "t_"@ + text::hexadecimal(number)
}

/// The name of a command: a session counts them by the messages that it held when
/// the answer that asks for the command had joined them.
pub open spec fn command_id(number: nat) -> Seq<char> {
    "c_"@ + text::hexadecimal(number)
}

/// The name of a session.
pub fn session_id_of(number: u64) -> (r: String)
    ensures
        r@ == session_id(number as nat),
{
    text::concat2("s_", text::hexadecimal_of(number).as_str())
}

/// The name of a turn.
pub fn turn_id_of(number: u64) -> (r: String)
    ensures
        r@ == turn_id(number as nat),
{
    text::concat2("t_", text::hexadecimal_of(number).as_str())
}

/// The name of a command.
pub fn command_id_of(number: u64) -> (r: String)
    ensures
        r@ == command_id(number as nat),
{
    text::concat2("c_", text::hexadecimal_of(number).as_str())
}

// ---------------------------------------------------------------------------
// Sessions
// ---------------------------------------------------------------------------

/// How a session was set up, as far as it is shown.
#[derive(Debug)]
pub struct SessionConfigOut {
    pub backend: String,
    pub model: Option<String>,
    pub system: Option<String>,
    pub command_per_response: usize,
    pub approval_mode: String,
}

/// How a session was set up, as far as it is shown.
#[verifier::ext_equal]
pub struct ConfigOutView {
    pub backend: Seq<char>,
    pub model: Option<Seq<char>>,
    pub system: Option<Seq<char>>,
    pub command_per_response: nat,
    pub approval_mode: Seq<char>,
}

impl View for SessionConfigOut {
    type V = ConfigOutView;

    open spec fn view(&self) -> ConfigOutView {
        ConfigOutView {
            backend: self.backend@,
            model: text::opt_text(self.model),
            system: text::opt_text(self.system),
            command_per_response: self.command_per_response as nat,
            approval_mode: self.approval_mode@,
        }
    }
}

/// A turn under way, and the part of the answer that has come so far.
pub struct Active {
    pub number: u64,
    pub turn: Turn,
    pub partial: String,
}

/// A turn under way, and the part of the answer that has come so far.
#[verifier::ext_equal]
pub struct ActiveView {
    pub number: nat,
    pub turn: TurnView,
    pub partial: Seq<char>,
}

impl View for Active {
    type V = ActiveView;

    open spec fn view(&self) -> ActiveView {
        ActiveView { number: self.number as nat, turn: self.turn@, partial: self.partial@ }
    }
}

/// One session.
pub struct SessionRecord {
    pub number: u64,
    pub created_at: String,
    pub config: SessionConfigOut,
    pub backend: BackendConfig,
    pub reminders: Vec<Reminder>,
    pub persist_path: Option<String>,
    pub session: Session,
    pub active: Option<Active>,
}

/// One session: how it was set up, what has been said, and the turn under way.
#[verifier::ext_equal]
pub struct RecordView {
    pub number: nat,
    pub created_at: Seq<char>,
    pub config: ConfigOutView,
    pub backend: ConfigView,
    pub reminders: Seq<ReminderView>,
    pub persist_path: Option<Seq<char>>,
    pub history: Seq<Entry>,
    pub active: Option<ActiveView>,
}

/// The view of a turn that may be under way.
pub open spec fn active_view(active: Option<Active>) -> Option<ActiveView> {
    match active {
        Some(a) => Some(a@),
        None => None,
    }
}

impl View for SessionRecord {
    type V = RecordView;

    open spec fn view(&self) -> RecordView {
        RecordView {
            number: self.number as nat,
            created_at: self.created_at@,
            config: self.config@,
            backend: self.backend@,
            reminders: reminders::reminder_views(self.reminders@),
            persist_path: text::opt_text(self.persist_path),
            history: self.session@,
            active: active_view(self.active),
        }
    }
}

/// What is said of a list of sessions.
pub open spec fn record_views(records: Seq<SessionRecord>) -> Seq<RecordView> {
    Seq::new(records.len(), |i: int| records[i]@)
}

/// Whether commands run without anybody being asked.
pub open spec fn is_auto(r: RecordView) -> bool {
    r.config.approval_mode == "auto"@
}

/// The state of a session.
pub open spec fn state_name(r: RecordView) -> Seq<char> {
    match r.active {
        None => "idle"@,
        Some(a) => if a.turn.phase is Deciding {
            "awaiting_approval"@
        } else {
            "generating"@
        },
    }
}

/// A command that waits for a decision.
#[verifier::ext_equal]
pub struct PendingView {
    pub cmd_id: Seq<char>,
    pub request: RequestView,
    pub remaining: nat,
}

/// The command that waits for a decision.
pub open spec fn pending(r: RecordView) -> Option<PendingView> {
    match r.active {
        Some(ActiveView { turn, .. }) => match turn.phase {
            PhaseView::Deciding { request, .. } => Some(
                PendingView {
                    cmd_id: command_id(r.history.len()),
                    request,
                    remaining: turn.remaining,
                },
            ),
            _ => None,
        },
        None => None,
    }
}

impl SessionRecord {
    /// The name of this session.
    pub fn id(&self) -> (r: String)
        ensures
            r@ == session_id(self@.number),
    {
        session_id_of(self.number)
    }

    /// Whether commands run without anybody being asked.
    pub fn is_auto(&self) -> (r: bool)
        ensures
            r == is_auto(self@),
    {
        text::same_text(self.config.approval_mode.as_str(), "auto")
    }

    /// The state of this session.
    pub fn state(&self) -> (r: &'static str)
        ensures
            r@ == state_name(self@),
    {
        match &self.active {
            None => "idle",
            Some(a) => match a.turn.phase() {
                Phase::Deciding { .. } => "awaiting_approval",
                _ => "generating",
            },
        }
    }

    /// The name of the command that waits for a decision.
    pub fn pending_id(&self) -> (r: Option<String>)
        ensures
            text::opt_text(r) == match pending(self@) {
                Some(p) => Some(p.cmd_id),
                None => None,
            },
    {
        match &self.active {
            None => None,
            Some(a) => match a.turn.phase() {
                Phase::Deciding { .. } => Some(command_id_of(self.session.messages.len() as u64)),
                _ => None,
            },
        }
    }
}

// ---------------------------------------------------------------------------
// Sessions as JSON
// ---------------------------------------------------------------------------

/// The text of a configuration.
pub open spec fn jconfig(c: ConfigOutView) -> Seq<char> {
    json::jobj(
        seq![
            ("approval_mode"@, json::jstr(c.approval_mode)),
            ("backend"@, json::jstr(c.backend)),
            ("command_per_response"@, json::jint(c.command_per_response as int)),
            ("model"@, json::jopt(c.model)),
            ("system"@, json::jopt(c.system)),
        ],
    )
}

/// A configuration as a JSON value.
pub fn config_json(c: &SessionConfigOut) -> (v: serde_json::Value)
    ensures
        json::json_text(v) == jconfig(c@),
{
    let o = Object::new().with_str("approval_mode", c.approval_mode.as_str()).with_str(
        "backend",
        c.backend.as_str(),
    ).with("command_per_response", json::json_unsigned(c.command_per_response as u64)).with(
        "model",
        json::json_optional(&c.model),
    ).with("system", json::json_optional(&c.system));
    proof {
        reveal_strlit("approval_mode");
        reveal_strlit("backend");
        reveal_strlit("command_per_response");
        reveal_strlit("model");
        reveal_strlit("system");
        assert(json::precedes_at("approval_mode"@, "backend"@, 0));
        assert(json::precedes_at("backend"@, "command_per_response"@, 0));
        assert(json::precedes_at("command_per_response"@, "model"@, 0));
        assert(json::precedes_at("model"@, "system"@, 0));
        assert(o@ =~= seq![
            ("approval_mode"@, json::jstr(c@.approval_mode)),
            ("backend"@, json::jstr(c@.backend)),
            ("command_per_response"@, json::jint(c@.command_per_response as int)),
            ("model"@, json::jopt(c@.model)),
            ("system"@, json::jopt(c@.system)),
        ]);
    }
    o.build()
}

/// The text of a message.
pub open spec fn jmessage(e: Entry) -> Seq<char> {
    json::jobj(
        seq![
            ("content"@, json::jstr(e.content)),
            ("role"@, json::jstr(backend::role_name(e.role))),
        ],
    )
}

/// The text of a history.
pub open spec fn jmessages(history: Seq<Entry>) -> Seq<char> {
    json::jarr(Seq::new(history.len(), |i: int| jmessage(history[i])))
}

/// A message as a JSON value.
pub fn message_json(m: &Message) -> (v: serde_json::Value)
    ensures
        json::json_text(v) == jmessage(m@),
{
    let o = Object::new().with_str("content", m.content.as_str()).with_str("role", m.role.name());
    proof {
        reveal_strlit("content");
        reveal_strlit("role");
        assert(json::precedes_at("content"@, "role"@, 0));
        assert(o@ =~= seq![
            ("content"@, json::jstr(m@.content)),
            ("role"@, json::jstr(backend::role_name(m@.role))),
        ]);
    }
    o.build()
}

/// A history as a JSON value.
pub fn messages_json(session: &Session) -> (v: serde_json::Value)
    ensures
        json::json_text(v) == jmessages(session@),
{
    let mut out: Vec<serde_json::Value> = Vec::new();
    let mut i: usize = 0;
    while i < session.messages.len()
        invariant
            i <= session.messages.len(),
            out.len() == i,
            forall|j: int|
                0 <= j < i ==> json::json_text(#[trigger] out@[j]) == jmessage(
                    session.messages@[j]@,
                ),
        decreases session.messages.len() - i,
    {
        out.push(message_json(&session.messages[i]));
        i += 1;
    }
    proof {
        assert(json::json_texts(out@) =~= Seq::new(session@.len(), |i: int| jmessage(session@[i])));
    }
    json::json_array(out)
}

/// The text of a command that waits for a decision.
pub open spec fn jpending(p: PendingView) -> Seq<char> {
    json::jobj(
        seq![
            ("cmd_id"@, json::jstr(p.cmd_id)),
            ("remaining_commands"@, json::jint(p.remaining as int)),
            ("request"@, tool::jrequest(p.request)),
        ],
    )
}

/// The text of the command that waits for a decision, or `null`.
pub open spec fn jpending_of(r: RecordView) -> Seq<char> {
    match pending(r) {
        Some(p) => jpending(p),
        None => "null"@,
    }
}

/// The command that waits for a decision as a JSON value.
pub fn pending_json(r: &SessionRecord) -> (v: serde_json::Value)
    ensures
        json::json_text(v) == jpending_of(r@),
{
    if let Some(a) = &r.active {
        if let Phase::Deciding { request, .. } = a.turn.phase() {
            let o = Object::new().with_str(
                "cmd_id",
                command_id_of(r.session.messages.len() as u64).as_str(),
            ).with("remaining_commands", json::json_unsigned(a.turn.remaining() as u64)).with(
                "request",
                tool::request_json(request),
            );
            proof {
                reveal_strlit("cmd_id");
                reveal_strlit("remaining_commands");
                reveal_strlit("request");
                assert(json::precedes_at("cmd_id"@, "remaining_commands"@, 0));
                assert(json::precedes_at("remaining_commands"@, "request"@, 2));
                let p = pending(r@)->0;
                assert(o@ =~= seq![
                    ("cmd_id"@, json::jstr(p.cmd_id)),
                    ("remaining_commands"@, json::jint(p.remaining as int)),
                    ("request"@, tool::jrequest(p.request)),
                ]);
            }
            return o.build();
        }
    }
    json::json_null()
}

/// The text of a session in full.
pub open spec fn jsnapshot(r: RecordView) -> Seq<char> {
    json::jobj(
        seq![
            ("config"@, jconfig(r.config)),
            ("created_at"@, json::jstr(r.created_at)),
            ("id"@, json::jstr(session_id(r.number))),
            ("messages"@, jmessages(r.history)),
            ("pending_command"@, jpending_of(r)),
            ("state"@, json::jstr(state_name(r))),
        ],
    )
}

/// A session in full.
pub fn snapshot(r: &SessionRecord) -> (v: serde_json::Value)
    ensures
        json::json_text(v) == jsnapshot(r@),
{
    let o = Object::new().with("config", config_json(&r.config)).with_str(
        "created_at",
        r.created_at.as_str(),
    ).with_str("id", r.id().as_str()).with("messages", messages_json(&r.session)).with(
        "pending_command",
        pending_json(r),
    ).with_str("state", r.state());
    proof {
        reveal_strlit("config");
        reveal_strlit("created_at");
        reveal_strlit("id");
        reveal_strlit("messages");
        reveal_strlit("pending_command");
        reveal_strlit("state");
        assert(json::precedes_at("config"@, "created_at"@, 1));
        assert(json::precedes_at("created_at"@, "id"@, 0));
        assert(json::precedes_at("id"@, "messages"@, 0));
        assert(json::precedes_at("messages"@, "pending_command"@, 0));
        assert(json::precedes_at("pending_command"@, "state"@, 0));
        assert(o@ =~= seq![
            ("config"@, jconfig(r@.config)),
            ("created_at"@, json::jstr(r@.created_at)),
            ("id"@, json::jstr(session_id(r@.number))),
            ("messages"@, jmessages(r@.history)),
            ("pending_command"@, jpending_of(r@)),
            ("state"@, json::jstr(state_name(r@))),
        ]);
    }
    o.build()
}

/// The text of a session in a list.
pub open spec fn jlisted(r: RecordView) -> Seq<char> {
    json::jobj(
        seq![
            ("config"@, jconfig(r.config)),
            ("id"@, json::jstr(session_id(r.number))),
            ("messages"@, json::jint(r.history.len() as int)),
            ("state"@, json::jstr(state_name(r))),
        ],
    )
}

/// A session in a list.
pub fn listed_json(r: &SessionRecord) -> (v: serde_json::Value)
    ensures
        json::json_text(v) == jlisted(r@),
{
    let o = Object::new().with("config", config_json(&r.config)).with_str(
        "id",
        r.id().as_str(),
    ).with("messages", json::json_unsigned(r.session.messages.len() as u64)).with_str(
        "state",
        r.state(),
    );
    proof {
        reveal_strlit("config");
        reveal_strlit("id");
        reveal_strlit("messages");
        reveal_strlit("state");
        assert(json::precedes_at("config"@, "id"@, 0));
        assert(json::precedes_at("id"@, "messages"@, 0));
        assert(json::precedes_at("messages"@, "state"@, 0));
        assert(o@ =~= seq![
            ("config"@, jconfig(r@.config)),
            ("id"@, json::jstr(session_id(r@.number))),
            ("messages"@, json::jint(r@.history.len() as int)),
            ("state"@, json::jstr(state_name(r@))),
        ]);
    }
    o.build()
}

/// The text of the list of sessions.
pub open spec fn jlist(records: Seq<RecordView>) -> Seq<char> {
    json::jarr(Seq::new(records.len(), |i: int| jlisted(records[i])))
}

/// The list of sessions as a JSON value.
pub fn list_json(records: &Vec<SessionRecord>) -> (v: serde_json::Value)
    ensures
        json::json_text(v) == jlist(record_views(records@)),
{
    let mut out: Vec<serde_json::Value> = Vec::new();
    let mut i: usize = 0;
    while i < records.len()
        invariant
            i <= records.len(),
            out.len() == i,
            forall|j: int|
                0 <= j < i ==> json::json_text(#[trigger] out@[j]) == jlisted(records@[j]@),
        decreases records.len() - i,
    {
        out.push(listed_json(&records[i]));
        i += 1;
    }
    proof {
        let views = record_views(records@);
        assert(json::json_texts(out@) =~= Seq::new(views.len(), |i: int| jlisted(views[i])));
    }
    json::json_array(out)
}

// ---------------------------------------------------------------------------
// Laws
// ---------------------------------------------------------------------------

/// A session is idle when no turn is under way, waits for approval when its turn waits
/// for a decision, and generates otherwise; and what waits is the request that the
/// turn asked to be decided about, under the name of the answer that asks for it.
pub proof fn law_the_state_tells_where_the_turn_is(r: RecordView)
    ensures
        r.active is None ==> state_name(r) == "idle"@ && pending(r) is None,
        r.active matches Some(a) ==> {
            &&& a.turn.phase is Deciding ==> {
                &&& state_name(r) == "awaiting_approval"@
                &&& pending(r) is Some
                &&& pending(r)->0.request == a.turn.phase->Deciding_request
                &&& pending(r)->0.remaining == a.turn.remaining
                &&& pending(r)->0.cmd_id == "c_"@ + text::numeral(r.history.len(), 16)
            }
            &&& !(a.turn.phase is Deciding) ==> state_name(r) == "generating"@ && pending(r) is None
        },
{
}

/// A name is a letter for what it names and a number.
pub proof fn law_names_say_what_they_name(n: nat)
    ensures
        session_id(n) == "s_"@ + text::numeral(n, 16),
        turn_id(n) == "t_"@ + text::numeral(n, 16),
        command_id(n) == "c_"@ + text::numeral(n, 16),
{
}

/// Commands run unasked in a session only where that is what was asked for.
pub proof fn law_only_auto_is_unasked(r: RecordView)
    ensures
        is_auto(r) <==> r.config.approval_mode == "auto"@,
{
}

/// How a session was set up is shown as it was set up, to the letter.
pub proof fn law_a_configuration_is_shown(c: ConfigOutView)
    ensures
        jconfig(c) == json::written(
            seq![
                json::named("approval_mode"@, json::jstr(c.approval_mode)),
                json::named("backend"@, json::jstr(c.backend)),
                json::named("command_per_response"@, text::decimal(c.command_per_response)),
                json::named(
                    "model"@,
                    match c.model {
                        Some(m) => json::jstr(m),
                        None => "null"@,
                    },
                ),
                json::named(
                    "system"@,
                    match c.system {
                        Some(m) => json::jstr(m),
                        None => "null"@,
                    },
                ),
            ],
        ),
{
    reveal_strlit("approval_mode");
    reveal_strlit("backend");
    reveal_strlit("command_per_response");
    reveal_strlit("model");
    reveal_strlit("system");
    let m = seq![
        ("approval_mode"@, json::jstr(c.approval_mode)),
        ("backend"@, json::jstr(c.backend)),
        ("command_per_response"@, json::jint(c.command_per_response as int)),
        ("model"@, json::jopt(c.model)),
        ("system"@, json::jopt(c.system)),
    ];
    json::lemma_written(m);
    assert(Seq::new(m.len(), |k: int| json::named(m[k].0, m[k].1)) =~= seq![
        json::named("approval_mode"@, json::jstr(c.approval_mode)),
        json::named("backend"@, json::jstr(c.backend)),
        json::named("command_per_response"@, text::decimal(c.command_per_response)),
        json::named(
            "model"@,
            match c.model {
                Some(m) => json::jstr(m),
                None => "null"@,
            },
        ),
        json::named(
            "system"@,
            match c.system {
                Some(m) => json::jstr(m),
                None => "null"@,
            },
        ),
    ]);
}

/// A message is shown with its text and with who said it, to the letter.
pub proof fn law_a_message_is_shown(e: Entry)
    ensures
        jmessage(e) == json::written(
            seq![
                json::named("content"@, json::jstr(e.content)),
                json::named(
                    "role"@,
                    json::jstr(
                        match e.role {
                            backend::Role::System => "system"@,
                            backend::Role::User => "user"@,
                            backend::Role::Assistant => "assistant"@,
                            backend::Role::Tool => "tool"@,
                        },
                    ),
                ),
            ],
        ),
{
    reveal_strlit("content");
    reveal_strlit("role");
    let role = json::jstr(backend::role_name(e.role));
    let m = seq![("content"@, json::jstr(e.content)), ("role"@, role)];
    json::lemma_written(m);
    assert(Seq::new(m.len(), |k: int| json::named(m[k].0, m[k].1)) =~= seq![
        json::named("content"@, json::jstr(e.content)),
        json::named("role"@, role),
    ]);
}

/// A history is shown whole and in its order: each message behind those before it.
pub proof fn law_a_history_is_shown_in_order(history: Seq<Entry>, e: Entry)
    ensures
        jmessages(Seq::empty()) == seq!['[', ']'],
        history.len() == 0 ==> jmessages(history.push(e)) == seq!['['] + jmessage(e) + seq![']'],
        history.len() > 0 ==> jmessages(history.push(e)) == jmessages(history).drop_last() + seq![
            ',',
        ] + jmessage(e) + seq![']'],
{
    let none = Seq::<Entry>::empty();
    let items = Seq::new(history.len(), |i: int| jmessage(history[i]));
    json::law_items_are_parted_by_commas(
        items,
        jmessage(e),
        Seq::empty(),
        Seq::empty(),
        Seq::empty(),
    );
    assert(Seq::new(none.len(), |i: int| jmessage(none[i])) =~= Seq::<Seq<char>>::empty());
    let more = history.push(e);
    assert(Seq::new(more.len(), |i: int| jmessage(more[i])) =~= items.push(jmessage(e)));
}

/// A list of sessions shows each of them, in their order.
pub proof fn law_a_list_shows_each_session(records: Seq<RecordView>, r: RecordView)
    ensures
        jlist(Seq::empty()) == seq!['[', ']'],
        records.len() == 0 ==> jlist(records.push(r)) == seq!['['] + jlisted(r) + seq![']'],
        records.len() > 0 ==> jlist(records.push(r)) == jlist(records).drop_last() + seq![',']
            + jlisted(r) + seq![']'],
{
    let none = Seq::<RecordView>::empty();
    let items = Seq::new(records.len(), |i: int| jlisted(records[i]));
    json::law_items_are_parted_by_commas(
        items,
        jlisted(r),
        Seq::empty(),
        Seq::empty(),
        Seq::empty(),
    );
    assert(Seq::new(none.len(), |i: int| jlisted(none[i])) =~= Seq::<Seq<char>>::empty());
    let more = records.push(r);
    assert(Seq::new(more.len(), |i: int| jlisted(more[i])) =~= items.push(jlisted(r)));
}

/// A command that waits is shown with its name, what is asked for, and how many commands
/// are left after it, to the letter; where none waits, none is shown.
pub proof fn law_a_waiting_command_is_shown(r: RecordView)
    ensures
        pending(r) is None ==> jpending_of(r) == "null"@,
        pending(r) matches Some(p) ==> jpending_of(r) == json::written(
            seq![
                json::named("cmd_id"@, json::jstr(p.cmd_id)),
                json::named("remaining_commands"@, text::decimal(p.remaining)),
                json::named("request"@, tool::jrequest(p.request)),
            ],
        ),
{
    if let Some(p) = pending(r) {
        reveal_strlit("cmd_id");
        reveal_strlit("remaining_commands");
        reveal_strlit("request");
        let m = seq![
            ("cmd_id"@, json::jstr(p.cmd_id)),
            ("remaining_commands"@, json::jint(p.remaining as int)),
            ("request"@, tool::jrequest(p.request)),
        ];
        json::lemma_written(m);
        assert(Seq::new(m.len(), |k: int| json::named(m[k].0, m[k].1)) =~= seq![
            json::named("cmd_id"@, json::jstr(p.cmd_id)),
            json::named("remaining_commands"@, text::decimal(p.remaining)),
            json::named("request"@, tool::jrequest(p.request)),
        ]);
    }
}

/// A session is shown with how it was set up, when, under which name, all that was said
/// in it, what waits for a decision, and its state, to the letter.
pub proof fn law_a_session_is_shown_in_full(r: RecordView)
    ensures
        jsnapshot(r) == json::written(
            seq![
                json::named("config"@, jconfig(r.config)),
                json::named("created_at"@, json::jstr(r.created_at)),
                json::named("id"@, json::jstr(session_id(r.number))),
                json::named("messages"@, jmessages(r.history)),
                json::named("pending_command"@, jpending_of(r)),
                json::named("state"@, json::jstr(state_name(r))),
            ],
        ),
{
    reveal_strlit("config");
    reveal_strlit("created_at");
    reveal_strlit("id");
    reveal_strlit("messages");
    reveal_strlit("pending_command");
    reveal_strlit("state");
    let m = seq![
        ("config"@, jconfig(r.config)),
        ("created_at"@, json::jstr(r.created_at)),
        ("id"@, json::jstr(session_id(r.number))),
        ("messages"@, jmessages(r.history)),
        ("pending_command"@, jpending_of(r)),
        ("state"@, json::jstr(state_name(r))),
    ];
    json::lemma_written(m);
    assert(Seq::new(m.len(), |k: int| json::named(m[k].0, m[k].1)) =~= seq![
        json::named("config"@, jconfig(r.config)),
        json::named("created_at"@, json::jstr(r.created_at)),
        json::named("id"@, json::jstr(session_id(r.number))),
        json::named("messages"@, jmessages(r.history)),
        json::named("pending_command"@, jpending_of(r)),
        json::named("state"@, json::jstr(state_name(r))),
    ]);
}

/// In a list a session is shown with how it was set up, under which name, how much was
/// said in it, and its state, to the letter.
pub proof fn law_a_listed_session_is_shown(r: RecordView)
    ensures
        jlisted(r) == json::written(
            seq![
                json::named("config"@, jconfig(r.config)),
                json::named("id"@, json::jstr(session_id(r.number))),
                json::named("messages"@, text::decimal(r.history.len())),
                json::named("state"@, json::jstr(state_name(r))),
            ],
        ),
{
    reveal_strlit("config");
    reveal_strlit("id");
    reveal_strlit("messages");
    reveal_strlit("state");
    let m = seq![
        ("config"@, jconfig(r.config)),
        ("id"@, json::jstr(session_id(r.number))),
        ("messages"@, json::jint(r.history.len() as int)),
        ("state"@, json::jstr(state_name(r))),
    ];
    json::lemma_written(m);
    assert(Seq::new(m.len(), |k: int| json::named(m[k].0, m[k].1)) =~= seq![
        json::named("config"@, jconfig(r.config)),
        json::named("id"@, json::jstr(session_id(r.number))),
        json::named("messages"@, text::decimal(r.history.len())),
        json::named("state"@, json::jstr(state_name(r))),
    ]);
}

} // verus!
