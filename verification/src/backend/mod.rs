//! Provider-neutral backend abstraction.
//!
//! Every backend speaks the same minimal contract: a list of role-tagged text
//! messages, plus an optional out-of-band system prompt, in; a stream of text
//! fragments out. A conversation goes on by sending the whole history again on
//! each turn, which every provider supports. A backend here says what is to be
//! sent; the program that drives it does the sending.

use crate::json;
use crate::json::Record;
use crate::text;
use vstd::prelude::*;

pub mod claude;
pub mod claude_cli;
pub mod mock;
pub mod ollama;

verus! {

// ---------------------------------------------------------------------------
// Messages
// ---------------------------------------------------------------------------

/// Who speaks.
#[derive(Clone, Copy, Debug, PartialEq, Eq, Structural)]
pub enum Role {
    System,
    User,
    Assistant,
    Tool,
}

/// The name of a role in a stored or displayed conversation.
pub open spec fn role_name(role: Role) -> Seq<char> {
    match role {
        Role::System => "system"@,
        Role::User => "user"@,
        Role::Assistant => "assistant"@,
        Role::Tool => "tool"@,
    }
}

impl Role {
    /// The name of this role in a stored or displayed conversation.
    pub fn name(self) -> (r: &'static str)
        ensures
            r@ == role_name(self),
    {
        match self {
            Role::System => "system",
            Role::User => "user",
            Role::Assistant => "assistant",
            Role::Tool => "tool",
        }
    }
}

/// One turn of a conversation.
#[derive(Debug)]
pub struct Message {
    pub role: Role,
    pub content: String,
}

/// What a message says: who speaks, and the text.
#[verifier::ext_equal]
pub struct Entry {
    pub role: Role,
    pub content: Seq<char>,
}

impl View for Message {
    type V = Entry;

    open spec fn view(&self) -> Entry {
        Entry { role: self.role, content: self.content@ }
    }
}

/// What a list of messages says.
pub open spec fn entries(messages: Seq<Message>) -> Seq<Entry> {
    Seq::new(messages.len(), |i: int| messages[i]@)
}

impl Message {
    /// A message of `role` with this text.
    pub fn new(role: Role, content: &str) -> (m: Message)
        ensures
            m@ == (Entry { role, content: content@ }),
    {
        Message { role, content: content.to_owned() }
    }
}

impl Clone for Message {
    /// A message that says the same.
    fn clone(&self) -> (m: Message)
        ensures
            m@ == self@,
    {
        Message { role: self.role, content: self.content.clone() }
    }
}

/// Messages that say the same, in the same order.
pub fn clone_all(messages: &[Message]) -> (r: Vec<Message>)
    ensures
        entries(r@) == entries(messages@),
        r.len() == messages.len(),
{
    let mut out: Vec<Message> = Vec::new();
    let mut i: usize = 0;
    while i < messages.len()
        invariant
            i <= messages.len(),
            out.len() == i,
            forall|j: int| 0 <= j < i ==> (#[trigger] out@[j])@ == messages@[j]@,
        decreases messages.len() - i,
    {
        out.push(messages[i].clone());
        i += 1;
    }
    proof {
        assert(entries(out@) =~= entries(messages@));
    }
    out
}

/// Adding a message adds what it says.
pub proof fn lemma_entries_push(messages: Seq<Message>, m: Message)
    ensures
        entries(messages.push(m)) == entries(messages).push(m@),
{
    assert(entries(messages.push(m)) =~= entries(messages).push(m@));
}

/// A conversation, kept as a neutral list of messages so that it can be
/// continued on any backend.
#[derive(Debug)]
pub struct Session {
    pub messages: Vec<Message>,
}

impl View for Session {
    type V = Seq<Entry>;

    open spec fn view(&self) -> Seq<Entry> {
        entries(self.messages@)
    }
}

impl Default for Session {
    /// A conversation in which nothing has been said.
    fn default() -> (s: Session)
        ensures
            s@ == Seq::<Entry>::empty(),
    {
        let s = Session { messages: Vec::new() };
        proof {
            assert(s@ =~= Seq::empty());
        }
        s
    }
}

impl Session {
    /// Adds one message at the end.
    pub fn say(&mut self, role: Role, content: &str)
        ensures
            final(self)@ == old(self)@.push(Entry { role, content: content@ }),
    {
        let ghost before = self.messages@;
        let m = Message::new(role, content);
        proof {
            lemma_entries_push(before, m);
        }
        self.messages.push(m);
    }

    /// Whether nothing has been said yet.
    pub fn is_new(&self) -> (r: bool)
        ensures
            r == (self@.len() == 0),
    {
        self.messages.len() == 0
    }
}

// ---------------------------------------------------------------------------
// System prompts
// ---------------------------------------------------------------------------

/// Whether the system speaks.
pub open spec fn from_system() -> spec_fn(Entry) -> bool {
    |e: Entry| e.role == Role::System
}

/// Whether somebody other than the system speaks.
pub open spec fn from_dialogue() -> spec_fn(Entry) -> bool {
    |e: Entry| e.role != Role::System
}

/// What the system says: the out-of-band prompt, then the system turns of the
/// history in their order.
pub open spec fn system_parts(system: Option<Seq<char>>, history: Seq<Entry>) -> Seq<Seq<char>> {
    let first = match system {
        Some(s) => seq![s],
        None => Seq::<Seq<char>>::empty(),
    };
    first + history.filter(from_system()).map_values(|e: Entry| e.content)
}

/// All that the system says, with a blank line between each two parts; nothing
/// where it says nothing.
pub open spec fn merged_system(system: Option<Seq<char>>, history: Seq<Entry>) -> Option<Seq<char>> {
    let parts = system_parts(system, history);
    if parts.len() == 0 {
        None
    } else {
        Some(text::join(parts, "\n\n"@))
    }
}

/// The turns of everybody but the system.
pub open spec fn dialogue(history: Seq<Entry>) -> Seq<Entry> {
    history.filter(from_dialogue())
}

/// How a filtered history grows with the history.
pub proof fn lemma_filter_take(history: Seq<Entry>, i: int, keep: spec_fn(Entry) -> bool)
    requires
        0 <= i < history.len(),
    ensures
        history.take(i + 1).filter(keep) == if keep(history[i]) {
            history.take(i).filter(keep).push(history[i])
        } else {
            history.take(i).filter(keep)
        },
{
    reveal(Seq::filter);
    assert(history.take(i + 1).drop_last() =~= history.take(i));
    assert(history.take(i + 1).last() == history[i]);
}

/// All that the system says, as one text.
pub fn merge_system(system: Option<&str>, messages: &[Message]) -> (r: Option<String>)
    ensures
        text::opt_text(r) == merged_system(text::opt_str(system), entries(messages@)),
{
    let ghost history = entries(messages@);
    let ghost said = |e: Entry| e.content;
    let mut parts: Vec<String> = Vec::new();
    if let Some(s) = system {
        parts.push(s.to_owned());
    }
    let ghost first = text::texts(parts@);
    proof {
        reveal(Seq::filter);
        assert(history.take(0).filter(from_system()) =~= Seq::<Entry>::empty());
        assert(Seq::<Entry>::empty().map_values(said) =~= Seq::<Seq<char>>::empty());
        assert(first + Seq::<Seq<char>>::empty() =~= first);
        match system {
            Some(s) => {
                assert(first =~= seq![s@]);
            },
            None => {
                assert(first =~= Seq::<Seq<char>>::empty());
            },
        }
    }
    let mut i: usize = 0;
    while i < messages.len()
        invariant
            i <= messages.len(),
            history == entries(messages@),
            said == (|e: Entry| e.content),
            text::texts(parts@) == first + history.take(i as int).filter(from_system()).map_values(
                said,
            ),
        decreases messages.len() - i,
    {
        proof {
            lemma_filter_take(history, i as int, from_system());
        }
        let ghost kept = history.take(i as int).filter(from_system());
        if messages[i].role == Role::System {
            let ghost before = parts@;
            parts.push(messages[i].content.clone());
            proof {
                text::lemma_texts_push(before, parts@.last());
                assert(kept.push(history[i as int]).map_values(said) =~= kept.map_values(said).push(
                    history[i as int].content,
                ));
                assert(first + kept.map_values(said).push(history[i as int].content) =~= (first
                    + kept.map_values(said)).push(history[i as int].content));
            }
        }
        i += 1;
    }
    proof {
        assert(history.take(messages.len() as int) =~= history);
        assert(text::texts(parts@) == system_parts(text::opt_str(system), history));
    }
    if parts.len() == 0 {
        None
    } else {
        Some(text::join_of(&parts, "\n\n"))
    }
}

// ---------------------------------------------------------------------------
// Messages on the wire
// ---------------------------------------------------------------------------

/// A message as a chat API takes it.
#[derive(Debug)]
pub struct WireMessage {
    pub role: &'static str,
    pub content: String,
}

/// What a message on the wire says.
#[verifier::ext_equal]
pub struct WireView {
    pub role: Seq<char>,
    pub content: Seq<char>,
}

impl View for WireMessage {
    type V = WireView;

    open spec fn view(&self) -> WireView {
        WireView { role: self.role@, content: self.content@ }
    }
}

/// What a list of messages on the wire says.
pub open spec fn wire_views(wire: Seq<WireMessage>) -> Seq<WireView> {
    Seq::new(wire.len(), |i: int| wire[i]@)
}

/// The role under which a message goes over the wire. The command protocol is
/// plain text, so the result of a command is just another turn of the user.
pub open spec fn wire_name(role: Role) -> Seq<char> {
    match role {
        Role::System => "system"@,
        Role::Assistant => "assistant"@,
        Role::User | Role::Tool => "user"@,
    }
}

/// A message as it goes over the wire.
pub open spec fn on_wire() -> spec_fn(Entry) -> WireView {
    |e: Entry| WireView { role: wire_name(e.role), content: e.content }
}

/// The text of a message on the wire.
pub open spec fn jwire(w: WireView) -> Seq<char> {
    json::jobj(seq![("role"@, json::jstr(w.role)), ("content"@, json::jstr(w.content))])
}

/// The text of messages on the wire.
pub open spec fn jwires(wire: Seq<WireView>) -> Seq<char> {
    json::jarr(Seq::new(wire.len(), |i: int| jwire(wire[i])))
}

/// The text of messages on the wire.
pub fn wire_text(wire: &Vec<WireMessage>) -> (r: String)
    ensures
        r@ == jwires(wire_views(wire@)),
{
    let ghost views = wire_views(wire@);
    let mut out: Vec<String> = Vec::new();
    let mut i: usize = 0;
    while i < wire.len()
        invariant
            i <= wire.len(),
            out.len() == i,
            views == wire_views(wire@),
            forall|j: int| 0 <= j < i ==> (#[trigger] out@[j])@ == jwire(views[j]),
        decreases wire.len() - i,
    {
        let o = Record::new().with_str("role", wire[i].role).with_str(
            "content",
            wire[i].content.as_str(),
        );
        proof {
            assert(o@ =~= seq![
                ("role"@, json::jstr(views[i as int].role)),
                ("content"@, json::jstr(views[i as int].content)),
            ]);
        }
        out.push(o.text());
        i += 1;
    }
    proof {
        assert(text::texts(out@) =~= Seq::new(views.len(), |i: int| jwire(views[i])));
    }
    json::array_text(&out)
}

// ---------------------------------------------------------------------------
// What a backend asks for
// ---------------------------------------------------------------------------

/// A model that a backend offers.
#[derive(Debug)]
pub struct ModelInfo {
    pub name: String,
    pub detail: String,
}

/// What is said of a model.
#[verifier::ext_equal]
pub struct ModelView {
    pub name: Seq<char>,
    pub detail: Seq<char>,
}

impl View for ModelInfo {
    type V = ModelView;

    open spec fn view(&self) -> ModelView {
        ModelView { name: self.name@, detail: self.detail@ }
    }
}

/// What is said of a list of models.
pub open spec fn model_views(models: Seq<ModelInfo>) -> Seq<ModelView> {
    Seq::new(models.len(), |i: int| models[i]@)
}

/// One HTTP exchange: a `POST` where there is a body, a `GET` where there is none.
#[derive(Debug)]
pub struct HttpCall {
    pub url: String,
    pub headers: Vec<(String, String)>,
    pub body: Option<String>,
}

/// What an HTTP exchange sends.
#[verifier::ext_equal]
pub struct HttpView {
    pub url: Seq<char>,
    pub headers: Seq<(Seq<char>, Seq<char>)>,
    pub body: Option<Seq<char>>,
}

/// The names and values of headers.
pub open spec fn header_views(headers: Seq<(String, String)>) -> Seq<(Seq<char>, Seq<char>)> {
    Seq::new(headers.len(), |i: int| (headers[i].0@, headers[i].1@))
}

impl View for HttpCall {
    type V = HttpView;

    open spec fn view(&self) -> HttpView {
        HttpView {
            url: self.url@,
            headers: header_views(self.headers@),
            body: crate::text::opt_text(self.body),
        }
    }
}

/// The header that announces a JSON body.
pub open spec fn json_header() -> (Seq<char>, Seq<char>) {
    ("content-type"@, "application/json"@)
}

/// Adds the header that announces a JSON body.
pub fn push_json_header(headers: &mut Vec<(String, String)>)
    ensures
        header_views(final(headers)@) == header_views(old(headers)@).push(json_header()),
{
    headers.push(("content-type".to_owned(), "application/json".to_owned()));
    proof {
        assert(header_views(headers@) =~= header_views(old(headers)@).push(json_header()));
    }
}

/// One run of a program.
#[derive(Debug)]
pub struct ProcessCall {
    pub binary: String,
    pub args: Vec<String>,
    pub stdin: String,
}

/// What a program is run with.
#[verifier::ext_equal]
pub struct ProcessView {
    pub binary: Seq<char>,
    pub args: Seq<Seq<char>>,
    pub stdin: Seq<char>,
}

impl View for ProcessCall {
    type V = ProcessView;

    open spec fn view(&self) -> ProcessView {
        ProcessView { binary: self.binary@, args: text::texts(self.args@), stdin: self.stdin@ }
    }
}

/// How one turn reaches the model.
#[derive(Debug)]
pub enum ChatCall {
    /// Over HTTP; the answer is a stream of lines.
    Http(HttpCall),
    /// Through a program; its output is a stream of lines.
    Process(ProcessCall),
    /// Not at all: these are the fragments of the answer.
    Reply(Vec<String>),
}

/// What is sent for one turn.
#[verifier::ext_equal]
pub enum ChatView {
    Http(HttpView),
    Process(ProcessView),
    Reply(Seq<Seq<char>>),
}

impl View for ChatCall {
    type V = ChatView;

    open spec fn view(&self) -> ChatView {
        match self {
            ChatCall::Http(c) => ChatView::Http(c@),
            ChatCall::Process(c) => ChatView::Process(c@),
            ChatCall::Reply(r) => ChatView::Reply(text::texts(r@)),
        }
    }
}

/// How the list of models is found.
#[derive(Debug)]
pub enum ModelsCall {
    /// By an HTTP exchange.
    Http(HttpCall),
    /// It is known.
    Known(Vec<ModelInfo>),
}

/// What is sent for the list of models.
#[verifier::ext_equal]
pub enum ModelsView {
    Http(HttpView),
    Known(Seq<ModelView>),
}

impl View for ModelsCall {
    type V = ModelsView;

    open spec fn view(&self) -> ModelsView {
        match self {
            ModelsCall::Http(c) => ModelsView::Http(c@),
            ModelsCall::Known(m) => ModelsView::Known(model_views(m@)),
        }
    }
}

/// A provider of models.
pub trait Backend {
    /// What is sent for one turn with this system prompt and history.
    spec fn chat_sends(&self, system: Option<Seq<char>>, history: Seq<Entry>) -> ChatView;

    /// What is sent for the list of models.
    spec fn models_sends(&self) -> ModelsView;

    /// One turn: `system` and `messages`, as this provider takes them.
    fn chat(&self, system: Option<&str>, messages: &[Message]) -> (c: ChatCall)
        ensures
            c@ == self.chat_sends(text::opt_str(system), entries(messages@)),
    ;

    /// The models that this provider offers.
    fn list_models(&self) -> (c: ModelsCall)
        ensures
            c@ == self.models_sends(),
    ;
}

// ---------------------------------------------------------------------------
// Laws
// ---------------------------------------------------------------------------

/// What the system says grows with the conversation: a system turn is added as it
/// stands, behind a blank line where something was said before, and a turn of anybody
/// else adds nothing.
pub proof fn law_the_system_prompt_grows(system: Option<Seq<char>>, history: Seq<Entry>, e: Entry)
    ensures
        merged_system(system, Seq::empty()) == system,
        e.role != Role::System ==> merged_system(system, history.push(e)) == merged_system(
            system,
            history,
        ),
        e.role == Role::System ==> merged_system(system, history.push(e)) == Some(
            match merged_system(system, history) {
                Some(s) => s + "\n\n"@ + e.content,
                None => e.content,
            },
        ),
{
    reveal(Seq::filter);
    let said = |x: Entry| x.content;
    assert(Seq::<Entry>::empty().filter(from_system()) =~= Seq::<Entry>::empty());
    let none = Seq::<Entry>::empty();
    assert(none.filter(from_system()).map_values(said) =~= Seq::<Seq<char>>::empty());
    assert(system_parts(system, none) =~= match system {
        Some(s) => seq![s],
        None => Seq::<Seq<char>>::empty(),
    });
    assert(history.push(e).drop_last() =~= history);
    let kept = history.filter(from_system());
    if e.role == Role::System {
        assert(history.push(e).filter(from_system()) =~= kept.push(e));
        assert(kept.push(e).map_values(said) =~= kept.map_values(said).push(e.content));
        let before = system_parts(system, history);
        let after = system_parts(system, history.push(e));
        assert(after =~= before.push(e.content));
        assert(after.drop_last() =~= before);
    } else {
        assert(history.push(e).filter(from_system()) =~= kept);
    }
}

/// Turns of the dialogue are told under the names `assistant` and `user`: the
/// assistant under its own, everybody else as the user, who hands over what a command
/// gave. Nothing of their text is changed.
pub proof fn law_a_turn_on_the_wire(e: Entry)
    ensures
        on_wire()(e).content == e.content,
        on_wire()(e).role == match e.role {
            Role::System => "system"@,
            Role::User => "user"@,
            Role::Assistant => "assistant"@,
            Role::Tool => "user"@,
        },
{
}

/// Where the `i`-th turn of the dialogue stands in the history.
pub open spec fn place(history: Seq<Entry>, i: int) -> int
    decreases history.len(),
{
    if history.len() == 0 {
        -1
    } else if history.last().role != Role::System && i == dialogue(history.drop_last()).len() {
        history.len() - 1
    } else {
        place(history.drop_last(), i)
    }
}

/// The dialogue is the history without the system's turns: each turn of the dialogue
/// is a turn of the history, in the same order, and no turn of anybody but the system
/// is left out.
pub proof fn law_the_dialogue_keeps_order(history: Seq<Entry>)
    ensures
        forall|i: int|
            0 <= i < dialogue(history).len() ==> 0 <= #[trigger] place(history, i) < history.len()
                && history[place(history, i)] == dialogue(history)[i] && dialogue(history)[i].role
                != Role::System,
        forall|i: int, j: int|
            0 <= i < j < dialogue(history).len() ==> #[trigger] place(history, i)
                < #[trigger] place(history, j),
        forall|k: int|
            0 <= k < history.len() && history[k].role != Role::System ==> exists|i: int|
                0 <= i < dialogue(history).len() && #[trigger] place(history, i) == k,
    decreases history.len(),
{
    reveal(Seq::filter);
    if history.len() > 0 {
        let front = history.drop_last();
        law_the_dialogue_keeps_order(front);
        let n = dialogue(front).len() as int;
        let last = history.len() - 1;
        let all = dialogue(history);
        if history.last().role != Role::System {
            assert(all =~= dialogue(front).push(history.last()));
            assert(place(history, n) == last);
        } else {
            assert(all =~= dialogue(front));
        }
        assert forall|i: int| 0 <= i < all.len() implies 0 <= #[trigger] place(history, i)
            < history.len() && history[place(history, i)] == all[i] && all[i].role
            != Role::System by {
            if i < n {
                assert(place(history, i) == place(front, i));
            }
        }
        assert forall|i: int, j: int| 0 <= i < j < all.len() implies #[trigger] place(history, i)
            < #[trigger] place(history, j) by {
            assert(place(history, i) == place(front, i));
            if j < n {
                assert(place(history, j) == place(front, j));
            }
        }
        assert forall|k: int| 0 <= k < history.len() && history[k].role != Role::System implies exists|
            i: int,
        |
            0 <= i < all.len() && #[trigger] place(history, i) == k by {
            if k == last {
                assert(place(history, n) == k);
            } else {
                assert(front[k] == history[k]);
                let i = choose|i: int| 0 <= i < n && #[trigger] place(front, i) == k;
                assert(place(history, i) == k);
            }
        }
    } else {
        assert(dialogue(history) =~= Seq::<Entry>::empty());
    }
}

/// A message is written with its role and its text, and with nothing else.
pub proof fn law_a_message_is_written(w: WireView)
    ensures
        jwire(w) == json::written(
            seq![
                json::named("role"@, json::jstr(w.role)),
                json::named("content"@, json::jstr(w.content)),
            ],
        ),
{
    reveal_strlit("role");
    reveal_strlit("content");
    let m = seq![("role"@, json::jstr(w.role)), ("content"@, json::jstr(w.content))];
    json::lemma_written(m);
    assert(Seq::new(m.len(), |k: int| json::named(m[k].0, m[k].1)) =~= seq![
        json::named("role"@, json::jstr(w.role)),
        json::named("content"@, json::jstr(w.content)),
    ]);
}

/// Messages are written in their order, each one behind those before it.
pub proof fn law_messages_are_written_in_order(wire: Seq<WireView>, w: WireView)
    ensures
        jwires(Seq::empty()) == seq!['[', ']'],
        wire.len() == 0 ==> jwires(wire.push(w)) == seq!['['] + jwire(w) + seq![']'],
        wire.len() > 0 ==> jwires(wire.push(w)) == jwires(wire).drop_last() + seq![','] + jwire(w)
            + seq![']'],
{
    let none = Seq::<WireView>::empty();
    assert(jwires(none) =~= seq!['[', ']']);
    let parts = Seq::new(wire.len(), |i: int| jwire(wire[i]));
    let more = wire.push(w);
    let grown = Seq::new(more.len(), |i: int| jwire(more[i]));
    assert(grown =~= parts.push(jwire(w)));
    assert(grown.drop_last() =~= parts);
    if wire.len() > 0 {
        assert(jwires(more) =~= jwires(wire).drop_last() + seq![','] + jwire(w) + seq![']']);
    }
}

} // verus!
