//! The Anthropic Messages API: `/v1/messages` with server-sent events, and
//! `/v1/models`. The command protocol stays plain text; no tools are declared.

use crate::backend;
use crate::backend::{
    Backend, ChatCall, ChatView, Entry, HttpCall, HttpView, Message, ModelInfo, ModelView,
    ModelsCall, ModelsView, Role, WireMessage, WireView,
};
use crate::json;
use crate::json::Record;
use crate::stream;
use crate::stream::{AnswerStream, Brings, Brought, Framing, NextView, Reading};
use crate::text;
use vstd::prelude::*;

verus! {

/// The version of the API that is spoken.
pub const API_VERSION: &'static str = "2023-06-01";

/// The Anthropic Messages API at some address.
pub struct ClaudeBackend {
    base_url: String,
    api_key: String,
    model: String,
    max_tokens: u32,
}

/// What the backend was set up with.
#[verifier::ext_equal]
pub struct ClaudeView {
    pub base_url: Seq<char>,
    pub api_key: Seq<char>,
    pub model: Seq<char>,
    pub max_tokens: u32,
}

impl View for ClaudeBackend {
    type V = ClaudeView;

    closed spec fn view(&self) -> ClaudeView {
        ClaudeView {
            base_url: self.base_url@,
            api_key: self.api_key@,
            model: self.model@,
            max_tokens: self.max_tokens,
        }
    }
}

/// The turns of the dialogue as they go over the wire.
pub open spec fn wire_of(history: Seq<Entry>) -> Seq<WireView> {
    backend::dialogue(history).map_values(backend::on_wire())
}

/// The body of a request for one turn.
pub open spec fn request_body(
    b: ClaudeView,
    system: Option<Seq<char>>,
    wire: Seq<WireView>,
) -> Seq<char> {
    let head = seq![
        ("model"@, json::jstr(b.model)),
        ("max_tokens"@, json::jint(b.max_tokens as int)),
        ("stream"@, "true"@),
    ];
    let tail = seq![("messages"@, backend::jwires(wire))];
    match system {
        Some(s) => json::jobj(head + seq![("system"@, json::jstr(s))] + tail),
        None => json::jobj(head + tail),
    }
}

/// The headers that every exchange carries.
pub open spec fn auth_headers(b: ClaudeView) -> Seq<(Seq<char>, Seq<char>)> {
    seq![("x-api-key"@, b.api_key), ("anthropic-version"@, API_VERSION@)]
}

/// The system prompt travels out of band: the system turns of the history are
/// merged into it, and the rest map to the two chat roles.
pub fn split_system_and_messages(system: Option<&str>, messages: &[Message]) -> (r: (
    Option<String>,
    Vec<WireMessage>,
))
    ensures
        text::opt_text(r.0) == backend::merged_system(
            text::opt_str(system),
            backend::entries(messages@),
        ),
        backend::wire_views(r.1@) == wire_of(backend::entries(messages@)),
{
    let ghost history = backend::entries(messages@);
    let mut wire: Vec<WireMessage> = Vec::new();
    let mut i: usize = 0;
    proof {
        reveal(Seq::filter);
        assert(backend::dialogue(history.take(0)) =~= Seq::<Entry>::empty());
        assert(backend::wire_views(wire@) =~= wire_of(history.take(0)));
    }
    while i < messages.len()
        invariant
            i <= messages.len(),
            history == backend::entries(messages@),
            backend::wire_views(wire@) == wire_of(history.take(i as int)),
        decreases messages.len() - i,
    {
        proof {
            backend::lemma_filter_take(history, i as int, backend::from_dialogue());
        }
        let ghost kept = backend::dialogue(history.take(i as int));
        let ghost before = wire@;
        match messages[i].role {
            Role::System => {},
            Role::Assistant => wire.push(
                WireMessage { role: "assistant", content: messages[i].content.clone() },
            ),
            Role::User | Role::Tool => wire.push(
                WireMessage { role: "user", content: messages[i].content.clone() },
            ),
        }
        proof {
            if history[i as int].role != Role::System {
                assert(wire_of(history.take(i + 1)) =~= kept.map_values(backend::on_wire()).push(
                    backend::on_wire()(history[i as int]),
                ));
                assert(backend::wire_views(wire@) =~= backend::wire_views(before).push(
                    wire@.last()@,
                ));
            }
        }
        i += 1;
    }
    proof {
        assert(history.take(messages.len() as int) =~= history);
    }
    (backend::merge_system(system, messages), wire)
}

impl ClaudeBackend {
    /// The API at `base_url`, with the key and the model to use.
    pub fn new(base_url: String, api_key: String, model: String, max_tokens: u32) -> (b:
        ClaudeBackend)
        ensures
            b@ == (ClaudeView { base_url: base_url@, api_key: api_key@, model: model@, max_tokens }),
    {
        ClaudeBackend { base_url, api_key, model, max_tokens }
    }

    /// The headers that every exchange carries.
    fn headers(&self) -> (h: Vec<(String, String)>)
        ensures
            backend::header_views(h@) == auth_headers(self@),
    {
        let mut h: Vec<(String, String)> = Vec::new();
        h.push(("x-api-key".to_owned(), self.api_key.clone()));
        h.push(("anthropic-version".to_owned(), API_VERSION.to_owned()));
        proof {
            assert(backend::header_views(h@) =~= auth_headers(self@));
        }
        h
    }

    /// The body of a request for one turn.
    fn body(&self, system: &Option<String>, wire: &Vec<WireMessage>) -> (r: String)
        ensures
            r@ == request_body(self@, text::opt_text(*system), backend::wire_views(wire@)),
    {
        let head = Record::new().with_str("model", self.model.as_str()).with(
            "max_tokens",
            json::json_unsigned(self.max_tokens as u64),
        ).with("stream", json::json_bool(true));
        let ghost views = backend::wire_views(wire@);
        let ghost h = seq![
            ("model"@, json::jstr(self@.model)),
            ("max_tokens"@, json::jint(self@.max_tokens as int)),
            ("stream"@, "true"@),
        ];
        let ghost t = seq![("messages"@, backend::jwires(views))];
        let o = match system {
            Some(s) => {
                let o = head.with_str("system", s.as_str()).with_text(
                    "messages",
                    backend::wire_text(wire),
                );
                proof {
                    assert(o@ =~= h + seq![("system"@, json::jstr(s@))] + t);
                }
                o
            },
            None => {
                let o = head.with_text("messages", backend::wire_text(wire));
                proof {
                    assert(o@ =~= h + t);
                }
                o
            },
        };
        o.text()
    }
}

/// The exchange that lists the models.
pub open spec fn models_request(b: ClaudeView) -> ModelsView {
    ModelsView::Http(
        HttpView { url: b.base_url + "/v1/models"@, headers: auth_headers(b), body: None },
    )
}

impl Backend for ClaudeBackend {
    open spec fn chat_sends(&self, system: Option<Seq<char>>, history: Seq<Entry>) -> ChatView {
        ChatView::Http(
            HttpView {
                url: self@.base_url + "/v1/messages"@,
                headers: auth_headers(self@).push(backend::json_header()),
                body: Some(
                    request_body(self@, backend::merged_system(system, history), wire_of(history)),
                ),
            },
        )
    }

    open spec fn models_sends(&self) -> ModelsView {
        models_request(self@)
    }

    fn chat(&self, system: Option<&str>, messages: &[Message]) -> (c: ChatCall) {
        let (system, wire) = split_system_and_messages(system, messages);
        let mut headers = self.headers();
        backend::push_json_header(&mut headers);
        ChatCall::Http(
            HttpCall {
                url: text::concat2(self.base_url.as_str(), "/v1/messages"),
                headers,
                body: Some(self.body(&system, &wire)),
            },
        )
    }

    fn list_models(&self) -> (c: ModelsCall) {
        ModelsCall::Http(
            HttpCall {
                url: text::concat2(self.base_url.as_str(), "/v1/models"),
                headers: self.headers(),
                body: None,
            },
        )
    }
}

/// What is reported when the API refuses an exchange with this answer.
pub fn api_error(answer: &str) -> (r: String)
    ensures
        r@ == "Anthropic API error: "@ + answer@,
{
    text::concat2("Anthropic API error: ", answer)
}

// ---------------------------------------------------------------------------
// The stream of an answer
// ---------------------------------------------------------------------------

/// The part of an answer that an event carries.
#[derive(Debug)]
pub struct StreamDelta {
    pub text: Option<String>,
}

/// One event of the stream of an answer.
#[derive(Debug)]
pub struct StreamEvent {
    pub kind: String,
    pub delta: Option<StreamDelta>,
    pub error: Option<serde_json::Value>,
}

/// What an event brings: a fragment where it carries some text, a failure where
/// the provider reports one.
pub open spec fn event_brings(e: StreamEvent) -> Brings {
    if e.kind@ == "content_block_delta"@ {
        match e.delta {
            Some(StreamDelta { text: Some(t) }) => if t@.len() == 0 {
                Brings::Nothing
            } else {
                Brings::Fragment(t@)
            },
            _ => Brings::Nothing,
        }
    } else if e.kind@ == "error"@ {
        let detail = match e.error {
            Some(v) => json::json_text(v),
            None => "unknown"@,
        };
        Brings::Failure("Anthropic stream error: "@ + detail)
    } else {
        Brings::Nothing
    }
}

/// What an event brings, or why there is none.
pub open spec fn decoded_brings(decoded: Result<StreamEvent, String>) -> Brings {
    match decoded {
        Ok(e) => event_brings(e),
        Err(m) => Brings::Failure(m@),
    }
}

/// What events bring.
pub open spec fn all_bring(events: Seq<Result<StreamEvent, String>>) -> Seq<Brings> {
    Seq::new(events.len(), |i: int| decoded_brings(events[i]))
}

/// What an event brings, or why there is none.
fn brought_by(decoded: Result<StreamEvent, String>) -> (b: Brought)
    ensures
        b@ == decoded_brings(decoded),
{
    let event = match decoded {
        Ok(e) => e,
        Err(m) => {
            return Brought::Failure(m);
        },
    };
    if text::same_text(event.kind.as_str(), "content_block_delta") {
        match event.delta {
            Some(StreamDelta { text: Some(t) }) => {
                if t.as_str().is_empty() {
                    Brought::Nothing
                } else {
                    Brought::Fragment(t)
                }
            },
            _ => Brought::Nothing,
        }
    } else if text::same_text(event.kind.as_str(), "error") {
        let detail = match event.error {
            Some(v) => json::json_to_string(&v),
            None => "unknown".to_owned(),
        };
        Brought::Failure(text::concat2("Anthropic stream error: ", detail.as_str()))
    } else {
        Brought::Nothing
    }
}

/// Takes in the events that payloads were decoded to, up to the first error: the
/// fragments to show, which join the answer.
pub fn accept_events(
    stream: &mut AnswerStream,
    events: Vec<Result<StreamEvent, String>>,
) -> (shown: Vec<String>)
    ensures
        final(stream)@ == stream::taken_in(old(stream)@, all_bring(events@)),
        final(stream)@.fragments == old(stream)@.fragments + text::texts(shown@),
        final(stream).framing() == old(stream).framing(),
{
    let ghost all = events@;
    let mut brought: Vec<Brought> = Vec::new();
    for event in it: events
        invariant
            it.seq() == all,
            brought.len() == it.index(),
            forall|j: int|
                0 <= j < it.index() ==> (#[trigger] brought@[j])@ == decoded_brings(all[j]),
    {
        brought.push(brought_by(event));
    }
    proof {
        assert(stream::brought_views(brought@) =~= all_bring(all));
    }
    stream.take_in(brought)
}

// ---------------------------------------------------------------------------
// Models
// ---------------------------------------------------------------------------

/// A model as the API lists it.
#[derive(Debug)]
pub struct ApiModel {
    pub id: String,
    pub display_name: Option<String>,
}

/// What is said of a model that the API lists.
pub open spec fn model_listed(m: ApiModel) -> ModelView {
    ModelView {
        name: m.id@,
        detail: match m.display_name {
            Some(d) => d@,
            None => Seq::empty(),
        },
    }
}

/// The models that the API lists.
pub fn models_listed(models: Vec<ApiModel>) -> (r: Vec<ModelInfo>)
    ensures
        backend::model_views(r@) == Seq::new(models@.len(), |i: int| model_listed(models@[i])),
{
    let mut out: Vec<ModelInfo> = Vec::new();
    let mut i: usize = 0;
    while i < models.len()
        invariant
            i <= models.len(),
            out.len() == i,
            forall|j: int| 0 <= j < i ==> (#[trigger] out@[j])@ == model_listed(models@[j]),
        decreases models.len() - i,
    {
        let detail = match &models[i].display_name {
            Some(d) => d.clone(),
            None => String::new(),
        };
        out.push(ModelInfo { name: models[i].id.clone(), detail });
        i += 1;
    }
    proof {
        assert(backend::model_views(out@) =~= Seq::new(
            models@.len(),
            |i: int| model_listed(models@[i]),
        ));
    }
    out
}

// ---------------------------------------------------------------------------
// Laws
// ---------------------------------------------------------------------------

/// The turns of a history, parted.
proof fn lemma_parted(history: Seq<Entry>)
    ensures
        backend::dialogue(history).len() + history.filter(backend::from_system()).len()
            == history.len(),
        forall|i: int|
            0 <= i < backend::dialogue(history).len() ==> (#[trigger] backend::dialogue(
                history,
            )[i]).role != Role::System,
    decreases history.len(),
{
    reveal(Seq::filter);
    if history.len() > 0 {
        lemma_parted(history.drop_last());
    }
}

/// Only the user and the assistant speak on the wire, and no turn is lost: each is
/// a message there or a part of the system prompt.
pub proof fn law_the_wire_carries_the_dialogue(system: Option<Seq<char>>, history: Seq<Entry>)
    ensures
        forall|i: int|
            0 <= i < wire_of(history).len() ==> (#[trigger] wire_of(history)[i]).role == "user"@
                || wire_of(history)[i].role == "assistant"@,
        wire_of(history).len() + backend::system_parts(system, history).len() == history.len()
            + if system is Some {
            1int
        } else {
            0int
        },
{
    lemma_parted(history);
}


/// What each thing brings that a stream of the API offers, where `decode` says which event a
/// payload is, or why it is none.
pub open spec fn brings(decode: spec_fn(Seq<char>) -> Result<StreamEvent, Seq<char>>) -> spec_fn(
    NextView,
) -> Brings {
    |n: NextView|
        match n {
            NextView::Payload(p) => match decode(p) {
                Ok(e) => event_brings(e),
                Err(m) => Brings::Failure(m),
            },
            NextView::NotText(m) => Brings::Failure(m),
            NextView::Starved => Brings::Nothing,
        }
}

/// A chunk of an answer is read by taking in what it offers: where `offers` is what
/// [`AnswerStream::offered`] gives of it, and `decoded` what each of these is decoded
/// to, taking those in leads to where reading the chunk does.
pub proof fn law_a_chunk_is_read(
    r: Reading,
    chunk: Seq<u8>,
    offers: Seq<Result<String, String>>,
    decoded: Seq<Result<StreamEvent, String>>,
    decode: spec_fn(Seq<char>) -> Result<StreamEvent, Seq<char>>,
)
    requires
        r.failure is None,
        stream::offer_views(offers) == stream::drained(Framing::Sse, r.unread + chunk),
        decoded.len() == offers.len(),
        forall|i: int|
            0 <= i < offers.len() ==> decoded_brings(#[trigger] decoded[i]) == brings(decode)(
                stream::offer_view(offers[i]),
            ),
    ensures
        stream::taken_in(
            Reading { unread: stream::rest(Framing::Sse, r.unread + chunk), ..r },
            all_bring(decoded),
        ) == stream::chunk_read(Framing::Sse, r, chunk, brings(decode)),
{
    let views = stream::offer_views(offers);
    assert forall|i: int| 0 <= i < views.len() implies #[trigger] all_bring(decoded)[i] == brings(
        decode,
    )(views[i]) by {
        assert(decoded_brings(decoded[i]) == brings(decode)(stream::offer_view(offers[i])));
    }
    stream::law_a_chunk_is_offered_and_taken_in(
        Framing::Sse,
        r,
        chunk,
        views,
        all_bring(decoded),
        brings(decode),
    );
}

/// Where the bytes of an answer are cut into chunks changes nothing: the same
/// fragments are shown in the same order, and the answer or the error is the same.
pub proof fn law_cutting_changes_no_answer(
    a: Seq<Seq<u8>>,
    b: Seq<Seq<u8>>,
    decode: spec_fn(Seq<char>) -> Result<StreamEvent, Seq<char>>,
)
    requires
        a.flatten() == b.flatten(),
    ensures
        ({
            let x = stream::chunks_read(Framing::Sse, stream::unopened(), a, brings(decode));
            let y = stream::chunks_read(Framing::Sse, stream::unopened(), b, brings(decode));
            x.fragments == y.fragments && stream::reply(x) == stream::reply(y)
        }),
{
    stream::law_cutting_changes_no_answer(Framing::Sse, a, b, brings(decode));
}

/// The wire grows with the conversation: a turn of the assistant is added as a message
/// of the assistant, a turn of the user or of a tool as one of the user, each with
/// exactly its text, and a turn of the system adds none.
pub proof fn law_the_wire_grows_with_the_history(history: Seq<Entry>, e: Entry)
    ensures
        wire_of(Seq::empty()).len() == 0,
        e.role == Role::System ==> wire_of(history.push(e)) == wire_of(history),
        e.role == Role::Assistant ==> wire_of(history.push(e)) == wire_of(history).push(
            WireView { role: "assistant"@, content: e.content },
        ),
        e.role == Role::User || e.role == Role::Tool ==> wire_of(history.push(e)) == wire_of(
            history,
        ).push(WireView { role: "user"@, content: e.content }),
{
    reveal(Seq::filter);
    assert(history.push(e).drop_last() =~= history);
    let kept = backend::dialogue(history);
    if e.role != Role::System {
        assert(backend::dialogue(history.push(e)) =~= kept.push(e));
        assert(wire_of(history.push(e)) =~= wire_of(history).push(backend::on_wire()(e)));
    }
}

/// Each turn that is not the system's stands on the wire with exactly its text, in the
/// order of the history: the `i`-th message is the `i`-th such turn, under the name
/// `assistant` where the assistant speaks and `user` where the user or a tool does.
pub proof fn law_each_turn_stands_on_the_wire(history: Seq<Entry>)
    ensures
        forall|i: int|
            0 <= i < wire_of(history).len() ==> {
                let k = #[trigger] backend::place(history, i);
                &&& 0 <= k < history.len()
                &&& history[k].role != Role::System
                &&& wire_of(history)[i].content == history[k].content
                &&& wire_of(history)[i].role == if history[k].role == Role::Assistant {
                    "assistant"@
                } else {
                    "user"@
                }
            },
        forall|i: int, j: int|
            0 <= i < j < wire_of(history).len() ==> #[trigger] backend::place(history, i)
                < #[trigger] backend::place(history, j),
        forall|k: int|
            0 <= k < history.len() && history[k].role != Role::System ==> exists|i: int|
                0 <= i < wire_of(history).len() && #[trigger] backend::place(history, i) == k,
{
    backend::law_the_dialogue_keeps_order(history);
    assert(wire_of(history).len() == backend::dialogue(history).len());
}

/// The keys of a request are written as they are.
proof fn lemma_plain_keys()
    ensures
        json::plain("model"@),
        json::plain("max_tokens"@),
        json::plain("stream"@),
        json::plain("system"@),
        json::plain("messages"@),
{
    reveal_strlit("model");
    reveal_strlit("max_tokens");
    reveal_strlit("stream");
    reveal_strlit("system");
    reveal_strlit("messages");
}

/// What is posted for one turn, to the letter: the model, the limit and the wish for a
/// stream, the system prompt where there is one, and the messages.
pub proof fn law_what_is_posted(b: ClaudeView, system: Option<Seq<char>>, wire: Seq<WireView>)
    ensures
        request_body(b, system, wire) == json::written(
            seq![
                json::named("model"@, json::jstr(b.model)),
                json::named("max_tokens"@, text::decimal(b.max_tokens as nat)),
                json::named("stream"@, "true"@),
            ] + (match system {
                Some(s) => seq![json::named("system"@, json::jstr(s))],
                None => Seq::<Seq<char>>::empty(),
            }) + seq![json::named("messages"@, backend::jwires(wire))],
        ),
{
    lemma_plain_keys();
    let head = seq![
        ("model"@, json::jstr(b.model)),
        ("max_tokens"@, json::jint(b.max_tokens as int)),
        ("stream"@, "true"@),
    ];
    let last = seq![("messages"@, backend::jwires(wire))];
    let first = seq![
        json::named("model"@, json::jstr(b.model)),
        json::named("max_tokens"@, text::decimal(b.max_tokens as nat)),
        json::named("stream"@, "true"@),
    ];
    let end = seq![json::named("messages"@, backend::jwires(wire))];
    match system {
        Some(s) => {
            let m = head + seq![("system"@, json::jstr(s))] + last;
            json::lemma_written(m);
            assert(Seq::new(m.len(), |k: int| json::named(m[k].0, m[k].1)) =~= first + seq![
                json::named("system"@, json::jstr(s)),
            ] + end);
        },
        None => {
            let m = head + last;
            json::lemma_written(m);
            assert(Seq::new(m.len(), |k: int| json::named(m[k].0, m[k].1)) =~= first
                + Seq::<Seq<char>>::empty() + end);
        },
    }
}

/// A turn is posted to the messages of the API at its address, and its models are asked
/// for there, each time with the key and the version of the API.
pub proof fn law_where_it_is_posted(
    b: ClaudeBackend,
    system: Option<Seq<char>>,
    history: Seq<Entry>,
)
    ensures
        b.chat_sends(system, history) matches ChatView::Http(h) && {
            &&& h.url == b@.base_url + "/v1/messages"@
            &&& h.headers == seq![
                ("x-api-key"@, b@.api_key),
                ("anthropic-version"@, "2023-06-01"@),
                ("content-type"@, "application/json"@),
            ]
            &&& h.body == Some(
                request_body(b@, backend::merged_system(system, history), wire_of(history)),
            )
        },
        b.models_sends() matches ModelsView::Http(h) && {
            &&& h.url == b@.base_url + "/v1/models"@
            &&& h.headers == seq![
                ("x-api-key"@, b@.api_key),
                ("anthropic-version"@, "2023-06-01"@),
            ]
            &&& h.body is None
        },
{
}

/// Which events bring what: text that is not empty is a fragment of the answer, an
/// error fails the answer and says what the provider reported, and every other event
/// brings nothing.
pub proof fn law_what_an_event_brings(e: StreamEvent)
    ensures
        event_brings(e) is Fragment <==> e.kind@ == "content_block_delta"@ && e.delta is Some
            && e.delta->0.text is Some && e.delta->0.text->0@.len() > 0,
        event_brings(e) matches Brings::Fragment(t) ==> t == e.delta->0.text->0@,
        event_brings(e) is Failure <==> e.kind@ == "error"@,
        e.kind@ == "error"@ && e.error is Some ==> event_brings(e) == Brings::Failure(
            "Anthropic stream error: "@ + json::json_text(e.error->0),
        ),
        e.kind@ == "error"@ && e.error is None ==> event_brings(e) == Brings::Failure(
            "Anthropic stream error: "@ + "unknown"@,
        ),
        decoded_brings(Ok(e)) == event_brings(e),
{
    reveal_strlit("content_block_delta");
    reveal_strlit("error");
    assert("content_block_delta"@.len() != "error"@.len());
}

/// A payload that is no event fails the answer, with the reason.
pub proof fn law_what_is_no_event_fails(reason: String)
    ensures
        decoded_brings(Err(reason)) == Brings::Failure(reason@),
{
}

/// A model is listed under its id, with the name that it is shown by, if any.
pub proof fn law_a_model_is_listed(m: ApiModel)
    ensures
        model_listed(m).name == m.id@,
        m.display_name matches Some(d) ==> model_listed(m).detail == d@,
        m.display_name is None ==> model_listed(m).detail.len() == 0,
{
}

} // verus!
