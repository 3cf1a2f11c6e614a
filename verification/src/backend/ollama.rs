//! An Ollama server: native `/api/chat` with one JSON object per line, and
//! `/api/tags`.

use crate::backend;
use crate::backend::{
    Backend, ChatCall, ChatView, Entry, HttpCall, HttpView, Message, ModelInfo, ModelView,
    ModelsCall, ModelsView, Role, WireMessage, WireView,
};
use crate::json;
use crate::json::Record;
use crate::stream;
use crate::stream::{AnswerStream, Brings, Brought, Framing, NextView, Reading};
use crate::text;
use vstd::prelude::*;

verus! {

/// An Ollama server at some address.
pub struct OllamaBackend {
    base_url: String,
    model: String,
}

/// What the backend was set up with.
#[verifier::ext_equal]
pub struct OllamaView {
    pub base_url: Seq<char>,
    pub model: Seq<char>,
}

impl View for OllamaBackend {
    type V = OllamaView;

    closed spec fn view(&self) -> OllamaView {
        OllamaView { base_url: self.base_url@, model: self.model@ }
    }
}

/// The system prompt as a message on the wire.
pub open spec fn system_on_wire(system: Option<Seq<char>>) -> Seq<WireView> {
    match system {
        Some(s) => seq![WireView { role: "system"@, content: s }],
        None => Seq::empty(),
    }
}

/// The system prompt, where there is one, and then the whole history.
pub open spec fn wire_of(system: Option<Seq<char>>, history: Seq<Entry>) -> Seq<WireView> {
    system_on_wire(system) + history.map_values(backend::on_wire())
}

/// The body of a request for one turn.
pub open spec fn request_body(b: OllamaView, wire: Seq<WireView>) -> Seq<char> {
    json::jobj(
        seq![
            ("model"@, json::jstr(b.model)),
            ("messages"@, backend::jwires(wire)),
            ("stream"@, "true"@),
        ],
    )
}

/// The command protocol is plain text, so the result of a command is just
/// another turn of the user; everything maps onto the standard chat roles.
pub fn wire_role(role: Role) -> (r: &'static str)
    ensures
        r@ == backend::wire_name(role),
{
    match role {
        Role::System => "system",
        Role::Assistant => "assistant",
        Role::User | Role::Tool => "user",
    }
}

/// The messages of one turn as they go over the wire.
pub fn wire_messages(system: Option<&str>, messages: &[Message]) -> (wire: Vec<WireMessage>)
    ensures
        backend::wire_views(wire@) == wire_of(text::opt_str(system), backend::entries(messages@)),
{
    let ghost history = backend::entries(messages@);
    let ghost first = system_on_wire(text::opt_str(system));
    let mut wire: Vec<WireMessage> = Vec::new();
    if let Some(s) = system {
        wire.push(WireMessage { role: "system", content: s.to_owned() });
    }
    let mut i: usize = 0;
    proof {
        assert(backend::wire_views(wire@) =~= first + history.take(0).map_values(
            backend::on_wire(),
        ));
    }
    while i < messages.len()
        invariant
            i <= messages.len(),
            history == backend::entries(messages@),
            backend::wire_views(wire@) == first + history.take(i as int).map_values(
                backend::on_wire(),
            ),
        decreases messages.len() - i,
    {
        let ghost before = wire@;
        wire.push(
            WireMessage {
                role: wire_role(messages[i].role),
                content: messages[i].content.clone(),
            },
        );
        proof {
            let w = backend::on_wire()(history[i as int]);
            assert(history.take(i + 1).map_values(backend::on_wire()) =~= history.take(
                i as int,
            ).map_values(backend::on_wire()).push(w));
            assert(backend::wire_views(wire@) =~= backend::wire_views(before).push(w));
            assert(backend::wire_views(wire@) =~= first + history.take(i + 1).map_values(
                backend::on_wire(),
            ));
        }
        i += 1;
    }
    proof {
        assert(history.take(messages.len() as int) =~= history);
    }
    wire
}

impl OllamaBackend {
    /// The server at `base_url`, with the model to use.
    pub fn new(base_url: String, model: String) -> (b: OllamaBackend)
        ensures
            b@ == (OllamaView { base_url: base_url@, model: model@ }),
    {
        OllamaBackend { base_url, model }
    }
}

/// The exchange that lists the models.
pub open spec fn models_request(b: OllamaView) -> ModelsView {
    ModelsView::Http(
        HttpView { url: b.base_url + "/api/tags"@, headers: Seq::empty(), body: None },
    )
}

impl Backend for OllamaBackend {
    open spec fn chat_sends(&self, system: Option<Seq<char>>, history: Seq<Entry>) -> ChatView {
        ChatView::Http(
            HttpView {
                url: self@.base_url + "/api/chat"@,
                headers: seq![backend::json_header()],
                body: Some(request_body(self@, wire_of(system, history))),
            },
        )
    }

    open spec fn models_sends(&self) -> ModelsView {
        models_request(self@)
    }

    fn chat(&self, system: Option<&str>, messages: &[Message]) -> (c: ChatCall) {
        let wire = wire_messages(system, messages);
        let o = Record::new().with_str("model", self.model.as_str()).with_text(
            "messages",
            backend::wire_text(&wire),
        ).with("stream", json::json_bool(true));
        proof {
            assert(o@ =~= seq![
                ("model"@, json::jstr(self@.model)),
                ("messages"@, backend::jwires(backend::wire_views(wire@))),
                ("stream"@, "true"@),
            ]);
        }
        let body = o.text();
        let mut headers: Vec<(String, String)> = Vec::new();
        proof {
            assert(backend::header_views(headers@) =~= Seq::empty());
        }
        backend::push_json_header(&mut headers);
        proof {
            assert(backend::header_views(headers@) =~= seq![backend::json_header()]);
        }
        ChatCall::Http(
            HttpCall {
                url: text::concat2(self.base_url.as_str(), "/api/chat"),
                headers,
                body: Some(body),
            },
        )
    }

    fn list_models(&self) -> (c: ModelsCall) {
        let headers: Vec<(String, String)> = Vec::new();
        proof {
            assert(backend::header_views(headers@) =~= Seq::empty());
        }
        ModelsCall::Http(
            HttpCall {
                url: text::concat2(self.base_url.as_str(), "/api/tags"),
                headers,
                body: None,
            },
        )
    }
}

/// What is reported when the server refuses an exchange with this answer.
pub fn api_error(answer: &str) -> (r: String)
    ensures
        r@ == "Ollama API error: "@ + answer@,
{
    text::concat2("Ollama API error: ", answer)
}

// ---------------------------------------------------------------------------
// The stream of an answer
// ---------------------------------------------------------------------------

/// The part of an answer that a line carries.
#[derive(Debug)]
pub struct ChatChunkMessage {
    pub content: String,
}

/// One line of the stream of an answer.
#[derive(Debug)]
pub struct ChatChunk {
    pub message: Option<ChatChunkMessage>,
}

/// The fragment of the answer that a line brings, if any.
pub open spec fn chunk_brings(c: ChatChunk) -> Option<Seq<char>> {
    match c.message {
        Some(m) => if m.content@.len() == 0 {
            None
        } else {
            Some(m.content@)
        },
        None => None,
    }
}

/// What a line brings, or why it holds nothing.
pub open spec fn decoded_brings(decoded: Result<ChatChunk, String>) -> Brings {
    match decoded {
        Ok(c) => match chunk_brings(c) {
            Some(t) => Brings::Fragment(t),
            None => Brings::Nothing,
        },
        Err(m) => Brings::Failure(m@),
    }
}

/// What lines bring.
pub open spec fn all_bring(chunks: Seq<Result<ChatChunk, String>>) -> Seq<Brings> {
    Seq::new(chunks.len(), |i: int| decoded_brings(chunks[i]))
}

/// What a line brings, or why it holds nothing.
fn brought_by(decoded: Result<ChatChunk, String>) -> (b: Brought)
    ensures
        b@ == decoded_brings(decoded),
{
    match decoded {
        Ok(ChatChunk { message: Some(m) }) => {
            if m.content.as_str().is_empty() {
                Brought::Nothing
            } else {
                Brought::Fragment(m.content)
            }
        },
        Ok(_) => Brought::Nothing,
        Err(m) => Brought::Failure(m),
    }
}

/// Takes in what payloads were decoded to, up to the first error: the fragments to
/// show, which join the answer.
pub fn accept_chunks(
    stream: &mut AnswerStream,
    chunks: Vec<Result<ChatChunk, String>>,
) -> (shown: Vec<String>)
    ensures
        final(stream)@ == stream::taken_in(old(stream)@, all_bring(chunks@)),
        final(stream)@.fragments == old(stream)@.fragments + text::texts(shown@),
        final(stream).framing() == old(stream).framing(),
{
    let ghost all = chunks@;
    let mut brought: Vec<Brought> = Vec::new();
    for chunk in it: chunks
        invariant
            it.seq() == all,
            brought.len() == it.index(),
            forall|j: int|
                0 <= j < it.index() ==> (#[trigger] brought@[j])@ == decoded_brings(all[j]),
    {
        brought.push(brought_by(chunk));
    }
    proof {
        assert(stream::brought_views(brought@) =~= all_bring(all));
    }
    stream.take_in(brought)
}

// ---------------------------------------------------------------------------
// Models
// ---------------------------------------------------------------------------

/// A model as the server lists it. `gigabytes` is its size in units of 2^30
/// bytes, already rounded for display.
#[derive(Debug)]
pub struct TagModel {
    pub name: String,
    pub gigabytes: String,
    pub modified_at: String,
}

/// What is said of a model that the server lists.
pub open spec fn model_listed(m: TagModel) -> ModelView {
    ModelView { name: m.name@, detail: m.gigabytes@ + " GB  "@ + m.modified_at@ }
}

/// The models that the server lists.
pub fn models_listed(models: Vec<TagModel>) -> (r: Vec<ModelInfo>)
    ensures
        backend::model_views(r@) == Seq::new(models@.len(), |i: int| model_listed(models@[i])),
{
    let mut out: Vec<ModelInfo> = Vec::new();
    let mut i: usize = 0;
    while i < models.len()
        invariant
            i <= models.len(),
            out.len() == i,
            forall|j: int| 0 <= j < i ==> (#[trigger] out@[j])@ == model_listed(models@[j]),
        decreases models.len() - i,
    {
        let detail = text::concat3(
            models[i].gigabytes.as_str(),
            " GB  ",
            models[i].modified_at.as_str(),
        );
        out.push(ModelInfo { name: models[i].name.clone(), detail });
        i += 1;
    }
    proof {
        assert(backend::model_views(out@) =~= Seq::new(
            models@.len(),
            |i: int| model_listed(models@[i]),
        ));
    }
    out
}

// ---------------------------------------------------------------------------
// Laws
// ---------------------------------------------------------------------------

/// Every turn goes over the wire with its text and in its place, behind the
/// system prompt where there is one; and nobody speaks there but the system, the
/// user and the assistant.
pub proof fn law_every_turn_goes_over_the_wire(system: Option<Seq<char>>, history: Seq<Entry>)
    ensures
        ({
            let wire = wire_of(system, history);
            let first = if system is Some {
                1int
            } else {
                0int
            };
            &&& wire.len() == first + history.len()
            &&& system is Some ==> wire[0].content == system->0
            &&& forall|i: int|
                0 <= i < history.len() ==> (#[trigger] wire[first + i]).content
                    == history[i].content
            &&& forall|i: int|
                0 <= i < wire.len() ==> (#[trigger] wire[i]).role == "system"@ || wire[i].role
                    == "user"@ || wire[i].role == "assistant"@
        }),
{
}


/// What each thing brings that a stream of the server offers, where `decode` says
/// what a line holds, or why it holds nothing.
pub open spec fn brings(decode: spec_fn(Seq<char>) -> Result<ChatChunk, Seq<char>>) -> spec_fn(
    NextView,
) -> Brings {
    |n: NextView|
        match n {
            NextView::Payload(p) => match decode(p) {
                Ok(c) => match chunk_brings(c) {
                    Some(t) => Brings::Fragment(t),
                    None => Brings::Nothing,
                },
                Err(m) => Brings::Failure(m),
            },
            NextView::NotText(m) => Brings::Failure(m),
            NextView::Starved => Brings::Nothing,
        }
}

/// A chunk of an answer is read by taking in what it offers: where `offers` is what
/// [`AnswerStream::offered`] gives of it, and `decoded` what each of these is decoded
/// to, taking those in leads to where reading the chunk does.
pub proof fn law_a_chunk_is_read(
    r: Reading,
    chunk: Seq<u8>,
    offers: Seq<Result<String, String>>,
    decoded: Seq<Result<ChatChunk, String>>,
    decode: spec_fn(Seq<char>) -> Result<ChatChunk, Seq<char>>,
)
    requires
        r.failure is None,
        stream::offer_views(offers) == stream::drained(Framing::Ndjson, r.unread + chunk),
        decoded.len() == offers.len(),
        forall|i: int|
            0 <= i < offers.len() ==> decoded_brings(#[trigger] decoded[i]) == brings(decode)(
                stream::offer_view(offers[i]),
            ),
    ensures
        stream::taken_in(
            Reading { unread: stream::rest(Framing::Ndjson, r.unread + chunk), ..r },
            all_bring(decoded),
        ) == stream::chunk_read(Framing::Ndjson, r, chunk, brings(decode)),
{
    let views = stream::offer_views(offers);
    assert forall|i: int| 0 <= i < views.len() implies #[trigger] all_bring(decoded)[i] == brings(
        decode,
    )(views[i]) by {
        assert(decoded_brings(decoded[i]) == brings(decode)(stream::offer_view(offers[i])));
    }
    stream::law_a_chunk_is_offered_and_taken_in(
        Framing::Ndjson,
        r,
        chunk,
        views,
        all_bring(decoded),
        brings(decode),
    );
}

/// Where the bytes of an answer are cut into chunks changes nothing: the same
/// fragments are shown in the same order, and the answer or the error is the same.
pub proof fn law_cutting_changes_no_answer(
    a: Seq<Seq<u8>>,
    b: Seq<Seq<u8>>,
    decode: spec_fn(Seq<char>) -> Result<ChatChunk, Seq<char>>,
)
    requires
        a.flatten() == b.flatten(),
    ensures
        ({
            let x = stream::chunks_read(Framing::Ndjson, stream::unopened(), a, brings(decode));
            let y = stream::chunks_read(Framing::Ndjson, stream::unopened(), b, brings(decode));
            x.fragments == y.fragments && stream::reply(x) == stream::reply(y)
        }),
{
    stream::law_cutting_changes_no_answer(Framing::Ndjson, a, b, brings(decode));
}

/// The system prompt goes first, under the name `system`. Every turn follows with
/// exactly its text: the assistant's under the name `assistant`, those of the user and
/// of tools under `user`, and those of the system under `system`.
pub proof fn law_who_speaks_on_the_wire(system: Option<Seq<char>>, history: Seq<Entry>, e: Entry)
    ensures
        system matches Some(s) ==> wire_of(system, Seq::empty()) == seq![
            WireView { role: "system"@, content: s },
        ],
        system is None ==> wire_of(system, Seq::empty()).len() == 0,
        wire_of(system, history.push(e)) == wire_of(system, history).push(
            WireView {
                role: match e.role {
                    Role::System => "system"@,
                    Role::User => "user"@,
                    Role::Assistant => "assistant"@,
                    Role::Tool => "user"@,
                },
                content: e.content,
            },
        ),
{
    let none = Seq::<Entry>::empty();
    assert(none.map_values(backend::on_wire()) =~= Seq::<WireView>::empty());
    assert(wire_of(system, none) =~= system_on_wire(system));
    assert(history.push(e).map_values(backend::on_wire()) =~= history.map_values(
        backend::on_wire(),
    ).push(backend::on_wire()(e)));
    assert(wire_of(system, history.push(e)) =~= wire_of(system, history).push(
        backend::on_wire()(e),
    ));
}

/// What is posted for one turn, to the letter: the model, the messages and the wish for
/// a stream.
pub proof fn law_what_is_posted(b: OllamaView, wire: Seq<WireView>)
    ensures
        request_body(b, wire) == json::written(
            seq![
                json::named("model"@, json::jstr(b.model)),
                json::named("messages"@, backend::jwires(wire)),
                json::named("stream"@, "true"@),
            ],
        ),
{
    reveal_strlit("model");
    reveal_strlit("messages");
    reveal_strlit("stream");
    let m = seq![
        ("model"@, json::jstr(b.model)),
        ("messages"@, backend::jwires(wire)),
        ("stream"@, "true"@),
    ];
    json::lemma_written(m);
    assert(Seq::new(m.len(), |k: int| json::named(m[k].0, m[k].1)) =~= seq![
        json::named("model"@, json::jstr(b.model)),
        json::named("messages"@, backend::jwires(wire)),
        json::named("stream"@, "true"@),
    ]);
}

/// A turn is posted to the chat of the server at its address, and its models are asked
/// for there.
pub proof fn law_where_it_is_posted(
    b: OllamaBackend,
    system: Option<Seq<char>>,
    history: Seq<Entry>,
)
    ensures
        b.chat_sends(system, history) matches ChatView::Http(h) && {
            &&& h.url == b@.base_url + "/api/chat"@
            &&& h.headers == seq![("content-type"@, "application/json"@)]
            &&& h.body == Some(request_body(b@, wire_of(system, history)))
        },
        b.models_sends() matches ModelsView::Http(h) && {
            &&& h.url == b@.base_url + "/api/tags"@
            &&& h.headers.len() == 0
            &&& h.body is None
        },
{
}

/// A line brings its text where that is not empty; a line that cannot be decoded fails
/// the answer, with the reason; and any other line brings nothing.
pub proof fn law_what_a_line_brings(c: ChatChunk, reason: String)
    ensures
        chunk_brings(c) is Some <==> c.message is Some && c.message->0.content@.len() > 0,
        chunk_brings(c) matches Some(t) ==> t == c.message->0.content@ && decoded_brings(Ok(c))
            == Brings::Fragment(t),
        chunk_brings(c) is None ==> decoded_brings(Ok(c)) == Brings::Nothing,
        decoded_brings(Err(reason)) == Brings::Failure(reason@),
{
}

/// A model is listed under its name, with its size and the time of its last change.
pub proof fn law_a_model_is_listed(m: TagModel)
    ensures
        model_listed(m).name == m.name@,
        model_listed(m).detail == m.gigabytes@ + " GB  "@ + m.modified_at@,
{
}

} // verus!
