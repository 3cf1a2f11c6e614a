//! Framing: how the bytes of a streamed answer become the payloads of its lines.

use crate::text;
use vstd::prelude::*;
use vstd::utf8::*;

verus! {

// ---------------------------------------------------------------------------
// Lines of bytes
// ---------------------------------------------------------------------------

/// The lines of `b` that are complete, each with the line feed that ends it.
pub open spec fn complete_lines(b: Seq<u8>) -> Seq<Seq<u8>>
    decreases b.len(),
{
    let i = text::first_index(b, 10u8);
    if 0 <= i < b.len() {
        seq![b.take(i + 1)] + complete_lines(b.skip(i + 1))
    } else {
        Seq::empty()
    }
}

/// What stands behind the last complete line of `b`.
pub open spec fn unfinished(b: Seq<u8>) -> Seq<u8>
    decreases b.len(),
{
    let i = text::first_index(b, 10u8);
    if 0 <= i < b.len() {
        unfinished(b.skip(i + 1))
    } else {
        b
    }
}

/// Where a stream is cut into chunks makes no difference: the lines of two
/// chunks are those of the first, and then those of the second behind what the
/// first left unfinished.
pub proof fn law_chunking_is_irrelevant(a: Seq<u8>, b: Seq<u8>)
    ensures
        complete_lines(a + b) == complete_lines(a) + complete_lines(unfinished(a) + b),
        unfinished(a + b) == unfinished(unfinished(a) + b),
    decreases a.len(),
{
    text::lemma_first_index(a, 10u8);
    text::lemma_first_index_append(a, b, 10u8);
    let i = text::first_index(a, 10u8);
    if i < a.len() {
        let t = a.skip(i + 1);
        law_chunking_is_irrelevant(t, b);
        assert((a + b).take(i + 1) =~= a.take(i + 1));
        assert((a + b).skip(i + 1) =~= t + b);
        let head = seq![a.take(i + 1)];
        assert(head + (complete_lines(t) + complete_lines(unfinished(t) + b)) =~= (head
            + complete_lines(t)) + complete_lines(unfinished(t) + b));
    } else {
        assert(complete_lines(a) + complete_lines(a + b) =~= complete_lines(a + b));
    }
}

/// No byte is lost: the complete lines and the unfinished rest are the stream.
pub proof fn law_framing_keeps_every_byte(b: Seq<u8>)
    ensures
        complete_lines(b).flatten() + unfinished(b) == b,
    decreases b.len(),
{
    text::lemma_first_index(b, 10u8);
    let i = text::first_index(b, 10u8);
    if i < b.len() {
        let t = b.skip(i + 1);
        law_framing_keeps_every_byte(t);
        let ls = complete_lines(b);
        assert(ls.first() == b.take(i + 1));
        assert(ls.drop_first() =~= complete_lines(t));
        assert(ls.flatten() == ls.first() + ls.drop_first().flatten());
        assert(b.take(i + 1) + complete_lines(t).flatten() + unfinished(t) =~= b.take(i + 1) + (
        complete_lines(t).flatten() + unfinished(t)));
        assert(b.take(i + 1) + t =~= b);
    } else {
        assert(complete_lines(b).flatten() + b =~= b);
    }
}

/// Bytes that have arrived and have not been read yet.
pub struct LineBuffer {
    bytes: Vec<u8>,
}

impl View for LineBuffer {
    type V = Seq<u8>;

    closed spec fn view(&self) -> Seq<u8> {
        self.bytes@
    }
}

impl LineBuffer {
    /// A buffer with nothing in it.
    pub fn new() -> (b: LineBuffer)
        ensures
            b@ == Seq::<u8>::empty(),
    {
        LineBuffer { bytes: Vec::new() }
    }

    /// Puts a chunk behind what is there.
    pub fn feed(&mut self, chunk: &[u8])
        ensures
            final(self)@ == old(self)@ + chunk@,
    {
        let ghost before = self.bytes@;
        self.bytes.extend_from_slice(chunk);
        proof {
            assert(self.bytes@ =~= before + chunk@);
        }
    }

    /// Takes the first complete line out, with its line feed.
    pub fn take_line(&mut self) -> (r: Option<Vec<u8>>)
        ensures
            match r {
                Some(line) => {
                    let i = text::first_index(old(self)@, 10u8);
                    &&& i < old(self)@.len()
                    &&& line@ == old(self)@.take(i + 1)
                    &&& final(self)@ == old(self)@.skip(i + 1)
                },
                None => text::first_index(old(self)@, 10u8) == old(self)@.len() && final(self)@ == old(
                    self,
                )@,
            },
    {
        let n: usize = self.bytes.len();
        let mut i: usize = 0;
        while i < n && self.bytes[i] != 10u8
            invariant
                n == self.bytes.len(),
                self.bytes@ == old(self).bytes@,
                i <= n,
                forall|j: int| 0 <= j < i ==> #[trigger] self.bytes@[j] != 10u8,
            decreases n - i,
        {
            i += 1;
        }
        proof {
            text::lemma_first_index_at(self.bytes@, 10u8, i as int);
        }
        if i == n {
            return None;
        }
        let rest = self.bytes.split_off(i + 1);
        let mut line = rest;
        std::mem::swap(&mut line, &mut self.bytes);
        proof {
            assert(line@ =~= old(self)@.take(i + 1));
            assert(self@ =~= old(self)@.skip(i + 1));
        }
        Some(line)
    }
}

// ---------------------------------------------------------------------------
// Payloads
// ---------------------------------------------------------------------------

/// What `std::str::from_utf8` says of bytes that are not UTF-8, as the text of its
/// error.
pub uninterp spec fn utf8_error(bytes: Seq<u8>) -> Seq<char>;

/// `std::str::from_utf8`: the text that the bytes encode, if they are UTF-8, and
/// otherwise the text of its error, which depends on the bytes alone.
#[verifier::external_body]
pub(crate) fn utf8_text(bytes: &[u8]) -> (r: Result<&str, String>)
    ensures
        match r {
            Ok(s) => valid_utf8(bytes@) && s@ == decode_utf8(bytes@),
            Err(e) => !valid_utf8(bytes@) && e@ == utf8_error(bytes@),
        },
{
    match std::str::from_utf8(bytes) {
        Ok(s) => Ok(s),
        Err(e) => Err(e.to_string()),
    }
}

/// How a provider puts its payloads on lines.
#[derive(Clone, Copy, Debug, PartialEq, Eq, Structural)]
pub enum Framing {
    /// One payload on each line that is not blank.
    Ndjson,
    /// A payload on each line that starts with `data:`; other lines say nothing.
    Sse,
}

/// The payload of a line, if it has one.
pub open spec fn line_payload(framing: Framing, line: Seq<char>) -> Option<Seq<char>> {
    let said = match framing {
        Framing::Ndjson => Some(text::trim(line)),
        Framing::Sse => match text::strip_prefix(text::trim(line), "data:"@) {
            Some(rest) => Some(text::trim(rest)),
            None => None,
        },
    };
    match said {
        Some(text) => if text.len() == 0 {
            None
        } else {
            Some(text)
        },
        None => None,
    }
}

/// The payload of `line`, if it has one.
pub fn line_payload_of(framing: Framing, line: &str) -> (r: Option<String>)
    ensures
        match r {
            Some(p) => line_payload(framing, line@) == Some(p@),
            None => line_payload(framing, line@) is None,
        },
{
    let line = text::trim_of(line);
    let said = match framing {
        Framing::Ndjson => line,
        Framing::Sse => match text::strip_prefix_of(line, "data:") {
            Some(rest) => text::trim_of(rest),
            None => {
                return None;
            },
        },
    };
    if said.is_empty() {
        None
    } else {
        Some(said.to_owned())
    }
}

/// What a stream has to offer next.
#[verifier::ext_equal]
pub enum NextView {
    /// This payload.
    Payload(Seq<char>),
    /// Nothing before more bytes arrive.
    Starved,
    /// A line that is not UTF-8, with what is said of it.
    NotText(Seq<char>),
}

/// The first payload among the complete lines of `b`.
pub open spec fn next_payload(framing: Framing, b: Seq<u8>) -> NextView
    decreases b.len(),
{
    let i = text::first_index(b, 10u8);
    if !(0 <= i < b.len()) {
        NextView::Starved
    } else if !valid_utf8(b.take(i + 1)) {
        NextView::NotText(utf8_error(b.take(i + 1)))
    } else {
        match line_payload(framing, decode_utf8(b.take(i + 1))) {
            Some(p) => NextView::Payload(p),
            None => next_payload(framing, b.skip(i + 1)),
        }
    }
}

/// What is left of `b` once that payload has been read.
pub open spec fn after_payload(framing: Framing, b: Seq<u8>) -> Seq<u8>
    decreases b.len(),
{
    let i = text::first_index(b, 10u8);
    if !(0 <= i < b.len()) {
        b
    } else if !valid_utf8(b.take(i + 1)) {
        b.skip(i + 1)
    } else {
        match line_payload(framing, decode_utf8(b.take(i + 1))) {
            Some(_) => b.skip(i + 1),
            None => after_payload(framing, b.skip(i + 1)),
        }
    }
}

/// What a stream has to offer next.
#[derive(Debug)]
pub enum Next {
    /// This payload.
    Payload(String),
    /// Nothing before more bytes arrive.
    Starved,
    /// A line that is not UTF-8, with what is said of it.
    NotText(String),
}

impl View for Next {
    type V = NextView;

    open spec fn view(&self) -> NextView {
        match self {
            Next::Payload(p) => NextView::Payload(p@),
            Next::Starved => NextView::Starved,
            Next::NotText(e) => NextView::NotText(e@),
        }
    }
}

// ---------------------------------------------------------------------------
// Whole streams
// ---------------------------------------------------------------------------

/// Reading a payload uses bytes up.
pub proof fn lemma_shorter(framing: Framing, b: Seq<u8>)
    ensures
        next_payload(framing, b) !is Starved ==> after_payload(framing, b).len() < b.len(),
    decreases b.len(),
{
    text::lemma_first_index(b, 10u8);
    let i = text::first_index(b, 10u8);
    if i < b.len() {
        lemma_shorter(framing, b.skip(i + 1));
    }
}

/// Everything that a stream offers until it starves.
pub open spec fn drained(framing: Framing, b: Seq<u8>) -> Seq<NextView>
    decreases b.len(),
{
    if next_payload(framing, b) is Starved {
        Seq::empty()
    } else {
        proof {
            lemma_shorter(framing, b);
        }
        seq![next_payload(framing, b)] + drained(framing, after_payload(framing, b))
    }
}

/// What is left unread when a stream starves.
pub open spec fn rest(framing: Framing, b: Seq<u8>) -> Seq<u8>
    decreases b.len(),
{
    if next_payload(framing, b) is Starved {
        after_payload(framing, b)
    } else {
        proof {
            lemma_shorter(framing, b);
        }
        rest(framing, after_payload(framing, b))
    }
}

/// What a complete line offers.
spec fn line_offers(framing: Framing, line: Seq<u8>) -> Option<NextView> {
    if !valid_utf8(line) {
        Some(NextView::NotText(utf8_error(line)))
    } else {
        match line_payload(framing, decode_utf8(line)) {
            Some(p) => Some(NextView::Payload(p)),
            None => None,
        }
    }
}

/// What complete lines offer.
spec fn lines_offer(framing: Framing, lines: Seq<Seq<u8>>) -> Seq<NextView>
    decreases lines.len(),
{
    if lines.len() == 0 {
        Seq::empty()
    } else {
        match line_offers(framing, lines[0]) {
            Some(n) => seq![n] + lines_offer(framing, lines.drop_first()),
            None => lines_offer(framing, lines.drop_first()),
        }
    }
}

/// A stream offers what its complete lines do, and leaves the unfinished one.
proof fn lemma_drained(framing: Framing, b: Seq<u8>)
    ensures
        drained(framing, b) == lines_offer(framing, complete_lines(b)),
        rest(framing, b) == unfinished(b),
    decreases b.len(),
{
    text::lemma_first_index(b, 10u8);
    let i = text::first_index(b, 10u8);
    if i < b.len() {
        let t = b.skip(i + 1);
        lemma_drained(framing, t);
        assert(complete_lines(b).drop_first() =~= complete_lines(t));
        assert(complete_lines(b)[0] == b.take(i + 1));
        match line_offers(framing, b.take(i + 1)) {
            Some(n) => {
                assert(next_payload(framing, b) == n);
                assert(after_payload(framing, b) == t);
            },
            None => {
                assert(next_payload(framing, b) == next_payload(framing, t));
                assert(after_payload(framing, b) == after_payload(framing, t));
            },
        }
    } else {
        assert(complete_lines(b) =~= Seq::empty());
    }
}

/// Lines offer what the first and what the others do.
proof fn lemma_lines_offer(framing: Framing, a: Seq<Seq<u8>>, b: Seq<Seq<u8>>)
    ensures
        lines_offer(framing, a + b) == lines_offer(framing, a) + lines_offer(framing, b),
    decreases a.len(),
{
    if a.len() == 0 {
        assert(a + b =~= b);
        assert(lines_offer(framing, a) + lines_offer(framing, b) =~= lines_offer(framing, b));
    } else {
        lemma_lines_offer(framing, a.drop_first(), b);
        assert((a + b).drop_first() =~= a.drop_first() + b);
        assert((a + b)[0] == a[0]);
        if let Some(n) = line_offers(framing, a[0]) {
            let x = lines_offer(framing, a.drop_first());
            let y = lines_offer(framing, b);
            assert(seq![n] + (x + y) =~= (seq![n] + x) + y);
        }
    }
}

/// Where a stream is cut makes no difference to what it offers: reading all that
/// one chunk offers, and then all that the next one does, gives what both give at
/// once and leaves the same unread.
pub proof fn law_chunks_offer_the_same(framing: Framing, a: Seq<u8>, b: Seq<u8>)
    ensures
        drained(framing, a + b) == drained(framing, a) + drained(framing, rest(framing, a) + b),
        rest(framing, a + b) == rest(framing, rest(framing, a) + b),
{
    law_chunking_is_irrelevant(a, b);
    lemma_drained(framing, a);
    lemma_drained(framing, a + b);
    lemma_drained(framing, rest(framing, a) + b);
    lemma_lines_offer(framing, complete_lines(a), complete_lines(unfinished(a) + b));
}

/// What is unread when a stream starves offers nothing.
proof fn lemma_starved(framing: Framing, b: Seq<u8>)
    ensures
        drained(framing, rest(framing, b)) == Seq::<NextView>::empty(),
        rest(framing, rest(framing, b)) == rest(framing, b),
{
    lemma_drained(framing, b);
    lemma_drained(framing, rest(framing, b));
    lemma_unfinished(b);
}

/// What is unfinished has no complete line.
proof fn lemma_unfinished(b: Seq<u8>)
    ensures
        complete_lines(unfinished(b)) == Seq::<Seq<u8>>::empty(),
        unfinished(unfinished(b)) == unfinished(b),
    decreases b.len(),
{
    text::lemma_first_index(b, 10u8);
    let i = text::first_index(b, 10u8);
    if i < b.len() {
        lemma_unfinished(b.skip(i + 1));
    }
}

/// What a payload brings.
#[derive(Debug)]
pub enum Brought {
    /// A fragment of the answer.
    Fragment(String),
    /// Nothing of interest.
    Nothing,
    /// An error, with this message.
    Failure(String),
}

/// What a payload brings.
#[verifier::ext_equal]
pub enum Brings {
    Fragment(Seq<char>),
    Nothing,
    Failure(Seq<char>),
}

impl View for Brought {
    type V = Brings;

    open spec fn view(&self) -> Brings {
        match self {
            Brought::Fragment(t) => Brings::Fragment(t@),
            Brought::Nothing => Brings::Nothing,
            Brought::Failure(m) => Brings::Failure(m@),
        }
    }
}

/// What payloads bring.
pub open spec fn brought_views(brought: Seq<Brought>) -> Seq<Brings> {
    Seq::new(brought.len(), |i: int| brought[i]@)
}

/// Somebody who reads an answer: the bytes not read yet, the fragments so far, and
/// the error that ended it.
#[verifier::ext_equal]
pub struct Reading {
    pub unread: Seq<u8>,
    pub fragments: Seq<Seq<char>>,
    pub failure: Option<Seq<char>>,
}

/// Nothing has been read.
pub open spec fn unopened() -> Reading {
    Reading { unread: Seq::empty(), fragments: Seq::empty(), failure: None }
}

/// A reading that has come to one more thing.
pub open spec fn with_brought(r: Reading, b: Brings) -> Reading {
    match b {
        Brings::Fragment(t) => Reading { fragments: r.fragments.push(t), ..r },
        Brings::Nothing => r,
        Brings::Failure(m) => Reading { failure: Some(m), ..r },
    }
}

/// Reading what payloads bring, up to the first error.
pub open spec fn taken_in(r: Reading, brought: Seq<Brings>) -> Reading
    decreases brought.len(),
{
    if brought.len() == 0 || r.failure is Some {
        r
    } else {
        taken_in(with_brought(r, brought[0]), brought.drop_first())
    }
}

/// Reading one chunk, where `means` says what each thing brings that is offered.
/// Nothing is read behind an error.
pub open spec fn chunk_read(
    framing: Framing,
    r: Reading,
    chunk: Seq<u8>,
    means: spec_fn(NextView) -> Brings,
) -> Reading {
    if r.failure is Some {
        r
    } else {
        let all = r.unread + chunk;
        taken_in(
            Reading { unread: rest(framing, all), ..r },
            drained(framing, all).map_values(means),
        )
    }
}

/// Reading chunk after chunk.
pub open spec fn chunks_read(
    framing: Framing,
    r: Reading,
    chunks: Seq<Seq<u8>>,
    means: spec_fn(NextView) -> Brings,
) -> Reading
    decreases chunks.len(),
{
    if chunks.len() == 0 {
        r
    } else {
        chunks_read(framing, chunk_read(framing, r, chunks[0], means), chunks.drop_first(), means)
    }
}

/// What comes of an answer: its fragments put together, or the error that ended it.
pub open spec fn reply(r: Reading) -> Result<Seq<char>, Seq<char>> {
    match r.failure {
        Some(m) => Err(m),
        None => Ok(text::join(r.fragments, ""@)),
    }
}

/// What a stream offers: the payload of a line, or what is said of a line that is not
/// UTF-8.
pub open spec fn offer_view(offer: Result<String, String>) -> NextView {
    match offer {
        Ok(p) => NextView::Payload(p@),
        Err(e) => NextView::NotText(e@),
    }
}

/// What a stream offers.
pub open spec fn offer_views(offers: Seq<Result<String, String>>) -> Seq<NextView> {
    Seq::new(offers.len(), |i: int| offer_view(offers[i]))
}

/// A streamed answer that is being read.
pub struct AnswerStream {
    framing: Framing,
    buffer: LineBuffer,
    fragments: Vec<String>,
    failure: Option<String>,
}

impl View for AnswerStream {
    type V = Reading;

    closed spec fn view(&self) -> Reading {
        Reading {
            unread: self.buffer@,
            fragments: text::texts(self.fragments@),
            failure: text::opt_text(self.failure),
        }
    }
}

impl AnswerStream {
    /// How this stream is framed.
    pub closed spec fn framing(&self) -> Framing {
        self.framing
    }

    /// A stream of which nothing has arrived.
    pub fn new(framing: Framing) -> (s: AnswerStream)
        ensures
            s.framing() == framing,
            s@ == unopened(),
    {
        let s = AnswerStream {
            framing,
            buffer: LineBuffer::new(),
            fragments: Vec::new(),
            failure: None,
        };
        proof {
            assert(s@ =~= unopened());
        }
        s
    }

    /// The next thing that the stream offers. Bytes behind the last line feed wait for
    /// the rest of their line.
    pub fn next(&mut self) -> (r: Next)
        ensures
            r@ == next_payload(old(self).framing(), old(self)@.unread),
            final(self)@ == (Reading {
                unread: after_payload(old(self).framing(), old(self)@.unread),
                ..old(self)@
            }),
            final(self).framing() == old(self).framing(),
    {
        loop
            invariant
                self.framing() == old(self).framing(),
                self@.fragments == old(self)@.fragments,
                self@.failure == old(self)@.failure,
                next_payload(old(self).framing(), old(self)@.unread) == next_payload(
                    self.framing(),
                    self@.unread,
                ),
                after_payload(old(self).framing(), old(self)@.unread) == after_payload(
                    self.framing(),
                    self@.unread,
                ),
            decreases self@.unread.len(),
        {
            let ghost b = self@.unread;
            proof {
                text::lemma_first_index(b, 10u8);
            }
            match self.buffer.take_line() {
                None => {
                    return Next::Starved;
                },
                Some(line) => match utf8_text(line.as_slice()) {
                    Err(e) => {
                        return Next::NotText(e);
                    },
                    Ok(s) => {
                        if let Some(p) = line_payload_of(self.framing, s) {
                            return Next::Payload(p);
                        }
                    },
                },
            }
        }
    }

    /// A chunk arrives: everything that the stream offers with it. An answer that an
    /// error has ended offers nothing more.
    pub fn offered(&mut self, chunk: &[u8]) -> (r: Vec<Result<String, String>>)
        ensures
            final(self).framing() == old(self).framing(),
            if old(self)@.failure is Some {
                r@.len() == 0 && final(self)@ == old(self)@
            } else {
                let all = old(self)@.unread + chunk@;
                &&& offer_views(r@) == drained(old(self).framing(), all)
                &&& final(self)@ == (Reading {
                    unread: rest(old(self).framing(), all),
                    ..old(self)@
                })
            },
    {
        let mut out: Vec<Result<String, String>> = Vec::new();
        if self.failure.is_some() {
            return out;
        }
        let ghost framing = self.framing();
        let ghost all = self@.unread + chunk@;
        self.buffer.feed(chunk);
        proof {
            assert(offer_views(out@) + drained(framing, all) =~= drained(framing, all));
        }
        loop
            invariant_except_break
                drained(framing, all) == offer_views(out@) + drained(framing, self@.unread),
                rest(framing, all) == rest(framing, self@.unread),
            invariant
                framing == self.framing(),
                framing == old(self).framing(),
                self@.fragments == old(self)@.fragments,
                self@.failure == old(self)@.failure,
            ensures
                drained(framing, all) == offer_views(out@),
                rest(framing, all) == self@.unread,
            decreases self@.unread.len(),
        {
            let ghost b = self@.unread;
            let ghost before = out@;
            proof {
                lemma_shorter(framing, b);
            }
            match self.next() {
                Next::Starved => {
                    proof {
                        assert(offer_views(out@) + Seq::<NextView>::empty() =~= offer_views(out@));
                    }
                    break;
                },
                Next::Payload(p) => out.push(Ok(p)),
                Next::NotText(e) => out.push(Err(e)),
            }
            proof {
                let n = next_payload(framing, b);
                assert(offer_views(out@) =~= offer_views(before).push(n));
                assert(offer_views(before).push(n) + drained(framing, self@.unread)
                    =~= offer_views(before) + (seq![n] + drained(framing, self@.unread)));
            }
        }
        out
    }

    /// Takes in what payloads bring, up to the first error: the fragments to show.
    pub fn take_in(&mut self, brought: Vec<Brought>) -> (shown: Vec<String>)
        ensures
            final(self)@ == taken_in(old(self)@, brought_views(brought@)),
            final(self)@.fragments == old(self)@.fragments + text::texts(shown@),
            final(self).framing() == old(self).framing(),
    {
        let ghost all = brought_views(brought@);
        let mut shown: Vec<String> = Vec::new();
        let mut i: usize = 0;
        proof {
            assert(all.skip(0) =~= all);
            assert(self@.fragments + text::texts(shown@) =~= self@.fragments);
        }
        while i < brought.len() && self.failure.is_none()
            invariant
                i <= brought.len(),
                all == brought_views(brought@),
                self.framing() == old(self).framing(),
                taken_in(old(self)@, all) == taken_in(self@, all.skip(i as int)),
                self@.fragments == old(self)@.fragments + text::texts(shown@),
            decreases brought.len() - i,
        {
            let ghost r = self@;
            let ghost before = self.fragments@;
            let ghost showed = shown@;
            proof {
                assert(all.skip(i as int)[0] == brought@[i as int]@);
                assert(all.skip(i as int).drop_first() =~= all.skip(i + 1));
            }
            match &brought[i] {
                Brought::Fragment(t) => {
                    self.fragments.push(t.clone());
                    shown.push(t.clone());
                    proof {
                        text::lemma_texts_push(before, self.fragments@.last());
                        text::lemma_texts_push(showed, shown@.last());
                        assert(old(self)@.fragments + text::texts(showed).push(t@) =~= (old(
                            self,
                        )@.fragments + text::texts(showed)).push(t@));
                    }
                },
                Brought::Nothing => {},
                Brought::Failure(m) => {
                    self.failure = Some(m.clone());
                },
            }
            proof {
                assert(self@ =~= with_brought(r, brought@[i as int]@));
            }
            i += 1;
        }
        shown
    }

    /// Whether an error has ended the answer.
    pub fn has_failed(&self) -> (r: bool)
        ensures
            r == (self@.failure is Some),
    {
        self.failure.is_some()
    }

    /// What comes of the answer when the stream has ended. A line that never ended is
    /// dropped.
    pub fn finish(self) -> (r: Result<String, String>)
        ensures
            match r {
                Ok(t) => reply(self@) == Ok::<Seq<char>, Seq<char>>(t@),
                Err(m) => reply(self@) == Err::<Seq<char>, Seq<char>>(m@),
            },
    {
        match self.failure {
            Some(m) => Err(m),
            None => Ok(text::join_of(&self.fragments, "")),
        }
    }
}

/// Two readings that came to the same.
pub open spec fn agree(a: Reading, b: Reading) -> bool {
    &&& a.fragments == b.fragments
    &&& a.failure == b.failure
    &&& a.failure is None ==> a.unread == b.unread
}

/// What is unread is not looked at while what payloads bring is read.
proof fn lemma_taken_in_unread(a: Reading, b: Reading, brought: Seq<Brings>)
    requires
        a.fragments == b.fragments,
        a.failure == b.failure,
    ensures
        taken_in(a, brought).fragments == taken_in(b, brought).fragments,
        taken_in(a, brought).failure == taken_in(b, brought).failure,
        taken_in(a, brought).unread == a.unread,
    decreases brought.len(),
{
    if brought.len() > 0 && a.failure is None {
        lemma_taken_in_unread(
            with_brought(a, brought[0]),
            with_brought(b, brought[0]),
            brought.drop_first(),
        );
    }
}

/// What payloads bring can be read in two parts.
proof fn lemma_taken_in_parts(r: Reading, x: Seq<Brings>, y: Seq<Brings>)
    ensures
        taken_in(r, x + y) == taken_in(taken_in(r, x), y),
    decreases x.len(),
{
    if x.len() == 0 {
        assert(x + y =~= y);
    } else if r.failure is None {
        assert((x + y).drop_first() =~= x.drop_first() + y);
        assert((x + y)[0] == x[0]);
        lemma_taken_in_parts(with_brought(r, x[0]), x.drop_first(), y);
    }
}

/// Two chunks come to what they come to as one.
proof fn lemma_two_chunks(
    framing: Framing,
    r: Reading,
    a: Seq<u8>,
    b: Seq<u8>,
    means: spec_fn(NextView) -> Brings,
)
    requires
        r.failure is None,
    ensures
        agree(
            chunk_read(framing, chunk_read(framing, r, a, means), b, means),
            chunk_read(framing, r, a + b, means),
        ),
{
    let all = r.unread + a;
    assert(r.unread + (a + b) =~= all + b);
    law_chunks_offer_the_same(framing, all, b);
    let x = drained(framing, all).map_values(means);
    let y = drained(framing, rest(framing, all) + b).map_values(means);
    assert(drained(framing, all + b).map_values(means) =~= x + y);
    let start = Reading { unread: rest(framing, all), ..r };
    let whole = Reading { unread: rest(framing, all + b), ..r };
    lemma_taken_in_parts(whole, x, y);
    lemma_taken_in_unread(start, whole, x);
    let first = taken_in(start, x);
    let second = taken_in(whole, x);
    lemma_taken_in_unread(whole, whole, x);
    if first.failure is None {
        let again = Reading { unread: rest(framing, all + b), ..first };
        lemma_taken_in_unread(again, second, y);
        lemma_taken_in_unread(second, again, y);
    }
}

/// Chunks come to what they come to as one.
proof fn lemma_chunks(
    framing: Framing,
    r: Reading,
    chunks: Seq<Seq<u8>>,
    means: spec_fn(NextView) -> Brings,
)
    requires
        r.failure is None ==> drained(framing, r.unread) == Seq::<NextView>::empty(),
        r.failure is None ==> rest(framing, r.unread) == r.unread,
    ensures
        agree(
            chunks_read(framing, r, chunks, means),
            chunk_read(framing, r, chunks.flatten(), means),
        ),
    decreases chunks.len(),
{
    if chunks.len() == 0 {
        assert(chunks.flatten() =~= Seq::empty());
        assert(r.unread + Seq::<u8>::empty() =~= r.unread);
        assert(Seq::<NextView>::empty().map_values(means) =~= Seq::empty());
    } else {
        let first = chunk_read(framing, r, chunks[0], means);
        let others = chunks.drop_first();
        assert(chunks.flatten() == chunks[0] + others.flatten());
        if r.failure is None {
            let all = r.unread + chunks[0];
            let start = Reading { unread: rest(framing, all), ..r };
            lemma_taken_in_unread(start, start, drained(framing, all).map_values(means));
            lemma_starved(framing, all);
            lemma_two_chunks(framing, r, chunks[0], others.flatten(), means);
        }
        lemma_chunks(framing, first, others, means);
    }
}

/// Taking in what is offered with a chunk is reading the chunk: where `offers` is what
/// [`AnswerStream::offered`] gives and `brought` says what each of them means, taking
/// that in leads to where [`chunk_read`] does.
pub proof fn law_a_chunk_is_offered_and_taken_in(
    framing: Framing,
    r: Reading,
    chunk: Seq<u8>,
    offers: Seq<NextView>,
    brought: Seq<Brings>,
    means: spec_fn(NextView) -> Brings,
)
    requires
        r.failure is Some ==> offers.len() == 0,
        r.failure is None ==> offers == drained(framing, r.unread + chunk),
        brought.len() == offers.len(),
        forall|i: int| 0 <= i < offers.len() ==> #[trigger] brought[i] == means(offers[i]),
    ensures
        r.failure is Some ==> taken_in(r, brought) == chunk_read(framing, r, chunk, means),
        r.failure is None ==> taken_in(
            Reading { unread: rest(framing, r.unread + chunk), ..r },
            brought,
        ) == chunk_read(framing, r, chunk, means),
{
    assert(brought =~= offers.map_values(means));
}

/// The same bytes come to the same answer, however they were cut into chunks: in the
/// middle of a line or of a character, the same fragments are shown in the same
/// order, and the answer or the error is the same.
pub proof fn law_cutting_changes_no_answer(
    framing: Framing,
    a: Seq<Seq<u8>>,
    b: Seq<Seq<u8>>,
    means: spec_fn(NextView) -> Brings,
)
    requires
        a.flatten() == b.flatten(),
    ensures
        ({
            let x = chunks_read(framing, unopened(), a, means);
            let y = chunks_read(framing, unopened(), b, means);
            &&& x.fragments == y.fragments
            &&& reply(x) == reply(y)
            &&& x.failure is None ==> x.unread == y.unread
        }),
{
    lemma_drained(framing, Seq::empty());
    lemma_chunks(framing, unopened(), a, means);
    lemma_chunks(framing, unopened(), b, means);
}

/// A stream offers what its lines hold, one after the other: a line that ends is offered
/// once, as its payload or as what is wrong with its bytes, or not at all where it has
/// no payload; then comes what follows it. A line that has not ended offers nothing and
/// is left as it is.
pub proof fn law_each_line_is_offered_once(framing: Framing, line: Seq<u8>, after: Seq<u8>)
    requires
        !line.contains(10u8),
    ensures
        ({
            let ended = line.push(10u8);
            let text = decode_utf8(ended);
            let all = drained(framing, ended + after);
            &&& !valid_utf8(ended) ==> all == seq![NextView::NotText(utf8_error(ended))] + drained(
                framing,
                after,
            )
            &&& valid_utf8(ended) && line_payload(framing, text) is Some ==> all == seq![
                NextView::Payload(line_payload(framing, text)->0),
            ] + drained(framing, after)
            &&& valid_utf8(ended) && line_payload(framing, text) is None ==> all == drained(
                framing,
                after,
            )
            &&& rest(framing, ended + after) == rest(framing, after)
            &&& drained(framing, line).len() == 0
            &&& rest(framing, line) == line
        }),
{
    let n = line.len() as int;
    let ended = line.push(10u8);
    let whole = ended + after;
    assert forall|j: int| 0 <= j < n implies #[trigger] line[j] != 10u8 by {
        assert(line.contains(line[j]));
    }
    text::lemma_first_index_at(line, 10u8, n);
    text::lemma_first_index_at(whole, 10u8, n);
    assert(whole.take(n + 1) =~= ended);
    assert(whole.skip(n + 1) =~= after);
    lemma_drained(framing, whole);
    lemma_drained(framing, after);
    lemma_drained(framing, line);
    assert(complete_lines(whole).drop_first() =~= complete_lines(after));
    assert(complete_lines(whole)[0] == ended);
}

/// A line of its own carries its text as it stands between white space; a blank one
/// carries nothing.
pub proof fn law_a_line_carries_its_text(left: Seq<char>, said: Seq<char>, right: Seq<char>)
    requires
        forall|i: int| 0 <= i < left.len() ==> text::is_white_space(#[trigger] left[i]),
        forall|i: int| 0 <= i < right.len() ==> text::is_white_space(#[trigger] right[i]),
        said.len() > 0 ==> !text::is_white_space(said[0]) && !text::is_white_space(said.last()),
    ensures
        line_payload(Framing::Ndjson, left + said + right) == if said.len() > 0 {
            Some(said)
        } else {
            None
        },
{
    text::law_trimming(left, said, right);
}

/// A line of events carries what stands behind `data:`, without the white space around
/// it, and nothing where that is blank.
pub proof fn law_an_event_line_carries_its_data(
    left: Seq<char>,
    gap: Seq<char>,
    said: Seq<char>,
    right: Seq<char>,
)
    requires
        forall|i: int| 0 <= i < left.len() ==> text::is_white_space(#[trigger] left[i]),
        forall|i: int| 0 <= i < gap.len() ==> text::is_white_space(#[trigger] gap[i]),
        forall|i: int| 0 <= i < right.len() ==> text::is_white_space(#[trigger] right[i]),
        said.len() > 0 ==> !text::is_white_space(said[0]) && !text::is_white_space(said.last()),
    ensures
        line_payload(Framing::Sse, left + "data:"@ + gap + said + right) == if said.len() > 0 {
            Some(said)
        } else {
            None
        },
{
    let mark = "data:"@;
    reveal_strlit("data:");
    let none = Seq::<char>::empty();
    if said.len() > 0 {
        let inner = mark + gap + said;
        assert(left + mark + gap + said + right =~= left + inner + right);
        assert(inner[0] == 'd');
        assert(inner.last() == said.last());
        text::law_trimming(left, inner, right);
        assert(inner =~= mark + (gap + said));
        text::law_a_prefix_is_stripped(mark, gap + said);
        text::law_trimming(gap, said, none);
        assert(gap + said + none =~= gap + said);
    } else {
        let blank = gap + right;
        assert(left + mark + gap + said + right =~= left + mark + blank);
        assert(mark[0] == 'd' && mark.last() == ':');
        text::law_trimming(left, mark, blank);
        text::law_a_prefix_is_stripped(mark, none);
        assert(mark + none =~= mark);
        text::law_trimming(none, none, none);
        assert(none + none + none =~= none);
    }
}

/// A line that does not start with `data:`, behind any white space, carries nothing as a
/// line of events.
pub proof fn law_other_event_lines_carry_nothing(line: Seq<char>)
    requires
        !"data:"@.is_prefix_of(text::trim(line)),
    ensures
        line_payload(Framing::Sse, line) is None,
{
}

/// The fragments among what payloads bring, in their order.
pub open spec fn pieces(brought: Seq<Brings>) -> Seq<Seq<char>>
    decreases brought.len(),
{
    if brought.len() == 0 {
        Seq::empty()
    } else {
        match brought.last() {
            Brings::Fragment(t) => pieces(brought.drop_last()).push(t),
            _ => pieces(brought.drop_last()),
        }
    }
}

/// The fragments of payloads, one behind the other.
proof fn lemma_pieces(a: Brings, b: Seq<Brings>)
    ensures
        pieces(seq![a] + b) == (match a {
            Brings::Fragment(t) => seq![t],
            _ => Seq::<Seq<char>>::empty(),
        }) + pieces(b),
    decreases b.len(),
{
    let head = match a {
        Brings::Fragment(t) => seq![t],
        _ => Seq::<Seq<char>>::empty(),
    };
    if b.len() == 0 {
        assert((seq![a] + b).drop_last() =~= Seq::<Brings>::empty());
        assert(pieces((seq![a] + b).drop_last()) =~= Seq::<Seq<char>>::empty());
        assert((seq![a] + b).last() == a);
        assert(pieces(seq![a] + b) =~= head + pieces(b));
    } else {
        assert((seq![a] + b).drop_last() =~= seq![a] + b.drop_last());
        lemma_pieces(a, b.drop_last());
        assert(pieces(seq![a] + b) =~= head + pieces(b));
    }
}

/// All fragments join the answer, in their order, and nothing else does, as long as
/// nothing fails.
pub proof fn law_every_fragment_joins_the_answer(r: Reading, brought: Seq<Brings>)
    requires
        r.failure is None,
        forall|i: int| 0 <= i < brought.len() ==> !((#[trigger] brought[i]) is Failure),
    ensures
        taken_in(r, brought).fragments == r.fragments + pieces(brought),
        taken_in(r, brought).failure is None,
        taken_in(r, brought).unread == r.unread,
    decreases brought.len(),
{
    if brought.len() > 0 {
        let tail = brought.drop_first();
        assert(!(brought[0] is Failure));
        assert forall|i: int| 0 <= i < tail.len() implies !((#[trigger] tail[i]) is Failure) by {
            assert(tail[i] == brought[i + 1]);
        }
        law_every_fragment_joins_the_answer(with_brought(r, brought[0]), tail);
        lemma_pieces(brought[0], tail);
        assert(brought =~= seq![brought[0]] + tail);
        assert(taken_in(r, brought).fragments =~= r.fragments + pieces(brought));
    } else {
        assert(r.fragments + pieces(brought) =~= r.fragments);
    }
}

/// The first failure ends an answer: what came before it was shown, what comes behind it
/// is not, and the failure is what the answer comes to.
pub proof fn law_the_first_failure_ends_the_answer(
    r: Reading,
    before: Seq<Brings>,
    reason: Seq<char>,
    after: Seq<Brings>,
)
    requires
        r.failure is None,
        forall|i: int| 0 <= i < before.len() ==> !((#[trigger] before[i]) is Failure),
    ensures
        ({
            let end = taken_in(r, before + seq![Brings::Failure(reason)] + after);
            &&& end.fragments == r.fragments + pieces(before)
            &&& end.failure == Some(reason)
            &&& reply(end) == Err::<Seq<char>, Seq<char>>(reason)
        }),
    decreases before.len(),
{
    let all = before + seq![Brings::Failure(reason)] + after;
    if before.len() == 0 {
        assert(all[0] == Brings::Failure(reason));
        assert(r.fragments + pieces(before) =~= r.fragments);
        let end = with_brought(r, all[0]);
        assert(taken_in(end, all.drop_first()) == end);
    } else {
        let tail = before.drop_first();
        assert(!(before[0] is Failure));
        assert forall|i: int| 0 <= i < tail.len() implies !((#[trigger] tail[i]) is Failure) by {
            assert(tail[i] == before[i + 1]);
        }
        assert(all[0] == before[0]);
        assert(all.drop_first() =~= tail + seq![Brings::Failure(reason)] + after);
        law_the_first_failure_ends_the_answer(with_brought(r, before[0]), tail, reason, after);
        lemma_pieces(before[0], tail);
        assert(before =~= seq![before[0]] + tail);
        assert(with_brought(r, before[0]).fragments + pieces(tail) =~= r.fragments + pieces(before));
    }
}

/// An answer is its fragments put together: nothing for none, and with each fragment it
/// grows by exactly that.
pub proof fn law_an_answer_is_its_fragments(r: Reading, t: Seq<char>)
    requires
        r.failure is None,
    ensures
        r.fragments.len() == 0 ==> reply(r) == Ok::<Seq<char>, Seq<char>>(Seq::empty()),
        reply(r) matches Ok(said) && reply(Reading { fragments: r.fragments.push(t), ..r }) == Ok::<
            Seq<char>,
            Seq<char>,
        >(said + t),
{
    reveal_strlit("");
    assert(r.fragments.push(t).drop_last() =~= r.fragments);
    let said = text::join(r.fragments, ""@);
    assert(text::join(r.fragments.push(t), ""@) =~= said + t);
}

/// Nothing is read behind a failure.
pub proof fn law_nothing_is_read_behind_a_failure(
    framing: Framing,
    r: Reading,
    chunk: Seq<u8>,
    brought: Seq<Brings>,
    means: spec_fn(NextView) -> Brings,
)
    requires
        r.failure is Some,
    ensures
        taken_in(r, brought) == r,
        chunk_read(framing, r, chunk, means) == r,
        reply(r) == Err::<Seq<char>, Seq<char>>(r.failure->0),
{
}

} // verus!
