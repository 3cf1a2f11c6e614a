//! A scripted backend for hermetic runs: no network, no model, always the same.
//!
//! The script is the text of the answer. Where `<<<NEXT>>>` stands in it, the
//! next answer begins: the first answer of a conversation is the first part, the
//! second is the second, and the last part answers from then on. An answer may
//! hold a command line.

use crate::backend;
use crate::backend::{
    Backend, ChatCall, ChatView, Entry, Message, ModelInfo, ModelView, ModelsCall, ModelsView, Role,
};
use crate::text;
use vstd::prelude::*;

verus! {

/// The scripted backend.
pub struct MockBackend {
    script: String,
}

impl View for MockBackend {
    type V = Seq<char>;

    closed spec fn view(&self) -> Seq<char> {
        self.script@
    }
}

/// What stands between two answers.
pub open spec fn separator() -> Seq<char> {
    "<<<NEXT>>>"@
}

/// The position of the first separator in `s`, or the length of `s`.
pub open spec fn cut(s: Seq<char>) -> int
    decreases s.len(),
{
    if s.len() == 0 || separator().is_prefix_of(s) {
        0
    } else {
        1 + cut(s.drop_first())
    }
}

/// The answers of a script.
pub open spec fn answers(script: Seq<char>) -> Seq<Seq<char>>
    decreases script.len(),
{
    let i = cut(script);
    if 0 <= i && i + separator().len() <= script.len() && separator().len() > 0 {
        seq![script.take(i)] + answers(script.skip(i + separator().len() as int))
    } else {
        seq![script]
    }
}

/// How many answers the model has given.
pub open spec fn answered(history: Seq<Entry>) -> nat {
    history.filter(|e: Entry| e.role == Role::Assistant).len()
}

/// The answer that is due after this history.
pub open spec fn due(script: Seq<char>, history: Seq<Entry>) -> Seq<char> {
    let all = answers(script);
    let n = answered(history);
    if n < all.len() {
        all[n as int]
    } else {
        all.last()
    }
}

/// A text in fragments that each start where a space does.
pub open spec fn fragments(s: Seq<char>) -> Seq<Seq<char>> {
    let words = text::split(s, ' ');
    Seq::new(
        words.len(),
        |i: int|
            if i == 0 {
                words[0]
            } else {
                seq![' '] + words[i]
            },
    )
}

proof fn lemma_cut(s: Seq<char>)
    ensures
        0 <= cut(s) <= s.len(),
        forall|j: int| 0 <= j < cut(s) ==> !separator().is_prefix_of(#[trigger] s.skip(j)),
        cut(s) < s.len() ==> separator().is_prefix_of(s.skip(cut(s))),
    decreases s.len(),
{
    if s.len() > 0 && !separator().is_prefix_of(s) {
        let t = s.drop_first();
        lemma_cut(t);
        assert forall|j: int| 0 <= j < cut(s) implies !separator().is_prefix_of(#[trigger] s.skip(j)) by {
            if j == 0 {
                assert(s.skip(0) =~= s);
            } else {
                assert(s.skip(j) =~= t.skip(j - 1));
            }
        }
        assert(s.skip(cut(s)) =~= t.skip(cut(s) - 1));
    } else {
        assert(s.skip(0) =~= s);
    }
}

proof fn lemma_cut_at(s: Seq<char>, i: int)
    requires
        0 <= i <= s.len(),
        forall|j: int| 0 <= j < i ==> !separator().is_prefix_of(#[trigger] s.skip(j)),
        i == s.len() || separator().is_prefix_of(s.skip(i)),
    ensures
        cut(s) == i,
{
    lemma_cut(s);
    reveal_strlit("<<<NEXT>>>");
    assert(separator().len() == 10);
    if cut(s) < i {
        assert(separator().is_prefix_of(s.skip(cut(s))));
    } else if i < cut(s) {
        assert(!separator().is_prefix_of(s.skip(i)));
    }
}

/// The answers of a script.
fn answers_of(script: &str) -> (r: Vec<String>)
    ensures
        text::texts(r@) == answers(script@),
        r.len() > 0,
{
    let chars = text::chars_of(script);
    let sep = text::chars_of("<<<NEXT>>>");
    let mut out: Vec<String> = Vec::new();
    let mut from: usize = 0;
    proof {
        reveal_strlit("<<<NEXT>>>");
        assert(script@.skip(0) =~= script@);
        assert(text::texts(out@) + answers(script@) =~= answers(script@));
    }
    loop
        invariant
            chars@ == script@,
            sep@ == separator(),
            sep.len() == 10,
            from <= chars.len(),
            answers(script@) == text::texts(out@) + answers(script@.skip(from as int)),
        decreases chars.len() - from,
    {
        let ghost rest = script@.skip(from as int);
        let mut to: usize = from;
        while to < chars.len() && !text::matches_at(&chars, to, &sep)
            invariant
                chars@ == script@,
                sep@ == separator(),
                rest == script@.skip(from as int),
                from <= to <= chars.len(),
                forall|j: int|
                    0 <= j < to - from ==> !separator().is_prefix_of(#[trigger] rest.skip(j)),
            decreases chars.len() - to,
        {
            proof {
                assert(rest.skip(to - from) =~= script@.skip(to as int));
            }
            to += 1;
        }
        let ghost before = out@;
        proof {
            assert(rest.skip(to - from) =~= script@.skip(to as int));
            lemma_cut_at(rest, to - from);
            assert(rest.take(to - from) =~= script@.subrange(from as int, to as int));
        }
        out.push(script.substring_char(from, to).to_owned());
        proof {
            text::lemma_texts_push(before, out@.last());
        }
        if to == chars.len() {
            proof {
                assert(rest.take(to - from) =~= rest);
                assert(text::texts(before) + seq![rest] =~= text::texts(before).push(rest));
            }
            return out;
        }
        proof {
            let piece = rest.take(to - from);
            assert(rest.skip(to - from).len() >= 10);
            assert(rest.skip(to - from + 10) =~= script@.skip(to + 10));
            assert(text::texts(before) + (seq![piece] + answers(script@.skip(to + 10)))
                =~= text::texts(before).push(piece) + answers(script@.skip(to + 10)));
        }
        from = to + sep.len();
    }
}

/// A text in fragments that each start where a space does.
pub fn fragments_of(s: &str) -> (r: Vec<String>)
    ensures
        text::texts(r@) == fragments(s@),
{
    let words = text::split_of(s, ' ');
    let ghost views = text::split(s@, ' ');
    let mut out: Vec<String> = Vec::new();
    let mut i: usize = 0;
    while i < words.len()
        invariant
            i <= words.len(),
            views == text::split(s@, ' '),
            text::texts(words@) == views,
            out.len() == i,
            forall|j: int| 0 <= j < i ==> (#[trigger] out@[j])@ == fragments(s@)[j],
        decreases words.len() - i,
    {
        proof {
            assert(views[i as int] == words@[i as int]@);
        }
        if i == 0 {
            out.push(words[i].clone());
        } else {
            proof {
                reveal_strlit(" ");
                assert(" "@ =~= seq![' ']);
            }
            out.push(text::concat2(" ", words[i].as_str()));
        }
        i += 1;
    }
    proof {
        assert(text::texts(out@) =~= fragments(s@));
    }
    out
}

impl MockBackend {
    /// A backend that answers from this script.
    pub fn new(script: String) -> (b: MockBackend)
        ensures
            b@ == script@,
    {
        MockBackend { script }
    }
}

impl Default for MockBackend {
    /// A backend that always answers `mock reply`.
    fn default() -> (b: MockBackend)
        ensures
            b@ == "mock reply"@,
    {
        MockBackend { script: "mock reply".to_owned() }
    }
}

/// The one model that there is.
pub open spec fn models_known() -> ModelsView {
    ModelsView::Known(seq![ModelView { name: "mock-model"@, detail: "in-process test mock"@ }])
}

impl Backend for MockBackend {
    open spec fn chat_sends(&self, system: Option<Seq<char>>, history: Seq<Entry>) -> ChatView {
        ChatView::Reply(fragments(due(self@, history)))
    }

    open spec fn models_sends(&self) -> ModelsView {
        models_known()
    }

    fn chat(&self, system: Option<&str>, messages: &[Message]) -> (c: ChatCall) {
        let ghost history = backend::entries(messages@);
        let ghost spoke = |e: Entry| e.role == Role::Assistant;
        let all = answers_of(self.script.as_str());
        let mut n: usize = 0;
        let mut i: usize = 0;
        proof {
            reveal(Seq::filter);
            assert(history.take(0).filter(spoke) =~= Seq::<Entry>::empty());
        }
        while i < messages.len()
            invariant
                i <= messages.len(),
                history == backend::entries(messages@),
                spoke == (|e: Entry| e.role == Role::Assistant),
                n <= i,
                n == history.take(i as int).filter(spoke).len(),
            decreases messages.len() - i,
        {
            proof {
                backend::lemma_filter_take(history, i as int, spoke);
            }
            if messages[i].role == Role::Assistant {
                n += 1;
            }
            i += 1;
        }
        proof {
            assert(history.take(messages.len() as int) =~= history);
            assert(text::texts(all@).len() == all.len());
        }
        if n >= all.len() {
            n = all.len() - 1;
        }
        proof {
            assert(text::texts(all@)[n as int] == all@[n as int]@);
            assert(all@[n as int]@ == due(self@, history));
        }
        ChatCall::Reply(fragments_of(all[n].as_str()))
    }

    fn list_models(&self) -> (c: ModelsCall) {
        let mut models: Vec<ModelInfo> = Vec::new();
        models.push(
            ModelInfo {
                name: "mock-model".to_owned(),
                detail: "in-process test mock".to_owned(),
            },
        );
        proof {
            assert(backend::model_views(models@) =~= seq![
                ModelView { name: "mock-model"@, detail: "in-process test mock"@ },
            ]);
        }
        ModelsCall::Known(models)
    }
}

// ---------------------------------------------------------------------------
// Laws
// ---------------------------------------------------------------------------

proof fn lemma_fragments_flatten(s: Seq<char>)
    ensures
        text::split(s, ' ').len() > 0,
        fragments(s).flatten() == s,
    decreases s.len(),
{
    text::lemma_first_index(s, ' ');
    let i = text::first_index(s, ' ');
    let words = text::split(s, ' ');
    if i < s.len() {
        let t = s.skip(i + 1);
        lemma_fragments_flatten(t);
        let inner = text::split(t, ' ');
        assert(words =~= seq![s.take(i)] + inner);
        let f = fragments(s);
        let g = fragments(t);
        assert(f.first() == s.take(i));
        let spaced = f.drop_first();
        assert(spaced.first() =~= seq![' '] + g.first());
        assert(spaced.drop_first() =~= g.drop_first());
        assert(spaced.flatten() == spaced.first() + spaced.drop_first().flatten());
        assert(g.flatten() == g.first() + g.drop_first().flatten());
        assert(seq![' '] + g.first() + g.drop_first().flatten() =~= seq![' '] + (g.first()
            + g.drop_first().flatten()));
        assert(spaced.flatten() == seq![' '] + t);
        assert(f.flatten() == f.first() + spaced.flatten());
        assert(s.take(i) + (seq![' '] + t) =~= s);
    } else {
        let f = fragments(s);
        assert(f =~= seq![s]);
        assert(f.drop_first() =~= Seq::<Seq<char>>::empty());
        assert(f.flatten() == f.first() + f.drop_first().flatten());
        assert(s + Seq::<char>::empty() =~= s);
    }
}

/// The fragments of an answer, put together, are the answer.
pub proof fn law_fragments_are_the_answer(s: Seq<char>)
    ensures
        fragments(s).flatten() == s,
{
    lemma_fragments_flatten(s);
}

/// A script is cut where `<<<NEXT>>>` stands: what is in front of the first one is the
/// first answer, and the rest is cut in the same way. A script without one is one
/// answer.
pub proof fn law_a_script_is_cut_at_its_marks(first: Seq<char>, others: Seq<char>)
    requires
        forall|j: int|
            0 <= j < first.len() ==> !"<<<NEXT>>>"@.is_prefix_of(
                #[trigger] (first + "<<<NEXT>>>"@ + others).skip(j),
            ),
        forall|j: int| 0 <= j < first.len() ==> !"<<<NEXT>>>"@.is_prefix_of(#[trigger] first.skip(j)),
    ensures
        answers(first + "<<<NEXT>>>"@ + others) == seq![first] + answers(others),
        answers(first) == seq![first],
{
    reveal_strlit("<<<NEXT>>>");
    let n = first.len() as int;
    let whole = first + separator() + others;
    assert(whole.skip(n) =~= separator() + others);
    assert(separator().is_prefix_of(separator() + others));
    lemma_cut_at(whole, n);
    assert(whole.take(n) =~= first);
    assert(whole.skip(n + 10) =~= others);
    lemma_cut_at(first, n);
}

/// The answers come in turn: a conversation in which the model has spoken `n` times gets
/// the answer number `n`, counted from zero, and the last one for good when there are
/// no more.
pub proof fn law_answers_come_in_turn(script: Seq<char>, history: Seq<Entry>, e: Entry)
    ensures
        answered(Seq::empty()) == 0,
        answered(history.push(e)) == answered(history) + if e.role == Role::Assistant {
            1nat
        } else {
            0nat
        },
        answered(history) < answers(script).len() ==> due(script, history) == answers(
            script,
        )[answered(history) as int],
        answered(history) >= answers(script).len() ==> due(script, history) == answers(
            script,
        ).last(),
{
    reveal(Seq::filter);
    assert(history.push(e).drop_last() =~= history);
}

/// What is said in the end is the answer that is due.
pub proof fn law_the_answer_due_is_given(
    b: MockBackend,
    system: Option<Seq<char>>,
    history: Seq<Entry>,
)
    ensures
        b.chat_sends(system, history) matches ChatView::Reply(said) && said.flatten() == due(
            b@,
            history,
        ),
        b.models_sends() matches ModelsView::Known(m) && m.len() == 1 && m[0].name == "mock-model"@
            && m[0].detail == "in-process test mock"@,
{
    law_fragments_are_the_answer(due(b@, history));
}

/// A fragment begins at each space and nowhere else, but for the first.
pub proof fn law_fragments_begin_at_spaces(s: Seq<char>, i: int)
    requires
        0 <= i < fragments(s).len(),
    ensures
        i == 0 ==> !fragments(s)[i].contains(' '),
        i > 0 ==> fragments(s)[i].len() > 0 && fragments(s)[i][0] == ' ' && !fragments(
            s,
        )[i].drop_first().contains(' '),
{
    text::law_pieces_are_the_text(s, ' ');
    let words = text::split(s, ' ');
    assert(!words[i].contains(' '));
    if i > 0 {
        assert(fragments(s)[i].drop_first() =~= words[i]);
    }
}

} // verus!
