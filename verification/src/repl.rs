//! The terminal: what a line that was typed means, and how models are listed.

use crate::backend::{ModelInfo, ModelView};
use crate::text;
use vstd::prelude::*;

verus! {

/// What a line that was typed means.
#[derive(Debug)]
pub enum ReplInput {
    /// Nothing: the line is blank.
    Nothing,
    /// The end of the conversation.
    Quit,
    /// A prompt.
    Prompt(String),
}

/// What a line that was typed means.
#[verifier::ext_equal]
pub enum ReplView {
    Nothing,
    Quit,
    Prompt(Seq<char>),
}

impl View for ReplInput {
    type V = ReplView;

    open spec fn view(&self) -> ReplView {
        match self {
            ReplInput::Nothing => ReplView::Nothing,
            ReplInput::Quit => ReplView::Quit,
            ReplInput::Prompt(p) => ReplView::Prompt(p@),
        }
    }
}

/// A blank line means nothing, `exit` and `quit` end the conversation, and any
/// other line is a prompt. White space around it does not count.
pub open spec fn meaning(line: Seq<char>) -> ReplView {
    let said = text::trim(line);
    if said.len() == 0 {
        ReplView::Nothing
    } else if said == "exit"@ || said == "quit"@ {
        ReplView::Quit
    } else {
        ReplView::Prompt(said)
    }
}

/// What `line` means.
pub fn read_input(line: &str) -> (r: ReplInput)
    ensures
        r@ == meaning(line@),
{
    let said = text::trim_of(line);
    if said.is_empty() {
        ReplInput::Nothing
    } else if text::same_text(said, "exit") || text::same_text(said, "quit") {
        ReplInput::Quit
    } else {
        ReplInput::Prompt(said.to_owned())
    }
}

/// `n` times the character `c`.
pub open spec fn times(c: char, n: int) -> Seq<char> {
    Seq::new(
        if n > 0 {
            n as nat
        } else {
            0
        },
        |i: int| c,
    )
}

/// `s`, filled up with spaces to `width` characters.
pub open spec fn padded(s: Seq<char>, width: int) -> Seq<char> {
    s + times(' ', width - s.len())
}

/// One row of the table: a name and a detail, each in its column.
pub open spec fn row(name: Seq<char>, detail: Seq<char>) -> Seq<char> {
    padded(name, 40) + seq![' '] + padded(detail, 30) + seq!['\n']
}

/// A table of models: a heading, a rule, and a row for each.
pub open spec fn table(models: Seq<ModelView>) -> Seq<char>
    decreases models.len(),
{
    if models.len() == 0 {
        row("NAME"@, "DETAIL"@) + times('-', 70) + seq!['\n']
    } else {
        table(models.drop_last()) + row(models.last().name, models.last().detail)
    }
}

/// Adds `n` times the character `c`.
fn push_times(out: &mut String, c: char, n: usize)
    ensures
        final(out)@ == old(out)@ + times(c, n as int),
{
    let mut i: usize = 0;
    proof {
        assert(out@ =~= old(out)@ + times(c, 0));
    }
    while i < n
        invariant
            i <= n,
            out@ == old(out)@ + times(c, i as int),
        decreases n - i,
    {
        out.push(c);
        i += 1;
        proof {
            assert(times(c, i as int) =~= times(c, i - 1).push(c));
            assert(out@ =~= old(out)@ + times(c, i as int));
        }
    }
}

/// Adds `s`, filled up with spaces to `width` characters.
fn push_padded(out: &mut String, s: &str, width: usize)
    ensures
        final(out)@ == old(out)@ + padded(s@, width as int),
{
    let n: usize = s.unicode_len();
    out.append(s);
    if n < width {
        push_times(out, ' ', width - n);
    }
    proof {
        assert(out@ =~= old(out)@ + padded(s@, width as int));
    }
}

/// Adds one row of the table.
fn push_row(out: &mut String, name: &str, detail: &str)
    ensures
        final(out)@ == old(out)@ + row(name@, detail@),
{
    push_padded(out, name, 40);
    out.push(' ');
    push_padded(out, detail, 30);
    out.push('\n');
    proof {
        assert(out@ =~= old(out)@ + row(name@, detail@));
    }
}

/// A table of models.
pub fn models_table(models: &Vec<ModelInfo>) -> (r: String)
    ensures
        r@ == table(crate::backend::model_views(models@)),
{
    let ghost views = crate::backend::model_views(models@);
    let mut out = String::new();
    push_row(&mut out, "NAME", "DETAIL");
    push_times(&mut out, '-', 70);
    out.push('\n');
    let mut i: usize = 0;
    proof {
        assert(out@ =~= table(views.take(0)));
    }
    while i < models.len()
        invariant
            i <= models.len(),
            views == crate::backend::model_views(models@),
            out@ == table(views.take(i as int)),
        decreases models.len() - i,
    {
        push_row(&mut out, models[i].name.as_str(), models[i].detail.as_str());
        proof {
            assert(views.take(i + 1).drop_last() =~= views.take(i as int));
        }
        i += 1;
    }
    proof {
        assert(views.take(models.len() as int) =~= views);
    }
    out
}

// ---------------------------------------------------------------------------
// Laws
// ---------------------------------------------------------------------------

/// What is typed between white space is the prompt, to the letter; `exit` and `quit`
/// end the conversation, and nothing else does; a blank line is passed over.
pub proof fn law_what_a_line_means(left: Seq<char>, said: Seq<char>, right: Seq<char>)
    requires
        forall|i: int| 0 <= i < left.len() ==> text::is_white_space(#[trigger] left[i]),
        forall|i: int| 0 <= i < right.len() ==> text::is_white_space(#[trigger] right[i]),
        said.len() > 0 ==> !text::is_white_space(said[0]) && !text::is_white_space(said.last()),
    ensures
        ({
            let m = meaning(left + said + right);
            &&& m is Nothing <==> said.len() == 0
            &&& m is Quit <==> said == "exit"@ || said == "quit"@
            &&& m matches ReplView::Prompt(p) ==> p == said
        }),
{
    reveal_strlit("exit");
    reveal_strlit("quit");
    text::law_trimming(left, said, right);
}

/// A table has a row for each model, in their order, below the heading and the rule.
pub proof fn law_a_table_has_a_row_for_each_model(models: Seq<ModelView>, m: ModelView)
    ensures
        table(models.push(m)) == table(models) + row(m.name, m.detail),
        table(Seq::empty()) == row("NAME"@, "DETAIL"@) + Seq::new(70, |i: int| '-') + seq!['\n'],
{
    assert(models.push(m).drop_last() =~= models);
    assert(times('-', 70) =~= Seq::new(70, |i: int| '-'));
}

/// A row starts with the whole name; the whole detail stands behind it, in the column
/// that begins after forty characters and a space, or further on where the name is
/// longer. Between and behind them there are spaces, and the row ends the line.
pub proof fn law_a_row_has_two_columns(name: Seq<char>, detail: Seq<char>)
    ensures
        ({
            let r = row(name, detail);
            let start: int = if name.len() < 40 {
                41
            } else {
                name.len() as int + 1
            };
            let end = start + detail.len();
            &&& r.len() == start + 1 + if detail.len() < 30 {
                30
            } else {
                detail.len()
            }
            &&& r.take(name.len() as int) == name
            &&& r.subrange(start, end) == detail
            &&& forall|i: int| name.len() <= i < start ==> #[trigger] r[i] == ' '
            &&& forall|i: int| end <= i < r.len() - 1 ==> #[trigger] r[i] == ' '
            &&& r.last() == '\n'
        }),
{
    let r = row(name, detail);
    let start: int = if name.len() < 40 {
        41
    } else {
        name.len() as int + 1
    };
    assert(r.take(name.len() as int) =~= name);
    assert(r.subrange(start, start + detail.len()) =~= detail);
}

} // verus!
