//! The plain-text command protocol: a line of a response that starts with
//! `!!!OCHA_RUN_CMD` asks for a command, and the rest of that line says which.

use crate::text;
use vstd::prelude::*;

verus! {

// ---------------------------------------------------------------------------
// Lines
// ---------------------------------------------------------------------------

/// `s` without one carriage return at its end.
pub open spec fn chomp_return(s: Seq<char>) -> Seq<char> {
    if s.len() > 0 && s.last() == '\r' {
        s.drop_last()
    } else {
        s
    }
}

/// The lines of a text. A line ends at `\n` or `\r\n`; a line break at the very
/// end opens no further line, and a return that no line feed follows belongs to
/// its line.
pub open spec fn lines(s: Seq<char>) -> Seq<Seq<char>>
    decreases s.len(),
{
    let i = text::first_index(s, '\n');
    if s.len() == 0 {
        Seq::empty()
    } else if 0 <= i < s.len() {
        seq![chomp_return(s.take(i))] + lines(s.skip(i + 1))
    } else {
        seq![s]
    }
}

/// The first line of a text and those behind it.
pub proof fn lemma_lines_step(s: Seq<char>)
    requires
        s.len() > 0,
    ensures
        lines(s).len() > 0,
        ({
            let i = text::first_index(s, '\n');
            &&& i < s.len() ==> lines(s)[0] == chomp_return(s.take(i)) && lines(s).drop_first()
                == lines(s.skip(i + 1))
            &&& i == s.len() ==> lines(s)[0] == s && lines(s).drop_first() == Seq::<Seq<char>>::empty()
        }),
{
    text::lemma_first_index(s, '\n');
    let i = text::first_index(s, '\n');
    if i < s.len() {
        assert(lines(s).drop_first() =~= lines(s.skip(i + 1)));
    } else {
        assert(lines(s).drop_first() =~= Seq::<Seq<char>>::empty());
    }
}

/// Text up to a line break and text behind it have their lines apart.
pub proof fn lemma_lines_append(a: Seq<char>, b: Seq<char>)
    requires
        a.len() == 0 || a.last() == '\n',
    ensures
        lines(a + b) == lines(a) + lines(b),
    decreases a.len(),
{
    if a.len() == 0 {
        assert(a + b =~= b);
        assert(lines(a) + lines(b) =~= lines(b));
    } else {
        text::lemma_first_index(a, '\n');
        let i = text::first_index(a, '\n');
        if i == a.len() {
            assert(a[a.len() - 1] != '\n');
        }
        text::lemma_first_index_append(a, b, '\n');
        let t = a.skip(i + 1);
        if t.len() > 0 {
            assert(t.last() == a.last());
        }
        lemma_lines_append(t, b);
        assert((a + b).take(i) =~= a.take(i));
        assert((a + b).skip(i + 1) =~= t + b);
        let head = seq![chomp_return(a.take(i))];
        assert(head + (lines(t) + lines(b)) =~= (head + lines(t)) + lines(b));
    }
}

// ---------------------------------------------------------------------------
// Commands
// ---------------------------------------------------------------------------

/// The mark that opens a command line.
pub open spec fn marker() -> Seq<char> {
    "!!!OCHA_RUN_CMD"@
}

/// A line asks for a command when the mark is the first thing on it.
pub open spec fn is_command(line: Seq<char>) -> bool {
    marker().is_prefix_of(text::trim_start(line))
}

/// The position of the last `c` in `s`, or -1 where there is none.
pub open spec fn last_index(s: Seq<char>, c: char) -> int
    decreases s.len(),
{
    if s.len() == 0 {
        -1
    } else if s.last() == c {
        s.len() - 1
    } else {
        last_index(s.drop_last(), c)
    }
}

/// What a command line says behind the mark: up to its last closing brace, or
/// all of it where it has none.
pub open spec fn payload(line: Seq<char>) -> Seq<char> {
    let said = text::trim_start(line).skip(marker().len() as int);
    let brace = last_index(said, '}');
    if brace >= 0 {
        said.take(brace + 1)
    } else {
        said
    }
}

/// The payload of the first command line among `ls`.
pub open spec fn first_command(ls: Seq<Seq<char>>) -> Option<Seq<char>>
    decreases ls.len(),
{
    if ls.len() == 0 {
        None
    } else if is_command(ls[0]) {
        Some(payload(ls[0]))
    } else {
        first_command(ls.drop_first())
    }
}

/// The command that a response asks for.
pub open spec fn command_in(response: Seq<char>) -> Option<Seq<char>> {
    first_command(lines(response))
}

/// The facts about the mark that the proofs below use.
proof fn lemma_marker()
    ensures
        marker().len() == 15,
        marker()[0] == '!',
        forall|i: int|
            0 <= i < marker().len() ==> {
                &&& #[trigger] marker()[i] != '\n'
                &&& marker()[i] != '\r'
                &&& marker()[i] != '}'
            },
{
    reveal_strlit("!!!OCHA_RUN_CMD");
}

proof fn lemma_last_index_at(s: Seq<char>, c: char, i: int)
    requires
        -1 <= i < s.len(),
        forall|j: int| i < j < s.len() ==> #[trigger] s[j] != c,
        i >= 0 ==> s[i] == c,
    ensures
        last_index(s, c) == i,
    decreases s.len(),
{
    if s.len() > 0 && i < s.len() - 1 {
        let t = s.drop_last();
        assert(s[s.len() - 1] != c);
        lemma_last_index_at(t, c, i);
    }
}

proof fn lemma_last_index(s: Seq<char>, c: char)
    ensures
        -1 <= last_index(s, c) < s.len(),
    decreases s.len(),
{
    if s.len() > 0 && s.last() != c {
        lemma_last_index(s.drop_last(), c);
    }
}

/// Whether `line` asks for a command.
pub fn is_command_line(line: &str) -> (r: bool)
    ensures
        r == is_command(line@),
{
    let chars = text::chars_of(text::trim_start_of(line));
    let mark = text::chars_of("!!!OCHA_RUN_CMD");
    proof {
        assert(chars@.skip(0) =~= chars@);
    }
    text::matches_at(&chars, 0, &mark)
}

/// Where the payload of the line between `from` and `to` stands, if that line
/// asks for a command.
fn payload_span(chars: &Vec<char>, from: usize, to: usize) -> (r: Option<(usize, usize)>)
    requires
        from <= to <= chars.len(),
    ensures
        match r {
            Some((a, b)) => {
                &&& from <= a <= b <= to
                &&& is_command(chars@.subrange(from as int, to as int))
                &&& payload(chars@.subrange(from as int, to as int)) == chars@.subrange(
                    a as int,
                    b as int,
                )
            },
            None => !is_command(chars@.subrange(from as int, to as int)),
        },
{
    let ghost line = chars@.subrange(from as int, to as int);
    let mark = text::chars_of("!!!OCHA_RUN_CMD");
    let mut start: usize = from;
    while start < to && text::white_space(chars[start])
        invariant
            from <= start <= to <= chars.len(),
            line == chars@.subrange(from as int, to as int),
            forall|j: int| 0 <= j < start - from ==> text::is_white_space(#[trigger] line[j]),
        decreases to - start,
    {
        start += 1;
    }
    let ghost body = chars@.subrange(start as int, to as int);
    proof {
        text::lemma_trim_start_at(line, start - from);
        assert(text::trim_start(line) =~= body);
    }
    if to - start < mark.len() {
        return None;
    }
    proof {
        assert(chars@.skip(start as int).take(mark.len() as int) =~= body.take(mark.len() as int));
    }
    if !text::matches_at(chars, start, &mark) {
        return None;
    }
    let a: usize = start + mark.len();
    let ghost said = chars@.subrange(a as int, to as int);
    proof {
        assert(body.skip(mark.len() as int) =~= said);
    }
    let mut b: usize = to;
    while b > a && chars[b - 1] != '}'
        invariant
            a <= b <= to <= chars.len(),
            said == chars@.subrange(a as int, to as int),
            forall|j: int| b - a <= j < said.len() ==> #[trigger] said[j] != '}',
        decreases b,
    {
        b -= 1;
    }
    proof {
        lemma_last_index_at(said, '}', b - a - 1);
    }
    if b > a {
        proof {
            assert(said.take(b - a) =~= chars@.subrange(a as int, b as int));
        }
        Some((a, b))
    } else {
        Some((a, to))
    }
}

/// The command that `response` asks for: the payload of its first command line.
pub fn extract_command(response: &str) -> (r: Option<&str>)
    ensures
        match r {
            Some(p) => command_in(response@) == Some(p@),
            None => command_in(response@) is None,
        },
{
    let chars = text::chars_of(response);
    let mut pos: usize = 0;
    proof {
        assert(response@.skip(0) =~= response@);
    }
    while pos < chars.len()
        invariant
            chars@ == response@,
            pos <= chars.len(),
            command_in(response@) == command_in(response@.skip(pos as int)),
        decreases chars.len() - pos,
    {
        let ghost rest = response@.skip(pos as int);
        let nl: usize = text::index_from(&chars, pos, '\n');
        let mut stop: usize = nl;
        if nl < chars.len() && nl > pos && chars[nl - 1] == '\r' {
            stop = nl - 1;
        }
        proof {
            lemma_lines_step(rest);
            let whole = rest.take(nl - pos);
            assert(whole =~= response@.subrange(pos as int, nl as int));
            if nl < chars.len() {
                if nl > pos {
                    assert(whole.last() == response@[nl - 1]);
                }
                assert(chomp_return(whole) =~= response@.subrange(pos as int, stop as int));
                assert(rest.skip(nl - pos + 1) =~= response@.skip(nl + 1));
            } else {
                assert(rest =~= response@.subrange(pos as int, stop as int));
            }
        }
        if let Some((a, b)) = payload_span(&chars, pos, stop) {
            return Some(response.substring_char(a, b));
        }
        if nl == chars.len() {
            proof {
                assert(first_command(lines(rest).drop_first()) is None);
            }
            return None;
        }
        pos = nl + 1;
    }
    proof {
        assert(response@.skip(pos as int).len() == 0);
    }
    None
}

// ---------------------------------------------------------------------------
// Laws
// ---------------------------------------------------------------------------

proof fn lemma_first_command_skip(a: Seq<Seq<char>>, b: Seq<Seq<char>>)
    requires
        forall|i: int| 0 <= i < a.len() ==> !is_command(#[trigger] a[i]),
    ensures
        first_command(a + b) == first_command(b),
    decreases a.len(),
{
    if a.len() == 0 {
        assert(a + b =~= b);
    } else {
        let t = a.drop_first();
        assert forall|i: int| 0 <= i < t.len() implies !is_command(#[trigger] t[i]) by {
            assert(t[i] == a[i + 1]);
        }
        lemma_first_command_skip(t, b);
        assert((a + b).drop_first() =~= t + b);
        assert((a + b)[0] == a[0]);
    }
}

/// A response asks for a command exactly when one of its lines does, whatever
/// else it says; text without such a line is an answer.
pub proof fn law_command_iff_some_line(response: Seq<char>)
    ensures
        command_in(response) is Some <==> exists|i: int|
            0 <= i < lines(response).len() && is_command(#[trigger] lines(response)[i]),
{
    lemma_first_command_some(lines(response));
}

proof fn lemma_first_command_some(ls: Seq<Seq<char>>)
    ensures
        first_command(ls) is Some <==> exists|i: int|
            0 <= i < ls.len() && is_command(#[trigger] ls[i]),
    decreases ls.len(),
{
    if ls.len() > 0 && !is_command(ls[0]) {
        let t = ls.drop_first();
        lemma_first_command_some(t);
        if first_command(ls) is Some {
            let i = choose|i: int| 0 <= i < t.len() && is_command(#[trigger] t[i]);
            assert(is_command(ls[i + 1]));
        }
        if exists|i: int| 0 <= i < ls.len() && is_command(#[trigger] ls[i]) {
            let i = choose|i: int| 0 <= i < ls.len() && is_command(#[trigger] ls[i]);
            assert(t[i - 1] == ls[i]);
        }
    }
}

/// What the model asks for is what is taken out: a request that ends in a brace,
/// on a line of its own behind the mark, comes back unchanged. White space in
/// front of the mark, remarks behind the request, and text on other lines that
/// ask for nothing make no difference.
pub proof fn law_request_is_read_back(
    before: Seq<char>,
    indent: Seq<char>,
    request: Seq<char>,
    remark: Seq<char>,
    after: Seq<char>,
)
    requires
        before.len() == 0 || before.last() == '\n',
        forall|i: int| 0 <= i < lines(before).len() ==> !is_command(#[trigger] lines(before)[i]),
        forall|i: int| 0 <= i < indent.len() ==> text::is_white_space(#[trigger] indent[i]),
        !indent.contains('\n'),
        request.len() > 0 && request.last() == '}',
        !request.contains('\n'),
        !remark.contains('\n') && !remark.contains('}'),
        after.len() == 0 || after[0] == '\n',
    ensures
        command_in(before + (indent + marker() + request + remark + after)) == Some(request),
{
    lemma_marker();
    let line = indent + marker() + request + remark;
    assert(!marker().contains('\n'));
    lemma_absent(indent, marker(), '\n');
    lemma_absent(indent + marker(), request, '\n');
    lemma_absent(indent + marker() + request, remark, '\n');
    assert(indent + marker() + request + remark + after == line + after);
    lemma_line_payload(indent, request, remark);
    if line.last() == '\r' {
        if remark.len() == 0 {
            assert(line.last() == request.last());
        }
        let shorter = remark.drop_last();
        assert(chomp_return(line) =~= indent + marker() + request + shorter);
        assert forall|j: int| 0 <= j < shorter.len() implies #[trigger] shorter[j] != '}' by {
            assert(shorter[j] == remark[j]);
        }
        lemma_line_payload(indent, request, shorter);
    }
    lemma_first_line(before, line, after);
}

proof fn lemma_first_line(before: Seq<char>, line: Seq<char>, after: Seq<char>)
    requires
        before.len() == 0 || before.last() == '\n',
        forall|i: int| 0 <= i < lines(before).len() ==> !is_command(#[trigger] lines(before)[i]),
        line.len() > 0,
        !line.contains('\n'),
        after.len() == 0 || after[0] == '\n',
        is_command(line),
        is_command(chomp_return(line)),
        payload(chomp_return(line)) == payload(line),
    ensures
        command_in(before + (line + after)) == Some(payload(line)),
{
    let tail = line + after;
    lemma_lines_append(before, tail);
    lemma_first_command_skip(lines(before), lines(tail));
    lemma_lines_step(tail);
    assert forall|j: int| 0 <= j < line.len() implies #[trigger] line[j] != '\n' by {}
    text::lemma_first_index_at(line, '\n', line.len() as int);
    text::lemma_first_index_append(line, after, '\n');
    if after.len() == 0 {
        assert(tail =~= line);
    } else {
        text::lemma_first_index_at(after, '\n', 0);
        assert(tail.take(line.len() as int) =~= line);
    }
}

proof fn lemma_absent(a: Seq<char>, b: Seq<char>, c: char)
    requires
        !a.contains(c),
        !b.contains(c),
    ensures
        !(a + b).contains(c),
        forall|j: int| 0 <= j < (a + b).len() ==> #[trigger] (a + b)[j] != c,
{
    assert forall|j: int| 0 <= j < (a + b).len() implies #[trigger] (a + b)[j] != c by {
        if j < a.len() {
            assert((a + b)[j] == a[j]);
        } else {
            assert((a + b)[j] == b[j - a.len()]);
        }
    }
}

proof fn lemma_line_payload(indent: Seq<char>, request: Seq<char>, remark: Seq<char>)
    requires
        forall|i: int| 0 <= i < indent.len() ==> text::is_white_space(#[trigger] indent[i]),
        request.len() > 0 && request.last() == '}',
        !remark.contains('}'),
    ensures
        is_command(indent + marker() + request + remark),
        payload(indent + marker() + request + remark) == request,
{
    lemma_marker();
    let line = indent + marker() + request + remark;
    let a = indent.len() as int;
    assert forall|j: int| 0 <= j < a implies text::is_white_space(#[trigger] line[j]) by {
        assert(line[j] == indent[j]);
    }
    assert(line[a] == marker()[0]);
    text::lemma_trim_start_at(line, a);
    assert(line.skip(a) =~= marker() + request + remark);
    let said = text::trim_start(line).skip(marker().len() as int);
    assert(text::trim_start(line).take(marker().len() as int) =~= marker());
    assert(said =~= request + remark);
    assert forall|j: int| request.len() - 1 < j < said.len() implies #[trigger] said[j] != '}' by {
        assert(said[j] == remark[j - request.len()]);
    }
    lemma_last_index_at(said, '}', request.len() - 1);
    assert(said.take(request.len() as int) =~= request);
}

/// Nothing is made up: a command that is taken out of a response stands in it.
pub proof fn law_command_is_quoted(response: Seq<char>)
    ensures
        command_in(response) matches Some(p) ==> exists|i: int, j: int|
            0 <= i <= j <= response.len() && p == #[trigger] response.subrange(i, j),
    decreases response.len(),
{
    let nl = text::first_index(response, '\n');
    text::lemma_first_index(response, '\n');
    if response.len() > 0 && command_in(response) is Some {
        let rest = if nl < response.len() {
            response.skip(nl + 1)
        } else {
            Seq::<char>::empty()
        };
        let line = lines(response)[0];
        lemma_lines_step(response);
        assert(line =~= response.take(line.len() as int));
        if is_command(line) {
            let k = text::lemma_trim_start_suffix(line);
            lemma_last_index(text::trim_start(line).skip(marker().len() as int), '}');
            let from = k + marker().len();
            let p = payload(line);
            assert(p =~= response.subrange(from, from + p.len()));
        } else {
            assert(lines(response).drop_first() =~= lines(rest));
            law_command_is_quoted(rest);
            let (i, j) = choose|i: int, j: int|
                0 <= i <= j <= rest.len() && command_in(rest)->0 == #[trigger] rest.subrange(i, j);
            assert(rest.subrange(i, j) =~= response.subrange(nl + 1 + i, nl + 1 + j));
        }
    }
}

/// A line asks for a command exactly when `!!!OCHA_RUN_CMD` stands on it with nothing
/// but white space in front.
pub proof fn law_a_line_asks_by_its_mark(line: Seq<char>)
    ensures
        is_command(line) <==> exists|k: int|
            0 <= k <= line.len() && "!!!OCHA_RUN_CMD"@.is_prefix_of(#[trigger] line.skip(k)) && (
            forall|j: int| 0 <= j < k ==> text::is_white_space(#[trigger] line[j])),
{
    lemma_marker();
    let k = text::lemma_trim_start_suffix(line);
    if is_command(line) {
        assert("!!!OCHA_RUN_CMD"@.is_prefix_of(line.skip(k)));
    }
    if exists|k: int|
        0 <= k <= line.len() && "!!!OCHA_RUN_CMD"@.is_prefix_of(#[trigger] line.skip(k)) && (forall|
            j: int,
        |
            0 <= j < k ==> text::is_white_space(#[trigger] line[j])) {
        let i = choose|k: int|
            0 <= k <= line.len() && "!!!OCHA_RUN_CMD"@.is_prefix_of(#[trigger] line.skip(k)) && (
            forall|j: int| 0 <= j < k ==> text::is_white_space(#[trigger] line[j]));
        assert(line.skip(i)[0] == marker()[0]);
        assert(line[i] == '!');
        assert(!text::is_white_space(line[i]));
        text::lemma_trim_start_at(line, i);
    }
}

/// A request without a closing brace is taken out as it stands, up to the end of its
/// line.
pub proof fn law_a_request_without_a_brace(
    before: Seq<char>,
    indent: Seq<char>,
    request: Seq<char>,
    after: Seq<char>,
)
    requires
        before.len() == 0 || before.last() == '\n',
        forall|i: int| 0 <= i < lines(before).len() ==> !is_command(#[trigger] lines(before)[i]),
        forall|i: int| 0 <= i < indent.len() ==> text::is_white_space(#[trigger] indent[i]),
        !indent.contains('\n'),
        !request.contains('\n') && !request.contains('}'),
        request.len() > 0 ==> request.last() != '\r',
        after.len() == 0 || after[0] == '\n',
    ensures
        command_in(before + (indent + "!!!OCHA_RUN_CMD"@ + request + after)) == Some(request),
{
    lemma_marker();
    let line = indent + marker() + request;
    assert(!marker().contains('\n'));
    lemma_absent(indent, marker(), '\n');
    lemma_absent(indent + marker(), request, '\n');
    assert(indent + marker() + request + after == line + after);
    if line.last() == '\r' {
        if request.len() > 0 {
            assert(line.last() == request.last());
        } else {
            assert(line.last() == marker()[14]);
        }
    }
    assert(line[indent.len() as int] == marker()[0]);
    text::lemma_trim_start_at(line, indent.len() as int);
    assert(line.skip(indent.len() as int) =~= marker() + request);
    assert((marker() + request).skip(15) =~= request);
    lemma_last_index_at(request, '}', -1);
    assert(is_command(line));
    assert(payload(line) == request);
    lemma_first_line(before, line, after);
}

/// A line ends at its line feed, and a return in front of that belongs to neither
/// line; what stands behind the line feed has its lines for itself.
pub proof fn law_lines_are_cut_at_line_feeds(line: Seq<char>, after: Seq<char>)
    requires
        !line.contains('\n'),
        line.len() == 0 || line.last() != '\r',
    ensures
        lines(line + seq!['\n'] + after) == seq![line] + lines(after),
        lines(line + seq!['\r', '\n'] + after) == seq![line] + lines(after),
        line.len() > 0 ==> lines(line) == seq![line],
        lines(Seq::empty()).len() == 0,
{
    assert forall|j: int| 0 <= j < line.len() implies #[trigger] line[j] != '\n' by {
        assert(line.contains(line[j]));
    }
    let a = line + seq!['\n'] + after;
    let n = line.len() as int;
    text::lemma_first_index_at(a, '\n', n);
    assert(a.take(n) =~= line);
    assert(a.skip(n + 1) =~= after);
    let b = line + seq!['\r', '\n'] + after;
    text::lemma_first_index_at(b, '\n', n + 1);
    assert(b.take(n + 1) =~= line.push('\r'));
    assert(chomp_return(line.push('\r')) =~= line);
    assert(b.skip(n + 2) =~= after);
    text::lemma_first_index_at(line, '\n', n);
}

} // verus!
