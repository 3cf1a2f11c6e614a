//! Text as sequences of characters: the small vocabulary that the rest of the
//! crate states its contracts in, and the functions that compute it.

use vstd::prelude::*;

verus! {

/// `String::push` puts one character behind the text that is already there.
pub assume_specification[ String::push ](s: &mut String, c: char)
    ensures
        final(s)@ == old(s)@.push(c),
;

// ---------------------------------------------------------------------------
// White space
// ---------------------------------------------------------------------------

/// The characters with the Unicode property `White_Space`.
pub open spec fn is_white_space(c: char) -> bool {
    ||| '\u{9}' <= c <= '\u{d}'
    ||| c == ' '
    ||| c == '\u{85}'
    ||| c == '\u{a0}'
    ||| c == '\u{1680}'
    ||| '\u{2000}' <= c <= '\u{200a}'
    ||| c == '\u{2028}'
    ||| c == '\u{2029}'
    ||| c == '\u{202f}'
    ||| c == '\u{205f}'
    ||| c == '\u{3000}'
}

/// Whether `c` is white space.
pub fn white_space(c: char) -> (r: bool)
    ensures
        r == is_white_space(c),
{
    ('\u{9}' <= c && c <= '\u{d}') || c == ' ' || c == '\u{85}' || c == '\u{a0}' || c == '\u{1680}'
        || ('\u{2000}' <= c && c <= '\u{200a}') || c == '\u{2028}' || c == '\u{2029}' || c
        == '\u{202f}' || c == '\u{205f}' || c == '\u{3000}'
}

/// `s` without its leading white space.
pub open spec fn trim_start(s: Seq<char>) -> Seq<char>
    decreases s.len(),
{
    if s.len() > 0 && is_white_space(s[0]) {
        trim_start(s.drop_first())
    } else {
        s
    }
}

/// `s` without its trailing white space.
pub open spec fn trim_end(s: Seq<char>) -> Seq<char>
    decreases s.len(),
{
    if s.len() > 0 && is_white_space(s.last()) {
        trim_end(s.drop_last())
    } else {
        s
    }
}

/// `s` without the white space around it.
pub open spec fn trim(s: Seq<char>) -> Seq<char> {
    trim_end(trim_start(s))
}

/// Where the first character of `s` that is not white space stands, when the
/// `i` characters before it are.
pub proof fn lemma_trim_start_at(s: Seq<char>, i: int)
    requires
        0 <= i <= s.len(),
        forall|j: int| 0 <= j < i ==> is_white_space(#[trigger] s[j]),
        i < s.len() ==> !is_white_space(s[i]),
    ensures
        trim_start(s) == s.skip(i),
    decreases i,
{
    if i == 0 {
        assert(s.skip(0) =~= s);
    } else {
        let t = s.drop_first();
        assert forall|j: int| 0 <= j < i - 1 implies is_white_space(#[trigger] t[j]) by {
            assert(t[j] == s[j + 1]);
        }
        assert(is_white_space(s[0]));
        lemma_trim_start_at(t, i - 1);
        assert(t.skip(i - 1) =~= s.skip(i));
    }
}

/// The mirror image of [`lemma_trim_start_at`].
pub proof fn lemma_trim_end_at(s: Seq<char>, i: int)
    requires
        0 <= i <= s.len(),
        forall|j: int| i <= j < s.len() ==> is_white_space(#[trigger] s[j]),
        i > 0 ==> !is_white_space(s[i - 1]),
    ensures
        trim_end(s) == s.take(i),
    decreases s.len() - i,
{
    if i == s.len() {
        assert(s.take(i) =~= s);
    } else {
        let t = s.drop_last();
        assert(is_white_space(s[s.len() - 1]));
        lemma_trim_end_at(t, i);
        assert(t.take(i) =~= s.take(i));
    }
}

/// Trimming cuts a piece out of the text.
pub proof fn lemma_trim_start_suffix(s: Seq<char>) -> (i: int)
    ensures
        0 <= i <= s.len(),
        trim_start(s) == s.skip(i),
        forall|j: int| 0 <= j < i ==> is_white_space(#[trigger] s[j]),
        i < s.len() ==> !is_white_space(s[i]),
    decreases s.len(),
{
    if s.len() > 0 && is_white_space(s[0]) {
        let t = s.drop_first();
        let k = lemma_trim_start_suffix(t);
        assert(t.skip(k) =~= s.skip(k + 1));
        assert forall|j: int| 0 <= j < k + 1 implies is_white_space(#[trigger] s[j]) by {
            if j > 0 {
                assert(s[j] == t[j - 1]);
            }
        }
        if k + 1 < s.len() {
            assert(s[k + 1] == t[k]);
        }
        k + 1
    } else {
        assert(s.skip(0) =~= s);
        0
    }
}

// ---------------------------------------------------------------------------
// Strings as vectors of characters
// ---------------------------------------------------------------------------

/// The characters of `s`, in order.
pub fn chars_of(s: &str) -> (r: Vec<char>)
    ensures
        r@ == s@,
{
    let mut v: Vec<char> = Vec::new();
    for c in it: s.chars()
        invariant
            it.seq() == s@,
            v@ == s@.take(it.index() as int),
    {
        v.push(c);
        assert(s@.take(it.index() + 1) =~= s@.take(it.index() as int).push(c));
    }
    v
}

/// Whether two texts are the same.
pub fn same_text(a: &str, b: &str) -> (r: bool)
    ensures
        r == (a@ == b@),
{
    a.to_owned() == b.to_owned()
}

/// `s` without its leading white space.
pub fn trim_start_of(s: &str) -> (r: &str)
    ensures
        r@ == trim_start(s@),
{
    let chars = chars_of(s);
    let mut i: usize = 0;
    while i < chars.len() && white_space(chars[i])
        invariant
            chars@ == s@,
            i <= chars.len(),
            forall|j: int| 0 <= j < i ==> is_white_space(#[trigger] s@[j]),
        decreases chars.len() - i,
    {
        i += 1;
    }
    proof {
        lemma_trim_start_at(s@, i as int);
        assert(s@.skip(i as int) =~= s@.subrange(i as int, s@.len() as int));
    }
    s.substring_char(i, chars.len())
}

/// `s` without the white space around it.
pub fn trim_of(s: &str) -> (r: &str)
    ensures
        r@ == trim(s@),
{
    let t = trim_start_of(s);
    let chars = chars_of(t);
    let mut i: usize = chars.len();
    while i > 0 && white_space(chars[i - 1])
        invariant
            chars@ == t@,
            i <= chars.len(),
            forall|j: int| i <= j < t@.len() ==> is_white_space(#[trigger] t@[j]),
        decreases i,
    {
        i -= 1;
    }
    proof {
        lemma_trim_end_at(t@, i as int);
        assert(t@.take(i as int) =~= t@.subrange(0, i as int));
    }
    t.substring_char(0, i)
}

// ---------------------------------------------------------------------------
// Prefixes, searching and cutting
// ---------------------------------------------------------------------------

/// What follows the prefix `p` in `s`, if `s` starts with it.
pub open spec fn strip_prefix(s: Seq<char>, p: Seq<char>) -> Option<Seq<char>> {
    if p.is_prefix_of(s) {
        Some(s.skip(p.len() as int))
    } else {
        None
    }
}

/// Whether the characters of `p` stand in `s` from position `at` on.
pub fn matches_at(s: &Vec<char>, at: usize, p: &Vec<char>) -> (r: bool)
    requires
        at <= s.len(),
    ensures
        r == p@.is_prefix_of(s@.skip(at as int)),
{
    if s.len() - at < p.len() {
        return false;
    }
    let mut i: usize = 0;
    while i < p.len()
        invariant
            at <= s.len(),
            p.len() <= s.len() - at,
            i <= p.len(),
            forall|j: int| 0 <= j < i ==> s@[at + j] == #[trigger] p@[j],
        decreases p.len() - i,
    {
        if s[at + i] != p[i] {
            proof {
                assert(s@.skip(at as int)[i as int] == s@[at + i]);
            }
            return false;
        }
        i += 1;
    }
    proof {
        assert(s@.skip(at as int).take(p.len() as int) =~= p@);
    }
    true
}

/// What follows the prefix `p` in `s`, if `s` starts with it.
pub fn strip_prefix_of<'a>(s: &'a str, p: &str) -> (r: Option<&'a str>)
    ensures
        match r {
            Some(rest) => strip_prefix(s@, p@) == Some(rest@),
            None => strip_prefix(s@, p@) is None,
        },
{
    let chars = chars_of(s);
    let prefix = chars_of(p);
    proof {
        assert(s@.skip(0) =~= s@);
    }
    if matches_at(&chars, 0, &prefix) {
        proof {
            assert(s@.skip(p@.len() as int) =~= s@.subrange(p@.len() as int, s@.len() as int));
        }
        Some(s.substring_char(prefix.len(), chars.len()))
    } else {
        None
    }
}

/// The position of the first `c` in `s`, or the length of `s` where there is none.
pub open spec fn first_index<T>(s: Seq<T>, c: T) -> int
    decreases s.len(),
{
    if s.len() == 0 || s[0] == c {
        0
    } else {
        1 + first_index(s.drop_first(), c)
    }
}

/// `first_index` is the one position that has no `c` before it and a `c` or the
/// end behind it.
pub proof fn lemma_first_index_at<T>(s: Seq<T>, c: T, i: int)
    requires
        0 <= i <= s.len(),
        forall|j: int| 0 <= j < i ==> #[trigger] s[j] != c,
        i < s.len() ==> s[i] == c,
    ensures
        first_index(s, c) == i,
    decreases s.len(),
{
    if s.len() > 0 && i > 0 {
        let t = s.drop_first();
        assert(s[0] != c);
        assert forall|j: int| 0 <= j < i - 1 implies #[trigger] t[j] != c by {
            assert(t[j] == s[j + 1]);
        }
        lemma_first_index_at(t, c, i - 1);
    }
}

/// What `first_index` finds.
pub proof fn lemma_first_index<T>(s: Seq<T>, c: T)
    ensures
        0 <= first_index(s, c) <= s.len(),
        forall|j: int| 0 <= j < first_index(s, c) ==> #[trigger] s[j] != c,
        first_index(s, c) < s.len() ==> s[first_index(s, c)] == c,
    decreases s.len(),
{
    if s.len() > 0 && s[0] != c {
        let t = s.drop_first();
        lemma_first_index(t, c);
        assert forall|j: int| 0 <= j < first_index(s, c) implies #[trigger] s[j] != c by {
            if j > 0 {
                assert(s[j] == t[j - 1]);
            }
        }
    }
}

/// Text in front of which `c` does not occur moves the first `c` by its length.
pub proof fn lemma_first_index_append<T>(a: Seq<T>, b: Seq<T>, c: T)
    ensures
        first_index(a, c) < a.len() ==> first_index(a + b, c) == first_index(a, c),
        first_index(a, c) == a.len() ==> first_index(a + b, c) == a.len() + first_index(b, c),
{
    lemma_first_index(a, c);
    lemma_first_index(b, c);
    let s = a + b;
    if first_index(a, c) < a.len() {
        let i = first_index(a, c);
        assert forall|j: int| 0 <= j < i implies #[trigger] s[j] != c by {
            assert(s[j] == a[j]);
        }
        lemma_first_index_at(s, c, i);
    } else {
        let i = a.len() + first_index(b, c);
        assert forall|j: int| 0 <= j < i implies #[trigger] s[j] != c by {
            if j < a.len() {
                assert(s[j] == a[j]);
            } else {
                assert(s[j] == b[j - a.len()]);
            }
        }
        lemma_first_index_at(s, c, i);
    }
}

/// The position of the first `c` in `s` at or behind `from`, or the length of `s`.
pub fn index_from(s: &Vec<char>, from: usize, c: char) -> (r: usize)
    requires
        from <= s.len(),
    ensures
        from <= r <= s.len(),
        r - from == first_index(s@.skip(from as int), c),
{
    let ghost t = s@.skip(from as int);
    let mut i: usize = from;
    while i < s.len() && s[i] != c
        invariant
            from <= i <= s.len(),
            t == s@.skip(from as int),
            forall|j: int| 0 <= j < i - from ==> #[trigger] t[j] != c,
        decreases s.len() - i,
    {
        proof {
            assert(t[i - from] == s@[i as int]);
        }
        i += 1;
    }
    proof {
        if i < s.len() {
            assert(t[i - from] == s@[i as int]);
        }
        lemma_first_index_at(t, c, i - from);
    }
    i
}

/// The pieces between the separators: one more than there are separators.
pub open spec fn split<T>(s: Seq<T>, c: T) -> Seq<Seq<T>>
    decreases s.len(),
{
    let i = first_index(s, c);
    if 0 <= i < s.len() {
        seq![s.take(i)] + split(s.skip(i + 1), c)
    } else {
        seq![s]
    }
}

/// The views of a sequence of strings.
pub open spec fn texts(v: Seq<String>) -> Seq<Seq<char>> {
    Seq::new(v.len(), |i: int| v[i]@)
}

/// The view of an optional string.
pub open spec fn opt_text(v: Option<String>) -> Option<Seq<char>> {
    match v {
        Some(s) => Some(s@),
        None => None,
    }
}

/// The view of an optional string slice.
pub open spec fn opt_str(v: Option<&str>) -> Option<Seq<char>> {
    match v {
        Some(s) => Some(s@),
        None => None,
    }
}

/// A copy of an optional string.
pub fn clone_option(s: &Option<String>) -> (r: Option<String>)
    ensures
        opt_text(r) == opt_text(*s),
{
    match s {
        Some(t) => Some(t.clone()),
        None => None,
    }
}

/// Adding a string adds its text.
pub proof fn lemma_texts_push(v: Seq<String>, s: String)
    ensures
        texts(v.push(s)) == texts(v).push(s@),
{
    assert(texts(v.push(s)) =~= texts(v).push(s@));
}

/// `s` cut at every `c`.
pub fn split_of(s: &str, c: char) -> (r: Vec<String>)
    ensures
        texts(r@) == split(s@, c),
        r.len() > 0,
{
    let chars = chars_of(s);
    let mut out: Vec<String> = Vec::new();
    let mut from: usize = 0;
    proof {
        assert(s@.skip(0) =~= s@);
        assert(texts(out@) + split(s@, c) =~= split(s@, c));
    }
    loop
        invariant
            chars@ == s@,
            from <= chars.len(),
            split(s@, c) == texts(out@) + split(s@.skip(from as int), c),
        decreases chars.len() - from,
    {
        let to: usize = index_from(&chars, from, c);
        let ghost before = out@;
        let ghost rest = s@.skip(from as int);
        out.push(s.substring_char(from, to).to_owned());
        proof {
            lemma_texts_push(before, out@.last());
            assert(rest.take(to - from) =~= s@.subrange(from as int, to as int));
        }
        if to == chars.len() {
            proof {
                assert(rest.take(to - from) =~= rest);
                assert(texts(before) + seq![rest] =~= texts(before).push(rest));
            }
            return out;
        }
        proof {
            assert(rest.skip(to - from + 1) =~= s@.skip(to + 1));
            let piece = rest.take(to - from);
            assert(texts(before) + (seq![piece] + split(s@.skip(to + 1), c)) =~= texts(before).push(
                piece,
            ) + split(s@.skip(to + 1), c));
        }
        from = to + 1;
    }
}

/// The pieces put together, with `sep` between each two.
pub open spec fn join(parts: Seq<Seq<char>>, sep: Seq<char>) -> Seq<char>
    decreases parts.len(),
{
    if parts.len() == 0 {
        Seq::empty()
    } else if parts.len() == 1 {
        parts[0]
    } else {
        join(parts.drop_last(), sep) + sep + parts.last()
    }
}

/// `parts` with `sep` between each two.
pub fn join_of(parts: &Vec<String>, sep: &str) -> (r: String)
    ensures
        r@ == join(texts(parts@), sep@),
{
    let mut out = String::new();
    let mut i: usize = 0;
    let ghost all = texts(parts@);
    while i < parts.len()
        invariant
            i <= parts.len(),
            all == texts(parts@),
            out@ == join(all.take(i as int), sep@),
        decreases parts.len() - i,
    {
        if i > 0 {
            out.append(sep);
        }
        out.append(parts[i].as_str());
        proof {
            assert(all.take(i + 1).drop_last() =~= all.take(i as int));
            assert(all.take(i + 1).last() == parts@[i as int]@);
            if i == 0 {
                assert(all.take(1)[0] == parts@[0]@);
                assert(out@ =~= parts@[0]@);
            }
        }
        i += 1;
    }
    proof {
        assert(all.take(parts.len() as int) =~= all);
    }
    out
}

/// Two texts one after the other.
pub fn concat2(a: &str, b: &str) -> (r: String)
    ensures
        r@ == a@ + b@,
{
    let mut out = a.to_owned();
    out.append(b);
    out
}

/// Three texts one after the other.
pub fn concat3(a: &str, b: &str, c: &str) -> (r: String)
    ensures
        r@ == a@ + b@ + c@,
{
    let mut out = a.to_owned();
    out.append(b);
    out.append(c);
    out
}

// ---------------------------------------------------------------------------
// Numbers
// ---------------------------------------------------------------------------

/// The digit for `d` in bases up to sixteen.
pub open spec fn digit(d: int) -> char {
    "0123456789abcdef"@[d]
}

/// `n` written in base `base`, without leading zeros.
pub open spec fn numeral(n: nat, base: nat) -> Seq<char>
    decreases n,
{
    if base < 2 {
        Seq::empty()
    } else if n < base {
        seq![digit(n as int)]
    } else {
        proof {
            assert(n / base < n) by (nonlinear_arith)
                requires
                    2 <= base <= n,
            ;
        }
        numeral(n / base, base).push(digit((n % base) as int))
    }
}

/// `n` in decimal.
pub open spec fn decimal(n: nat) -> Seq<char> {
    numeral(n, 10)
}

/// `n` in hexadecimal, in lower case.
pub open spec fn hexadecimal(n: nat) -> Seq<char> {
    numeral(n, 16)
}

/// Writes `n` in base `base` behind `out`.
pub fn push_numeral(out: &mut String, n: u64, base: u64)
    requires
        2 <= base <= 16,
    ensures
        final(out)@ == old(out)@ + numeral(n as nat, base as nat),
    decreases n,
{
    if n >= base {
        proof {
            assert(n / base < n) by (nonlinear_arith)
                requires
                    2 <= base <= n,
            ;
        }
        push_numeral(out, n / base, base);
    }
    let d: u64 = n % base;
    proof {
        reveal_strlit("0123456789abcdef");
    }
    let c: char = match d {
        0 => '0',
        1 => '1',
        2 => '2',
        3 => '3',
        4 => '4',
        5 => '5',
        6 => '6',
        7 => '7',
        8 => '8',
        9 => '9',
        10 => 'a',
        11 => 'b',
        12 => 'c',
        13 => 'd',
        14 => 'e',
        _ => 'f',
    };
    let ghost mid = out@;
    out.push(c);
    proof {
        assert(c == digit(d as int));
        if n >= base {
            assert((n as nat) / (base as nat) == (n / base) as nat);
            assert(out@ =~= old(out)@ + numeral(n as nat, base as nat));
        } else {
            assert(n % base == n) by (nonlinear_arith)
                requires
                    n < base,
            ;
            assert(out@ =~= old(out)@ + seq![c]);
        }
    }
}

/// `n` in decimal.
pub fn decimal_of(n: u64) -> (r: String)
    ensures
        r@ == decimal(n as nat),
{
    let mut out = String::new();
    push_numeral(&mut out, n, 10);
    proof {
        assert(Seq::<char>::empty() + decimal(n as nat) =~= decimal(n as nat));
    }
    out
}

/// `n` in hexadecimal.
pub fn hexadecimal_of(n: u64) -> (r: String)
    ensures
        r@ == hexadecimal(n as nat),
{
    let mut out = String::new();
    push_numeral(&mut out, n, 16);
    proof {
        assert(Seq::<char>::empty() + hexadecimal(n as nat) =~= hexadecimal(n as nat));
    }
    out
}

/// Digits are told apart.
proof fn lemma_digit_injective(a: int, b: int)
    requires
        0 <= a < 16,
        0 <= b < 16,
        digit(a) == digit(b),
    ensures
        a == b,
{
    reveal_strlit("0123456789abcdef");
}

/// Two numbers that are written in the same way are the same number.
pub proof fn law_numerals_are_told_apart(n: nat, m: nat, base: nat)
    requires
        2 <= base <= 16,
        numeral(n, base) == numeral(m, base),
    ensures
        n == m,
    decreases n,
{
    lemma_numeral_length(n, base);
    lemma_numeral_length(m, base);
    if n < base || m < base {
        assert(n < base && m < base);
        assert(numeral(n, base)[0] == digit(n as int));
        assert(numeral(m, base)[0] == digit(m as int));
        lemma_digit_injective(n as int, m as int);
    } else {
        assert(n / base < n) by (nonlinear_arith)
            requires
                2 <= base <= n,
        ;
        assert(numeral(n, base).drop_last() =~= numeral(n / base, base));
        assert(numeral(m, base).drop_last() =~= numeral(m / base, base));
        assert(numeral(n, base).last() == digit((n % base) as int));
        assert(numeral(m, base).last() == digit((m % base) as int));
        law_numerals_are_told_apart(n / base, m / base, base);
        assert(0 <= n % base < 16 && 0 <= m % base < 16) by (nonlinear_arith)
            requires
                2 <= base <= 16,
        ;
        lemma_digit_injective((n % base) as int, (m % base) as int);
        assert(n == base * (n / base) + n % base) by (nonlinear_arith)
            requires
                2 <= base,
        ;
        assert(m == base * (m / base) + m % base) by (nonlinear_arith)
            requires
                2 <= base,
        ;
    }
}

/// Only numbers below the base are written with one digit.
proof fn lemma_numeral_length(n: nat, base: nat)
    requires
        2 <= base <= 16,
    ensures
        numeral(n, base).len() >= 1,
        n >= base ==> numeral(n, base).len() >= 2,
    decreases n,
{
    if n >= base {
        assert(n / base < n) by (nonlinear_arith)
            requires
                2 <= base <= n,
        ;
        lemma_numeral_length(n / base, base);
    }
}

// ---------------------------------------------------------------------------
// Laws
// ---------------------------------------------------------------------------

/// Trimming takes away the white space at both ends, all of it and nothing else.
pub proof fn law_trimming(left: Seq<char>, s: Seq<char>, right: Seq<char>)
    requires
        forall|i: int| 0 <= i < left.len() ==> is_white_space(#[trigger] left[i]),
        forall|i: int| 0 <= i < right.len() ==> is_white_space(#[trigger] right[i]),
        s.len() > 0 ==> !is_white_space(s[0]) && !is_white_space(s.last()),
    ensures
        trim(left + s + right) == s,
        s.len() > 0 ==> trim_start(left + s + right) == s + right,
{
    let whole = left + s + right;
    if s.len() > 0 {
        lemma_trim_start_at(whole, left.len() as int);
        assert(whole.skip(left.len() as int) =~= s + right);
        lemma_trim_end_at(s + right, s.len() as int);
        assert((s + right).take(s.len() as int) =~= s);
    } else {
        lemma_trim_start_at(whole, whole.len() as int);
        assert(whole.skip(whole.len() as int) =~= Seq::empty());
        assert(s =~= Seq::empty());
    }
}

/// The characters that count as white space, by their numbers.
pub proof fn law_white_space(c: char)
    ensures
        is_white_space(c) <==> {
            let n = c as int;
            ||| n == 32 || 9 <= n <= 13
            ||| n == 0x85 || n == 0xa0 || n == 0x1680
            ||| 0x2000 <= n <= 0x200a
            ||| n == 0x2028 || n == 0x2029 || n == 0x202f || n == 0x205f || n == 0x3000
        },
{
}

/// What stands behind a prefix is found, and nothing is found where the prefix is
/// missing.
pub proof fn law_a_prefix_is_stripped(p: Seq<char>, s: Seq<char>)
    ensures
        strip_prefix(p + s, p) == Some(s),
        strip_prefix(s, p) matches Some(rest) ==> s == p + rest,
        strip_prefix(s, p) is None ==> !p.is_prefix_of(s),
{
    assert(p.is_prefix_of(p + s));
    assert((p + s).skip(p.len() as int) =~= s);
    if p.is_prefix_of(s) {
        assert(s =~= p + s.skip(p.len() as int));
    }
}

/// Cutting and joining are inverse to each other: the pieces with the separator
/// between each two are the text, and no piece holds a separator.
pub proof fn law_pieces_are_the_text(s: Seq<char>, c: char)
    ensures
        split(s, c).len() > 0,
        join(split(s, c), seq![c]) == s,
        forall|i: int| 0 <= i < split(s, c).len() ==> !(#[trigger] split(s, c)[i]).contains(c),
    decreases s.len(),
{
    let i = first_index(s, c);
    lemma_first_index(s, c);
    if i < s.len() {
        let t = s.skip(i + 1);
        law_pieces_are_the_text(t, c);
        law_joined_pieces(seq![s.take(i)], split(t, c), seq![c]);
        assert(join(seq![s.take(i)], seq![c]) == s.take(i));
        assert(s.take(i) + seq![c] + t =~= s);
        let all = split(s, c);
        assert forall|k: int| 0 <= k < all.len() implies !(#[trigger] all[k]).contains(c) by {
            if k == 0 {
                assert(!s.take(i).contains(c));
            } else {
                assert(all[k] == split(t, c)[k - 1]);
            }
        }
    } else {
        assert(split(s, c) =~= seq![s]);
        assert(!s.contains(c));
    }
}

/// Two lists of parts, one behind the other, are joined with one separator between
/// what each is joined to; a part alone is joined to itself.
pub proof fn law_joined_pieces(a: Seq<Seq<char>>, b: Seq<Seq<char>>, sep: Seq<char>)
    ensures
        a.len() > 0 && b.len() > 0 ==> join(a + b, sep) == join(a, sep) + sep + join(b, sep),
        a.len() == 1 ==> join(a, sep) == a[0],
        a.len() == 0 ==> join(a, sep).len() == 0,
    decreases b.len(),
{
    if a.len() > 0 && b.len() > 0 {
        assert((a + b).drop_last() =~= a + b.drop_last());
        assert((a + b).last() == b.last());
        if b.len() == 1 {
            assert(a + b.drop_last() =~= a);
        } else {
            law_joined_pieces(a, b.drop_last(), sep);
            assert(join(a, sep) + sep + join(b.drop_last(), sep) + sep + b.last() =~= join(a, sep)
                + sep + (join(b.drop_last(), sep) + sep + b.last()));
        }
    }
}

/// The number that a digit stands for.
pub open spec fn digit_value(c: char) -> int {
    if '0' <= c <= '9' {
        c as int - '0' as int
    } else {
        c as int - 'a' as int + 10
    }
}

/// The number that digits stand for, the first one for the most.
pub open spec fn value_of(digits: Seq<char>, base: nat) -> int
    decreases digits.len(),
{
    if digits.len() == 0 {
        0
    } else {
        value_of(digits.drop_last(), base) * base + digit_value(digits.last())
    }
}

/// A number is read back from its digits; and there is no zero in front, unless the
/// number is zero.
pub proof fn law_a_number_is_read_back(n: nat, base: nat)
    requires
        2 <= base <= 16,
    ensures
        value_of(numeral(n, base), base) == n,
        numeral(n, base).len() > 0,
        n > 0 ==> numeral(n, base)[0] != '0',
    decreases n,
{
    reveal_strlit("0123456789abcdef");
    reveal_with_fuel(value_of, 2);
    if n < base {
        assert(numeral(n, base).drop_last() =~= Seq::<char>::empty());
        assert(digit_value(digit(n as int)) == n);
    } else {
        assert(0 < n / base < n) by (nonlinear_arith)
            requires
                2 <= base <= n,
        ;
        law_a_number_is_read_back(n / base, base);
        let d = (n % base) as int;
        assert(0 <= d < 16) by (nonlinear_arith)
            requires
                2 <= base <= 16,
                d == n % base,
        ;
        assert(numeral(n, base).drop_last() =~= numeral(n / base, base));
        assert(digit_value(digit(d)) == d);
        assert((n / base) * base + n % base == n) by (nonlinear_arith)
            requires
                2 <= base,
        ;
    }
}

} // verus!
