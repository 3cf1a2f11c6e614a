//! JSON text. `serde_json` builds the values and writes them out; the contracts
//! here say which text comes out of which value.

use crate::text;
use vstd::prelude::*;

verus! {

// ---------------------------------------------------------------------------
// The text of a value
// ---------------------------------------------------------------------------

/// How one character is written inside a JSON string.
pub open spec fn escape(c: char) -> Seq<char> {
    if c == '"' || c == '\\' {
        seq!['\\', c]
    } else if c == '\u{8}' {
        seq!['\\', 'b']
    } else if c == '\t' {
        seq!['\\', 't']
    } else if c == '\n' {
        seq!['\\', 'n']
    } else if c == '\u{c}' {
        seq!['\\', 'f']
    } else if c == '\r' {
        seq!['\\', 'r']
    } else if (c as int) < 32 {
        seq!['\\', 'u', '0', '0', text::digit(c as int / 16), text::digit(c as int % 16)]
    } else {
        seq![c]
    }
}

/// The characters of `s` as they are written inside a JSON string.
pub open spec fn escaped(s: Seq<char>) -> Seq<char>
    decreases s.len(),
{
    if s.len() == 0 {
        Seq::empty()
    } else {
        escaped(s.drop_last()) + escape(s.last())
    }
}

/// `s` as a JSON string.
pub open spec fn jstr(s: Seq<char>) -> Seq<char> {
    seq!['"'] + escaped(s) + seq!['"']
}

/// `s` as a JSON string, or `null`.
pub open spec fn jopt(s: Option<Seq<char>>) -> Seq<char> {
    match s {
        Some(t) => jstr(t),
        None => "null"@,
    }
}

/// An integer as a JSON number.
pub open spec fn jint(i: int) -> Seq<char> {
    if i < 0 {
        seq!['-'] + text::decimal((-i) as nat)
    } else {
        text::decimal(i as nat)
    }
}

/// A JSON array of the values with these texts.
pub open spec fn jarr(items: Seq<Seq<char>>) -> Seq<char> {
    seq!['['] + text::join(items, seq![',']) + seq![']']
}

/// One member of a JSON object.
pub open spec fn jmember(f: (Seq<char>, Seq<char>)) -> Seq<char> {
    jstr(f.0) + seq![':'] + f.1
}

/// A JSON object with these keys and values.
pub open spec fn jobj(fields: Seq<(Seq<char>, Seq<char>)>) -> Seq<char> {
    seq!['{'] + text::join(Seq::new(fields.len(), |i: int| jmember(fields[i])), seq![',']) + seq!['}']
}

/// Whether `a` comes before `b` in the order of texts, which is settled at `i`: up to
/// there they agree, and there `a` ends or has the smaller character.
pub open spec fn precedes_at(a: Seq<char>, b: Seq<char>, i: int) -> bool {
    &&& 0 <= i <= a.len()
    &&& i < b.len()
    &&& forall|j: int| 0 <= j < i ==> #[trigger] a[j] == b[j]
    &&& i < a.len() ==> (a[i] as int) < (b[i] as int)
}

/// Whether `a` comes before `b` in the order of texts.
pub open spec fn precedes(a: Seq<char>, b: Seq<char>) -> bool {
    exists|i: int| precedes_at(a, b, i)
}

/// Whether the `i`-th key comes before the next one.
pub open spec fn key_precedes(fields: Seq<(Seq<char>, Seq<char>)>, i: int) -> bool {
    precedes(fields[i].0, fields[i + 1].0)
}

/// The keys are in order, and none occurs twice.
pub open spec fn sorted_keys(fields: Seq<(Seq<char>, Seq<char>)>) -> bool {
    forall|i: int| 0 <= i < fields.len() - 1 ==> #[trigger] key_precedes(fields, i)
}

// ---------------------------------------------------------------------------
// serde_json
// ---------------------------------------------------------------------------

/// `serde_json::Value`, a JSON value.
#[verifier::external_type_specification]
#[verifier::external_body]
pub struct ExValue(serde_json::Value);

/// The text of a JSON value in its compact form.
pub uninterp spec fn json_text(v: serde_json::Value) -> Seq<char>;

/// The texts of JSON values.
pub open spec fn json_texts(v: Seq<serde_json::Value>) -> Seq<Seq<char>> {
    Seq::new(v.len(), |i: int| json_text(v[i]))
}

/// The keys of members, with the texts of their values.
pub open spec fn members(v: Seq<(String, serde_json::Value)>) -> Seq<(Seq<char>, Seq<char>)> {
    Seq::new(v.len(), |i: int| (v[i].0@, json_text(v[i].1)))
}

/// `serde_json::Value::Null`. Its text is `null`.
#[verifier::external_body]
pub(crate) fn json_null() -> (v: serde_json::Value)
    ensures
        json_text(v) == "null"@,
{
    serde_json::Value::Null
}

/// `serde_json::Value::Bool`. Its text is `true` or `false`.
#[verifier::external_body]
pub(crate) fn json_bool(b: bool) -> (v: serde_json::Value)
    ensures
        json_text(v) == if b {
            "true"@
        } else {
            "false"@
        },
{
    serde_json::Value::Bool(b)
}

/// `serde_json::Value::from(u64)`. Its text is the number in decimal.
#[verifier::external_body]
pub(crate) fn json_unsigned(n: u64) -> (v: serde_json::Value)
    ensures
        json_text(v) == jint(n as int),
{
    serde_json::Value::from(n)
}

/// `serde_json::Value::from(i32)`. Its text is the number in decimal, with a
/// minus sign in front where it is negative.
#[verifier::external_body]
pub(crate) fn json_signed(n: i32) -> (v: serde_json::Value)
    ensures
        json_text(v) == jint(n as int),
{
    serde_json::Value::from(n)
}

/// `serde_json::Value::String`. Its text is the string between quotes, with
/// quotes, backslashes and control characters escaped and nothing else changed.
#[verifier::external_body]
pub(crate) fn json_string(s: &str) -> (v: serde_json::Value)
    ensures
        json_text(v) == jstr(s@),
{
    serde_json::Value::String(s.to_owned())
}

/// `serde_json::Value::Array`. Its text is those of the items in their order.
#[verifier::external_body]
pub(crate) fn json_array(items: Vec<serde_json::Value>) -> (v: serde_json::Value)
    ensures
        json_text(v) == jarr(json_texts(items@)),
{
    serde_json::Value::Array(items)
}

/// `serde_json::Value::Object`, of a `serde_json::Map`, which keeps its members in the
/// order of their keys, each key once. Its text is the members in that order. Here
/// they come in that order already.
#[verifier::external_body]
pub(crate) fn json_object(fields: Vec<(String, serde_json::Value)>) -> (v: serde_json::Value)
    requires
        sorted_keys(members(fields@)),
    ensures
        json_text(v) == jobj(members(fields@)),
{
    serde_json::Value::Object(serde_json::Map::from_iter(fields))
}

/// `serde_json::Value::to_string`, the compact text of a value.
#[verifier::external_body]
pub(crate) fn json_to_string(v: &serde_json::Value) -> (r: String)
    ensures
        r@ == json_text(*v),
{
    v.to_string()
}

// ---------------------------------------------------------------------------
// Building objects
// ---------------------------------------------------------------------------

/// A JSON value under construction: an object with its members in the order of their
/// keys.
pub struct Object {
    fields: Vec<(String, serde_json::Value)>,
}

impl View for Object {
    type V = Seq<(Seq<char>, Seq<char>)>;

    closed spec fn view(&self) -> Seq<(Seq<char>, Seq<char>)> {
        members(self.fields@)
    }
}

impl Object {
    /// An object without members.
    pub fn new() -> (o: Object)
        ensures
            o@ == Seq::<(Seq<char>, Seq<char>)>::empty(),
    {
        let o = Object { fields: Vec::new() };
        proof {
            assert(o@ =~= Seq::empty());
        }
        o
    }

    /// This object with one more member behind those that it has.
    pub fn with(self, key: &str, value: serde_json::Value) -> (o: Object)
        ensures
            o@ == self@.push((key@, json_text(value))),
    {
        let mut fields = self.fields;
        let ghost before = fields@;
        fields.push((key.to_owned(), value));
        proof {
            assert(members(fields@) =~= members(before).push((key@, json_text(value))));
        }
        Object { fields }
    }

    /// This object with one more member that holds a string.
    pub fn with_str(self, key: &str, value: &str) -> (o: Object)
        ensures
            o@ == self@.push((key@, jstr(value@))),
    {
        self.with(key, json_string(value))
    }

    /// This object as a JSON value.
    pub fn build(self) -> (v: serde_json::Value)
        requires
            sorted_keys(self@),
        ensures
            json_text(v) == jobj(self@),
    {
        json_object(self.fields)
    }
}

/// The text of an object under construction: its members stand in the order in which
/// they are put in, as the fields of a record do.
pub struct Record {
    fields: Vec<(String, String)>,
}

/// The keys of members and the texts of their values.
pub open spec fn field_texts(v: Seq<(String, String)>) -> Seq<(Seq<char>, Seq<char>)> {
    Seq::new(v.len(), |i: int| (v[i].0@, v[i].1@))
}

impl View for Record {
    type V = Seq<(Seq<char>, Seq<char>)>;

    closed spec fn view(&self) -> Seq<(Seq<char>, Seq<char>)> {
        field_texts(self.fields@)
    }
}

impl Record {
    /// A record without fields.
    pub fn new() -> (o: Record)
        ensures
            o@ == Seq::<(Seq<char>, Seq<char>)>::empty(),
    {
        let o = Record { fields: Vec::new() };
        proof {
            assert(o@ =~= Seq::empty());
        }
        o
    }

    /// This record with one more field, whose value has this text.
    pub fn with_text(self, key: &str, value: String) -> (o: Record)
        ensures
            o@ == self@.push((key@, value@)),
    {
        let mut fields = self.fields;
        let ghost before = fields@;
        fields.push((key.to_owned(), value));
        proof {
            assert(field_texts(fields@) =~= field_texts(before).push((key@, value@)));
        }
        Record { fields }
    }

    /// This record with one more field.
    pub fn with(self, key: &str, value: serde_json::Value) -> (o: Record)
        ensures
            o@ == self@.push((key@, json_text(value))),
    {
        self.with_text(key, json_to_string(&value))
    }

    /// This record with one more field that holds a string.
    pub fn with_str(self, key: &str, value: &str) -> (o: Record)
        ensures
            o@ == self@.push((key@, jstr(value@))),
    {
        self.with(key, json_string(value))
    }

    /// The text of this record.
    pub fn text(&self) -> (r: String)
        ensures
            r@ == jobj(self@),
    {
        let ghost fields = self@;
        let mut parts: Vec<String> = Vec::new();
        let mut i: usize = 0;
        while i < self.fields.len()
            invariant
                i <= self.fields.len(),
                parts.len() == i,
                fields == field_texts(self.fields@),
                forall|j: int| 0 <= j < i ==> (#[trigger] parts@[j])@ == jmember(fields[j]),
            decreases self.fields.len() - i,
        {
            let key = json_to_string(&json_string(self.fields[i].0.as_str()));
            let part = text::concat3(key.as_str(), ":", self.fields[i].1.as_str());
            proof {
                reveal_strlit(":");
                assert(":"@ =~= seq![':']);
                assert(part@ == jmember(fields[i as int]));
            }
            parts.push(part);
            i += 1;
        }
        proof {
            reveal_strlit("{");
            reveal_strlit("}");
            reveal_strlit(",");
            assert("{"@ =~= seq!['{'] && "}"@ =~= seq!['}'] && ","@ =~= seq![',']);
            assert(text::texts(parts@) =~= Seq::new(fields.len(), |i: int| jmember(fields[i])));
        }
        text::concat3("{", text::join_of(&parts, ",").as_str(), "}")
    }
}

/// The text of a JSON array of the values with these texts.
pub fn array_text(items: &Vec<String>) -> (r: String)
    ensures
        r@ == jarr(text::texts(items@)),
{
    proof {
        reveal_strlit("[");
        reveal_strlit("]");
        reveal_strlit(",");
        assert("["@ =~= seq!['['] && "]"@ =~= seq![']'] && ","@ =~= seq![',']);
    }
    text::concat3("[", text::join_of(items, ",").as_str(), "]")
}

/// An optional string as a JSON value.
pub fn json_optional(s: &Option<String>) -> (v: serde_json::Value)
    ensures
        json_text(v) == jopt(crate::text::opt_text(*s)),
{
    match s {
        Some(t) => json_string(t.as_str()),
        None => json_null(),
    }
}

/// Strings as a JSON array.
pub fn json_strings(items: &Vec<String>) -> (v: serde_json::Value)
    ensures
        json_text(v) == jarr(Seq::new(items@.len(), |i: int| jstr(items@[i]@))),
{
    let mut out: Vec<serde_json::Value> = Vec::new();
    let mut i: usize = 0;
    while i < items.len()
        invariant
            i <= items.len(),
            out.len() == i,
            forall|j: int| 0 <= j < i ==> json_text(#[trigger] out@[j]) == jstr(items@[j]@),
        decreases items.len() - i,
    {
        out.push(json_string(items[i].as_str()));
        i += 1;
    }
    proof {
        assert(json_texts(out@) =~= Seq::new(items@.len(), |i: int| jstr(items@[i]@)));
    }
    json_array(out)
}

// ---------------------------------------------------------------------------
// Laws
// ---------------------------------------------------------------------------

/// Text without quotes, backslashes and control characters is written as it is.
pub proof fn lemma_plain(s: Seq<char>)
    requires
        plain(s),
    ensures
        escaped(s) == s,
    decreases s.len(),
{
    if s.len() > 0 {
        let t = s.drop_last();
        assert forall|i: int| 0 <= i < t.len() implies #[trigger] t[i] != '"' && t[i] != '\\' && 32
            <= t[i] as int by {
            assert(t[i] == s[i]);
        }
        lemma_plain(t);
        let c = s[s.len() - 1];
        assert(escape(c) =~= seq![c]);
        assert(escaped(s) =~= s);
    }
}

/// An object with one more member is written with it in front of the closing brace.
pub proof fn lemma_one_more_member(fields: Seq<(Seq<char>, Seq<char>)>, f: (Seq<char>, Seq<char>))
    ensures
        fields.len() == 0 ==> jobj(fields.push(f)) == seq!['{'] + jmember(f) + seq!['}'],
        fields.len() > 0 ==> jobj(fields.push(f)) == jobj(fields).drop_last() + seq![',']
            + jmember(f) + seq!['}'],
{
    let old_parts = Seq::new(fields.len(), |i: int| jmember(fields[i]));
    let more = fields.push(f);
    let parts = Seq::new(more.len(), |i: int| jmember(more[i]));
    assert(parts =~= old_parts.push(jmember(f)));
    if fields.len() > 0 {
        assert(parts.drop_last() =~= old_parts);
        assert(jobj(more) =~= jobj(fields).drop_last() + seq![','] + jmember(f) + seq!['}']);
    }
}

/// Whether a text is written in JSON as it is.
pub open spec fn plain(s: Seq<char>) -> bool {
    forall|i: int| 0 <= i < s.len() ==> #[trigger] s[i] != '"' && s[i] != '\\' && 32 <= s[i] as int
}

/// A member of an object, with its key between quotes.
pub open spec fn named(key: Seq<char>, value: Seq<char>) -> Seq<char> {
    seq!['"'] + key + seq!['"', ':'] + value
}

/// An object with these members, as they are written.
pub open spec fn written(members: Seq<Seq<char>>) -> Seq<char> {
    seq!['{'] + text::join(members, seq![',']) + seq!['}']
}

/// An object with plain keys is written with its keys as they are.
pub proof fn lemma_written(fields: Seq<(Seq<char>, Seq<char>)>)
    requires
        forall|k: int| 0 <= k < fields.len() ==> plain(#[trigger] fields[k].0),
    ensures
        jobj(fields) == written(Seq::new(fields.len(), |k: int| named(fields[k].0, fields[k].1))),
{
    let a = Seq::new(fields.len(), |i: int| jmember(fields[i]));
    let b = Seq::new(fields.len(), |k: int| named(fields[k].0, fields[k].1));
    assert forall|k: int| 0 <= k < fields.len() implies a[k] == b[k] by {
        assert(plain(fields[k].0));
        lemma_plain(fields[k].0);
        assert(jmember(fields[k]) =~= named(fields[k].0, fields[k].1));
    }
    assert(a =~= b);
}

/// A text with no line breaks in it.
pub open spec fn one_line(s: Seq<char>) -> bool {
    !s.contains('\n') && !s.contains('\r')
}

proof fn lemma_one_line_concat(a: Seq<char>, b: Seq<char>)
    requires
        one_line(a),
        one_line(b),
    ensures
        one_line(a + b),
{
    assert forall|j: int| 0 <= j < (a + b).len() implies (#[trigger] (a + b)[j]) != '\n' && (a + b)[j]
        != '\r' by {
        if j < a.len() {
            assert((a + b)[j] == a[j]);
        } else {
            assert((a + b)[j] == b[j - a.len()]);
        }
    }
}

/// A string is written on one line, whatever it holds.
pub proof fn law_strings_are_one_line(s: Seq<char>)
    ensures
        one_line(jstr(s)),
{
    lemma_escaped_one_line(s);
    assert(one_line(seq!['"']));
    lemma_one_line_concat(seq!['"'], escaped(s));
    lemma_one_line_concat(seq!['"'] + escaped(s), seq!['"']);
}

proof fn lemma_numeral_one_line(n: nat)
    ensures
        one_line(text::decimal(n)),
    decreases n,
{
    reveal_strlit("0123456789abcdef");
    let d = n % 10;
    assert(text::digit(d as int) != '\n' && text::digit(d as int) != '\r');
    assert(one_line(seq![text::digit(d as int)]));
    if n >= 10 {
        lemma_numeral_one_line(n / 10);
        lemma_one_line_concat(text::decimal(n / 10), seq![text::digit(d as int)]);
        assert(text::decimal(n) =~= text::decimal(n / 10) + seq![text::digit(d as int)]);
    }
}

/// A number is written on one line.
pub proof fn law_numbers_are_one_line(i: int)
    ensures
        one_line(jint(i)),
{
    if i < 0 {
        lemma_numeral_one_line((-i) as nat);
        assert(one_line(seq!['-']));
        lemma_one_line_concat(seq!['-'], text::decimal((-i) as nat));
    } else {
        lemma_numeral_one_line(i as nat);
    }
}

/// An optional string is written on one line.
pub proof fn law_optional_strings_are_one_line(s: Option<Seq<char>>)
    ensures
        one_line(jopt(s)),
{
    reveal_strlit("null");
    match s {
        Some(t) => law_strings_are_one_line(t),
        None => {},
    }
}

proof fn lemma_escape_one_line(c: char)
    ensures
        one_line(escape(c)),
{
    reveal_strlit("0123456789abcdef");
    let e = escape(c);
    assert forall|j: int| 0 <= j < e.len() implies (#[trigger] e[j]) != '\n' && e[j] != '\r' by {
        if (c as int) < 32 {
            assert(0 <= c as int / 16 < 16 && 0 <= c as int % 16 < 16);
            assert(forall|d: int|
                0 <= d < 16 ==> (#[trigger] text::digit(d)) != '\n' && text::digit(d) != '\r');
        }
    }
}

proof fn lemma_escaped_one_line(s: Seq<char>)
    ensures
        one_line(escaped(s)),
    decreases s.len(),
{
    if s.len() > 0 {
        lemma_escaped_one_line(s.drop_last());
        lemma_escape_one_line(s.last());
        lemma_one_line_concat(escaped(s.drop_last()), escape(s.last()));
    }
}

proof fn lemma_join_one_line(parts: Seq<Seq<char>>)
    requires
        forall|i: int| 0 <= i < parts.len() ==> one_line(#[trigger] parts[i]),
    ensures
        one_line(text::join(parts, seq![','])),
    decreases parts.len(),
{
    if parts.len() > 1 {
        lemma_join_one_line(parts.drop_last());
        assert(one_line(seq![',']));
        assert(one_line(parts[parts.len() - 1]));
        lemma_one_line_concat(text::join(parts.drop_last(), seq![',']), seq![',']);
        lemma_one_line_concat(text::join(parts.drop_last(), seq![',']) + seq![','], parts.last());
    } else if parts.len() == 1 {
        assert(one_line(parts[0]));
    }
}

/// An array of one-line values is written on one line.
pub proof fn law_arrays_are_one_line(items: Seq<Seq<char>>)
    requires
        forall|i: int| 0 <= i < items.len() ==> one_line(#[trigger] items[i]),
    ensures
        one_line(jarr(items)),
{
    lemma_join_one_line(items);
    assert(one_line(seq!['[']));
    assert(one_line(seq![']']));
    lemma_one_line_concat(seq!['['], text::join(items, seq![',']));
    lemma_one_line_concat(seq!['['] + text::join(items, seq![',']), seq![']']);
}

/// An object with one-line values is written on one line.
pub proof fn law_objects_are_one_line(fields: Seq<(Seq<char>, Seq<char>)>)
    requires
        forall|i: int| 0 <= i < fields.len() ==> one_line((#[trigger] fields[i]).1),
    ensures
        one_line(jobj(fields)),
{
    let parts = Seq::new(fields.len(), |i: int| jmember(fields[i]));
    assert forall|i: int| 0 <= i < parts.len() implies one_line(#[trigger] parts[i]) by {
        let f = fields[i];
        law_strings_are_one_line(f.0);
        assert(one_line(seq![':']));
        lemma_one_line_concat(jstr(f.0), seq![':']);
        lemma_one_line_concat(jstr(f.0) + seq![':'], f.1);
    }
    lemma_join_one_line(parts);
    assert(one_line(seq!['{']));
    assert(one_line(seq!['}']));
    lemma_one_line_concat(seq!['{'], text::join(parts, seq![',']));
    lemma_one_line_concat(seq!['{'] + text::join(parts, seq![',']), seq!['}']);
}

/// Two strings with the same JSON text are the same string: nothing that is
/// written down is lost.
pub proof fn law_strings_are_told_apart(a: Seq<char>, b: Seq<char>)
    requires
        jstr(a) == jstr(b),
    ensures
        a == b,
{
    assert(jstr(a).subrange(1, jstr(a).len() - 1) =~= escaped(a));
    assert(jstr(b).subrange(1, jstr(b).len() - 1) =~= escaped(b));
    lemma_escaped_left(a);
    lemma_escaped_left(b);
    lemma_escaped_injective(a, b);
}

/// `escaped`, unfolded from the left.
spec fn escaped_left(s: Seq<char>) -> Seq<char>
    decreases s.len(),
{
    if s.len() == 0 {
        Seq::empty()
    } else {
        escape(s[0]) + escaped_left(s.drop_first())
    }
}

proof fn lemma_escaped_left(s: Seq<char>)
    ensures
        escaped(s) == escaped_left(s),
    decreases s.len(),
{
    if s.len() > 0 {
        let t = s.drop_last();
        lemma_escaped_left(t);
        lemma_escaped_left_push(t, s.last());
        assert(t.push(s.last()) =~= s);
    }
}

proof fn lemma_escaped_left_push(s: Seq<char>, c: char)
    ensures
        escaped_left(s.push(c)) == escaped_left(s) + escape(c),
    decreases s.len(),
{
    if s.len() == 0 {
        assert(s.push(c).drop_first() =~= Seq::empty());
        assert(escaped_left(Seq::<char>::empty()) == Seq::<char>::empty());
        assert(s.push(c)[0] == c);
        assert(escape(c) + Seq::<char>::empty() =~= Seq::<char>::empty() + escape(c));
    } else {
        assert(s.push(c).drop_first() =~= s.drop_first().push(c));
        lemma_escaped_left_push(s.drop_first(), c);
        assert(escape(s[0]) + (escaped_left(s.drop_first()) + escape(c)) =~= (escape(s[0])
            + escaped_left(s.drop_first())) + escape(c));
    }
}

/// No escape is the beginning of another one.
proof fn lemma_escape_prefix_free(c: char, d: char, x: Seq<char>, y: Seq<char>)
    requires
        escape(c) + x == escape(d) + y,
    ensures
        c == d,
        x == y,
{
    reveal_strlit("0123456789abcdef");
    let l = escape(c) + x;
    let r = escape(d) + y;
    assert(l[0] == escape(c)[0]);
    assert(r[0] == escape(d)[0]);
    if l[0] == '\\' {
        assert(l[1] == escape(c)[1]);
        assert(r[1] == escape(d)[1]);
        if l[1] == 'u' {
            assert(l[4] == escape(c)[4]);
            assert(r[4] == escape(d)[4]);
            assert(l[5] == escape(c)[5]);
            assert(r[5] == escape(d)[5]);
        }
    }
    assert(c == d);
    assert(x =~= l.skip(escape(c).len() as int));
    assert(y =~= r.skip(escape(c).len() as int));
}

proof fn lemma_escaped_injective(a: Seq<char>, b: Seq<char>)
    requires
        escaped_left(a) == escaped_left(b),
    ensures
        a == b,
    decreases a.len(),
{
    if a.len() == 0 {
        if b.len() > 0 {
            assert(escaped_left(b).len() >= escape(b[0]).len());
        }
        assert(a =~= b);
    } else if b.len() == 0 {
        assert(escaped_left(a).len() >= escape(a[0]).len());
    } else {
        lemma_escape_prefix_free(
            a[0],
            b[0],
            escaped_left(a.drop_first()),
            escaped_left(b.drop_first()),
        );
        lemma_escaped_injective(a.drop_first(), b.drop_first());
        assert(a =~= seq![a[0]] + a.drop_first());
        assert(b =~= seq![b[0]] + b.drop_first());
    }
}

/// A number is written in decimal, with a minus in front where it is negative; a string
/// that may be missing is `null` where it is.
pub proof fn law_how_values_are_written(n: nat, s: Seq<char>)
    ensures
        jint(n as int) == text::decimal(n),
        n > 0 ==> jint(-(n as int)) == seq!['-'] + text::decimal(n),
        jopt(Some(s)) == jstr(s),
        jopt(None) == "null"@,
{
}

/// A string is written character by character: each stands for itself, but for quotes,
/// backslashes and control characters, which stand behind a backslash.
pub proof fn law_strings_are_written_by_character(s: Seq<char>, c: char)
    ensures
        jstr(s).first() == '"' && jstr(s).last() == '"',
        jstr(s.push(c)) == jstr(s).drop_last() + escape(c) + seq!['"'],
        c != '"' && c != '\\' && c as int >= 32 ==> escape(c) == seq![c],
        c == '"' || c == '\\' ==> escape(c) == seq!['\\', c],
        (c as int) < 32 ==> escape(c).len() >= 2 && escape(c)[0] == '\\',
        c == '\n' ==> escape(c) == seq!['\\', 'n'],
        c == '\r' ==> escape(c) == seq!['\\', 'r'],
        c == '\t' ==> escape(c) == seq!['\\', 't'],
{
    assert(s.push(c).drop_last() =~= s);
    assert(jstr(s.push(c)) =~= jstr(s).drop_last() + escape(c) + seq!['"']);
}

/// Arrays and objects are written with a comma between each two items or members.
pub proof fn law_items_are_parted_by_commas(
    items: Seq<Seq<char>>,
    x: Seq<char>,
    fields: Seq<(Seq<char>, Seq<char>)>,
    key: Seq<char>,
    value: Seq<char>,
)
    ensures
        jarr(Seq::empty()) == seq!['[', ']'],
        jobj(Seq::empty()) == seq!['{', '}'],
        items.len() > 0 ==> jarr(items.push(x)) == jarr(items).drop_last() + seq![','] + x + seq![
            ']',
        ],
        items.len() == 0 ==> jarr(items.push(x)) == seq!['['] + x + seq![']'],
        fields.len() > 0 ==> jobj(fields.push((key, value))) == jobj(fields).drop_last() + seq![',']
            + jstr(key) + seq![':'] + value + seq!['}'],
        fields.len() == 0 ==> jobj(fields.push((key, value))) == seq!['{'] + jstr(key) + seq![':']
            + value + seq!['}'],
{
    assert(jarr(Seq::empty()) =~= seq!['[', ']']);
    let none = Seq::<(Seq<char>, Seq<char>)>::empty();
    assert(jobj(none) =~= seq!['{', '}']);
    assert(items.push(x).drop_last() =~= items);
    if items.len() > 0 {
        assert(jarr(items.push(x)) =~= jarr(items).drop_last() + seq![','] + x + seq![']']);
    }
    lemma_one_more_member(fields, (key, value));
    if fields.len() > 0 {
        assert(jobj(fields.push((key, value))) =~= jobj(fields).drop_last() + seq![','] + jstr(key)
            + seq![':'] + value + seq!['}']);
    } else {
        assert(jobj(fields.push((key, value))) =~= seq!['{'] + jstr(key) + seq![':'] + value + seq![
            '}',
        ]);
    }
}

} // verus!
