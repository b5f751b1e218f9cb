//! The JSON text of the service's replies.

use vstd::prelude::*;

use crate::gist::{GistSummary, GistView};
use crate::names::texts;

verus! {

/// A character that a JSON string literal holds as it is: neither a quote,
/// nor a backslash, nor a control character below U+0020.
pub open spec fn is_plain_json_char(c: char) -> bool {
    c != '"' && c != '\\' && ('\u{20}' <= c)
}

/// The lower-case hexadecimal digit of `d`, for `d` below 16.
pub open spec fn hex_digit(d: int) -> char {
    if d < 10 {
        crate::text::digit_char(d as nat)
    } else if d == 10 {
        'a'
    } else if d == 11 {
        'b'
    } else if d == 12 {
        'c'
    } else if d == 13 {
        'd'
    } else if d == 14 {
        'e'
    } else {
        'f'
    }
}

/// How `serde_json` writes one character inside a string literal: a quote
/// and a backslash behind a backslash; backspace, form feed, line feed,
/// carriage return and tab as `\b`, `\f`, `\n`, `\r`, `\t`; any other
/// character below U+0020 as `\u00` and two lower-case hex digits; every
/// other character as it is.
pub open spec fn json_escaped_char(c: char) -> Seq<char> {
    if c == '"' {
        seq!['\\', '"']
    } else if c == '\\' {
        seq!['\\', '\\']
    } else if c == '\u{8}' {
        seq!['\\', 'b']
    } else if c == '\u{c}' {
        seq!['\\', 'f']
    } else if c == '\n' {
        seq!['\\', 'n']
    } else if c == '\r' {
        seq!['\\', 'r']
    } else if c == '\t' {
        seq!['\\', 't']
    } else if (c as int) < 0x20 {
        seq!['\\', 'u', '0', '0', hex_digit((c as int) / 16), hex_digit((c as int) % 16)]
    } else {
        seq![c]
    }
}

/// The characters of `text`, each written as `json_escaped_char` says.
pub open spec fn json_escaped(text: Seq<char>) -> Seq<char>
    decreases text.len(),
{
    if text.len() == 0 {
        Seq::empty()
    } else {
        json_escaped(text.drop_last()) + json_escaped_char(text.last())
    }
}

/// The JSON string literal that `serde_json` writes for `text`: its escaped
/// characters between two quotes.
pub open spec fn json_string_literal(text: Seq<char>) -> Seq<char> {
    seq!['"'] + json_escaped(text) + seq!['"']
}

/// A text of plain characters only is written unchanged between quotes.
pub proof fn lemma_plain_text_literal(text: Seq<char>)
    requires
        forall|i: int| 0 <= i < text.len() ==> is_plain_json_char(#[trigger] text[i]),
    ensures
        json_escaped(text) == text,
        json_string_literal(text) == seq!['"'] + text + seq!['"'],
    decreases text.len(),
{
    if text.len() > 0 {
        let rest = text.drop_last();
        assert forall|i: int| 0 <= i < rest.len() implies is_plain_json_char(#[trigger] rest[i]) by {
            assert(rest[i] == text[i]);
        }
        lemma_plain_text_literal(rest);
        assert(is_plain_json_char(text[text.len() - 1]));
        assert(text =~= rest + seq![text.last()]);
    }
}

/// The value of a hexadecimal digit, upper or lower case.
pub open spec fn hex_value(c: char) -> Option<int> {
    if '0' <= c && c <= '9' {
        Some(c as int - '0' as int)
    } else if 'a' <= c && c <= 'f' {
        Some(c as int - 'a' as int + 10)
    } else if 'A' <= c && c <= 'F' {
        Some(c as int - 'A' as int + 10)
    } else {
        None
    }
}

/// The code point that four hexadecimal digits spell.
pub open spec fn hex4_value(s: Seq<char>) -> Option<int> {
    match (hex_value(s[0]), hex_value(s[1]), hex_value(s[2]), hex_value(s[3])) {
        (Some(a), Some(b), Some(c), Some(d)) => Some(((a * 16 + b) * 16 + c) * 16 + d),
        _ => None,
    }
}

/// The character that the escape `\x` (for `x` other than `u`) stands for in
/// JSON.
pub open spec fn simple_escape(x: char) -> Option<char> {
    if x == '"' {
        Some('"')
    } else if x == '\\' {
        Some('\\')
    } else if x == '/' {
        Some('/')
    } else if x == 'b' {
        Some('\u{8}')
    } else if x == 'f' {
        Some('\u{c}')
    } else if x == 'n' {
        Some('\n')
    } else if x == 'r' {
        Some('\r')
    } else if x == 't' {
        Some('\t')
    } else {
        None
    }
}

pub open spec fn prepend(c: char, rest: Option<Seq<char>>) -> Option<Seq<char>> {
    match rest {
        Some(r) => Some(seq![c] + r),
        None => None,
    }
}

/// Reads the inside of a JSON string literal, after its opening quote: the
/// characters it stands for, when `s` is that inside followed by the closing
/// quote and nothing else. Escapes `\uXXXX` of surrogate halves are left
/// unread (`None`).
pub open spec fn read_json_chars(s: Seq<char>) -> Option<Seq<char>>
    decreases s.len(),
{
    if s.len() == 0 {
        None
    } else if s[0] == '"' {
        if s.len() == 1 {
            Some(Seq::empty())
        } else {
            None
        }
    } else if s[0] == '\\' {
        if s.len() < 2 {
            None
        } else if s[1] == 'u' {
            if s.len() < 6 {
                None
            } else {
                match hex4_value(s.subrange(2, 6)) {
                    Some(v) => if 0xd800 <= v <= 0xdfff {
                        None
                    } else {
                        prepend(v as char, read_json_chars(s.skip(6)))
                    },
                    None => None,
                }
            }
        } else {
            match simple_escape(s[1]) {
                Some(c) => prepend(c, read_json_chars(s.skip(2))),
                None => None,
            }
        }
    } else if (s[0] as int) < 0x20 {
        None
    } else {
        prepend(s[0], read_json_chars(s.drop_first()))
    }
}

/// Reads a JSON string literal: the text it stands for.
pub open spec fn read_json_string(s: Seq<char>) -> Option<Seq<char>> {
    if s.len() > 0 && s[0] == '"' {
        read_json_chars(s.drop_first())
    } else {
        None
    }
}

/// Reads a JSON object of one member `"error"` written without white space:
/// the text of its string value.
pub open spec fn read_error_object(t: Seq<char>) -> Option<Seq<char>> {
    let head = "{\"error\":"@;
    if t.len() >= head.len() + 1 && t.take(head.len() as int) == head && t.last() == '}' {
        read_json_string(t.subrange(head.len() as int, t.len() - 1))
    } else {
        None
    }
}

proof fn lemma_hex_digit_reads_back(d: int)
    requires
        0 <= d < 16,
    ensures
        hex_value(hex_digit(d)) == Some(d),
{
}

/// Escaping the first character and then the rest is escaping the whole.
proof fn lemma_escaped_front(m: Seq<char>)
    requires
        m.len() > 0,
    ensures
        json_escaped(m) == json_escaped_char(m[0]) + json_escaped(m.drop_first()),
    decreases m.len(),
{
    if m.len() > 1 {
        lemma_escaped_front(m.drop_last());
        assert(m.drop_last().drop_first() =~= m.drop_first().drop_last());
        assert(m.drop_first().last() == m.last());
        assert(m.drop_last()[0] == m[0]);
    } else {
        assert(m.drop_last() =~= Seq::<char>::empty());
        assert(m.drop_first() =~= Seq::<char>::empty());
    }
}

/// Reading an escaped character gives the character back, followed by what
/// the rest reads as.
proof fn lemma_read_escaped_char(c: char, t: Seq<char>)
    ensures
        read_json_chars(json_escaped_char(c) + t) == prepend(c, read_json_chars(t)),
{
    let e = json_escaped_char(c);
    let s = e + t;
    if e.len() == 2 {
        assert(s.skip(2) =~= t);
    } else if e.len() == 6 {
        let v = c as int;
        lemma_hex_digit_reads_back(v / 16);
        lemma_hex_digit_reads_back(v % 16);
        assert(s.subrange(2, 6) =~= seq!['0', '0', hex_digit(v / 16), hex_digit(v % 16)]);
        assert(hex4_value(s.subrange(2, 6)) == Some(v));
        assert((v as char) == c);
        assert(s.skip(6) =~= t);
    } else {
        assert(s.drop_first() =~= t);
    }
}

/// Reading what `serde_json` writes for a text gives the text back.
pub proof fn lemma_json_string_reads_back(m: Seq<char>)
    ensures
        read_json_string(json_string_literal(m)) == Some(m),
    decreases m.len(),
{
    assert(json_string_literal(m).drop_first() =~= json_escaped(m) + seq!['"']);
    lemma_read_escaped_tail(m);
}

proof fn lemma_read_escaped_tail(m: Seq<char>)
    ensures
        read_json_chars(json_escaped(m) + seq!['"']) == Some(m),
    decreases m.len(),
{
    if m.len() == 0 {
        assert(json_escaped(m) + seq!['"'] =~= seq!['"']);
    } else {
        lemma_escaped_front(m);
        lemma_read_escaped_tail(m.drop_first());
        assert(json_escaped(m) + seq!['"'] =~= json_escaped_char(m[0]) + (json_escaped(
            m.drop_first(),
        ) + seq!['"']));
        lemma_read_escaped_char(m[0], json_escaped(m.drop_first()) + seq!['"']);
        assert(seq![m[0]] + m.drop_first() =~= m);
    }
}

/// Reading the JSON error object that `json_error` writes gives its message
/// back, whatever characters the message holds.
pub proof fn lemma_json_error_reads_back(message: Seq<char>)
    ensures
        read_error_object(json_error_text(message)) == Some(message),
{
    reveal_strlit("{\"error\":");
    reveal_strlit("}");
    let head = "{\"error\":"@;
    let t = json_error_text(message);
    let lit = json_string_literal(message);
    assert(t.take(head.len() as int) =~= head);
    assert(t.subrange(head.len() as int, t.len() - 1) =~= lit);
    lemma_json_string_reads_back(message);
}

/// Calls `serde_json::to_string` on a string slice. The contract claims that
/// the result is the JSON literal of `text`, written as `serde_json` escapes
/// strings (`format_escaped_str` and its `ESCAPE` table). Serialising a
/// `str` into a `Vec<u8>` cannot fail in `serde_json`; the empty string that
/// stands for a failure is never produced.
#[verifier::external_body]
fn json_string(text: &str) -> (literal: String)
    ensures
        literal@ == json_string_literal(text@),
{
    serde_json::to_string(text).unwrap_or_default()
}

/// The items, separated by commas.
pub open spec fn join_commas(items: Seq<Seq<char>>) -> Seq<char>
    decreases items.len(),
{
    if items.len() == 0 {
        Seq::empty()
    } else if items.len() == 1 {
        items[0]
    } else {
        join_commas(items.drop_last()) + ","@ + items.last()
    }
}

/// Joining with commas keeps every item, in order: a list with one more
/// item joins as the shorter list, a comma and the new item.
pub proof fn lemma_join_commas_push(items: Seq<Seq<char>>, item: Seq<char>)
    ensures
        items.len() == 0 ==> join_commas(items.push(item)) == item,
        items.len() > 0 ==> join_commas(items.push(item)) == join_commas(items) + ","@ + item,
{
    assert(items.push(item).drop_last() =~= items);
}

/// Joining two non-empty lists is joining each and putting a comma between.
pub proof fn lemma_join_commas_concat(front: Seq<Seq<char>>, back: Seq<Seq<char>>)
    requires
        front.len() > 0,
        back.len() > 0,
    ensures
        join_commas(front + back) == join_commas(front) + ","@ + join_commas(back),
    decreases back.len(),
{
    if back.len() == 1 {
        assert((front + back).drop_last() =~= front);
    } else {
        lemma_join_commas_concat(front, back.drop_last());
        assert((front + back).drop_last() =~= front + back.drop_last());
        assert(join_commas(front + back) == join_commas(front + back.drop_last()) + ","@
            + back.last());
    }
}

/// A JSON array of the given JSON values.
pub open spec fn json_array(items: Seq<Seq<char>>) -> Seq<char> {
    "["@ + join_commas(items) + "]"@
}

/// The JSON object `{"error": message}`.
pub open spec fn json_error_text(message: Seq<char>) -> Seq<char> {
    "{\"error\":"@ + json_string_literal(message) + "}"@
}

/// The JSON of one gist: an object with its id, description (or `null`),
/// address and the array of its file names, in that order.
pub open spec fn gist_json(g: GistView) -> Seq<char> {
    "{\"id\":"@ + json_string_literal(g.id) + ",\"description\":"@ + match g.description {
        Some(d) => json_string_literal(d),
        None => "null"@,
    } + ",\"html_url\":"@ + json_string_literal(g.html_url) + ",\"files\":"@ + json_array(
        g.files.map_values(|f: Seq<char>| json_string_literal(f)),
    ) + "}"@
}

/// The JSON array of the given gists, in their order.
pub open spec fn gists_json(gists: Seq<GistView>) -> Seq<char> {
    json_array(gists.map_values(|g: GistView| gist_json(g)))
}

/// The views of a list of gist summaries.
pub open spec fn gist_views(gists: Seq<GistSummary>) -> Seq<GistView> {
    gists.map_values(|g: GistSummary| g@)
}

/// The JSON array of already written JSON values.
fn json_array_text(items: &Vec<String>) -> (t: String)
    ensures
        t@ == json_array(texts(items@)),
{
    let ghost all = texts(items@);
    let mut t = String::from_str("[");
    let n = items.len();
    for i in 0..n
        invariant
            n == items@.len(),
            all == texts(items@),
            t@ == "["@ + join_commas(all.take(i as int)),
    {
        proof {
            assert(all.take(i + 1).drop_last() =~= all.take(i as int));
        }
        if i != 0 {
            t.append(",");
        } else {
            proof {
                assert(join_commas(all.take(0)) =~= Seq::<char>::empty());
            }
        }
        t.append(items[i].as_str());
    }
    proof {
        assert(all.take(n as int) =~= all);
    }
    t.append("]");
    t
}

/// Writes `{"error": message}` as JSON, as
/// `serde_json::json!({ "error": message }).to_string()` does.
pub fn json_error(message: &str) -> (t: String)
    ensures
        t@ == json_error_text(message@),
        (forall|i: int| 0 <= i < message@.len() ==> is_plain_json_char(#[trigger] message@[i]))
            ==> t@ == "{\"error\":"@ + seq!['"'] + message@ + seq!['"'] + "}"@,
{
    proof {
        if forall|i: int| 0 <= i < message@.len() ==> is_plain_json_char(#[trigger] message@[i]) {
            lemma_plain_text_literal(message@);
        }
    }
    String::from_str("{\"error\":").concat(json_string(message).as_str()).concat("}")
}

/// Writes one gist as JSON, with its fields in the order in which they are
/// declared.
pub fn gist_json_text(gist: &GistSummary) -> (t: String)
    ensures
        t@ == gist_json(gist@),
{
    let mut files: Vec<String> = Vec::new();
    let n = gist.files.len();
    for i in 0..n
        invariant
            n == gist.files@.len(),
            files@.len() == i,
            forall|j: int|
                0 <= j < i ==> #[trigger] files@[j]@ == json_string_literal(gist.files@[j]@),
    {
        files.push(json_string(gist.files[i].as_str()));
    }
    proof {
        assert(texts(files@) =~= gist@.files.map_values(|f: Seq<char>| json_string_literal(f)));
    }
    let mut t = String::from_str("{\"id\":");
    t.append(json_string(gist.id.as_str()).as_str());
    t.append(",\"description\":");
    match &gist.description {
        Some(d) => t.append(json_string(d.as_str()).as_str()),
        None => t.append("null"),
    }
    t.append(",\"html_url\":");
    t.append(json_string(gist.html_url.as_str()).as_str());
    t.append(",\"files\":");
    t.append(json_array_text(&files).as_str());
    t.append("}");
    t
}

/// Writes a list of gists as a JSON array, as `serde_json::to_string` writes
/// a `Vec<GistSummary>`.
pub fn gists_json_text(gists: &Vec<GistSummary>) -> (t: String)
    ensures
        t@ == gists_json(gist_views(gists@)),
{
    let mut items: Vec<String> = Vec::new();
    let n = gists.len();
    for i in 0..n
        invariant
            n == gists@.len(),
            items@.len() == i,
            forall|j: int| 0 <= j < i ==> #[trigger] items@[j]@ == gist_json(gists@[j]@),
    {
        items.push(gist_json_text(&gists[i]));
    }
    proof {
        assert(texts(items@) =~= gist_views(gists@).map_values(|g: GistView| gist_json(g)));
    }
    json_array_text(&items)
}

} // verus!
