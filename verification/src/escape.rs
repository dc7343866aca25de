//! Escaping of text for HTML, JSON string bodies and Markdown link labels.
use vstd::prelude::*;
use crate::text::{chars_of, push_char};

verus! {

/// Applies `f` to every character of `s` and concatenates the results.
pub open spec fn flat_map_chars(s: Seq<char>, f: spec_fn(char) -> Seq<char>) -> Seq<char>
    decreases s.len(),
{
    if s.len() == 0 {
        Seq::empty()
    } else {
        flat_map_chars(s.drop_last(), f) + f(s.last())
    }
}

/// Mapping one more character appends its image.
pub proof fn lemma_flat_map_step(s: Seq<char>, i: int, f: spec_fn(char) -> Seq<char>)
    requires
        0 <= i < s.len(),
    ensures
        flat_map_chars(s.take(i + 1), f) == flat_map_chars(s.take(i), f) + f(s[i]),
{
    assert(s.take(i + 1).drop_last() =~= s.take(i));
}

/// The HTML escape of one character: `&`, `<`, `>`, `"` and `'` become
/// entities, every other character stays.
pub open spec fn html_escape_char(c: char) -> Seq<char> {
    if c == '&' {
        seq!['&', 'a', 'm', 'p', ';']
    } else if c == '<' {
        seq!['&', 'l', 't', ';']
    } else if c == '>' {
        seq!['&', 'g', 't', ';']
    } else if c == '"' {
        seq!['&', 'q', 'u', 'o', 't', ';']
    } else if c == '\'' {
        seq!['&', '#', '3', '9', ';']
    } else {
        seq![c]
    }
}

/// A text with every character HTML-escaped.
pub open spec fn html_escaped(s: Seq<char>) -> Seq<char> {
    flat_map_chars(s, |c: char| html_escape_char(c))
}

/// The escape of the three characters that matter in HTML text: `&`, `<`, `>`.
pub open spec fn html_text_escape_char(c: char) -> Seq<char> {
    if c == '&' {
        seq!['&', 'a', 'm', 'p', ';']
    } else if c == '<' {
        seq!['&', 'l', 't', ';']
    } else if c == '>' {
        seq!['&', 'g', 't', ';']
    } else {
        seq![c]
    }
}

/// A text escaped for HTML element content.
pub open spec fn html_text_escaped(s: Seq<char>) -> Seq<char> {
    flat_map_chars(s, |c: char| html_text_escape_char(c))
}

/// The escape for double-quoted HTML attributes: text escaping plus `"`.
pub open spec fn html_attr_escape_char(c: char) -> Seq<char> {
    if c == '"' {
        seq!['&', 'q', 'u', 'o', 't', ';']
    } else {
        html_text_escape_char(c)
    }
}

/// A text escaped for a double-quoted HTML attribute.
pub open spec fn html_attr_escaped(s: Seq<char>) -> Seq<char> {
    flat_map_chars(s, |c: char| html_attr_escape_char(c))
}

/// The escape of a character where only `"` matters.
pub open spec fn quote_escape_char(c: char) -> Seq<char> {
    if c == '"' {
        seq!['&', 'q', 'u', 'o', 't', ';']
    } else {
        seq![c]
    }
}

/// The escape of a JSON string body: backslash, double quote, newline,
/// carriage return and tab become backslash escapes.
pub open spec fn json_escape_char(c: char) -> Seq<char> {
    if c == '\\' {
        seq!['\\', '\\']
    } else if c == '"' {
        seq!['\\', '"']
    } else if c == '\n' {
        seq!['\\', 'n']
    } else if c == '\r' {
        seq!['\\', 'r']
    } else if c == '\t' {
        seq!['\\', 't']
    } else {
        seq![c]
    }
}

/// A text escaped for the body of a JSON string.
pub open spec fn json_escaped(s: Seq<char>) -> Seq<char> {
    flat_map_chars(s, |c: char| json_escape_char(c))
}

/// The escape of a Markdown link label: `\`, `[` and `]` get a backslash.
pub open spec fn markdown_label_escape_char(c: char) -> Seq<char> {
    if c == '\\' || c == '[' || c == ']' {
        seq!['\\', c]
    } else {
        seq![c]
    }
}

/// A text escaped for a Markdown link label.
pub open spec fn markdown_label_escaped(s: Seq<char>) -> Seq<char> {
    flat_map_chars(s, |c: char| markdown_label_escape_char(c))
}

fn push_entity(out: &mut String, name: char, name2: char, name3: char, len: usize)
    requires
        len == 2 || len == 3,
    ensures
        len == 2 ==> final(out)@ == old(out)@ + seq!['&', name, name2, ';'],
        len == 3 ==> final(out)@ == old(out)@ + seq!['&', name, name2, name3, ';'],
{
    let ghost start = out@;
    push_char(out, '&');
    push_char(out, name);
    push_char(out, name2);
    if len == 3 {
        push_char(out, name3);
    }
    push_char(out, ';');
    assert(len == 2 ==> out@ =~= start + seq!['&', name, name2, ';']);
    assert(len == 3 ==> out@ =~= start + seq!['&', name, name2, name3, ';']);
}

fn push_quot(out: &mut String)
    ensures
        final(out)@ == old(out)@ + seq!['&', 'q', 'u', 'o', 't', ';'],
{
    let ghost start = out@;
    push_char(out, '&');
    push_char(out, 'q');
    push_char(out, 'u');
    push_char(out, 'o');
    push_char(out, 't');
    push_char(out, ';');
    assert(out@ =~= start + seq!['&', 'q', 'u', 'o', 't', ';']);
}

/// Escapes `&`, `<`, `>`, `"` and `'` for HTML text and attributes.
pub fn escape_html(input: &str) -> (out: String)
    ensures
        out@ == html_escaped(input@),
{
    let cs = chars_of(input);
    let out = escape_html_range(&cs, 0, cs.len());
    assert(cs@.subrange(0, cs.len() as int) =~= cs@);
    out
}

/// The HTML escape of `cs[lo..hi]`.
pub fn escape_html_range(cs: &Vec<char>, lo: usize, hi: usize) -> (out: String)
    requires
        lo <= hi <= cs.len(),
    ensures
        out@ == html_escaped(cs@.subrange(lo as int, hi as int)),
{
    let mut out = String::new();
    push_escaped_html(&mut out, cs, lo, hi);
    out
}

/// Appends the HTML escape of `cs[lo..hi]` to `out`.
pub fn push_escaped_html(out: &mut String, cs: &Vec<char>, lo: usize, hi: usize)
    requires
        lo <= hi <= cs.len(),
    ensures
        final(out)@ == old(out)@ + html_escaped(cs@.subrange(lo as int, hi as int)),
{
    let ghost start = out@;
    let ghost s = cs@.subrange(lo as int, hi as int);
    let mut i: usize = lo;
    while i < hi
        invariant
            lo <= i <= hi <= cs.len(),
            s == cs@.subrange(lo as int, hi as int),
            out@ == start + html_escaped(s.take(i - lo)),
        decreases hi - i,
    {
        proof {
            lemma_flat_map_step(s, i - lo, |c: char| html_escape_char(c));
        }
        let c = cs[i];
        if c == '&' {
            push_entity(out, 'a', 'm', 'p', 3);
        } else if c == '<' {
            push_entity(out, 'l', 't', ' ', 2);
        } else if c == '>' {
            push_entity(out, 'g', 't', ' ', 2);
        } else if c == '"' {
            push_quot(out);
        } else if c == '\'' {
            push_entity(out, '#', '3', '9', 3);
        } else {
            push_char(out, c);
        }
        i += 1;
        assert(out@ =~= start + html_escaped(s.take(i - lo)));
    }
    assert(s.take(hi - lo) =~= s);
}

/// Escapes `&`, `<` and `>` for HTML text.
pub fn escape_html_text(input: &str) -> (out: String)
    ensures
        out@ == html_text_escaped(input@),
{
    let cs = chars_of(input);
    let mut out = String::new();
    let mut i: usize = 0;
    while i < cs.len()
        invariant
            i <= cs.len(),
            cs@ == input@,
            out@ == html_text_escaped(cs@.take(i as int)),
        decreases cs.len() - i,
    {
        proof {
            lemma_flat_map_step(cs@, i as int, |c: char| html_text_escape_char(c));
        }
        let c = cs[i];
        if c == '&' {
            push_entity(&mut out, 'a', 'm', 'p', 3);
        } else if c == '<' {
            push_entity(&mut out, 'l', 't', ' ', 2);
        } else if c == '>' {
            push_entity(&mut out, 'g', 't', ' ', 2);
        } else {
            push_char(&mut out, c);
        }
        i += 1;
    }
    assert(cs@.take(cs.len() as int) =~= cs@);
    out
}

/// Replaces every `"` by `&quot;`.
fn escape_quotes(input: &str) -> (out: String)
    ensures
        out@ == flat_map_chars(input@, |c: char| quote_escape_char(c)),
{
    let cs = chars_of(input);
    let mut out = String::new();
    let mut i: usize = 0;
    while i < cs.len()
        invariant
            i <= cs.len(),
            cs@ == input@,
            out@ == flat_map_chars(cs@.take(i as int), |c: char| quote_escape_char(c)),
        decreases cs.len() - i,
    {
        proof {
            lemma_flat_map_step(cs@, i as int, |c: char| quote_escape_char(c));
        }
        let c = cs[i];
        if c == '"' {
            push_quot(&mut out);
        } else {
            push_char(&mut out, c);
        }
        i += 1;
    }
    assert(cs@.take(cs.len() as int) =~= cs@);
    out
}

pub proof fn lemma_flat_map_concat(a: Seq<char>, b: Seq<char>, f: spec_fn(char) -> Seq<char>)
    ensures
        flat_map_chars(a + b, f) == flat_map_chars(a, f) + flat_map_chars(b, f),
    decreases b.len(),
{
    if b.len() == 0 {
        assert(a + b =~= a);
        assert(flat_map_chars(a, f) + flat_map_chars(b, f) =~= flat_map_chars(a, f));
    } else {
        lemma_flat_map_concat(a, b.drop_last(), f);
        assert((a + b).drop_last() =~= a + b.drop_last());
        assert((a + b).last() == b.last());
    }
}

proof fn lemma_flat_map_fixed(t: Seq<char>, f: spec_fn(char) -> Seq<char>)
    requires
        forall|i: int| 0 <= i < t.len() ==> f(#[trigger] t[i]) == seq![t[i]],
    ensures
        flat_map_chars(t, f) == t,
    decreases t.len(),
{
    if t.len() > 0 {
        assert forall|i: int| 0 <= i < t.drop_last().len() implies f(
            #[trigger] t.drop_last()[i],
        ) == seq![t.drop_last()[i]] by {
            assert(t.drop_last()[i] == t[i]);
        }
        lemma_flat_map_fixed(t.drop_last(), f);
        assert(f(t[t.len() - 1]) == seq![t[t.len() - 1]]);
        assert(t.drop_last() + seq![t.last()] =~= t);
    }
}

pub proof fn lemma_flat_map_single(c: char, f: spec_fn(char) -> Seq<char>)
    ensures
        flat_map_chars(seq![c], f) == f(c),
{
    reveal_with_fuel(flat_map_chars, 2);
    assert(seq![c].drop_last() =~= Seq::<char>::empty());
    assert(seq![c].last() == c);
    assert(Seq::<char>::empty() + f(c) =~= f(c));
}

/// Quote-escaping a text-escaped string is the attribute escape: text
/// escaping never produces a `"`.
proof fn lemma_attr_escape_composes(s: Seq<char>)
    ensures
        flat_map_chars(html_text_escaped(s), |c: char| quote_escape_char(c))
            == html_attr_escaped(s),
    decreases s.len(),
{
    let q = |c: char| quote_escape_char(c);
    if s.len() > 0 {
        lemma_attr_escape_composes(s.drop_last());
        let c = s.last();
        let piece = html_text_escape_char(c);
        lemma_flat_map_concat(html_text_escaped(s.drop_last()), piece, q);
        if c == '"' {
            lemma_flat_map_single(c, q);
        } else {
            assert forall|i: int| 0 <= i < piece.len() implies q(#[trigger] piece[i]) == seq![
                piece[i],
            ] by {}
            lemma_flat_map_fixed(piece, q);
        }
    }
}

/// Escapes `&`, `<`, `>` and `"` for a double-quoted HTML attribute.
pub fn escape_html_attr(input: &str) -> (out: String)
    ensures
        out@ == html_attr_escaped(input@),
{
    let text = escape_html_text(input);
    let out = escape_quotes(text.as_str());
    proof {
        lemma_attr_escape_composes(input@);
    }
    out
}

/// Escapes a string for the body of a JSON string literal.
pub fn escape_json(input: &str) -> (out: String)
    ensures
        out@ == json_escaped(input@),
{
    let cs = chars_of(input);
    let mut out = String::new();
    let mut i: usize = 0;
    while i < cs.len()
        invariant
            i <= cs.len(),
            cs@ == input@,
            out@ == json_escaped(cs@.take(i as int)),
        decreases cs.len() - i,
    {
        proof {
            lemma_flat_map_step(cs@, i as int, |c: char| json_escape_char(c));
        }
        let c = cs[i];
        let ghost start = out@;
        if c == '\\' {
            push_char(&mut out, '\\');
            push_char(&mut out, '\\');
        } else if c == '"' {
            push_char(&mut out, '\\');
            push_char(&mut out, '"');
        } else if c == '\n' {
            push_char(&mut out, '\\');
            push_char(&mut out, 'n');
        } else if c == '\r' {
            push_char(&mut out, '\\');
            push_char(&mut out, 'r');
        } else if c == '\t' {
            push_char(&mut out, '\\');
            push_char(&mut out, 't');
        } else {
            push_char(&mut out, c);
        }
        assert(out@ =~= start + json_escape_char(c));
        i += 1;
    }
    assert(cs@.take(cs.len() as int) =~= cs@);
    out
}

/// Backslash-escapes `\`, `[` and `]` in Markdown link text.
pub fn escape_markdown_link_text(text: &str) -> (out: String)
    ensures
        out@ == markdown_label_escaped(text@),
{
    let cs = chars_of(text);
    let mut out = String::new();
    let mut i: usize = 0;
    while i < cs.len()
        invariant
            i <= cs.len(),
            cs@ == text@,
            out@ == markdown_label_escaped(cs@.take(i as int)),
        decreases cs.len() - i,
    {
        proof {
            lemma_flat_map_step(cs@, i as int, |c: char| markdown_label_escape_char(c));
        }
        let c = cs[i];
        let ghost start = out@;
        if c == '\\' || c == '[' || c == ']' {
            push_char(&mut out, '\\');
        }
        push_char(&mut out, c);
        assert(out@ =~= start + markdown_label_escape_char(c));
        i += 1;
    }
    assert(cs@.take(cs.len() as int) =~= cs@);
    out
}

/// Every character of an HTML escape is either plain or part of an entity:
/// no `<`, `>`, `"` or `'` survives.
pub proof fn lemma_html_escape_has_no_markup(s: Seq<char>)
    ensures
        forall|i: int| 0 <= i < html_escaped(s).len() ==> {
            let c = #[trigger] html_escaped(s)[i];
            c != '<' && c != '>' && c != '"' && c != '\''
        },
    decreases s.len(),
{
    if s.len() > 0 {
        lemma_html_escape_has_no_markup(s.drop_last());
        let prev = html_escaped(s.drop_last());
        let piece = html_escape_char(s.last());
        assert(html_escaped(s) == prev + piece);
        assert forall|i: int| 0 <= i < html_escaped(s).len() implies {
            let c = #[trigger] html_escaped(s)[i];
            c != '<' && c != '>' && c != '"' && c != '\''
        } by {
            if i >= prev.len() {
                assert(html_escaped(s)[i] == piece[i - prev.len()]);
            } else {
                assert(html_escaped(s)[i] == prev[i]);
            }
        }
    }
}

} // verus!
