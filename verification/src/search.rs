//! The site search index: plain search text of Markdown pages and its JSON
//! form.
use vstd::prelude::*;
use crate::text::{chars_of, find_char, find_from, has_prefix, lemma_find_from, lines_of, push_char, slice_chars, split_lines, string_of_range, trim_bounds, trimmed};

verus! {

/// Where the Markdown link that starts with the `[` at `i` closes its label
/// (`]`) and its target (`)`), if the `[` starts a link.
pub open spec fn link_at(s: Seq<char>, i: int) -> Option<(int, int)> {
    match find_from(s, ']', i + 1) {
        Some(cl) => if cl + 1 < s.len() && s[cl + 1] == '(' {
            match find_from(s, ')', cl + 2) {
                Some(ct) => if i < cl && cl + 1 < ct && ct < s.len() {
                    Some((cl, ct))
                } else {
                    None
                },
                None => None,
            }
        } else {
            None
        },
        None => None,
    }
}

/// Where the code span that starts with the backtick at `i` closes.
pub open spec fn code_at(s: Seq<char>, i: int) -> Option<int> {
    match find_from(s, '`', i + 1) {
        Some(cc) => if i < cc && cc < s.len() {
            Some(cc)
        } else {
            None
        },
        None => None,
    }
}

/// The plain text of `s[i..]`: a link gives its label, a code span its
/// contents, and every other character itself.
pub open spec fn inline_text_from(s: Seq<char>, i: int) -> Seq<char>
    decreases s.len() - i,
{
    if i < 0 || i >= s.len() {
        Seq::empty()
    } else if s[i] == '[' {
        match link_at(s, i) {
            Some((cl, ct)) => s.subrange(i + 1, cl) + inline_text_from(s, ct + 1),
            None => seq!['['] + inline_text_from(s, i + 1),
        }
    } else if s[i] == '`' {
        match code_at(s, i) {
            Some(cc) => s.subrange(i + 1, cc) + inline_text_from(s, cc + 1),
            None => seq!['`'] + inline_text_from(s, i + 1),
        }
    } else {
        seq![s[i]] + inline_text_from(s, i + 1)
    }
}

/// Finds the link that starts at `i`, as `link_at` does.
pub fn find_link(v: &Vec<char>, i: usize) -> (r: Option<(usize, usize)>)
    requires
        i < v.len(),
    ensures
        match r {
            Some((cl, ct)) => link_at(v@, i as int) == Some((cl as int, ct as int)) && ct < v.len(),
            None => link_at(v@, i as int) is None,
        },
{
    proof {
        lemma_find_from(v@, ']', i + 1);
    }
    match find_char(v, ']', i + 1) {
        Some(cl) => {
            if cl + 1 < v.len() && v[cl + 1] == '(' {
                proof {
                    lemma_find_from(v@, ')', cl + 2);
                }
                match find_char(v, ')', cl + 2) {
                    Some(ct) => Some((cl, ct)),
                    None => None,
                }
            } else {
                None
            }
        },
        None => None,
    }
}

/// Finds the end of the code span that starts at `i`, as `code_at` does.
pub fn find_code_end(v: &Vec<char>, i: usize) -> (r: Option<usize>)
    requires
        i < v.len(),
    ensures
        match r {
            Some(cc) => code_at(v@, i as int) == Some(cc as int) && cc < v.len(),
            None => code_at(v@, i as int) is None,
        },
{
    proof {
        lemma_find_from(v@, '`', i + 1);
    }
    find_char(v, '`', i + 1)
}

/// The plain text of inline Markdown: links become their labels and code
/// spans their contents.
pub fn extract_inline_text(input: &str) -> (text: String)
    ensures
        text@ == inline_text_from(input@, 0),
{
    let chars = chars_of(input);
    assert(chars@.subrange(0, chars.len() as int) =~= chars@);
    inline_text_of(&chars, 0, chars.len())
}

/// The plain text of `chars[lo..hi]`.
pub fn inline_text_of(chars: &Vec<char>, lo: usize, hi: usize) -> (text: String)
    requires
        lo <= hi <= chars.len(),
    ensures
        text@ == inline_text_from(chars@.subrange(lo as int, hi as int), 0),
{
    let v = slice_chars(chars, lo, hi);
    let mut text = String::new();
    let mut index: usize = 0;
    while index < v.len()
        invariant
            index <= v.len(),
            text@ + inline_text_from(v@, index as int) == inline_text_from(v@, 0),
        decreases v.len() - index,
    {
        let ghost before = text@;
        if v[index] == '[' {
            match find_link(&v, index) {
                Some((close_label, close_target)) => {
                    let label = string_of_range(&v, index + 1, close_label);
                    text.append(label.as_str());
                    index = close_target + 1;
                    continue;
                },
                None => {},
            }
            push_char(&mut text, '[');
            index += 1;
        } else if v[index] == '`' {
            match find_code_end(&v, index) {
                Some(close_code) => {
                    let code = string_of_range(&v, index + 1, close_code);
                    text.append(code.as_str());
                    index = close_code + 1;
                    continue;
                },
                None => {},
            }
            push_char(&mut text, '`');
            index += 1;
        } else {
            push_char(&mut text, v[index]);
            index += 1;
        }
    }
    text
}

/// The search text of one Markdown line: trimmed, without one leading
/// `# `, `## ` or `- ` marker, as plain inline text.
pub open spec fn search_line_text(line: Seq<char>) -> Seq<char> {
    let t = trimmed(line);
    let body = if has_prefix(t, seq!['#', ' ']) {
        t.skip(2)
    } else if has_prefix(t, seq!['#', '#', ' ']) {
        t.skip(3)
    } else if has_prefix(t, seq!['-', ' ']) {
        t.skip(2)
    } else {
        t
    };
    inline_text_from(body, 0)
}

/// The search body of the lines `ls`: the search text of every non-blank
/// line, separated by single spaces.
pub open spec fn search_body_of(ls: Seq<Seq<char>>) -> Seq<char>
    decreases ls.len(),
{
    if ls.len() == 0 {
        Seq::empty()
    } else {
        let acc = search_body_of(ls.drop_last());
        if trimmed(ls.last()).len() == 0 {
            acc
        } else if acc.len() == 0 {
            search_line_text(ls.last())
        } else {
            acc + seq![' '] + search_line_text(ls.last())
        }
    }
}

/// The search text of one line that is not blank.
fn line_search_text(line: &Vec<char>, a: usize, b: usize) -> (text: String)
    requires
        a < b <= line.len(),
        trimmed(line@) == line@.subrange(a as int, b as int),
    ensures
        text@ == search_line_text(line@),
{
    let ghost t = trimmed(line@);
    let n = b - a;
    let start = if n >= 2 && line[a] == '#' && line[a + 1] == ' ' {
        a + 2
    } else if n >= 3 && line[a] == '#' && line[a + 1] == '#' && line[a + 2] == ' ' {
        a + 3
    } else if n >= 2 && line[a] == '-' && line[a + 1] == ' ' {
        a + 2
    } else {
        a
    };
    proof {
        if has_prefix(t, seq!['#', ' ']) {
            assert(t[0] == '#' && t[1] == ' ');
        } else if has_prefix(t, seq!['#', '#', ' ']) {
            assert(t[0] == '#' && t[1] == '#' && t[2] == ' ');
        }
        if n >= 2 && line@[a as int] == '#' && line@[a + 1] == ' ' {
            assert(t.take(2) =~= seq!['#', ' ']);
        } else if n >= 3 && line@[a as int] == '#' && line@[a + 1] == '#' && line@[a + 2] == ' ' {
            assert(t.take(3) =~= seq!['#', '#', ' ']);
        } else if n >= 2 && line@[a as int] == '-' && line@[a + 1] == ' ' {
            assert(t.take(2) =~= seq!['-', ' ']);
        }
        assert(line@.subrange(start as int, b as int) =~= t.skip(start - a));
    }
    inline_text_of(line, start, b)
}

/// The plain search text of a Markdown page.
pub fn extract_search_body(markdown: &str) -> (body: String)
    ensures
        body@ == search_body_of(lines_of(markdown@)),
{
    let chars = chars_of(markdown);
    let lines = split_lines(&chars);
    let ghost ls = lines.deep_view();
    let mut body = String::new();
    let mut k: usize = 0;
    while k < lines.len()
        invariant
            k <= lines.len(),
            ls == lines.deep_view(),
            body@ == search_body_of(ls.take(k as int)),
        decreases lines.len() - k,
    {
        assert(ls.take(k + 1).drop_last() =~= ls.take(k as int));
        assert(lines[k as int]@ =~= ls[k as int]);
        let line = &lines[k];
        let (a, b) = trim_bounds(line, 0, line.len());
        assert(line@.subrange(0, line.len() as int) =~= line@);
        if a == b {
            k += 1;
            continue;
        }
        let plain = line_search_text(line, a, b);
        if body.as_str().unicode_len() > 0 {
            push_char(&mut body, ' ');
        }
        body.append(plain.as_str());
        k += 1;
    }
    assert(ls.take(lines.len() as int) =~= ls);
    body
}

} // verus!
