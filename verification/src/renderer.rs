//! Rendering of reader pages: Markdown to HTML, relative links between
//! rendered outputs, sidebars and the bookshelf page.
use vstd::prelude::*;
use crate::escape::{html_escape_char, html_escaped, push_escaped_html};
use crate::paths::{components, join_components, path_components, relative_component_list, relative_components, render_components};
use crate::search::{code_at, find_code_end, find_link, link_at};
use crate::text::{chars_of, has_prefix, lines_of, push_char, slice_chars, split_lines, trim_bounds, trimmed};

verus! {

/// The HTML of inline Markdown `s[i..]`: links become anchors, code spans
/// become `<code>`, and all text is HTML-escaped.
pub open spec fn inline_html_from(s: Seq<char>, i: int) -> Seq<char>
    decreases s.len() - i,
{
    if i < 0 || i >= s.len() {
        Seq::empty()
    } else if s[i] == '[' {
        match link_at(s, i) {
            Some((cl, ct)) => "<a href=\""@ + html_escaped(s.subrange(cl + 2, ct)) + "\">"@
                + html_escaped(s.subrange(i + 1, cl)) + "</a>"@ + inline_html_from(s, ct + 1),
            None => seq!['['] + inline_html_from(s, i + 1),
        }
    } else if s[i] == '`' {
        match code_at(s, i) {
            Some(cc) => "<code>"@ + html_escaped(s.subrange(i + 1, cc)) + "</code>"@
                + inline_html_from(s, cc + 1),
            None => seq!['`'] + inline_html_from(s, i + 1),
        }
    } else {
        html_escape_char(s[i]) + inline_html_from(s, i + 1)
    }
}

/// The HTML of the inline Markdown `chars[lo..hi]`.
pub fn render_inline_markdown(chars: &Vec<char>, lo: usize, hi: usize) -> (rendered: String)
    requires
        lo <= hi <= chars.len(),
    ensures
        rendered@ == inline_html_from(chars@.subrange(lo as int, hi as int), 0),
{
    let v = slice_chars(chars, lo, hi);
    let mut rendered = String::new();
    let mut index: usize = 0;
    while index < v.len()
        invariant
            index <= v.len(),
            rendered@ + inline_html_from(v@, index as int) == inline_html_from(v@, 0),
        decreases v.len() - index,
    {
        let ghost before = rendered@;
        if v[index] == '[' {
            match find_link(&v, index) {
                Some((close_label, close_target)) => {
                    rendered.append("<a href=\"");
                    push_escaped_html(&mut rendered, &v, close_label + 2, close_target);
                    rendered.append("\">");
                    push_escaped_html(&mut rendered, &v, index + 1, close_label);
                    rendered.append("</a>");
                    index = close_target + 1;
                    continue;
                },
                None => {},
            }
            push_char(&mut rendered, '[');
            index += 1;
        } else if v[index] == '`' {
            match find_code_end(&v, index) {
                Some(close_code) => {
                    rendered.append("<code>");
                    push_escaped_html(&mut rendered, &v, index + 1, close_code);
                    rendered.append("</code>");
                    index = close_code + 1;
                    continue;
                },
                None => {},
            }
            push_char(&mut rendered, '`');
            index += 1;
        } else {
            push_escaped_html(&mut rendered, &v, index, index + 1);
            proof {
                assert(v@.subrange(index as int, index + 1) =~= seq![v@[index as int]]);
                reveal_with_fuel(crate::escape::flat_map_chars, 2);
                assert(seq![v@[index as int]].drop_last() =~= Seq::<char>::empty());
            }
            index += 1;
        }
    }
    proof {
        assert(v@ =~= chars@.subrange(lo as int, hi as int));
    }
    rendered
}

/// Whether the trimmed line starts a list item (`- `).
pub open spec fn is_item_line(line: Seq<char>) -> bool {
    has_prefix(trimmed(line), seq!['-', ' '])
}

/// Whether the line ends a paragraph: blank, a heading marker `#`, or a list
/// item.
pub open spec fn breaks_paragraph(line: Seq<char>) -> bool {
    let t = trimmed(line);
    t.len() == 0 || t[0] == '#' || is_item_line(line)
}

/// The first index `j >= i` whose line is not a list item.
pub open spec fn list_end(ls: Seq<Seq<char>>, i: int) -> int
    decreases ls.len() - i,
{
    if i < 0 || i >= ls.len() || !is_item_line(ls[i]) {
        i
    } else {
        list_end(ls, i + 1)
    }
}

/// The first index `j >= i` whose line ends a paragraph.
pub open spec fn paragraph_end(ls: Seq<Seq<char>>, i: int) -> int
    decreases ls.len() - i,
{
    if i < 0 || i >= ls.len() || breaks_paragraph(ls[i]) {
        i
    } else {
        paragraph_end(ls, i + 1)
    }
}

/// The `<li>` elements of the list lines `ls[a..b]`.
pub open spec fn list_items_html(ls: Seq<Seq<char>>, a: int, b: int) -> Seq<char>
    decreases b - a,
{
    if b <= a {
        Seq::empty()
    } else {
        list_items_html(ls, a, b - 1) + "<li>"@ + inline_html_from(trimmed(ls[b - 1]).skip(2), 0)
            + "</li>"@
    }
}

/// The trimmed lines `ls[a..b]` joined with single spaces.
pub open spec fn paragraph_text(ls: Seq<Seq<char>>, a: int, b: int) -> Seq<char>
    decreases b - a,
{
    if b <= a {
        Seq::empty()
    } else if b == a + 1 {
        trimmed(ls[a])
    } else {
        paragraph_text(ls, a, b - 1) + seq![' '] + trimmed(ls[b - 1])
    }
}

/// Whether every line that starts with `#` is a level one (`# `) or level two
/// (`## `) heading: such a line neither starts a heading nor joins a
/// paragraph, and the renderer would make no progress on it.
pub open spec fn headings_well_formed(ls: Seq<Seq<char>>) -> bool {
    forall|i: int|
        0 <= i < ls.len() && trimmed(#[trigger] ls[i]).len() > 0 && trimmed(ls[i])[0] == '#'
            ==> has_prefix(trimmed(ls[i]), seq!['#', ' ']) || has_prefix(
            trimmed(ls[i]),
            seq!['#', '#', ' '],
        )
}

/// The HTML of the Markdown blocks from line `i` on: blank lines are
/// skipped, `# ` and `## ` lines become headings, runs of `- ` lines become a
/// list, and runs of other lines become a paragraph.
pub open spec fn blocks_html_from(ls: Seq<Seq<char>>, i: int) -> Seq<char>
    decreases ls.len() - i,
{
    if i < 0 || i >= ls.len() {
        Seq::empty()
    } else {
        let t = trimmed(ls[i]);
        if t.len() == 0 {
            blocks_html_from(ls, i + 1)
        } else if has_prefix(t, seq!['#', ' ']) {
            "<h1>"@ + inline_html_from(t.skip(2), 0) + "</h1>"@ + blocks_html_from(ls, i + 1)
        } else if has_prefix(t, seq!['#', '#', ' ']) {
            "<h2>"@ + inline_html_from(t.skip(3), 0) + "</h2>"@ + blocks_html_from(ls, i + 1)
        } else if has_prefix(t, seq!['-', ' ']) {
            let e = list_end(ls, i);
            if e <= i || e > ls.len() {
                Seq::empty()
            } else {
                "<ul>"@ + list_items_html(ls, i, e) + "</ul>"@ + blocks_html_from(ls, e)
            }
        } else {
            let e = paragraph_end(ls, i);
            if e <= i || e > ls.len() {
                Seq::empty()
            } else {
                "<p>"@ + inline_html_from(paragraph_text(ls, i, e), 0) + "</p>"@
                    + blocks_html_from(ls, e)
            }
        }
    }
}

proof fn lemma_list_end(ls: Seq<Seq<char>>, a: int, b: int)
    requires
        0 <= a <= b,
        forall|k: int| a <= k < b ==> #[trigger] is_item_line(ls[k]),
        b <= ls.len(),
    ensures
        list_end(ls, a) == list_end(ls, b),
        a <= list_end(ls, a) <= ls.len(),
    decreases b - a,
{
    if a < b {
        lemma_list_end(ls, a + 1, b);
    } else {
        lemma_list_end_bounds(ls, a);
    }
}

proof fn lemma_list_end_bounds(ls: Seq<Seq<char>>, a: int)
    requires
        0 <= a <= ls.len(),
    ensures
        a <= list_end(ls, a) <= ls.len(),
    decreases ls.len() - a,
{
    if a < ls.len() && is_item_line(ls[a]) {
        lemma_list_end_bounds(ls, a + 1);
    }
}

proof fn lemma_paragraph_end(ls: Seq<Seq<char>>, a: int, b: int)
    requires
        0 <= a <= b <= ls.len(),
        forall|k: int| a <= k < b ==> !breaks_paragraph(#[trigger] ls[k]),
    ensures
        paragraph_end(ls, a) == paragraph_end(ls, b),
    decreases b - a,
{
    if a < b {
        lemma_paragraph_end(ls, a + 1, b);
    }
}

/// Whether `v[a..b]` starts with the characters `p`.
fn range_starts_with(v: &Vec<char>, a: usize, b: usize, p0: char, p1: char, p2: char, n: usize) -> (r: bool)
    requires
        a <= b <= v.len(),
        n == 2 || n == 3,
    ensures
        n == 2 ==> r == has_prefix(v@.subrange(a as int, b as int), seq![p0, p1]),
        n == 3 ==> r == has_prefix(v@.subrange(a as int, b as int), seq![p0, p1, p2]),
{
    let ghost t = v@.subrange(a as int, b as int);
    if b - a < n {
        return false;
    }
    let r = v[a] == p0 && v[a + 1] == p1 && (n == 2 || v[a + 2] == p2);
    proof {
        if n == 2 {
            if r {
                assert(t.take(2) =~= seq![p0, p1]);
            } else if has_prefix(t, seq![p0, p1]) {
                assert(t.take(2)[0] == t[0] && t.take(2)[1] == t[1]);
            }
        } else {
            if r {
                assert(t.take(3) =~= seq![p0, p1, p2]);
            } else if has_prefix(t, seq![p0, p1, p2]) {
                assert(t.take(3)[0] == t[0] && t.take(3)[1] == t[1] && t.take(3)[2] == t[2]);
            }
        }
    }
    r
}

/// The list block that starts at line `start`.
fn list_block(lines: &Vec<Vec<char>>, start: usize) -> (r: (String, usize))
    requires
        start < lines.len(),
        is_item_line(lines.deep_view()[start as int]),
    ensures
        start < r.1 <= lines.len(),
        r.1 == list_end(lines.deep_view(), start as int),
        r.0@ == "<ul>"@ + list_items_html(lines.deep_view(), start as int, r.1 as int) + "</ul>"@,
{
    let ghost ls = lines.deep_view();
    let mut html = String::new();
    html.append("<ul>");
    let mut index = start;
    while index < lines.len()
        invariant
            start <= index <= lines.len(),
            ls == lines.deep_view(),
            is_item_line(ls[start as int]),
            forall|k: int| start <= k < index ==> #[trigger] is_item_line(ls[k]),
            html@ == "<ul>"@ + list_items_html(ls, start as int, index as int),
        decreases lines.len() - index,
    {
        assert(lines[index as int]@ =~= ls[index as int]);
        let item = &lines[index];
        let (ia, ib) = trim_bounds(item, 0, item.len());
        assert(item@.subrange(0, item.len() as int) =~= item@);
        if !range_starts_with(item, ia, ib, '-', ' ', ' ', 2) {
            proof {
                lemma_list_end(ls, start as int, index as int);
                assert(index > start);
            }
            html.append("</ul>");
            return (html, index);
        }
        html.append("<li>");
        let text = render_inline_markdown(item, ia + 2, ib);
        assert(item@.subrange(ia + 2, ib as int) =~= trimmed(ls[index as int]).skip(2));
        html.append(text.as_str());
        html.append("</li>");
        index += 1;
    }
    proof {
        lemma_list_end(ls, start as int, index as int);
    }
    html.append("</ul>");
    (html, index)
}

/// The paragraph that starts at line `start`, as joined text.
fn paragraph_block(lines: &Vec<Vec<char>>, start: usize) -> (r: (String, usize))
    requires
        start < lines.len(),
        !breaks_paragraph(lines.deep_view()[start as int]),
    ensures
        start < r.1 <= lines.len(),
        r.1 == paragraph_end(lines.deep_view(), start as int),
        r.0@ == paragraph_text(lines.deep_view(), start as int, r.1 as int),
{
    let ghost ls = lines.deep_view();
    assert(lines[start as int]@ =~= ls[start as int]);
    let first = trim_chars_of(&lines[start]);
    let mut paragraph = crate::text::string_of(&first);
    let mut index = start + 1;
    while index < lines.len()
        invariant
            start < index <= lines.len(),
            ls == lines.deep_view(),
            forall|k: int| start <= k < index ==> !breaks_paragraph(#[trigger] ls[k]),
            paragraph@ == paragraph_text(ls, start as int, index as int),
        decreases lines.len() - index,
    {
        assert(lines[index as int]@ =~= ls[index as int]);
        let current = &lines[index];
        let (ca, cb) = trim_bounds(current, 0, current.len());
        assert(current@.subrange(0, current.len() as int) =~= current@);
        if ca == cb || current[ca] == '#' || range_starts_with(current, ca, cb, '-', ' ', ' ', 2) {
            proof {
                lemma_paragraph_end(ls, start as int, index as int);
            }
            return (paragraph, index);
        }
        push_char(&mut paragraph, ' ');
        let piece = slice_chars(current, ca, cb);
        crate::text::push_chars(&mut paragraph, &piece);
        index += 1;
    }
    proof {
        lemma_paragraph_end(ls, start as int, index as int);
    }
    (paragraph, index)
}

fn trim_chars_of(v: &Vec<char>) -> (r: Vec<char>)
    ensures
        r@ == trimmed(v@),
{
    crate::text::trim_chars(v)
}

/// Renders the block structure of a Markdown page to HTML.
#[verifier::spinoff_prover]
#[verifier::rlimit(40)]
pub fn render_markdown(markdown: &str) -> (html: String)
    requires
        headings_well_formed(lines_of(markdown@)),
    ensures
        html@ == blocks_html_from(lines_of(markdown@), 0),
{
    let chars = chars_of(markdown);
    let lines = split_lines(&chars);
    let ghost ls = lines.deep_view();
    let mut index: usize = 0;
    let mut html = String::new();
    while index < lines.len()
        invariant
            index <= lines.len(),
            ls == lines.deep_view(),
            headings_well_formed(ls),
            html@ + blocks_html_from(ls, index as int) == blocks_html_from(ls, 0),
        decreases lines.len() - index,
    {
        assert(lines[index as int]@ =~= ls[index as int]);
        let line = &lines[index];
        let (a, b) = trim_bounds(line, 0, line.len());
        assert(line@.subrange(0, line.len() as int) =~= line@);
        let ghost t = trimmed(ls[index as int]);
        assert(t == line@.subrange(a as int, b as int));
        if a == b {
            index += 1;
            continue;
        }
        if range_starts_with(line, a, b, '#', ' ', ' ', 2) {
            html.append("<h1>");
            let text = render_inline_markdown(line, a + 2, b);
            assert(line@.subrange(a + 2, b as int) =~= t.skip(2));
            html.append(text.as_str());
            html.append("</h1>");
            index += 1;
            continue;
        }
        if range_starts_with(line, a, b, '#', '#', ' ', 3) {
            html.append("<h2>");
            let text = render_inline_markdown(line, a + 3, b);
            assert(line@.subrange(a + 3, b as int) =~= t.skip(3));
            html.append(text.as_str());
            html.append("</h2>");
            index += 1;
            continue;
        }
        if range_starts_with(line, a, b, '-', ' ', ' ', 2) {
            let (block, end) = list_block(&lines, index);
            html.append(block.as_str());
            index = end;
            continue;
        }
        proof {
            assert(t[0] != '#');
            assert(!breaks_paragraph(ls[index as int]));
        }
        let (paragraph, end) = paragraph_block(&lines, index);
        let pchars = chars_of(paragraph.as_str());
        html.append("<p>");
        let text = render_inline_markdown(&pchars, 0, pchars.len());
        assert(pchars@.subrange(0, pchars.len() as int) =~= pchars@);
        html.append(text.as_str());
        html.append("</p>");
        index = end;
    }
    html
}

/// The components of the directory that holds the output `path`.
pub open spec fn output_dir_components(path: Seq<char>) -> Seq<Seq<char>> {
    let cs = components(path);
    if cs.len() == 0 {
        cs
    } else {
        cs.drop_last()
    }
}

/// The href from the output page `from` to the output `to`: the relative
/// path from the directory of `from`, or `.` when that path is empty.
pub open spec fn relative_href_spec(from: Seq<char>, to: Seq<char>) -> Seq<char> {
    let rel = relative_components(output_dir_components(from), components(to));
    if rel.len() == 0 {
        seq!['.']
    } else {
        join_components(rel)
    }
}

/// The relative href from the rendered page `from_output_path` to
/// `to_output_path`.
pub fn relative_href(from_output_path: &str, to_output_path: &str) -> (href: String)
    ensures
        href@ == relative_href_spec(from_output_path@, to_output_path@),
{
    let fv = chars_of(from_output_path);
    let tv = chars_of(to_output_path);
    let mut from_components = path_components(&fv);
    let to_components = path_components(&tv);
    if from_components.len() > 0 {
        let ghost before = from_components.deep_view();
        from_components.pop();
        assert(from_components.deep_view() =~= before.drop_last());
    }
    let rel = relative_component_list(&from_components, &to_components);
    if rel.len() == 0 {
        let mut dot = String::new();
        push_char(&mut dot, '.');
        assert(dot@ =~= seq!['.']);
        dot
    } else {
        render_components(&rel)
    }
}

/// Whether every heading line of a Markdown text starts with `# ` or `## `,
/// which `render_markdown` needs.
pub fn markdown_headings_well_formed(markdown: &str) -> (r: bool)
    ensures
        r == headings_well_formed(lines_of(markdown@)),
{
    let ls = crate::text::split_lines(&crate::text::chars_of(markdown));
    let ghost lv = lines_of(markdown@);
    let mut i: usize = 0;
    while i < ls.len()
        invariant
            i <= ls.len(),
            ls.deep_view() == lv,
            lv == lines_of(markdown@),
            forall|j: int|
                0 <= j < i && trimmed(#[trigger] lv[j]).len() > 0 && trimmed(lv[j])[0] == '#' ==> has_prefix(
                    trimmed(lv[j]),
                    seq!['#', ' '],
                ) || has_prefix(trimmed(lv[j]), seq!['#', '#', ' ']),
        decreases ls.len() - i,
    {
        assert(lv[i as int] == ls@[i as int]@);
        let t = crate::text::trim_chars(&ls[i]);
        if t.len() > 0 && t[0] == '#' {
            let one = t.len() >= 2 && t[1] == ' ';
            let two = t.len() >= 3 && t[1] == '#' && t[2] == ' ';
            proof {
                let tv = trimmed(lv[i as int]);
                if one {
                    assert(tv.take(2) =~= seq!['#', ' ']);
                }
                if two {
                    assert(tv.take(3) =~= seq!['#', '#', ' ']);
                }
                if has_prefix(tv, seq!['#', ' ']) {
                    assert(tv.take(2)[1] == ' ');
                }
                if has_prefix(tv, seq!['#', '#', ' ']) {
                    assert(tv.take(3)[1] == '#');
                    assert(tv.take(3)[2] == ' ');
                }
            }
            if !one && !two {
                proof {
                    let tv = trimmed(lv[i as int]);
                    assert(tv == t@);
                    assert(!has_prefix(tv, seq!['#', ' ']));
                    assert(!has_prefix(tv, seq!['#', '#', ' ']));
                    assert(!headings_well_formed(lv));
                }
                return false;
            }
        }
        i += 1;
    }
    true
}

} // verus!
