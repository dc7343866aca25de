//! The generated documentation index: a one-page book that lists every
//! book by category, with links that are encoded per path component.
use vstd::prelude::*;
use vstd::utf8::encode_utf8;
use crate::escape::{
    escape_html_attr, escape_html_text, escape_markdown_link_text, html_attr_escaped, html_text_escaped,
    markdown_label_escaped,
};
use crate::paths::{components, cur_component, join_path, parent_component, path_components, path_join, root_component};
use crate::paths::is_dot_or_dotdot;
use crate::shelf::config::BookshelfCategory;
use crate::text::{chars_of, copy_string, push_char, str_eq, string_from, string_of, trim_chars, trimmed};

verus! {

/// A book as the documentation index lists it.
#[derive(Debug, Clone, PartialEq, Eq)]
pub struct IndexBook {
    pub id: String,
    pub title: String,
    pub description: Option<String>,
    pub output_rel: String,
}

/// Why the documentation index could not be written.
#[derive(Debug, Clone, PartialEq, Eq)]
pub enum DocIndexError {
    /// A category lists a book that the catalog does not have.
    UnknownBook { category: String, book_id: String },
}

/// The summary of the documentation index book: one chapter, the index.
pub open spec fn index_summary(index_title: Seq<char>) -> Seq<char> {
    "# Summary\n\n- ["@ + markdown_label_escaped(index_title) + "](index.md)\n"@
}

/// The title of the documentation index: the configured one, else
/// `Documentation`.
pub fn documentation_index_title(configured: Option<String>) -> (r: String)
    ensures
        r@ == match configured {
            Some(t) => t@,
            None => "Documentation"@,
        },
{
    match configured {
        Some(t) => t,
        None => string_from("Documentation"),
    }
}

/// The summary of the documentation index book.
pub fn render_documentation_index_summary(index_title: &str) -> (r: String)
    ensures
        r@ == index_summary(index_title@),
{
    let mut s = string_from("# Summary\n\n- [");
    s.append(escape_markdown_link_text(index_title).as_str());
    s.append("](index.md)\n");
    s
}

/// An uppercase hexadecimal digit.
pub open spec fn hex_upper(v: nat) -> char {
    if v < 10 {
        ((v + 48) as u32) as char
    } else {
        ((v + 55) as u32) as char
    }
}

/// The hexadecimal digit of a nibble.
pub fn hex_digit(value: u8) -> (c: char)
    requires
        value < 16,
    ensures
        c == hex_upper(value as nat),
{
    if value < 10 {
        let c = (value + 48) as char;
        assert(c == hex_upper(value as nat)) by {
            assert((value + 48) as u8 as char == ((value as nat + 48) as u32) as char);
        }
        c
    } else {
        let c = (value + 55) as char;
        assert(c == hex_upper(value as nat)) by {
            assert((value + 55) as u8 as char == ((value as nat + 55) as u32) as char);
        }
        c
    }
}

/// A byte that needs no percent encoding in a URL path component.
pub open spec fn unreserved(b: u8) -> bool {
    (65 <= b <= 90) || (97 <= b <= 122) || (48 <= b <= 57) || b == 45 || b == 46 || b == 95 || b == 126
}

/// The encoding of one byte.
pub open spec fn encode_byte(b: u8) -> Seq<char> {
    if unreserved(b) {
        seq![(b as u32) as char]
    } else {
        seq!['%', hex_upper((b / 16) as nat), hex_upper((b % 16) as nat)]
    }
}

/// The encoding of bytes, one after another.
pub open spec fn encode_bytes(bs: Seq<u8>) -> Seq<char>
    decreases bs.len(),
{
    if bs.len() == 0 {
        Seq::empty()
    } else {
        encode_bytes(bs.drop_last()) + encode_byte(bs.last())
    }
}

/// A path component percent-encoded over its UTF-8 bytes: letters,
/// digits, `-`, `.`, `_` and `~` stay, every other byte becomes `%XX`.
pub open spec fn percent_encoded(component: Seq<char>) -> Seq<char> {
    encode_bytes(encode_utf8(component))
}

/// Percent-encodes one path component.
pub fn percent_encode_path_component(component: &str) -> (encoded: String)
    ensures
        encoded@ == percent_encoded(component@),
{
    let bytes = component.as_bytes_vec();
    let mut encoded = String::new();
    let mut i: usize = 0;
    while i < bytes.len()
        invariant
            i <= bytes.len(),
            bytes@ == encode_utf8(component@),
            encoded@ == encode_bytes(bytes@.take(i as int)),
        decreases bytes.len() - i,
    {
        let b = bytes[i];
        assert(bytes@.take(i + 1).drop_last() =~= bytes@.take(i as int));
        assert(bytes@.take(i + 1).last() == b);
        let ghost before = encoded@;
        if (65 <= b && b <= 90) || (97 <= b && b <= 122) || (48 <= b && b <= 57) || b == 45 || b == 46 || b == 95
            || b == 126 {
            push_char(&mut encoded, b as char);
            assert(encoded@ =~= before + seq![(b as u32) as char]) by {
                assert(b as char == (b as u32) as char);
            }
        } else {
            assert(b >> 4 == b / 16) by (bit_vector);
            assert(b & 0x0f == b % 16) by (bit_vector);
            push_char(&mut encoded, '%');
            push_char(&mut encoded, hex_digit(b >> 4));
            push_char(&mut encoded, hex_digit(b & 0x0f));
            assert(encoded@ =~= before + encode_byte(b));
        }
        i += 1;
    }
    assert(bytes@.take(bytes.len() as int) =~= bytes@);
    encoded
}

/// The URL parts of path components: names encoded, `..` kept, the root
/// and `.` dropped.
pub open spec fn url_parts(cs: Seq<Seq<char>>) -> Seq<Seq<char>>
    decreases cs.len(),
{
    if cs.len() == 0 {
        Seq::empty()
    } else {
        let rest = url_parts(cs.drop_last());
        let c = cs.last();
        if c == root_component() || c == cur_component() {
            rest
        } else if c == parent_component() {
            rest.push(parent_component())
        } else {
            rest.push(percent_encoded(c))
        }
    }
}

/// Parts joined with `/`.
pub open spec fn slash_joined(parts: Seq<Seq<char>>) -> Seq<char>
    decreases parts.len(),
{
    if parts.len() == 0 {
        Seq::empty()
    } else if parts.len() == 1 {
        parts[0]
    } else {
        slash_joined(parts.drop_last()) + seq!['/'] + parts.last()
    }
}

/// A path as a URL relative to the site: its parts joined with `/`, `.`
/// when it has none.
pub open spec fn site_relative_url_spec(path: Seq<char>) -> Seq<char> {
    let parts = url_parts(components(path));
    if parts.len() == 0 {
        seq!['.']
    } else {
        slash_joined(parts)
    }
}

/// A path as a URL relative to the site.
pub fn site_relative_url(path: &str) -> (url: String)
    ensures
        url@ == site_relative_url_spec(path@),
{
    let cs = path_components(&chars_of(path));
    let ghost all = cs.deep_view();
    let mut parts: Vec<String> = Vec::new();
    let mut i: usize = 0;
    while i < cs.len()
        invariant
            i <= cs.len(),
            all == cs.deep_view(),
            all == components(path@),
            parts.deep_view() == url_parts(all.take(i as int)),
        decreases cs.len() - i,
    {
        assert(all.take(i + 1).drop_last() =~= all.take(i as int));
        assert(all[i as int] == cs@[i as int]@);
        let (dot, dotdot) = is_dot_or_dotdot(&cs[i]);
        let ghost before = parts.deep_view();
        if crate::paths::is_root(&cs[i]) || dot {
        } else if dotdot {
            parts.push(copy_string(&cs[i]));
            assert(parts.deep_view() =~= before.push(parent_component()));
        } else {
            parts.push(percent_encode_path_component(cs[i].as_str()));
            assert(parts.deep_view() =~= before.push(percent_encoded(all[i as int])));
        }
        i += 1;
    }
    assert(all.take(cs.len() as int) =~= all);
    if parts.len() == 0 {
        let mut dot = String::new();
        push_char(&mut dot, '.');
        assert(dot@ =~= seq!['.']);
        return dot;
    }
    let mut url = copy_string(&parts[0]);
    let mut k: usize = 1;
    assert(parts.deep_view().take(1) =~= seq![parts.deep_view()[0]]);
    while k < parts.len()
        invariant
            1 <= k <= parts.len(),
            url@ == slash_joined(parts.deep_view().take(k as int)),
        decreases parts.len() - k,
    {
        assert(parts.deep_view().take(k + 1).drop_last() =~= parts.deep_view().take(k as int));
        assert(parts.deep_view()[k as int] == parts@[k as int]@);
        push_char(&mut url, '/');
        url.append(parts[k].as_str());
        k += 1;
    }
    assert(parts.deep_view().take(parts.len() as int) =~= parts.deep_view());
    url
}

/// The link of a book's card: its index page as a site-relative URL.
pub open spec fn card_href(output_rel: Seq<char>) -> Seq<char> {
    site_relative_url_spec(path_join(output_rel, "index.html"@))
}

/// The card of a book.
pub open spec fn book_card(b: IndexBook) -> Seq<char> {
    let description = match b.description {
        Some(d) => if trimmed(d@).len() > 0 {
            "<span class=\"bookshelf-book-description\">"@ + html_text_escaped(trimmed(d@)) + "</span>\n"@
        } else {
            Seq::empty()
        },
        None => Seq::empty(),
    };
    "<li>\n<a class=\"bookshelf-book\" href=\""@ + html_attr_escaped(card_href(b.output_rel@))
        + "\">\n<span class=\"bookshelf-book-title\">"@ + html_text_escaped(b.title@) + "</span>\n"@ + description
        + "</a>\n</li>\n"@
}

/// Appends the card of a book.
pub fn render_book_card(markdown: &mut String, book: &IndexBook)
    ensures
        final(markdown)@ == old(markdown)@ + book_card(*book),
{
    let ghost before = markdown@;
    let href = site_relative_url(join_path(book.output_rel.as_str(), "index.html").as_str());
    markdown.append("<li>\n<a class=\"bookshelf-book\" href=\"");
    markdown.append(escape_html_attr(href.as_str()).as_str());
    markdown.append("\">\n<span class=\"bookshelf-book-title\">");
    markdown.append(escape_html_text(book.title.as_str()).as_str());
    markdown.append("</span>\n");
    match &book.description {
        Some(d) => {
            let description = string_of(&trim_chars(&chars_of(d.as_str())));
            if description.as_str().unicode_len() > 0 {
                markdown.append("<span class=\"bookshelf-book-description\">");
                markdown.append(escape_html_text(description.as_str()).as_str());
                markdown.append("</span>\n");
            }
        },
        None => {},
    }
    markdown.append("</a>\n</li>\n");
    assert(markdown@ =~= before + book_card(*book));
}

/// The last book with id `id`.
pub open spec fn index_book_by_id(bs: Seq<IndexBook>, id: Seq<char>) -> Option<IndexBook>
    decreases bs.len(),
{
    if bs.len() == 0 {
        None
    } else if bs.last().id@ == id {
        Some(bs.last())
    } else {
        index_book_by_id(bs.drop_last(), id)
    }
}

/// The cards of the first `n` books of a category.
pub open spec fn category_cards(title: Seq<char>, ids: Seq<Seq<char>>, bs: Seq<IndexBook>, n: int) -> Result<Seq<char>, (Seq<char>, Seq<char>)>
    decreases n,
{
    if n <= 0 {
        Ok(Seq::empty())
    } else {
        match category_cards(title, ids, bs, n - 1) {
            Err(e) => Err(e),
            Ok(md) => match index_book_by_id(bs, ids[n - 1]) {
                None => Err((title, ids[n - 1])),
                Some(b) => Ok(md + book_card(b)),
            },
        }
    }
}

/// The sections of the first `k` categories.
pub open spec fn category_sections(cats: Seq<BookshelfCategory>, bs: Seq<IndexBook>, k: int) -> Result<Seq<char>, (Seq<char>, Seq<char>)>
    decreases k,
{
    if k <= 0 {
        Ok(Seq::empty())
    } else {
        match category_sections(cats, bs, k - 1) {
            Err(e) => Err(e),
            Ok(md) => {
                let c = cats[k - 1];
                let ids = c.book_ids.deep_view();
                match category_cards(c.title@, ids, bs, ids.len() as int) {
                    Err(e) => Err(e),
                    Ok(cards) => Ok(
                        md + "## "@ + c.title@
                            + "\n\n<div class=\"bookshelf\">\n<ul class=\"bookshelf-list\" role=\"list\">\n"@ + cards
                            + "</ul>\n</div>\n\n"@,
                    ),
                }
            },
        }
    }
}

/// The index page: its title, then one section per category; or the
/// category and book id of the first unknown book.
pub open spec fn index_markdown(index_title: Seq<char>, bs: Seq<IndexBook>, cats: Seq<BookshelfCategory>) -> Result<
    Seq<char>,
    (Seq<char>, Seq<char>),
> {
    match category_sections(cats, bs, cats.len() as int) {
        Err(e) => Err(e),
        Ok(md) => Ok("# "@ + index_title + "\n\n"@ + md),
    }
}

fn find_index_book<'a>(books: &'a Vec<IndexBook>, id: &str) -> (r: Option<&'a IndexBook>)
    ensures
        match r {
            Some(b) => index_book_by_id(books@, id@) == Some(*b),
            None => index_book_by_id(books@, id@) is None,
        },
{
    let ghost all = books@;
    let mut i = books.len();
    assert(all.take(i as int) =~= all);
    while i > 0
        invariant
            i <= books.len(),
            all == books@,
            index_book_by_id(all, id@) == index_book_by_id(all.take(i as int), id@),
        decreases i,
    {
        assert(all.take(i as int).drop_last() =~= all.take(i - 1));
        if str_eq(books[i - 1].id.as_str(), id) {
            return Some(&books[i - 1]);
        }
        i -= 1;
    }
    None
}

/// Renders the index page of the documentation index book: its title and,
/// per category, the cards of its books.
pub fn render_documentation_index_markdown(
    index_title: &str,
    books: &Vec<IndexBook>,
    categories: &Vec<BookshelfCategory>,
) -> (r: Result<String, DocIndexError>)
    ensures
        match index_markdown(index_title@, books@, categories@) {
            Ok(m) => r matches Ok(s) && s@ == m,
            Err((t, id)) => r matches Err(DocIndexError::UnknownBook { category, book_id }) && category@ == t
                && book_id@ == id,
        },
{
    let mut markdown = string_from("# ");
    markdown.append(index_title);
    markdown.append("\n\n");
    let ghost head = markdown@;
    let mut sections = String::new();
    let mut k: usize = 0;
    while k < categories.len()
        invariant
            k <= categories.len(),
            category_sections(categories@, books@, k as int) == Ok::<Seq<char>, (Seq<char>, Seq<char>)>(sections@),
        decreases categories.len() - k,
    {
        let category = &categories[k];
        let ghost ids = category.book_ids.deep_view();
        let mut cards = String::new();
        let mut j: usize = 0;
        while j < category.book_ids.len()
            invariant
                j <= category.book_ids.len(),
                k < categories.len(),
                category == categories@[k as int],
                ids == category.book_ids.deep_view(),
                category_sections(categories@, books@, k as int) == Ok::<Seq<char>, (Seq<char>, Seq<char>)>(
                    sections@,
                ),
                category_cards(category.title@, ids, books@, j as int) == Ok::<Seq<char>, (Seq<char>, Seq<char>)>(
                    cards@,
                ),
            decreases category.book_ids.len() - j,
        {
            let book_id = &category.book_ids[j];
            assert(ids[j as int] == book_id@);
            match find_index_book(books, book_id.as_str()) {
                None => {
                    proof {
                        lemma_cards_err(category.title@, ids, books@, j as int + 1, ids.len() as int);
                        lemma_sections_err(categories@, books@, k as int + 1, categories.len() as int);
                    }
                    return Err(
                        DocIndexError::UnknownBook { category: copy_string(&category.title), book_id: copy_string(book_id) },
                    );
                },
                Some(book) => {
                    render_book_card(&mut cards, book);
                },
            }
            j += 1;
        }
        sections.append("## ");
        sections.append(category.title.as_str());
        sections.append("\n\n<div class=\"bookshelf\">\n<ul class=\"bookshelf-list\" role=\"list\">\n");
        sections.append(cards.as_str());
        sections.append("</ul>\n</div>\n\n");
        k += 1;
    }
    markdown.append(sections.as_str());
    Ok(markdown)
}

proof fn lemma_cards_err(title: Seq<char>, ids: Seq<Seq<char>>, bs: Seq<IndexBook>, a: int, b: int)
    requires
        0 <= a <= b,
        category_cards(title, ids, bs, a) is Err,
    ensures
        category_cards(title, ids, bs, b) == category_cards(title, ids, bs, a),
    decreases b - a,
{
    if a < b {
        lemma_cards_err(title, ids, bs, a, b - 1);
    }
}

proof fn lemma_sections_err(cats: Seq<BookshelfCategory>, bs: Seq<IndexBook>, a: int, b: int)
    requires
        0 <= a <= b,
        category_sections(cats, bs, a) is Err,
    ensures
        category_sections(cats, bs, b) == category_sections(cats, bs, a),
    decreases b - a,
{
    if a < b {
        lemma_sections_err(cats, bs, a, b - 1);
    }
}

/// Where the documentation index book's sources are written, relative to
/// the configuration directory.
pub fn documentation_index_source_rel(asset_dir: &str) -> (r: String)
    ensures
        r@ == path_join(asset_dir@, "documentation-index"@),
{
    join_path(asset_dir, "documentation-index")
}

/// Where the documentation index looks for a custom 404 page: in its
/// generated sources, and in the configuration directory.
#[derive(Debug, Clone, PartialEq, Eq)]
pub struct Input404Candidates {
    pub generated_source: String,
    pub config_root: String,
}

/// A path of the configuration resolved against `base` unless absolute.
pub open spec fn resolved_against(base: Seq<char>, p: Seq<char>) -> Seq<char> {
    if p.len() > 0 && p[0] == '/' {
        p
    } else {
        path_join(base, p)
    }
}

/// The places to look for the configured 404 page of the documentation
/// index, none when no page is configured (or an empty one).
pub fn input_404_candidates(input_404: Option<&str>, config_root: &str, source_rel: &str) -> (r: Option<
    Input404Candidates,
>)
    ensures
        match input_404 {
            None => r is None,
            Some(p) => if p@.len() == 0 {
                r is None
            } else {
                r matches Some(c) && c.generated_source@ == resolved_against(path_join(config_root@, source_rel@), p@)
                    && c.config_root@ == resolved_against(config_root@, p@)
            },
        },
{
    let p = match input_404 {
        None => {
            return None;
        },
        Some(p) => p,
    };
    let cs = chars_of(p);
    if cs.len() == 0 {
        return None;
    }
    if cs[0] == '/' {
        return Some(Input404Candidates { generated_source: string_from(p), config_root: string_from(p) });
    }
    let source_dir = join_path(config_root, source_rel);
    Some(
        Input404Candidates {
            generated_source: join_path(source_dir.as_str(), p),
            config_root: join_path(config_root, p),
        },
    )
}

/// The 404 input the documentation index is built with: unchanged (none)
/// when its generated sources hold the page, the configuration
/// directory's page when that exists, and no page (empty) otherwise.
pub fn adapted_input_404(candidates: &Input404Candidates, generated_is_file: bool, config_root_is_file: bool) -> (r:
    Option<String>)
    ensures
        generated_is_file ==> r is None,
        !generated_is_file && config_root_is_file ==> (r matches Some(s) && s@ == candidates.config_root@),
        !generated_is_file && !config_root_is_file ==> (r matches Some(s) && s@.len() == 0),
{
    if generated_is_file {
        None
    } else if config_root_is_file {
        Some(copy_string(&candidates.config_root))
    } else {
        Some(String::new())
    }
}

} // verus!
