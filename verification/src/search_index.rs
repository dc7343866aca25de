//! The search index of the rendered site and its JSON form.
use vstd::prelude::*;
use crate::escape::{escape_json, json_escaped};
use crate::json_read::{
    after_char, json_plain, json_safe, lemma_after_char, lemma_read_member, lemma_string_rest_plain, read_array,
    read_members, read_object, read_objects, read_string, skip_ws,
};
use crate::reader_context::AuthoredPageReaderContext;
use crate::render_manifest::{authored_entry_index, RenderManifest};
use crate::search::{extract_search_body, search_body_of};
use crate::text::{copy_string, lines_of, string_from};

verus! {

/// Why a search index could not be built or written.
#[derive(Debug, Clone, PartialEq, Eq)]
pub enum SearchIndexError {
    /// The manifest has no output for a page.
    MissingManifestEntry { source_path: String },
    /// Reading a source or writing the index failed.
    Io { path: String, message: String },
}

/// The search index of the site.
#[derive(Debug, Clone, PartialEq, Eq)]
pub struct SearchIndex {
    pub documents: Vec<SearchDocument>,
}

/// The searchable text of one page.
#[derive(Debug, Clone, PartialEq, Eq)]
pub struct SearchDocument {
    pub title: String,
    pub href: String,
    pub book_label: String,
    pub body: String,
}

/// The JSON object of a document.
pub open spec fn document_json(d: SearchDocument) -> Seq<char> {
    "{\"title\":\""@ + json_escaped(d.title@) + "\",\"href\":\""@ + json_escaped(d.href@)
        + "\",\"book_label\":\""@ + json_escaped(d.book_label@) + "\",\"body\":\""@ + json_escaped(d.body@)
        + "\"}"@
}

/// The JSON objects of documents, separated by commas.
pub open spec fn documents_json(ds: Seq<SearchDocument>) -> Seq<char>
    decreases ds.len(),
{
    if ds.len() == 0 {
        Seq::empty()
    } else if ds.len() == 1 {
        document_json(ds[0])
    } else {
        documents_json(ds.drop_last()) + ","@ + document_json(ds.last())
    }
}

/// The whole index as JSON text: `{"docs":[...]}`.
pub open spec fn index_json(ds: Seq<SearchDocument>) -> Seq<char> {
    "{\"docs\":["@ + documents_json(ds) + "]}"@
}

/// The members of a document's JSON object: key and string value, in order.
pub open spec fn document_members(d: SearchDocument) -> Seq<(Seq<char>, Seq<char>)> {
    seq![("title"@, d.title@), ("href"@, d.href@), ("book_label"@, d.book_label@), ("body"@, d.body@)]
}

/// Every field of every document is safe for a JSON string: no character
/// below U+0020 but `\n`, `\r` and `\t`.
pub open spec fn documents_json_safe(ds: Seq<SearchDocument>) -> bool {
    forall|i: int|
        0 <= i < ds.len() ==> json_safe((#[trigger] ds[i]).title@) && json_safe(ds[i].href@) && json_safe(
            ds[i].book_label@,
        ) && json_safe(ds[i].body@)
}

/// Reads the JSON text of an index: an object with the single member
/// `docs`, an array of objects with string members, and nothing after it
/// but whitespace.
pub open spec fn read_index_json(t: Seq<char>) -> Option<Seq<Seq<(Seq<char>, Seq<char>)>>> {
    match after_char(t, '{') {
        Some(t1) => match read_string(t1) {
            Some((k, t2)) => if k == "docs"@ {
                match after_char(t2, ':') {
                    Some(t3) => match read_array(t3) {
                        Some((os, t4)) => match after_char(t4, '}') {
                            Some(t5) => if skip_ws(t5).len() == 0 {
                                Some(os)
                            } else {
                                None
                            },
                            None => None,
                        },
                        None => None,
                    },
                    None => None,
                }
            } else {
                None
            },
            None => None,
        },
        None => None,
    }
}

/// A member `"k":"escaped v"` of a document object.
spec fn member_json(k: Seq<char>, v: Seq<char>) -> Seq<char> {
    seq!['"'] + k + seq!['"', ':', '"'] + json_escaped(v) + seq!['"']
}

proof fn lemma_document_json_pieces(d: SearchDocument)
    ensures
        document_json(d) == seq!['{'] + member_json("title"@, d.title@) + seq![','] + member_json(
            "href"@,
            d.href@,
        ) + seq![','] + member_json("book_label"@, d.book_label@) + seq![','] + member_json("body"@, d.body@)
            + seq!['}'],
        json_plain("title"@),
        json_plain("href"@),
        json_plain("book_label"@),
        json_plain("body"@),
{
    reveal_strlit("{\"title\":\"");
    reveal_strlit("\",\"href\":\"");
    reveal_strlit("\",\"book_label\":\"");
    reveal_strlit("\",\"body\":\"");
    reveal_strlit("\"}");
    reveal_strlit("title");
    reveal_strlit("href");
    reveal_strlit("book_label");
    reveal_strlit("body");
    assert(document_json(d) =~= seq!['{'] + member_json("title"@, d.title@) + seq![','] + member_json(
        "href"@,
        d.href@,
    ) + seq![','] + member_json("book_label"@, d.book_label@) + seq![','] + member_json("body"@, d.body@)
        + seq!['}']);
    assert(json_plain("title"@)) by {
        reveal_with_fuel(json_plain, 6);
    }
    assert(json_plain("href"@)) by {
        reveal_with_fuel(json_plain, 5);
    }
    assert(json_plain("book_label"@)) by {
        reveal_with_fuel(json_plain, 11);
    }
    assert(json_plain("body"@)) by {
        reveal_with_fuel(json_plain, 5);
    }
}

#[verifier::spinoff_prover]
#[verifier::rlimit(50)]
proof fn lemma_read_document(d: SearchDocument, r: Seq<char>)
    requires
        json_safe(d.title@),
        json_safe(d.href@),
        json_safe(d.book_label@),
        json_safe(d.body@),
    ensures
        read_object(document_json(d) + r) == Some((document_members(d), r)),
        (document_json(d) + r)[0] == '{',
{
    lemma_document_json_pieces(d);
    let m1 = member_json("title"@, d.title@);
    let m2 = member_json("href"@, d.href@);
    let m3 = member_json("book_label"@, d.book_label@);
    let m4 = member_json("body"@, d.body@);
    let y4 = seq!['}'] + r;
    let x4 = m4 + y4;
    let y3 = seq![','] + x4;
    let x3 = m3 + y3;
    let y2 = seq![','] + x3;
    let x2 = m2 + y2;
    let y1 = seq![','] + x2;
    let x1 = m1 + y1;
    let t = document_json(d) + r;
    assert(t =~= seq!['{'] + x1);
    lemma_after_char('{', x1, '{');
    assert(x1 =~= seq!['"'] + x1.skip(1));
    lemma_after_char('"', x1.skip(1), '}');
    assert(x4 =~= seq!['"'] + x4.skip(1));
    assert(x3 =~= seq!['"'] + x3.skip(1));
    assert(x2 =~= seq!['"'] + x2.skip(1));
    lemma_read_member("title"@, d.title@, y1);
    lemma_read_member("href"@, d.href@, y2);
    lemma_read_member("book_label"@, d.book_label@, y3);
    lemma_read_member("body"@, d.body@, y4);
    assert(seq!['"'] + "title"@ + seq!['"', ':', '"'] + json_escaped(d.title@) + seq!['"'] + y1 =~= x1);
    assert(seq!['"'] + "href"@ + seq!['"', ':', '"'] + json_escaped(d.href@) + seq!['"'] + y2 =~= x2);
    assert(seq!['"'] + "book_label"@ + seq!['"', ':', '"'] + json_escaped(d.book_label@) + seq!['"'] + y3
        =~= x3);
    assert(seq!['"'] + "body"@ + seq!['"', ':', '"'] + json_escaped(d.body@) + seq!['"'] + y4 =~= x4);
    lemma_after_char(',', x2, ',');
    lemma_after_char(',', x3, ',');
    lemma_after_char(',', x4, ',');
    lemma_after_char('}', r, ',');
    lemma_after_char('}', r, '}');
    assert(read_members(x4) == Some((seq![("body"@, d.body@)], r)));
    assert(read_members(x3) == Some((seq![("book_label"@, d.book_label@)] + seq![("body"@, d.body@)], r)));
    assert(read_members(x2) == Some((seq![("href"@, d.href@)] + (seq![("book_label"@, d.book_label@)] + seq![
        ("body"@, d.body@),
    ]), r)));
    assert(read_members(x1) == Some((seq![("title"@, d.title@)] + (seq![("href"@, d.href@)] + (seq![
        ("book_label"@, d.book_label@),
    ] + seq![("body"@, d.body@)])), r)));
    assert(seq![("title"@, d.title@)] + (seq![("href"@, d.href@)] + (seq![("book_label"@, d.book_label@)]
        + seq![("body"@, d.body@)])) =~= document_members(d));
}

proof fn lemma_documents_json_front(ds: Seq<SearchDocument>)
    requires
        ds.len() >= 2,
    ensures
        documents_json(ds) == document_json(ds[0]) + seq![','] + documents_json(ds.skip(1)),
    decreases ds.len(),
{
    reveal_strlit(",");
    if ds.len() == 2 {
        assert(ds.drop_last().len() == 1);
        assert(ds.skip(1).len() == 1);
        assert(ds.skip(1)[0] == ds.last());
        assert(documents_json(ds.skip(1)) == document_json(ds[1]));
        assert(documents_json(ds.drop_last()) == document_json(ds[0]));
        assert(documents_json(ds) =~= document_json(ds[0]) + seq![','] + documents_json(ds.skip(1)));
    } else {
        lemma_documents_json_front(ds.drop_last());
        assert(ds.drop_last().skip(1) =~= ds.skip(1).drop_last());
        assert(ds.skip(1).last() == ds.last());
        assert(ds.drop_last()[0] == ds[0]);
        assert(documents_json(ds) =~= document_json(ds[0]) + seq![','] + documents_json(ds.skip(1)));
    }
}

proof fn lemma_read_documents(ds: Seq<SearchDocument>, r: Seq<char>)
    requires
        ds.len() >= 1,
        documents_json_safe(ds),
    ensures
        read_objects(documents_json(ds) + seq![']'] + r) == Some(
            (ds.map_values(|d: SearchDocument| document_members(d)), r),
        ),
        (documents_json(ds) + seq![']'] + r)[0] == '{',
    decreases ds.len(),
{
    let t = documents_json(ds) + seq![']'] + r;
    assert(json_safe(ds[0].title@) && json_safe(ds[0].href@));
    if ds.len() == 1 {
        assert(documents_json(ds) == document_json(ds[0]));
        assert(t =~= document_json(ds[0]) + (seq![']'] + r));
        lemma_read_document(ds[0], seq![']'] + r);
        lemma_after_char(']', r, ',');
        lemma_after_char(']', r, ']');
        assert(ds.map_values(|d: SearchDocument| document_members(d)) =~= seq![document_members(ds[0])]);
    } else {
        let tail = ds.skip(1);
        assert forall|i: int| 0 <= i < tail.len() implies json_safe((#[trigger] tail[i]).title@) && json_safe(
            tail[i].href@,
        ) && json_safe(tail[i].book_label@) && json_safe(tail[i].body@) by {
            assert(tail[i] == ds[i + 1]);
        }
        lemma_read_documents(tail, r);
        lemma_documents_json_front(ds);
        let z = documents_json(tail) + seq![']'] + r;
        assert(t =~= document_json(ds[0]) + (seq![','] + z));
        lemma_read_document(ds[0], seq![','] + z);
        lemma_after_char(',', z, ',');
        assert(z.len() < t.len());
        assert(ds.map_values(|d: SearchDocument| document_members(d)) =~= seq![document_members(ds[0])]
            + tail.map_values(|d: SearchDocument| document_members(d)));
    }
}

/// Law: the JSON text of an index reads back, as JSON, to its documents:
/// an object whose one member `docs` is an array with one object per
/// document, in order, with exactly the string members `title`, `href`,
/// `book_label` and `body`. It holds where no field holds a character
/// below U+0020 but `\n`, `\r` and `\t`, which the escape leaves as
/// they are and JSON refuses unescaped.
pub proof fn lemma_index_json_reads_back(ds: Seq<SearchDocument>)
    requires
        documents_json_safe(ds),
    ensures
        read_index_json(index_json(ds)) == Some(ds.map_values(|d: SearchDocument| document_members(d))),
{
    reveal_strlit("{\"docs\":[");
    reveal_strlit("]}");
    reveal_strlit("docs");
    let u = documents_json(ds) + seq![']'] + seq!['}'];
    let t3 = seq!['['] + u;
    let t2 = seq![':'] + t3;
    let t1 = seq!['"'] + ("docs"@ + seq!['"'] + t2);
    let t = index_json(ds);
    assert(t =~= seq!['{'] + t1);
    lemma_after_char('{', t1, '{');
    lemma_after_char('"', "docs"@ + seq!['"'] + t2, '"');
    assert(json_plain("docs"@)) by {
        reveal_with_fuel(json_plain, 5);
    }
    lemma_string_rest_plain("docs"@, t2);
    lemma_after_char(':', t3, ':');
    lemma_after_char('[', u, '[');
    let empty = Seq::<char>::empty();
    lemma_after_char('}', empty, '}');
    if ds.len() == 0 {
        assert(documents_json(ds) =~= Seq::<char>::empty());
        assert(u =~= seq![']'] + seq!['}']);
        lemma_after_char(']', seq!['}'], ']');
        assert(ds.map_values(|d: SearchDocument| document_members(d)) =~= Seq::empty());
    } else {
        lemma_read_documents(ds, seq!['}']);
        assert(u =~= seq!['{'] + u.skip(1));
        lemma_after_char('{', u.skip(1), ']');
    }
}

impl SearchIndex {
    /// The index as JSON: `{"docs":[...]}` with one object per document.
    pub fn to_json_string(&self) -> (json: String)
        ensures
            json@ == index_json(self.documents@),
    {
        let mut documents = String::new();
        let mut i: usize = 0;
        while i < self.documents.len()
            invariant
                i <= self.documents.len(),
                documents@ == documents_json(self.documents@.take(i as int)),
            decreases self.documents.len() - i,
        {
            let d = &self.documents[i];
            assert(self.documents@.take(i + 1).drop_last() =~= self.documents@.take(i as int));
            if i > 0 {
                documents.append(",");
            }
            documents.append("{\"title\":\"");
            documents.append(escape_json(d.title.as_str()).as_str());
            documents.append("\",\"href\":\"");
            documents.append(escape_json(d.href.as_str()).as_str());
            documents.append("\",\"book_label\":\"");
            documents.append(escape_json(d.book_label.as_str()).as_str());
            documents.append("\",\"body\":\"");
            documents.append(escape_json(d.body.as_str()).as_str());
            documents.append("\"}");
            proof {
                if i == 0 {
                    assert(documents_json(self.documents@.take(0)) =~= Seq::<char>::empty());
                }
            }
            assert(documents@ =~= documents_json(self.documents@.take(i + 1)));
            i += 1;
        }
        assert(self.documents@.take(self.documents.len() as int) =~= self.documents@);
        let mut json = string_from("{\"docs\":[");
        json.append(documents.as_str());
        json.append("]}");
        json
    }
}

/// The output path of a page's search document: the manifest's output for
/// its source path, or the error naming the path.
pub fn search_document_href(context: &AuthoredPageReaderContext, render_manifest: &RenderManifest) -> (r: Result<
    String,
    SearchIndexError,
>)
    ensures
        match authored_entry_index(render_manifest.entries@, context.source_path@) {
            Some(i) => r matches Ok(h) && h@ == render_manifest.entries@[i].output_path@,
            None => r matches Err(SearchIndexError::MissingManifestEntry { source_path })
                && source_path@ == context.source_path@,
        },
{
    match render_manifest.authored_entry_for_source_path(context.source_path.as_str()) {
        None => Err(SearchIndexError::MissingManifestEntry { source_path: copy_string(&context.source_path) }),
        Some(entry) => Ok(copy_string(&entry.output_path)),
    }
}

/// The search document of a page from its context, output path and
/// Markdown source: its title, book and plain body text.
pub fn search_document(context: &AuthoredPageReaderContext, href: String, markdown: &str) -> (d: SearchDocument)
    ensures
        d.title@ == context.page_title@,
        d.href@ == href@,
        d.book_label@ == context.active_book.title@,
        d.body@ == search_body_of(lines_of(markdown@)),
{
    SearchDocument {
        title: copy_string(&context.page_title),
        href,
        book_label: copy_string(&context.active_book.title),
        body: extract_search_body(markdown),
    }
}

/// The text that describes the error.
pub open spec fn search_index_error_text(e: &SearchIndexError) -> Seq<char> {
    match e {
        SearchIndexError::MissingManifestEntry { source_path } => "render manifest is missing the authored output for search document "@ + source_path@,
        SearchIndexError::Io { path, message } => "failed to build or write search index from "@ + path@ + ": "@ + message@,
    }
}

impl SearchIndexError {
    /// The text that describes the error, for reports.
    pub fn message(&self) -> (r: String)
        ensures
            r@ == search_index_error_text(self),
    {
        match self {
            SearchIndexError::MissingManifestEntry { source_path } => {
                let mut s = string_from("render manifest is missing the authored output for search document ");
                s.append(source_path.as_str());
                s
            },
            SearchIndexError::Io { path, message } => {
                let mut s = string_from("failed to build or write search index from ");
                s.append(path.as_str());
                s.append(": ");
                s.append(message.as_str());
                s
            },
        }
    }
}

} // verus!
