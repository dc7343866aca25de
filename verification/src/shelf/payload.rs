//! The site-wide search index: the saved elasticlunr index that mdBook
//! writes for each book, merged into one with renumbered documents.
use vstd::prelude::*;
use crate::numbers::{decimal, format_decimal, lemma_decimal_injective};
use crate::shelf::json::{
    find_member, json_eq, json_view, key_index, lemma_insert_then_get, lemma_key_index, lemma_members_view, members_view, merge_inverted_index_nodes,
    merge_node, obj_get, obj_insert, remap_inverted_index_doc_refs, remap_node, set_member, JsonMember, JsonValue,
    JsonView, NodeError, NodeErrorView,
};
use crate::shelf::search::{translate_doc_url, translated_doc_url, unescape_js_single_quoted, unescaped_from, UnescapeError};
use crate::shelf::site_links::pairs_view;
use crate::text::{chars_of, has_prefix, str_eq, string_from, string_of_range, trim_chars, trimmed};

verus! {

/// A document of a saved document store: its id and its fields.
#[derive(Debug, PartialEq, Eq)]
pub struct StoredDoc {
    pub id: String,
    pub fields: Vec<JsonMember>,
}

/// The document store of a saved index.
#[derive(Debug, PartialEq, Eq)]
pub struct DocumentStore {
    pub doc_info: Vec<JsonMember>,
    pub docs: Vec<StoredDoc>,
    pub length: u64,
    pub save: bool,
}

/// A saved elasticlunr index.
#[derive(Debug, PartialEq, Eq)]
pub struct SavedIndex {
    pub document_store: DocumentStore,
    pub fields: Vec<String>,
    pub index: Vec<JsonMember>,
    pub lang: String,
    pub pipeline: Vec<String>,
    pub ref_field: String,
    pub version: String,
}

/// The search payload of a book or of the whole site.
#[derive(Debug, PartialEq, Eq)]
pub struct SearchPayload {
    pub doc_urls: Vec<String>,
    pub index: SavedIndex,
    pub results_options: JsonValue,
    pub search_options: JsonValue,
}

/// A search payload as plain values.
pub struct PayloadView {
    pub doc_urls: Seq<Seq<char>>,
    pub doc_info: Seq<(Seq<char>, JsonView)>,
    pub docs: Seq<(Seq<char>, Seq<(Seq<char>, JsonView)>)>,
    pub length: u64,
    pub save: bool,
    pub fields: Seq<Seq<char>>,
    pub index: Seq<(Seq<char>, JsonView)>,
    pub lang: Seq<char>,
    pub pipeline: Seq<Seq<char>>,
    pub ref_field: Seq<char>,
    pub version: Seq<char>,
    pub results_options: JsonView,
    pub search_options: JsonView,
}

/// The documents of a store as plain values.
pub open spec fn docs_view(docs: Seq<StoredDoc>) -> Seq<(Seq<char>, Seq<(Seq<char>, JsonView)>)> {
    docs.map_values(|d: StoredDoc| (d.id@, members_view(d.fields@)))
}

/// Strings as plain values.
pub open spec fn strings_view(v: Seq<String>) -> Seq<Seq<char>> {
    v.map_values(|s: String| s@)
}

/// A search payload as plain values.
pub open spec fn payload_view(p: SearchPayload) -> PayloadView {
    PayloadView {
        doc_urls: strings_view(p.doc_urls@),
        doc_info: members_view(p.index.document_store.doc_info@),
        docs: docs_view(p.index.document_store.docs@),
        length: p.index.document_store.length,
        save: p.index.document_store.save,
        fields: strings_view(p.index.fields@),
        index: members_view(p.index.index@),
        lang: p.index.lang@,
        pipeline: strings_view(p.index.pipeline@),
        ref_field: p.index.ref_field@,
        version: p.index.version@,
        results_options: json_view(p.results_options),
        search_options: json_view(p.search_options),
    }
}

/// The part of a book's payload that differs from the shared one.
#[derive(Debug, Clone, Copy, PartialEq, Eq, Structural)]
pub enum PayloadPart {
    ResultsOptions,
    SearchOptions,
    Fields,
    Lang,
    Pipeline,
    RefField,
    Version,
    DocumentStoreSave,
}

/// Why the site-wide search index could not be composed.
#[derive(Debug, Clone, PartialEq, Eq)]
pub enum PayloadError {
    /// No book was given.
    NoBooks,
    /// A book's payload differs from the shared one in a part that must agree.
    Incompatible { book_id: String, part: PayloadPart },
    /// A book has not as many indexed documents as document URLs.
    DocCountMismatch { book_id: String, doc_urls: usize, docs: usize },
    /// A book has not as many `docInfo` entries as document URLs.
    DocInfoCountMismatch { book_id: String, doc_urls: usize, doc_info: usize },
    /// A book's store lacks the document of a URL.
    MissingDoc { book_id: String, doc_id: String },
    /// A book's store lacks the `docInfo` of a URL.
    MissingDocInfo { book_id: String, doc_id: String },
    /// A book's store holds documents that no URL names.
    UnconsumedDocs { book_id: String },
    /// A field's saved index could not be renumbered.
    Remap { book_id: String, field: String, cause: NodeError },
    /// A field's saved index could not be merged into the shared one.
    Merge { book_id: String, field: String, cause: NodeError },
    /// A search index file is not in the wrapper that mdBook writes.
    NotStockWrapper,
    /// The wrapped search index could not be decoded.
    Unescape { cause: UnescapeError },
    /// A book directory holds not exactly one emitted search index.
    SearchIndexCount { count: usize },
}

/// A payload error as plain values.
pub enum PayloadErrorView {
    NoBooks,
    Incompatible { book_id: Seq<char>, part: PayloadPart },
    DocCountMismatch { book_id: Seq<char>, doc_urls: usize, docs: usize },
    DocInfoCountMismatch { book_id: Seq<char>, doc_urls: usize, doc_info: usize },
    MissingDoc { book_id: Seq<char>, doc_id: Seq<char> },
    MissingDocInfo { book_id: Seq<char>, doc_id: Seq<char> },
    UnconsumedDocs { book_id: Seq<char> },
    Remap { book_id: Seq<char>, field: Seq<char>, cause: NodeErrorView },
    Merge { book_id: Seq<char>, field: Seq<char>, cause: NodeErrorView },
    NotStockWrapper,
    Unescape { cause: UnescapeError },
    SearchIndexCount { count: usize },
}

impl View for PayloadError {
    type V = PayloadErrorView;

    open spec fn view(&self) -> PayloadErrorView {
        match self {
            PayloadError::NoBooks => PayloadErrorView::NoBooks,
            PayloadError::Incompatible { book_id, part } => PayloadErrorView::Incompatible {
                book_id: book_id@,
                part: *part,
            },
            PayloadError::DocCountMismatch { book_id, doc_urls, docs } => PayloadErrorView::DocCountMismatch {
                book_id: book_id@,
                doc_urls: *doc_urls,
                docs: *docs,
            },
            PayloadError::DocInfoCountMismatch { book_id, doc_urls, doc_info } =>
                PayloadErrorView::DocInfoCountMismatch { book_id: book_id@, doc_urls: *doc_urls, doc_info: *doc_info },
            PayloadError::MissingDoc { book_id, doc_id } => PayloadErrorView::MissingDoc {
                book_id: book_id@,
                doc_id: doc_id@,
            },
            PayloadError::MissingDocInfo { book_id, doc_id } => PayloadErrorView::MissingDocInfo {
                book_id: book_id@,
                doc_id: doc_id@,
            },
            PayloadError::UnconsumedDocs { book_id } => PayloadErrorView::UnconsumedDocs { book_id: book_id@ },
            PayloadError::Remap { book_id, field, cause } => PayloadErrorView::Remap {
                book_id: book_id@,
                field: field@,
                cause: cause@,
            },
            PayloadError::Merge { book_id, field, cause } => PayloadErrorView::Merge {
                book_id: book_id@,
                field: field@,
                cause: cause@,
            },
            PayloadError::NotStockWrapper => PayloadErrorView::NotStockWrapper,
            PayloadError::Unescape { cause } => PayloadErrorView::Unescape { cause: *cause },
            PayloadError::SearchIndexCount { count } => PayloadErrorView::SearchIndexCount { count: *count },
        }
    }
}

/// A book's payload checked against the shared one: the first part that
/// differs, in the order results options, search options, fields,
/// language, pipeline, ref field, version, document-store `save`.
#[verifier::opaque]
pub open spec fn compatibility(s: PayloadView, c: PayloadView, book_id: Seq<char>) -> Result<(), PayloadErrorView> {
    let part = if s.results_options != c.results_options {
        Some(PayloadPart::ResultsOptions)
    } else if s.search_options != c.search_options {
        Some(PayloadPart::SearchOptions)
    } else if s.fields != c.fields {
        Some(PayloadPart::Fields)
    } else if s.lang != c.lang {
        Some(PayloadPart::Lang)
    } else if s.pipeline != c.pipeline {
        Some(PayloadPart::Pipeline)
    } else if s.ref_field != c.ref_field {
        Some(PayloadPart::RefField)
    } else if s.version != c.version {
        Some(PayloadPart::Version)
    } else if s.save != c.save {
        Some(PayloadPart::DocumentStoreSave)
    } else {
        None
    };
    match part {
        Some(p) => Err(PayloadErrorView::Incompatible { book_id, part: p }),
        None => Ok(()),
    }
}

/// Whether two lists of strings are equal.
fn strings_eq(a: &Vec<String>, b: &Vec<String>) -> (r: bool)
    ensures
        r == (strings_view(a@) == strings_view(b@)),
{
    if a.len() != b.len() {
        assert(strings_view(a@).len() != strings_view(b@).len());
        return false;
    }
    let mut i: usize = 0;
    while i < a.len()
        invariant
            i <= a.len() == b.len(),
            forall|j: int| 0 <= j < i ==> a@[j]@ == b@[j]@,
        decreases a.len() - i,
    {
        if !str_eq(a[i].as_str(), b[i].as_str()) {
            assert(strings_view(a@)[i as int] != strings_view(b@)[i as int]);
            return false;
        }
        i += 1;
    }
    assert(strings_view(a@) =~= strings_view(b@));
    true
}

fn incompatible(book_id: &str, part: PayloadPart) -> (r: Result<(), PayloadError>)
    ensures
        r matches Err(e) && e@ == (PayloadErrorView::Incompatible { book_id: book_id@, part }),
{
    Err(PayloadError::Incompatible { book_id: string_from(book_id), part })
}

/// Checks that a book's payload agrees with the shared one in every part
/// that the stock search reads the same way for all books.
pub fn ensure_payload_compatibility(shared: &SearchPayload, candidate: &SearchPayload, book_id: &str) -> (r: Result<
    (),
    PayloadError,
>)
    ensures
        match compatibility(payload_view(*shared), payload_view(*candidate), book_id@) {
            Ok(()) => r is Ok,
            Err(e) => r matches Err(x) && x@ == e,
        },
{
    proof {
        reveal(compatibility);
    }
    if !json_eq(&shared.results_options, &candidate.results_options) {
        return incompatible(book_id, PayloadPart::ResultsOptions);
    }
    if !json_eq(&shared.search_options, &candidate.search_options) {
        return incompatible(book_id, PayloadPart::SearchOptions);
    }
    if !strings_eq(&shared.index.fields, &candidate.index.fields) {
        return incompatible(book_id, PayloadPart::Fields);
    }
    if !str_eq(shared.index.lang.as_str(), candidate.index.lang.as_str()) {
        return incompatible(book_id, PayloadPart::Lang);
    }
    if !strings_eq(&shared.index.pipeline, &candidate.index.pipeline) {
        return incompatible(book_id, PayloadPart::Pipeline);
    }
    if !str_eq(shared.index.ref_field.as_str(), candidate.index.ref_field.as_str()) {
        return incompatible(book_id, PayloadPart::RefField);
    }
    if !str_eq(shared.index.version.as_str(), candidate.index.version.as_str()) {
        return incompatible(book_id, PayloadPart::Version);
    }
    if shared.index.document_store.save != candidate.index.document_store.save {
        return incompatible(book_id, PayloadPart::DocumentStoreSave);
    }
    Ok(())
}

/// A payload with no document and no index, with the settings of
/// `template`.
pub open spec fn empty_payload_from(t: PayloadView) -> PayloadView {
    PayloadView {
        doc_urls: Seq::empty(),
        doc_info: Seq::empty(),
        docs: Seq::empty(),
        length: 0,
        save: t.save,
        fields: t.fields,
        index: Seq::empty(),
        lang: t.lang,
        pipeline: t.pipeline,
        ref_field: t.ref_field,
        version: t.version,
        results_options: t.results_options,
        search_options: t.search_options,
    }
}

fn clone_strings(v: &Vec<String>) -> (r: Vec<String>)
    ensures
        strings_view(r@) == strings_view(v@),
{
    let mut out: Vec<String> = Vec::new();
    let mut i: usize = 0;
    while i < v.len()
        invariant
            i <= v.len(),
            out.len() == i,
            forall|j: int| 0 <= j < i ==> out@[j]@ == v@[j]@,
        decreases v.len() - i,
    {
        out.push(crate::text::copy_string(&v[i]));
        i += 1;
    }
    assert(strings_view(out@) =~= strings_view(v@));
    out
}

impl SearchPayload {
    /// A payload with no document and no index, with the settings of
    /// `template`.
    pub fn empty_from(template: &SearchPayload) -> (r: SearchPayload)
        ensures
            payload_view(r) == empty_payload_from(payload_view(*template)),
    {
        let r = SearchPayload {
            doc_urls: Vec::new(),
            index: SavedIndex {
                document_store: DocumentStore {
                    doc_info: Vec::new(),
                    docs: Vec::new(),
                    length: 0,
                    save: template.index.document_store.save,
                },
                fields: clone_strings(&template.index.fields),
                index: Vec::new(),
                lang: crate::text::copy_string(&template.index.lang),
                pipeline: clone_strings(&template.index.pipeline),
                ref_field: crate::text::copy_string(&template.index.ref_field),
                version: crate::text::copy_string(&template.index.version),
            },
            results_options: crate::shelf::json::json_clone(&template.results_options),
            search_options: crate::shelf::json::json_clone(&template.search_options),
        };
        assert(strings_view(r.doc_urls@) =~= Seq::empty());
        assert(members_view(r.index.document_store.doc_info@) =~= Seq::empty());
        assert(docs_view(r.index.document_store.docs@) =~= Seq::empty());
        assert(members_view(r.index.index@) =~= Seq::empty());
        r
    }
}

/// The text before the payload in the file that mdBook writes.
pub open spec fn wrapper_prefix() -> Seq<char> {
    "window.search = Object.assign(window.search, JSON.parse('"@
}

/// The text after the payload in the file that mdBook writes.
pub open spec fn wrapper_suffix() -> Seq<char> {
    "'));"@
}

/// The JSON text of a saved search index file: the trimmed file must be
/// the stock `JSON.parse('...')` wrapper, whose string body is decoded.
pub open spec fn decoded_search_source(source: Seq<char>) -> Result<Seq<char>, PayloadErrorView> {
    let t = trimmed(source);
    let p = wrapper_prefix();
    let s = wrapper_suffix();
    if has_prefix(t, p) && t.len() >= p.len() + s.len() && t.skip(t.len() - s.len()) == s {
        match unescaped_from(t.subrange(p.len() as int, t.len() - s.len()), 0) {
            Ok(d) => Ok(d),
            Err(e) => Err(PayloadErrorView::Unescape { cause: e }),
        }
    } else {
        Err(PayloadErrorView::NotStockWrapper)
    }
}

/// Extracts and decodes the JSON text of a saved search index file.
pub fn decode_search_index_source(source: &str) -> (r: Result<String, PayloadError>)
    ensures
        match decoded_search_source(source@) {
            Ok(d) => r matches Ok(x) && x@ == d,
            Err(e) => r matches Err(x) && x@ == e,
        },
{
    let t = trim_chars(&chars_of(source));
    let p = chars_of("window.search = Object.assign(window.search, JSON.parse('");
    let s = chars_of("'));");
    let ghost tv = t@;
    assert(tv == trimmed(source@));
    proof {
        reveal_strlit("window.search = Object.assign(window.search, JSON.parse('");
        reveal_strlit("'));");
    }
    if t.len() < p.len() + s.len() {
        proof {
            if has_prefix(tv, p@) && tv.skip(tv.len() - s@.len()) == s@ {
            }
        }
        return Err(PayloadError::NotStockWrapper);
    }
    let mut i: usize = 0;
    while i < p.len()
        invariant
            i <= p.len(),
            p.len() + s.len() <= t.len(),
            t@ == trimmed(source@),
            p@ == wrapper_prefix(),
            s@ == wrapper_suffix(),
            forall|j: int| 0 <= j < i ==> t@[j] == p@[j],
        decreases p.len() - i,
    {
        if t[i] != p[i] {
            assert(t@.take(p.len() as int)[i as int] != p@[i as int]);
            return Err(PayloadError::NotStockWrapper);
        }
        i += 1;
    }
    assert(t@.take(p.len() as int) =~= p@);
    let start = t.len() - s.len();
    let mut k: usize = 0;
    while k < s.len()
        invariant
            k <= s.len(),
            start == t.len() - s.len(),
            p.len() + s.len() <= t.len(),
            t@ == trimmed(source@),
            p@ == wrapper_prefix(),
            s@ == wrapper_suffix(),
            has_prefix(t@, p@),
            forall|j: int| 0 <= j < k ==> t@[start + j] == s@[j],
        decreases s.len() - k,
    {
        if t[start + k] != s[k] {
            assert(t@.skip(start as int)[k as int] != s@[k as int]);
            return Err(PayloadError::NotStockWrapper);
        }
        k += 1;
    }
    assert(t@.skip(start as int) =~= s@);
    let body = string_of_range(&t, p.len(), start);
    match unescape_js_single_quoted(body.as_str()) {
        Ok(d) => Ok(d),
        Err(e) => Err(PayloadError::Unescape { cause: e }),
    }
}

/// The name of a file that mdBook writes as a book's search index.
pub open spec fn is_search_index_name(name: Seq<char>) -> bool {
    has_prefix(name, "searchindex-"@) && name.len() >= 3 && name.skip(name.len() - 3) == ".js"@
}

/// The names among `names` that are search index files.
pub open spec fn search_index_names(names: Seq<Seq<char>>) -> Seq<Seq<char>> {
    names.filter(|n: Seq<char>| is_search_index_name(n))
}

/// Whether a file name is that of an emitted search index.
pub fn is_search_index_file_name(name: &str) -> (r: bool)
    ensures
        r == is_search_index_name(name@),
{
    let cs = chars_of(name);
    let p = chars_of("searchindex-");
    proof {
        reveal_strlit(".js");
    }
    if cs.len() < p.len() || cs.len() < 3 {
        return false;
    }
    let mut i: usize = 0;
    while i < p.len()
        invariant
            i <= p.len() <= cs.len(),
            cs.len() >= 3,
            cs@ == name@,
            p@ == "searchindex-"@,
            forall|j: int| 0 <= j < i ==> cs@[j] == p@[j],
        decreases p.len() - i,
    {
        if cs[i] != p[i] {
            assert(cs@.take(p.len() as int)[i as int] != p@[i as int]);
            return false;
        }
        i += 1;
    }
    assert(cs@.take(p.len() as int) =~= p@);
    let n = cs.len();
    let ok = cs[n - 3] == '.' && cs[n - 2] == 'j' && cs[n - 1] == 's';
    proof {
        if ok {
            assert(cs@.skip(n - 3) =~= ".js"@);
        } else {
            if cs@.skip(n - 3) == ".js"@ {
                assert(cs@.skip(n - 3)[0] == '.');
                assert(cs@.skip(n - 3)[1] == 'j');
                assert(cs@.skip(n - 3)[2] == 's');
            }
        }
    }
    ok
}

/// A book's documents being moved into the shared payload: the shared
/// payload so far, the book's documents and `docInfo` entries not yet
/// moved, and the map from their old ids to their new ones.
pub struct IngestState {
    pub shared: PayloadView,
    pub docs: Seq<(Seq<char>, Seq<(Seq<char>, JsonView)>)>,
    pub doc_info: Seq<(Seq<char>, JsonView)>,
    pub id_map: Seq<(Seq<char>, Seq<char>)>,
}

/// The shared payload with one more document: its URL, fields and
/// `docInfo` under the new id.
pub open spec fn with_document(
    s: PayloadView,
    url: Seq<char>,
    new_id: Seq<char>,
    fields: Seq<(Seq<char>, JsonView)>,
    info: JsonView,
) -> PayloadView {
    PayloadView {
        doc_urls: s.doc_urls.push(url),
        doc_info: obj_insert(s.doc_info, new_id, info),
        docs: obj_insert(s.docs, new_id, fields),
        length: s.length,
        save: s.save,
        fields: s.fields,
        index: s.index,
        lang: s.lang,
        pipeline: s.pipeline,
        ref_field: s.ref_field,
        version: s.version,
        results_options: s.results_options,
        search_options: s.search_options,
    }
}

/// The payload with another inverted index.
pub open spec fn with_index(s: PayloadView, index: Seq<(Seq<char>, JsonView)>) -> PayloadView {
    PayloadView {
        doc_urls: s.doc_urls,
        doc_info: s.doc_info,
        docs: s.docs,
        length: s.length,
        save: s.save,
        fields: s.fields,
        index,
        lang: s.lang,
        pipeline: s.pipeline,
        ref_field: s.ref_field,
        version: s.version,
        results_options: s.results_options,
        search_options: s.search_options,
    }
}

/// The payload with another document count.
pub open spec fn with_length(s: PayloadView, length: u64) -> PayloadView {
    PayloadView {
        doc_urls: s.doc_urls,
        doc_info: s.doc_info,
        docs: s.docs,
        length,
        save: s.save,
        fields: s.fields,
        index: s.index,
        lang: s.lang,
        pipeline: s.pipeline,
        ref_field: s.ref_field,
        version: s.version,
        results_options: s.results_options,
        search_options: s.search_options,
    }
}

/// The first `k` documents of a book moved into the shared payload: the
/// document of URL number `i` (id `i`) gets the next free id of the shared
/// payload, in its `id` field too, and its URL is made relative to the
/// shared index.
pub open spec fn ingest_docs(shared: PayloadView, book_id: Seq<char>, payload: PayloadView, k: int) -> Result<
    IngestState,
    PayloadErrorView,
>
    decreases k,
{
    if k <= 0 {
        Ok(IngestState { shared, docs: payload.docs, doc_info: payload.doc_info, id_map: Seq::empty() })
    } else {
        match ingest_docs(shared, book_id, payload, k - 1) {
            Err(e) => Err(e),
            Ok(st) => {
                let old_id = decimal((k - 1) as nat);
                let new_id = decimal(st.shared.doc_urls.len());
                match key_index(st.docs, old_id) {
                    None => Err(PayloadErrorView::MissingDoc { book_id, doc_id: old_id }),
                    Some(a) => match key_index(st.doc_info, old_id) {
                        None => Err(PayloadErrorView::MissingDocInfo { book_id, doc_id: old_id }),
                        Some(b) => Ok(
                            IngestState {
                                shared: with_document(
                                    st.shared,
                                    translated_doc_url(book_id, payload.doc_urls[k - 1]),
                                    new_id,
                                    obj_insert(st.docs[a].1, "id"@, JsonView::Str(new_id)),
                                    st.doc_info[b].1,
                                ),
                                docs: st.docs.remove(a),
                                doc_info: st.doc_info.remove(b),
                                id_map: obj_insert(st.id_map, old_id, new_id),
                            },
                        ),
                    },
                }
            },
        }
    }
}

/// The first `k` fields of a book's inverted index, renumbered by `idm`,
/// merged into the shared index (added where the shared index has no such
/// field).
pub open spec fn ingest_fields(
    s: PayloadView,
    book_id: Seq<char>,
    fields: Seq<(Seq<char>, JsonView)>,
    idm: Seq<(Seq<char>, Seq<char>)>,
    k: int,
) -> Result<PayloadView, PayloadErrorView>
    decreases k,
{
    if k <= 0 {
        Ok(s)
    } else {
        match ingest_fields(s, book_id, fields, idm, k - 1) {
            Err(e) => Err(e),
            Ok(s1) => {
                let field = fields[k - 1].0;
                match remap_node(fields[k - 1].1, idm) {
                    Err(c) => Err(PayloadErrorView::Remap { book_id, field, cause: c }),
                    Ok(node) => match obj_get(s1.index, field) {
                        Some(existing) => match merge_node(existing, node) {
                            Err(c) => Err(PayloadErrorView::Merge { book_id, field, cause: c }),
                            Ok(m) => Ok(with_index(s1, obj_insert(s1.index, field, m))),
                        },
                        None => Ok(with_index(s1, obj_insert(s1.index, field, node))),
                    },
                }
            },
        }
    }
}

/// A book's payload added to the shared one: every document moved and
/// renumbered, every field's inverted index merged, and the document count
/// updated; refused when the book's URLs, documents and `docInfo` entries
/// do not correspond.
#[verifier::opaque]
pub open spec fn ingested(shared: PayloadView, book_id: Seq<char>, payload: PayloadView) -> Result<
    PayloadView,
    PayloadErrorView,
> {
    let n = payload.doc_urls.len();
    if n != payload.docs.len() {
        Err(
            PayloadErrorView::DocCountMismatch {
                book_id,
                doc_urls: n as usize,
                docs: payload.docs.len() as usize,
            },
        )
    } else if n != payload.doc_info.len() {
        Err(
            PayloadErrorView::DocInfoCountMismatch {
                book_id,
                doc_urls: n as usize,
                doc_info: payload.doc_info.len() as usize,
            },
        )
    } else {
        match ingest_docs(shared, book_id, payload, n as int) {
            Err(e) => Err(e),
            Ok(st) => if st.docs.len() > 0 || st.doc_info.len() > 0 {
                Err(PayloadErrorView::UnconsumedDocs { book_id })
            } else {
                match ingest_fields(st.shared, book_id, payload.index, st.id_map, payload.index.len() as int) {
                    Err(e) => Err(e),
                    Ok(s2) => Ok(with_length(s2, s2.docs.len() as u64)),
                }
            },
        }
    }
}

proof fn lemma_ingest_docs_err(shared: PayloadView, book_id: Seq<char>, payload: PayloadView, a: int, b: int)
    requires
        0 <= a <= b,
        ingest_docs(shared, book_id, payload, a) is Err,
    ensures
        ingest_docs(shared, book_id, payload, b) == ingest_docs(shared, book_id, payload, a),
    decreases b - a,
{
    if a < b {
        lemma_ingest_docs_err(shared, book_id, payload, a, b - 1);
    }
}

proof fn lemma_ingest_fields_err(
    s: PayloadView,
    book_id: Seq<char>,
    fields: Seq<(Seq<char>, JsonView)>,
    idm: Seq<(Seq<char>, Seq<char>)>,
    a: int,
    b: int,
)
    requires
        0 <= a <= b,
        ingest_fields(s, book_id, fields, idm, a) is Err,
    ensures
        ingest_fields(s, book_id, fields, idm, b) == ingest_fields(s, book_id, fields, idm, a),
    decreases b - a,
{
    if a < b {
        lemma_ingest_fields_err(s, book_id, fields, idm, a, b - 1);
    }
}

fn find_doc(docs: &Vec<StoredDoc>, k: &str) -> (r: Option<usize>)
    ensures
        match r {
            Some(i) => key_index(docs_view(docs@), k@) == Some(i as int) && i < docs.len(),
            None => key_index(docs_view(docs@), k@) is None,
        },
{
    let ghost dv = docs_view(docs@);
    let mut i: usize = 0;
    while i < docs.len()
        invariant
            i <= docs.len(),
            dv == docs_view(docs@),
            forall|j: int| 0 <= j < i ==> docs@[j].id@ != k@,
        decreases docs.len() - i,
    {
        if str_eq(docs[i].id.as_str(), k) {
            proof {
                assert(dv[i as int].0 == k@);
                lemma_key_index(dv, k@);
                if let Some(j) = key_index(dv, k@) {
                    if j < i {
                        assert(dv[j].0 == docs@[j].id@);
                    }
                }
            }
            return Some(i);
        }
        i += 1;
    }
    proof {
        lemma_key_index(dv, k@);
        if let Some(j) = key_index(dv, k@) {
            assert(dv[j].0 == docs@[j].id@);
        }
    }
    None
}

fn set_doc(docs: &mut Vec<StoredDoc>, k: &str, fields: Vec<JsonMember>)
    ensures
        docs_view(final(docs)@) == obj_insert(docs_view(old(docs)@), k@, members_view(fields@)),
{
    let ghost before = docs_view(docs@);
    let ghost fv = members_view(fields@);
    match find_doc(docs, k) {
        Some(i) => {
            docs.set(i, StoredDoc { id: string_from(k), fields });
            assert(docs_view(docs@) =~= before.update(i as int, (k@, fv)));
        },
        None => {
            docs.push(StoredDoc { id: string_from(k), fields });
            assert(docs_view(docs@) =~= before.push((k@, fv)));
        },
    }
}

fn find_pair_index(pairs: &Vec<(String, String)>, k: &str) -> (r: Option<usize>)
    ensures
        match r {
            Some(i) => key_index(pairs_view(pairs@), k@) == Some(i as int) && i < pairs.len(),
            None => key_index(pairs_view(pairs@), k@) is None,
        },
{
    let ghost pv = pairs_view(pairs@);
    let mut i: usize = 0;
    while i < pairs.len()
        invariant
            i <= pairs.len(),
            pv == pairs_view(pairs@),
            forall|j: int| 0 <= j < i ==> pairs@[j].0@ != k@,
        decreases pairs.len() - i,
    {
        if str_eq(pairs[i].0.as_str(), k) {
            proof {
                assert(pv[i as int].0 == k@);
                lemma_key_index(pv, k@);
                if let Some(j) = key_index(pv, k@) {
                    if j < i {
                        assert(pv[j].0 == pairs@[j].0@);
                    }
                }
            }
            return Some(i);
        }
        i += 1;
    }
    proof {
        lemma_key_index(pv, k@);
        if let Some(j) = key_index(pv, k@) {
            assert(pv[j].0 == pairs@[j].0@);
        }
    }
    None
}

fn set_pair(pairs: &mut Vec<(String, String)>, k: String, v: String)
    ensures
        pairs_view(final(pairs)@) == obj_insert(pairs_view(old(pairs)@), k@, v@),
{
    let ghost before = pairs_view(pairs@);
    let ghost kv = k@;
    let ghost vv = v@;
    match find_pair_index(pairs, k.as_str()) {
        Some(i) => {
            pairs.set(i, (k, v));
            assert(pairs_view(pairs@) =~= before.update(i as int, (kv, vv)));
        },
        None => {
            pairs.push((k, v));
            assert(pairs_view(pairs@) =~= before.push((kv, vv)));
        },
    }
}

/// Adds a book's payload to the shared one: moves the book's documents
/// under new ids, merges its inverted index renumbered the same way, and
/// updates the document count.
pub fn ingest_book_payload(base: SearchPayload, book_id: &str, payload: SearchPayload) -> (r: Result<
    SearchPayload,
    PayloadError,
>)
    ensures
        match ingested(payload_view(base), book_id@, payload_view(payload)) {
            Ok(v) => r matches Ok(x) && payload_view(x) == v,
            Err(e) => r matches Err(x) && x@ == e,
        },
{
    proof {
        reveal(ingested);
    }
    let ghost s0 = payload_view(base);
    let ghost pv = payload_view(payload);
    let mut shared = base;
    let doc_urls = payload.doc_urls;
    let mut docs = payload.index.document_store.docs;
    let mut doc_info = payload.index.document_store.doc_info;
    let fields = payload.index.index;
    proof {
        lemma_members_view(doc_info@);
        lemma_members_view(fields@);
    }
    if doc_urls.len() != docs.len() {
        return Err(
            PayloadError::DocCountMismatch { book_id: string_from(book_id), doc_urls: doc_urls.len(), docs: docs.len() },
        );
    }
    if doc_urls.len() != doc_info.len() {
        return Err(
            PayloadError::DocInfoCountMismatch {
                book_id: string_from(book_id),
                doc_urls: doc_urls.len(),
                doc_info: doc_info.len(),
            },
        );
    }
    let mut id_map: Vec<(String, String)> = Vec::new();
    let ghost n = doc_urls.len() as int;
    assert(pairs_view(id_map@) =~= Seq::<(Seq<char>, Seq<char>)>::empty());
    let mut k: usize = 0;
    while k < doc_urls.len()
        invariant
            k <= doc_urls.len(),
            n == doc_urls.len(),
            n == pv.doc_urls.len(),
            n == pv.docs.len(),
            n == pv.doc_info.len(),
            s0 == payload_view(base),
            pv == payload_view(payload),
            strings_view(doc_urls@) == pv.doc_urls,
            ingest_docs(s0, book_id@, pv, k as int) == Ok::<IngestState, PayloadErrorView>(
                IngestState {
                    shared: payload_view(shared),
                    docs: docs_view(docs@),
                    doc_info: members_view(doc_info@),
                    id_map: pairs_view(id_map@),
                },
            ),
        decreases doc_urls.len() - k,
    {
        let old_id = format_decimal(k);
        let new_id = format_decimal(shared.doc_urls.len());
        let a = match find_doc(&docs, old_id.as_str()) {
            None => {
                proof {
                    reveal(ingested);
                    lemma_ingest_docs_err(s0, book_id@, pv, k + 1, n);
                }
                return Err(PayloadError::MissingDoc { book_id: string_from(book_id), doc_id: old_id });
            },
            Some(a) => a,
        };
        let b = match find_member(&doc_info, old_id.as_str()) {
            None => {
                proof {
                    reveal(ingested);
                    lemma_ingest_docs_err(s0, book_id@, pv, k + 1, n);
                }
                return Err(PayloadError::MissingDocInfo { book_id: string_from(book_id), doc_id: old_id });
            },
            Some(b) => b,
        };
        proof {
            lemma_members_view(doc_info@);
        }
        let ghost old_docs = docs_view(docs@);
        let ghost old_info = members_view(doc_info@);
        let ghost old_info_seq = doc_info@;
        let doc = docs.remove(a);
        let info = doc_info.remove(b);
        assert(docs_view(docs@) =~= old_docs.remove(a as int));
        proof {
            lemma_members_view(doc_info@);
            assert(old_info[b as int] == (old_info_seq[b as int].key@, json_view(old_info_seq[b as int].value)));
        }
        assert(members_view(doc_info@) =~= old_info.remove(b as int));
        let mut doc_fields = doc.fields;
        set_member(&mut doc_fields, "id", JsonValue::Str(crate::text::copy_string(&new_id)));
        let url = translate_doc_url(book_id, doc_urls[k].as_str());
        let ghost before = payload_view(shared);
        let ghost old_urls = shared.doc_urls@;
        shared.doc_urls.push(url);
        set_doc(&mut shared.index.document_store.docs, new_id.as_str(), doc_fields);
        set_member(&mut shared.index.document_store.doc_info, new_id.as_str(), info.value);
        assert(strings_view(shared.doc_urls@) =~= strings_view(old_urls).push(url@));
        assert(pv.doc_urls[k as int] == doc_urls@[k as int]@);
        set_pair(&mut id_map, old_id, new_id);
        k += 1;
    }
    if docs.len() > 0 || doc_info.len() > 0 {
        proof {
            lemma_members_view(doc_info@);
        }
        return Err(PayloadError::UnconsumedDocs { book_id: string_from(book_id) });
    }
    proof {
        lemma_members_view(doc_info@);
    }
    let ghost st_shared = payload_view(shared);
    let ghost idm = pairs_view(id_map@);
    let ghost fv = members_view(fields@);
    let ghost goal = match ingest_fields(st_shared, book_id@, pv.index, idm, pv.index.len() as int) {
        Err(e) => Err(e),
        Ok(s2) => Ok(with_length(s2, s2.docs.len() as u64)),
    };
    assert(ingested(s0, book_id@, pv) == goal);
    let mut j: usize = 0;
    while j < fields.len()
        invariant
            j <= fields.len(),
            ingested(s0, book_id@, pv) == goal,
            s0 == payload_view(base),
            pv == payload_view(payload),
            goal == match ingest_fields(st_shared, book_id@, pv.index, idm, pv.index.len() as int) {
                Err(e) => Err(e),
                Ok(s2) => Ok(with_length(s2, s2.docs.len() as u64)),
            },
            fv == members_view(fields@),
            fv == pv.index,
            fv.len() == fields.len(),
            forall|i: int| 0 <= i < fields.len() ==> #[trigger] fv[i] == (fields@[i].key@, json_view(fields@[i].value)),
            idm == pairs_view(id_map@),
            ingest_fields(st_shared, book_id@, pv.index, idm, j as int) == Ok::<PayloadView, PayloadErrorView>(
                payload_view(shared),
            ),
        decreases fields.len() - j,
    {
        assert(fv[j as int] == (fields@[j as int].key@, json_view(fields@[j as int].value)));
        let field = &fields[j];
        let node = match remap_inverted_index_doc_refs(&field.value, &id_map) {
            Err(c) => {
                proof {
                    lemma_ingest_fields_err(st_shared, book_id@, pv.index, idm, j + 1, fields.len() as int);
                }
                return Err(
                    PayloadError::Remap {
                        book_id: string_from(book_id),
                        field: crate::text::copy_string(&field.key),
                        cause: c,
                    },
                );
            },
            Ok(n) => n,
        };
        proof {
            lemma_members_view(shared.index.index@);
        }
        match find_member(&shared.index.index, field.key.as_str()) {
            Some(x) => {
                assert(members_view(shared.index.index@)[x as int].1 == json_view(shared.index.index@[x as int].value));
                let m = match merge_inverted_index_nodes(&shared.index.index[x].value, &node) {
                    Err(c) => {
                        proof {
                            lemma_ingest_fields_err(st_shared, book_id@, pv.index, idm, j + 1, fields.len() as int);
                        }
                        return Err(
                            PayloadError::Merge {
                                book_id: string_from(book_id),
                                field: crate::text::copy_string(&field.key),
                                cause: c,
                            },
                        );
                    },
                    Ok(m) => m,
                };
                set_member(&mut shared.index.index, field.key.as_str(), m);
            },
            None => {
                set_member(&mut shared.index.index, field.key.as_str(), node);
            },
        }
        j += 1;
    }
    shared.index.document_store.length = shared.index.document_store.docs.len() as u64;
    Ok(shared)
}

/// An optional payload as plain values.
pub open spec fn opt_payload_view(o: Option<SearchPayload>) -> Option<PayloadView> {
    match o {
        Some(p) => Some(payload_view(p)),
        None => None,
    }
}

/// The shared payload after adding a book's payload: the first book's
/// payload is added to an empty payload with its settings; a later one
/// must be compatible with the shared payload first.
pub open spec fn composed_step(shared: Option<PayloadView>, book_id: Seq<char>, payload: PayloadView) -> Result<
    PayloadView,
    PayloadErrorView,
> {
    match shared {
        Some(s) => match compatibility(s, payload, book_id) {
            Err(e) => Err(e),
            Ok(()) => ingested(s, book_id, payload),
        },
        None => ingested(empty_payload_from(payload), book_id, payload),
    }
}

/// Adds one book's payload to the shared payload, if there is one yet.
pub fn compose_step(shared: Option<SearchPayload>, book_id: &str, payload: SearchPayload) -> (r: Result<
    SearchPayload,
    PayloadError,
>)
    ensures
        match composed_step(opt_payload_view(shared), book_id@, payload_view(payload)) {
            Ok(v) => r matches Ok(x) && payload_view(x) == v,
            Err(e) => r matches Err(x) && x@ == e,
        },
{
    match shared {
        Some(existing) => {
            match ensure_payload_compatibility(&existing, &payload, book_id) {
                Err(e) => {
                    return Err(e);
                },
                Ok(()) => {},
            }
            ingest_book_payload(existing, book_id, payload)
        },
        None => {
            let initial = SearchPayload::empty_from(&payload);
            ingest_book_payload(initial, book_id, payload)
        },
    }
}

/// Books with their payloads as plain values.
pub open spec fn books_view(v: Seq<(String, SearchPayload)>) -> Seq<(Seq<char>, PayloadView)> {
    v.map_values(|b: (String, SearchPayload)| (b.0@, payload_view(b.1)))
}

/// The shared payload after the first `n` books, none before the first.
pub open spec fn composed_prefix(books: Seq<(Seq<char>, PayloadView)>, n: int) -> Result<
    Option<PayloadView>,
    PayloadErrorView,
>
    decreases n,
{
    if n <= 0 {
        Ok(None)
    } else {
        match composed_prefix(books, n - 1) {
            Err(e) => Err(e),
            Ok(s) => match composed_step(s, books[n - 1].0, books[n - 1].1) {
                Err(e) => Err(e),
                Ok(p) => Ok(Some(p)),
            },
        }
    }
}

/// The site-wide payload of the books in order, or the first refusal;
/// refused when there is no book.
pub open spec fn composed(books: Seq<(Seq<char>, PayloadView)>) -> Result<PayloadView, PayloadErrorView> {
    match composed_prefix(books, books.len() as int) {
        Err(e) => Err(e),
        Ok(None) => Err(PayloadErrorView::NoBooks),
        Ok(Some(p)) => Ok(p),
    }
}

proof fn lemma_composed_err(books: Seq<(Seq<char>, PayloadView)>, a: int, b: int)
    requires
        0 <= a <= b,
        composed_prefix(books, a) is Err,
    ensures
        composed_prefix(books, b) == composed_prefix(books, a),
    decreases b - a,
{
    if a < b {
        lemma_composed_err(books, a, b - 1);
    }
}

/// A book's document URLs, each made relative to the shared index.
pub open spec fn translated_urls(book_id: Seq<char>, urls: Seq<Seq<char>>) -> Seq<Seq<char>> {
    urls.map_values(|u: Seq<char>| translated_doc_url(book_id, u))
}

/// The translated document URLs of the first `n` books, book after book.
pub open spec fn all_translated_urls(books: Seq<(Seq<char>, PayloadView)>, n: int) -> Seq<Seq<char>>
    decreases n,
{
    if n <= 0 {
        Seq::empty()
    } else {
        all_translated_urls(books, n - 1) + translated_urls(books[n - 1].0, books[n - 1].1.doc_urls)
    }
}

proof fn lemma_ingest_docs_urls(shared: PayloadView, book_id: Seq<char>, payload: PayloadView, k: int)
    requires
        0 <= k <= payload.doc_urls.len(),
    ensures
        ingest_docs(shared, book_id, payload, k) matches Ok(st) ==> st.shared.doc_urls == shared.doc_urls
            + translated_urls(book_id, payload.doc_urls.take(k)),
    decreases k,
{
    if k == 0 {
        assert(translated_urls(book_id, payload.doc_urls.take(0)) =~= Seq::<Seq<char>>::empty());
        assert(shared.doc_urls + Seq::<Seq<char>>::empty() =~= shared.doc_urls);
    } else {
        lemma_ingest_docs_urls(shared, book_id, payload, k - 1);
        assert(payload.doc_urls.take(k) =~= payload.doc_urls.take(k - 1).push(payload.doc_urls[k - 1]));
        assert(translated_urls(book_id, payload.doc_urls.take(k)) =~= translated_urls(
            book_id,
            payload.doc_urls.take(k - 1),
        ).push(translated_doc_url(book_id, payload.doc_urls[k - 1])));
        if let Ok(st) = ingest_docs(shared, book_id, payload, k - 1) {
            assert(shared.doc_urls + translated_urls(book_id, payload.doc_urls.take(k - 1)).push(
                translated_doc_url(book_id, payload.doc_urls[k - 1]),
            ) =~= (shared.doc_urls + translated_urls(book_id, payload.doc_urls.take(k - 1))).push(
                translated_doc_url(book_id, payload.doc_urls[k - 1]),
            ));
        }
    }
}

proof fn lemma_ingest_fields_urls(
    s: PayloadView,
    book_id: Seq<char>,
    fields: Seq<(Seq<char>, JsonView)>,
    idm: Seq<(Seq<char>, Seq<char>)>,
    k: int,
)
    ensures
        ingest_fields(s, book_id, fields, idm, k) matches Ok(s1) ==> s1.doc_urls == s.doc_urls,
    decreases k,
{
    if k > 0 {
        lemma_ingest_fields_urls(s, book_id, fields, idm, k - 1);
    }
}

proof fn lemma_ingested_urls(shared: PayloadView, book_id: Seq<char>, payload: PayloadView)
    ensures
        ingested(shared, book_id, payload) matches Ok(s2) ==> s2.doc_urls == shared.doc_urls + translated_urls(
            book_id,
            payload.doc_urls,
        ),
{
    reveal(ingested);
    let n = payload.doc_urls.len() as int;
    lemma_ingest_docs_urls(shared, book_id, payload, n);
    assert(payload.doc_urls.take(n) =~= payload.doc_urls);
    if let Ok(st) = ingest_docs(shared, book_id, payload, n) {
        lemma_ingest_fields_urls(st.shared, book_id, payload.index, st.id_map, payload.index.len() as int);
    }
}

proof fn lemma_composed_prefix_urls(books: Seq<(Seq<char>, PayloadView)>, n: int)
    requires
        0 <= n <= books.len(),
    ensures
        composed_prefix(books, n) matches Ok(Some(p)) ==> p.doc_urls == all_translated_urls(books, n),
        composed_prefix(books, n) matches Ok(None) ==> n == 0,
    decreases n,
{
    if n > 0 {
        lemma_composed_prefix_urls(books, n - 1);
        let b = books[n - 1];
        match composed_prefix(books, n - 1) {
            Err(_) => {},
            Ok(None) => {
                lemma_ingested_urls(empty_payload_from(b.1), b.0, b.1);
                assert(Seq::<Seq<char>>::empty() + translated_urls(b.0, b.1.doc_urls) =~= translated_urls(
                    b.0,
                    b.1.doc_urls,
                ));
                assert(all_translated_urls(books, 0) =~= Seq::<Seq<char>>::empty());
                assert(all_translated_urls(books, n) =~= Seq::<Seq<char>>::empty() + translated_urls(
                    b.0,
                    b.1.doc_urls,
                ));
            },
            Ok(Some(s)) => {
                lemma_ingested_urls(s, b.0, b.1);
            },
        }
    }
}

/// Law: the site-wide search payload lists the document URLs of every
/// book in catalog order, each made relative to the shared index, so the
/// search results of every book lead to its pages.
pub proof fn lemma_composed_doc_urls(books: Seq<(Seq<char>, PayloadView)>)
    ensures
        composed(books) matches Ok(p) ==> p.doc_urls == all_translated_urls(books, books.len() as int),
{
    lemma_composed_prefix_urls(books, books.len() as int);
}

/// Members keyed by their positions in decimal: `0`, `1`, `2`, ...
pub open spec fn numbered<V>(ms: Seq<(Seq<char>, V)>) -> bool {
    forall|i: int| 0 <= i < ms.len() ==> #[trigger] ms[i].0 == decimal(i as nat)
}

/// One stored document and one `docInfo` entry per document URL, each
/// under the URL's position as id, and every stored document's `id` field
/// holding that id.
pub open spec fn docs_numbered(p: PayloadView) -> bool {
    &&& p.docs.len() == p.doc_urls.len()
    &&& p.doc_info.len() == p.doc_urls.len()
    &&& numbered(p.docs)
    &&& numbered(p.doc_info)
    &&& forall|i: int|
        0 <= i < p.docs.len() ==> obj_get(#[trigger] p.docs[i].1, "id"@) == Some(
            JsonView::Str(decimal(i as nat)),
        )
}

proof fn lemma_next_id_is_new<V>(ms: Seq<(Seq<char>, V)>)
    requires
        numbered(ms),
    ensures
        key_index(ms, decimal(ms.len())) is None,
{
    lemma_key_index(ms, decimal(ms.len()));
    if let Some(j) = key_index(ms, decimal(ms.len())) {
        assert(ms[j].0 == decimal(j as nat));
        lemma_decimal_injective(j as nat, ms.len());
    }
}

proof fn lemma_ingest_docs_numbered(shared: PayloadView, book_id: Seq<char>, payload: PayloadView, k: int)
    requires
        docs_numbered(shared),
    ensures
        ingest_docs(shared, book_id, payload, k) matches Ok(st) ==> docs_numbered(st.shared),
    decreases k,
{
    if k > 0 {
        lemma_ingest_docs_numbered(shared, book_id, payload, k - 1);
        if let Ok(st) = ingest_docs(shared, book_id, payload, k - 1) {
            let s = st.shared;
            lemma_next_id_is_new(s.docs);
            lemma_next_id_is_new(s.doc_info);
            if let Some(a) = key_index(st.docs, decimal((k - 1) as nat)) {
                let fields = obj_insert(st.docs[a].1, "id"@, JsonView::Str(decimal(s.doc_urls.len())));
                lemma_insert_then_get(st.docs[a].1, "id"@, JsonView::Str(decimal(s.doc_urls.len())));
                let docs = s.docs.push((decimal(s.doc_urls.len()), fields));
                assert forall|i: int| 0 <= i < docs.len() implies obj_get(#[trigger] docs[i].1, "id"@) == Some(
                    JsonView::Str(decimal(i as nat)),
                ) by {
                    if i < s.docs.len() {
                        assert(docs[i] == s.docs[i]);
                    }
                }
            }
        }
    }
}

proof fn lemma_ingest_fields_keeps_docs(
    s: PayloadView,
    book_id: Seq<char>,
    fields: Seq<(Seq<char>, JsonView)>,
    idm: Seq<(Seq<char>, Seq<char>)>,
    k: int,
)
    ensures
        ingest_fields(s, book_id, fields, idm, k) matches Ok(s1) ==> s1.docs == s.docs && s1.doc_info
            == s.doc_info && s1.doc_urls == s.doc_urls,
    decreases k,
{
    if k > 0 {
        lemma_ingest_fields_keeps_docs(s, book_id, fields, idm, k - 1);
    }
}

proof fn lemma_ingested_numbered(shared: PayloadView, book_id: Seq<char>, payload: PayloadView)
    requires
        docs_numbered(shared),
    ensures
        ingested(shared, book_id, payload) matches Ok(s2) ==> docs_numbered(s2) && s2.length == s2.docs.len() as u64,
{
    reveal(ingested);
    let n = payload.doc_urls.len() as int;
    lemma_ingest_docs_numbered(shared, book_id, payload, n);
    if let Ok(st) = ingest_docs(shared, book_id, payload, n) {
        lemma_ingest_fields_keeps_docs(st.shared, book_id, payload.index, st.id_map, payload.index.len() as int);
    }
}

proof fn lemma_composed_prefix_numbered(books: Seq<(Seq<char>, PayloadView)>, n: int)
    ensures
        composed_prefix(books, n) matches Ok(Some(p)) ==> docs_numbered(p) && p.length == p.docs.len() as u64,
    decreases n,
{
    if n > 0 {
        lemma_composed_prefix_numbered(books, n - 1);
        let b = books[n - 1];
        match composed_prefix(books, n - 1) {
            Err(_) => {},
            Ok(None) => {
                lemma_ingested_numbered(empty_payload_from(b.1), b.0, b.1);
            },
            Ok(Some(s)) => {
                lemma_ingested_numbered(s, b.0, b.1);
            },
        }
    }
}

/// Law: in the site-wide search payload, document number `i` is stored,
/// with its `docInfo` entry, under the id `i` written in decimal, and its
/// `id` field holds that id; there is one of each per document URL, and
/// the document count is the number of documents.
pub proof fn lemma_composed_doc_ids(books: Seq<(Seq<char>, PayloadView)>)
    ensures
        composed(books) matches Ok(p) ==> docs_numbered(p) && p.length == p.docs.len() as u64,
{
    lemma_composed_prefix_numbered(books, books.len() as int);
}

/// Composes the site-wide search payload from each book's payload, in
/// catalog order.
pub fn compose_shared_search_index(books: Vec<(String, SearchPayload)>) -> (r: Result<SearchPayload, PayloadError>)
    ensures
        match composed(books_view(books@)) {
            Ok(v) => r matches Ok(x) && payload_view(x) == v,
            Err(e) => r matches Err(x) && x@ == e,
        },
{
    let ghost all = books_view(books@);
    let ghost orig = books@;
    let ghost n = books.len() as int;
    let mut rest = books;
    let mut shared: Option<SearchPayload> = None;
    let mut i: usize = 0;
    while rest.len() > 0
        invariant
            orig.len() == n,
            all == books_view(orig),
            orig == books@,
            n <= usize::MAX,
            i + rest.len() == n,
            rest@ == orig.subrange(i as int, n),
            composed_prefix(all, i as int) == Ok::<Option<PayloadView>, PayloadErrorView>(opt_payload_view(shared)),
        decreases rest.len(),
    {
        let ghost before = rest@;
        let (book_id, payload) = rest.remove(0);
        assert(rest@ =~= orig.subrange(i + 1, n));
        assert(before[0] == orig[i as int]);
        assert(all[i as int] == (book_id@, payload_view(payload)));
        match compose_step(shared, book_id.as_str(), payload) {
            Err(e) => {
                proof {
                    lemma_composed_err(all, i + 1, n);
                }
                return Err(e);
            },
            Ok(p) => {
                shared = Some(p);
            },
        }
        i += 1;
    }
    match shared {
        Some(p) => Ok(p),
        None => Err(PayloadError::NoBooks),
    }
}

/// The file names among `names` that are emitted search indexes.
pub open spec fn index_names(names: Seq<Seq<char>>) -> Seq<Seq<char>>
    decreases names.len(),
{
    if names.len() == 0 {
        Seq::empty()
    } else if is_search_index_name(names.last()) {
        index_names(names.drop_last()).push(names.last())
    } else {
        index_names(names.drop_last())
    }
}

/// Picks the search index among the file names of a built book's
/// directory: there must be exactly one.
pub fn select_emitted_search_index(names: &Vec<String>) -> (r: Result<String, PayloadError>)
    ensures
        index_names(strings_view(names@)).len() == 1 ==> (r matches Ok(x) && x@ == index_names(
            strings_view(names@),
        )[0]),
        index_names(strings_view(names@)).len() != 1 ==> (r matches Err(PayloadError::SearchIndexCount { count })
            && count == index_names(strings_view(names@)).len()),
{
    let ghost all = strings_view(names@);
    let mut count: usize = 0;
    let mut first: Option<usize> = None;
    let mut i: usize = 0;
    while i < names.len()
        invariant
            i <= names.len(),
            all == strings_view(names@),
            count == index_names(all.take(i as int)).len(),
            count <= i,
            count == 0 <==> first is None,
            first matches Some(f) ==> f < names.len() && index_names(all.take(i as int))[0] == names@[f as int]@,
        decreases names.len() - i,
    {
        assert(all.take(i + 1).drop_last() =~= all.take(i as int));
        assert(all.take(i + 1).last() == names@[i as int]@);
        if is_search_index_file_name(names[i].as_str()) {
            if first.is_none() {
                first = Some(i);
            }
            count += 1;
        }
        i += 1;
    }
    assert(all.take(names.len() as int) =~= all);
    if count == 1 {
        match first {
            Some(f) => Ok(crate::text::copy_string(&names[f])),
            None => Err(PayloadError::SearchIndexCount { count }),
        }
    } else {
        Err(PayloadError::SearchIndexCount { count })
    }
}

/// The contents of the site-wide search index script for a payload
/// written as JSON.
pub open spec fn search_index_script(json: Seq<char>) -> Seq<char> {
    "window.search = Object.assign(window.search, "@ + json + ");\n"@
}

/// The site-wide search index script for a payload written as JSON.
pub fn render_search_index_js(json: &str) -> (r: String)
    ensures
        r@ == search_index_script(json@),
{
    let mut r = string_from("window.search = Object.assign(window.search, ");
    r.append(json);
    r.append(");\n");
    r
}

} // verus!
