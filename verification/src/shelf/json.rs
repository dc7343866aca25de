//! JSON values as the saved search indexes hold them, with the operations
//! that composing them needs: copying, comparing, and object members read,
//! replaced and removed by key.
use vstd::prelude::*;
use crate::shelf::site_links::pairs_view;
use crate::text::{copy_string, str_eq, string_from};

verus! {

/// A JSON value. Unsigned integers are kept as numbers; any other number
/// as its JSON text.
#[derive(Debug, PartialEq, Eq)]
pub enum JsonValue {
    Null,
    Bool(bool),
    UInt(u64),
    Number(String),
    Str(String),
    Array(Vec<JsonValue>),
    Object(Vec<JsonMember>),
}

/// A member of a JSON object.
#[derive(Debug, PartialEq, Eq)]
pub struct JsonMember {
    pub key: String,
    pub value: JsonValue,
}

/// A JSON value as plain values; an object is its members in order.
pub enum JsonView {
    Null,
    Bool(bool),
    UInt(u64),
    Number(Seq<char>),
    Str(Seq<char>),
    Array(Seq<JsonView>),
    Object(Seq<(Seq<char>, JsonView)>),
}

/// The plain value of a JSON value.
pub open spec fn json_view(v: JsonValue) -> JsonView
    decreases v,
{
    match v {
        JsonValue::Null => JsonView::Null,
        JsonValue::Bool(b) => JsonView::Bool(b),
        JsonValue::UInt(n) => JsonView::UInt(n),
        JsonValue::Number(t) => JsonView::Number(t@),
        JsonValue::Str(s) => JsonView::Str(s@),
        JsonValue::Array(items) => JsonView::Array(items_view(items@)),
        JsonValue::Object(ms) => JsonView::Object(members_view(ms@)),
    }
}

/// The plain values of array items.
pub open spec fn items_view(s: Seq<JsonValue>) -> Seq<JsonView>
    decreases s,
{
    if s.len() == 0 {
        Seq::empty()
    } else {
        items_view(s.subrange(0, s.len() - 1)).push(json_view(s[s.len() - 1]))
    }
}

/// The plain values of object members.
pub open spec fn members_view(s: Seq<JsonMember>) -> Seq<(Seq<char>, JsonView)>
    decreases s,
{
    if s.len() == 0 {
        Seq::empty()
    } else {
        members_view(s.subrange(0, s.len() - 1)).push((s[s.len() - 1].key@, json_view(s[s.len() - 1].value)))
    }
}

/// The items' views, item by item.
pub proof fn lemma_items_view(s: Seq<JsonValue>)
    ensures
        items_view(s).len() == s.len(),
        forall|i: int| 0 <= i < s.len() ==> #[trigger] items_view(s)[i] == json_view(s[i]),
    decreases s.len(),
{
    if s.len() > 0 {
        lemma_items_view(s.subrange(0, s.len() - 1));
    }
}

/// The members' views, member by member.
pub proof fn lemma_members_view(s: Seq<JsonMember>)
    ensures
        members_view(s).len() == s.len(),
        forall|i: int| 0 <= i < s.len() ==> #[trigger] members_view(s)[i] == (s[i].key@, json_view(s[i].value)),
    decreases s.len(),
{
    if s.len() > 0 {
        lemma_members_view(s.subrange(0, s.len() - 1));
    }
}

/// The views of two member lists are equal when they agree member by
/// member.
pub proof fn lemma_members_view_eq(a: Seq<JsonMember>, b: Seq<JsonMember>)
    requires
        a.len() == b.len(),
        forall|i: int| 0 <= i < a.len() ==> a[i].key@ == b[i].key@ && json_view(a[i].value) == json_view(b[i].value),
    ensures
        members_view(a) == members_view(b),
{
    lemma_members_view(a);
    lemma_members_view(b);
    assert(members_view(a) =~= members_view(b));
}

/// The index of the first member with key `k`, searching from `i`.
pub open spec fn key_index_from<V>(ms: Seq<(Seq<char>, V)>, k: Seq<char>, i: int) -> Option<int>
    decreases ms.len() - i,
{
    if i < 0 || i >= ms.len() {
        None
    } else if ms[i].0 == k {
        Some(i)
    } else {
        key_index_from(ms, k, i + 1)
    }
}

/// The index of the first member with key `k`.
pub open spec fn key_index<V>(ms: Seq<(Seq<char>, V)>, k: Seq<char>) -> Option<int> {
    key_index_from(ms, k, 0)
}

/// The value of the first member with key `k`.
pub open spec fn obj_get<V>(ms: Seq<(Seq<char>, V)>, k: Seq<char>) -> Option<V> {
    match key_index(ms, k) {
        Some(i) => Some(ms[i].1),
        None => None,
    }
}

/// The members with `k` set to `v`: the first member with key `k` is
/// replaced in place, or a member is added at the end.
pub open spec fn obj_insert<V>(ms: Seq<(Seq<char>, V)>, k: Seq<char>, v: V) -> Seq<(Seq<char>, V)> {
    match key_index(ms, k) {
        Some(i) => ms.update(i, (k, v)),
        None => ms.push((k, v)),
    }
}

/// The members without the first member with key `k`.
pub open spec fn obj_remove<V>(ms: Seq<(Seq<char>, V)>, k: Seq<char>) -> Seq<(Seq<char>, V)> {
    match key_index(ms, k) {
        Some(i) => ms.remove(i),
        None => ms,
    }
}

proof fn lemma_key_index_from<V>(ms: Seq<(Seq<char>, V)>, k: Seq<char>, i: int)
    requires
        0 <= i,
    ensures
        match key_index_from(ms, k, i) {
            Some(j) => i <= j < ms.len() && ms[j].0 == k && forall|m: int| i <= m < j ==> ms[m].0 != k,
            None => forall|m: int| i <= m < ms.len() ==> ms[m].0 != k,
        },
    decreases ms.len() - i,
{
    if i < ms.len() && ms[i].0 != k {
        lemma_key_index_from(ms, k, i + 1);
    }
}

/// The first index with key `k` is the first index at which the key is `k`.
pub proof fn lemma_key_index<V>(ms: Seq<(Seq<char>, V)>, k: Seq<char>)
    ensures
        match key_index(ms, k) {
            Some(j) => 0 <= j < ms.len() && ms[j].0 == k && forall|m: int| 0 <= m < j ==> ms[m].0 != k,
            None => forall|m: int| 0 <= m < ms.len() ==> ms[m].0 != k,
        },
{
    lemma_key_index_from(ms, k, 0);
}

/// Reading a key back after setting it gives the value set.
pub proof fn lemma_insert_then_get<V>(ms: Seq<(Seq<char>, V)>, k: Seq<char>, v: V)
    ensures
        obj_get(obj_insert(ms, k, v), k) == Some(v),
{
    lemma_key_index(ms, k);
    let r = obj_insert(ms, k, v);
    lemma_key_index(r, k);
    match key_index(ms, k) {
        Some(i) => {
            assert(r[i].0 == k);
            if let Some(j) = key_index(r, k) {
                if j < i {
                    assert(r[j] == ms[j]);
                }
            }
        },
        None => {
            assert(r[ms.len() as int].0 == k);
            if let Some(j) = key_index(r, k) {
                if j < ms.len() {
                    assert(r[j] == ms[j]);
                }
            }
        },
    }
}

/// Copies a JSON value.
pub fn json_clone(v: &JsonValue) -> (r: JsonValue)
    ensures
        json_view(r) == json_view(*v),
    decreases v,
{
    match v {
        JsonValue::Null => JsonValue::Null,
        JsonValue::Bool(b) => JsonValue::Bool(*b),
        JsonValue::UInt(n) => JsonValue::UInt(*n),
        JsonValue::Number(t) => JsonValue::Number(copy_string(t)),
        JsonValue::Str(s) => JsonValue::Str(copy_string(s)),
        JsonValue::Array(items) => {
            let mut out: Vec<JsonValue> = Vec::new();
            let mut i: usize = 0;
            while i < items.len()
                invariant
                    i <= items.len(),
                    *v == JsonValue::Array(*items),
                    out.len() == i,
                    forall|j: int| 0 <= j < i ==> json_view(#[trigger] out@[j]) == json_view(items@[j]),
                decreases items.len() - i,
            {
                assert(decreases_to!(*v => v->Array_0@[i as int]));
                let c = json_clone(&items[i]);
                out.push(c);
                i += 1;
            }
            proof {
                lemma_items_view(out@);
                lemma_items_view(items@);
                assert(items_view(out@) =~= items_view(items@));
            }
            JsonValue::Array(out)
        },
        JsonValue::Object(ms) => {
            let out = clone_members(ms);
            JsonValue::Object(out)
        },
    }
}

/// Copies object members.
pub fn clone_members(ms: &Vec<JsonMember>) -> (r: Vec<JsonMember>)
    ensures
        members_view(r@) == members_view(ms@),
        r.len() == ms.len(),
        forall|i: int| 0 <= i < ms.len() ==> (#[trigger] r@[i]).key@ == ms@[i].key@,
    decreases ms,
{
    let mut out: Vec<JsonMember> = Vec::new();
    let mut i: usize = 0;
    while i < ms.len()
        invariant
            i <= ms.len(),
            out.len() == i,
            forall|j: int|
                0 <= j < i ==> (#[trigger] out@[j]).key@ == ms@[j].key@ && json_view(out@[j].value) == json_view(
                    ms@[j].value,
                ),
        decreases ms.len() - i,
    {
        assert(decreases_to!(ms => ms@[i as int].value));
        let c = json_clone(&ms[i].value);
        out.push(JsonMember { key: copy_string(&ms[i].key), value: c });
        i += 1;
    }
    proof {
        lemma_members_view_eq(out@, ms@);
    }
    out
}

/// Whether two JSON values are equal, objects member by member in order.
pub fn json_eq(a: &JsonValue, b: &JsonValue) -> (r: bool)
    ensures
        r == (json_view(*a) == json_view(*b)),
    decreases a,
{
    match a {
        JsonValue::Null => matches!(b, JsonValue::Null),
        JsonValue::Bool(x) => match b {
            JsonValue::Bool(y) => *x == *y,
            _ => false,
        },
        JsonValue::UInt(x) => match b {
            JsonValue::UInt(y) => *x == *y,
            _ => false,
        },
        JsonValue::Number(x) => match b {
            JsonValue::Number(y) => str_eq(x.as_str(), y.as_str()),
            _ => false,
        },
        JsonValue::Str(x) => match b {
            JsonValue::Str(y) => str_eq(x.as_str(), y.as_str()),
            _ => false,
        },
        JsonValue::Array(xs) => {
            let ys = match b {
                JsonValue::Array(ys) => ys,
                _ => {
                    return false;
                },
            };
            proof {
                lemma_items_view(xs@);
                lemma_items_view(ys@);
            }
            if xs.len() != ys.len() {
                return false;
            }
            let mut i: usize = 0;
            while i < xs.len()
                invariant
                    i <= xs.len() == ys.len(),
                    *a == JsonValue::Array(*xs),
                    *b == JsonValue::Array(*ys),
                    items_view(xs@).len() == xs.len(),
                    items_view(ys@).len() == ys.len(),
                    forall|j: int| 0 <= j < xs.len() ==> #[trigger] items_view(xs@)[j] == json_view(xs@[j]),
                    forall|j: int| 0 <= j < ys.len() ==> #[trigger] items_view(ys@)[j] == json_view(ys@[j]),
                    forall|j: int| 0 <= j < i ==> json_view(#[trigger] xs@[j]) == json_view(ys@[j]),
                decreases xs.len() - i,
            {
                assert(decreases_to!(*a => a->Array_0@[i as int]));
                if !json_eq(&xs[i], &ys[i]) {
                    assert(items_view(xs@)[i as int] != items_view(ys@)[i as int]);
                    return false;
                }
                i += 1;
            }
            assert(items_view(xs@) =~= items_view(ys@));
            true
        },
        JsonValue::Object(xs) => {
            let ys = match b {
                JsonValue::Object(ys) => ys,
                _ => {
                    return false;
                },
            };
            proof {
                lemma_members_view(xs@);
                lemma_members_view(ys@);
            }
            if xs.len() != ys.len() {
                return false;
            }
            let mut i: usize = 0;
            while i < xs.len()
                invariant
                    i <= xs.len() == ys.len(),
                    *a == JsonValue::Object(*xs),
                    *b == JsonValue::Object(*ys),
                    members_view(xs@).len() == xs.len(),
                    members_view(ys@).len() == ys.len(),
                    forall|j: int|
                        0 <= j < xs.len() ==> #[trigger] members_view(xs@)[j] == (xs@[j].key@, json_view(xs@[j].value)),
                    forall|j: int|
                        0 <= j < ys.len() ==> #[trigger] members_view(ys@)[j] == (ys@[j].key@, json_view(ys@[j].value)),
                    forall|j: int|
                        0 <= j < i ==> (#[trigger] xs@[j]).key@ == ys@[j].key@ && json_view(xs@[j].value) == json_view(
                            ys@[j].value,
                        ),
                decreases xs.len() - i,
            {
                if !str_eq(xs[i].key.as_str(), ys[i].key.as_str()) {
                    assert(members_view(xs@)[i as int] != members_view(ys@)[i as int]);
                    return false;
                }
                assert(decreases_to!(*a => a->Object_0@[i as int].value));
                if !json_eq(&xs[i].value, &ys[i].value) {
                    assert(members_view(xs@)[i as int] != members_view(ys@)[i as int]);
                    return false;
                }
                i += 1;
            }
            assert(members_view(xs@) =~= members_view(ys@));
            true
        },
    }
}

/// The index of the first member with key `k`.
pub fn find_member(ms: &Vec<JsonMember>, k: &str) -> (r: Option<usize>)
    ensures
        match r {
            Some(i) => key_index(members_view(ms@), k@) == Some(i as int) && i < ms.len(),
            None => key_index(members_view(ms@), k@) is None,
        },
{
    proof {
        lemma_members_view(ms@);
        lemma_key_index(members_view(ms@), k@);
    }
    let mut i: usize = 0;
    while i < ms.len()
        invariant
            i <= ms.len(),
            members_view(ms@).len() == ms.len(),
            forall|j: int| 0 <= j < ms.len() ==> #[trigger] members_view(ms@)[j] == (ms@[j].key@, json_view(ms@[j].value)),
            forall|j: int| 0 <= j < i ==> ms@[j].key@ != k@,
        decreases ms.len() - i,
    {
        if str_eq(ms[i].key.as_str(), k) {
            proof {
                assert(members_view(ms@)[i as int].0 == k@);
                lemma_key_index(members_view(ms@), k@);
                if let Some(j) = key_index(members_view(ms@), k@) {
                    if j < i {
                        assert(members_view(ms@)[j].0 == ms@[j].key@);
                    }
                }
            }
            return Some(i);
        }
        i += 1;
    }
    proof {
        lemma_key_index(members_view(ms@), k@);
        if let Some(j) = key_index(members_view(ms@), k@) {
            assert(members_view(ms@)[j].0 == ms@[j].key@);
        }
    }
    None
}

/// Sets the member `k` to `v`: replaces the first member with that key in
/// place, or adds one at the end.
pub fn set_member(ms: &mut Vec<JsonMember>, k: &str, v: JsonValue)
    ensures
        members_view(final(ms)@) == obj_insert(members_view(old(ms)@), k@, json_view(v)),
{
    proof {
        lemma_members_view(old(ms)@);
    }
    let ghost before = members_view(ms@);
    match find_member(ms, k) {
        Some(i) => {
            ms.set(i, JsonMember { key: string_from(k), value: v });
            proof {
                lemma_members_view(ms@);
                assert(members_view(ms@) =~= before.update(i as int, (k@, json_view(v))));
            }
        },
        None => {
            ms.push(JsonMember { key: string_from(k), value: v });
            proof {
                lemma_members_view(ms@);
                assert(members_view(ms@) =~= before.push((k@, json_view(v))));
            }
        },
    }
}

/// Why an inverted-index node could not be rewritten or merged.
#[derive(Debug, Clone, PartialEq, Eq)]
pub enum NodeError {
    /// A node to rewrite is not an object.
    NodeNotObject,
    /// A node's `docs` table is not an object.
    DocsNotObject,
    /// A `docs` table names a document that the book does not have.
    UnknownDocRef { doc_id: String },
    /// The node merged into is not an object.
    TargetNotObject,
    /// The node merged from is not an object.
    SourceNotObject,
    /// The `df` of the node merged from is not an unsigned integer.
    DfNotUnsigned,
    /// The summed `df` does not fit in 64 bits.
    DfOverflow,
    /// The `docs` table merged into is not an object.
    TargetDocsNotObject,
    /// The `docs` table merged from is not an object.
    SourceDocsNotObject,
    /// A document is in both `docs` tables.
    DuplicateDocRef { doc_id: String },
}

/// A node error as plain values.
pub enum NodeErrorView {
    NodeNotObject,
    DocsNotObject,
    UnknownDocRef { doc_id: Seq<char> },
    TargetNotObject,
    SourceNotObject,
    DfNotUnsigned,
    DfOverflow,
    TargetDocsNotObject,
    SourceDocsNotObject,
    DuplicateDocRef { doc_id: Seq<char> },
}

impl View for NodeError {
    type V = NodeErrorView;

    open spec fn view(&self) -> NodeErrorView {
        match self {
            NodeError::NodeNotObject => NodeErrorView::NodeNotObject,
            NodeError::DocsNotObject => NodeErrorView::DocsNotObject,
            NodeError::UnknownDocRef { doc_id } => NodeErrorView::UnknownDocRef { doc_id: doc_id@ },
            NodeError::TargetNotObject => NodeErrorView::TargetNotObject,
            NodeError::SourceNotObject => NodeErrorView::SourceNotObject,
            NodeError::DfNotUnsigned => NodeErrorView::DfNotUnsigned,
            NodeError::DfOverflow => NodeErrorView::DfOverflow,
            NodeError::TargetDocsNotObject => NodeErrorView::TargetDocsNotObject,
            NodeError::SourceDocsNotObject => NodeErrorView::SourceDocsNotObject,
            NodeError::DuplicateDocRef { doc_id } => NodeErrorView::DuplicateDocRef { doc_id: doc_id@ },
        }
    }
}

/// The first `n` entries of a `docs` table with each document id replaced
/// by its new id, in a fresh table.
pub open spec fn remapped_docs(
    d: Seq<(Seq<char>, JsonView)>,
    idm: Seq<(Seq<char>, Seq<char>)>,
    n: int,
) -> Result<Seq<(Seq<char>, JsonView)>, NodeErrorView>
    decreases n,
{
    if n <= 0 {
        Ok(Seq::empty())
    } else {
        match remapped_docs(d, idm, n - 1) {
            Err(e) => Err(e),
            Ok(acc) => match obj_get(idm, d[n - 1].0) {
                None => Err(NodeErrorView::UnknownDocRef { doc_id: d[n - 1].0 }),
                Some(new_id) => Ok(obj_insert(acc, new_id, d[n - 1].1)),
            },
        }
    }
}

/// The node's `docs` table, where it has one, rewritten: its index and the
/// new table.
pub open spec fn docs_remapped(ms: Seq<(Seq<char>, JsonView)>, idm: Seq<(Seq<char>, Seq<char>)>) -> Result<
    Option<(int, Seq<(Seq<char>, JsonView)>)>,
    NodeErrorView,
> {
    match key_index(ms, "docs"@) {
        None => Ok(None),
        Some(i) => match ms[i].1 {
            JsonView::Object(d) => match remapped_docs(d, idm, d.len() as int) {
                Err(e) => Err(e),
                Ok(nd) => Ok(Some((i, nd))),
            },
            _ => Err(NodeErrorView::DocsNotObject),
        },
    }
}

/// A node of a saved inverted index with every document id in its `docs`
/// tables, at every depth, replaced by its new id.
pub open spec fn remap_node(v: JsonView, idm: Seq<(Seq<char>, Seq<char>)>) -> Result<JsonView, NodeErrorView>
    decreases v, 0int,
{
    match v {
        JsonView::Object(ms) => match docs_remapped(ms, idm) {
            Err(e) => Err(e),
            Ok(d) => match remap_members(ms, d, idm, ms.len() as int) {
                Err(e) => Err(e),
                Ok(out) => Ok(JsonView::Object(out)),
            },
        },
        _ => Err(NodeErrorView::NodeNotObject),
    }
}

/// The first `n` members of a node rewritten: `df` kept, `docs` replaced
/// by its rewritten table, every other member rewritten as a node.
pub open spec fn remap_members(
    ms: Seq<(Seq<char>, JsonView)>,
    d: Option<(int, Seq<(Seq<char>, JsonView)>)>,
    idm: Seq<(Seq<char>, Seq<char>)>,
    n: int,
) -> Result<Seq<(Seq<char>, JsonView)>, NodeErrorView>
    decreases ms, n,
{
    if n <= 0 || n > ms.len() {
        Ok(Seq::empty())
    } else {
        match remap_members(ms, d, idm, n - 1) {
            Err(e) => Err(e),
            Ok(acc) => if ms[n - 1].0 == "docs"@ || ms[n - 1].0 == "df"@ {
                let kept = match d {
                    Some((i, nd)) => if i == n - 1 {
                        JsonView::Object(nd)
                    } else {
                        ms[n - 1].1
                    },
                    None => ms[n - 1].1,
                };
                Ok(acc.push((ms[n - 1].0, kept)))
            } else {
                match remap_node(ms[n - 1].1, idm) {
                    Err(e) => Err(e),
                    Ok(c) => Ok(acc.push((ms[n - 1].0, c))),
                }
            },
        }
    }
}

proof fn lemma_remap_members_err(
    ms: Seq<(Seq<char>, JsonView)>,
    d: Option<(int, Seq<(Seq<char>, JsonView)>)>,
    idm: Seq<(Seq<char>, Seq<char>)>,
    a: int,
    b: int,
)
    requires
        0 <= a <= b <= ms.len(),
        remap_members(ms, d, idm, a) is Err,
    ensures
        remap_members(ms, d, idm, b) == remap_members(ms, d, idm, a),
    decreases b - a,
{
    if a < b {
        lemma_remap_members_err(ms, d, idm, a, b - 1);
    }
}

proof fn lemma_remapped_docs_err(d: Seq<(Seq<char>, JsonView)>, idm: Seq<(Seq<char>, Seq<char>)>, a: int, b: int)
    requires
        0 <= a <= b,
        remapped_docs(d, idm, a) is Err,
    ensures
        remapped_docs(d, idm, b) == remapped_docs(d, idm, a),
    decreases b - a,
{
    if a < b {
        lemma_remapped_docs_err(d, idm, a, b - 1);
    }
}

/// The index of the first pair with key `k`.
fn find_pair(pairs: &Vec<(String, String)>, k: &str) -> (r: Option<usize>)
    ensures
        match r {
            Some(i) => key_index(pairs_view(pairs@), k@) == Some(i as int) && i < pairs.len(),
            None => key_index(pairs_view(pairs@), k@) is None,
        },
{
    let ghost pv = pairs_view(pairs@);
    let mut i: usize = 0;
    while i < pairs.len()
        invariant
            i <= pairs.len(),
            pv == pairs_view(pairs@),
            pv.len() == pairs.len(),
            forall|j: int| 0 <= j < i ==> pairs@[j].0@ != k@,
        decreases pairs.len() - i,
    {
        if str_eq(pairs[i].0.as_str(), k) {
            proof {
                assert(pv[i as int].0 == k@);
                lemma_key_index(pv, k@);
                if let Some(j) = key_index(pv, k@) {
                    if j < i {
                        assert(pv[j].0 == pairs@[j].0@);
                    }
                }
            }
            return Some(i);
        }
        i += 1;
    }
    proof {
        lemma_key_index(pv, k@);
        if let Some(j) = key_index(pv, k@) {
            assert(pv[j].0 == pairs@[j].0@);
        }
    }
    None
}

/// A `docs` table with each document id replaced by its new id.
fn remap_docs_table(d: &Vec<JsonMember>, id_map: &Vec<(String, String)>) -> (r: Result<Vec<JsonMember>, NodeError>)
    ensures
        match remapped_docs(members_view(d@), pairs_view(id_map@), d.len() as int) {
            Ok(nd) => r matches Ok(x) && members_view(x@) == nd,
            Err(e) => r matches Err(x) && x@ == e,
        },
{
    let ghost dv = members_view(d@);
    let ghost idm = pairs_view(id_map@);
    proof {
        lemma_members_view(d@);
    }
    let mut out: Vec<JsonMember> = Vec::new();
    let mut i: usize = 0;
    while i < d.len()
        invariant
            i <= d.len(),
            dv == members_view(d@),
            idm == pairs_view(id_map@),
            dv.len() == d.len(),
            forall|j: int| 0 <= j < d.len() ==> #[trigger] dv[j] == (d@[j].key@, json_view(d@[j].value)),
            remapped_docs(dv, idm, i as int) == Ok::<Seq<(Seq<char>, JsonView)>, NodeErrorView>(members_view(out@)),
        decreases d.len() - i,
    {
        assert(dv[i as int] == (d@[i as int].key@, json_view(d@[i as int].value)));
        match find_pair(id_map, d[i].key.as_str()) {
            None => {
                proof {
                    lemma_remapped_docs_err(dv, idm, i + 1, d.len() as int);
                }
                return Err(NodeError::UnknownDocRef { doc_id: copy_string(&d[i].key) });
            },
            Some(j) => {
                assert(idm[j as int] == (id_map@[j as int].0@, id_map@[j as int].1@));
                set_member(&mut out, id_map[j].1.as_str(), json_clone(&d[i].value));
            },
        }
        i += 1;
    }
    Ok(out)
}

/// Rewrites the document ids of a node of a saved inverted index, at every
/// depth, by the map from old to new ids.
pub fn remap_inverted_index_doc_refs(node: &JsonValue, id_map: &Vec<(String, String)>) -> (r: Result<
    JsonValue,
    NodeError,
>)
    ensures
        match remap_node(json_view(*node), pairs_view(id_map@)) {
            Ok(v) => r matches Ok(x) && json_view(x) == v,
            Err(e) => r matches Err(x) && x@ == e,
        },
    decreases node,
{
    let ghost idm = pairs_view(id_map@);
    let ms = match node {
        JsonValue::Object(ms) => ms,
        _ => {
            return Err(NodeError::NodeNotObject);
        },
    };
    let ghost msv = members_view(ms@);
    proof {
        lemma_members_view(ms@);
    }
    let docs_idx = find_member(ms, "docs");
    let new_docs: Option<Vec<JsonMember>> = match docs_idx {
        None => None,
        Some(i) => {
            assert(msv[i as int] == (ms@[i as int].key@, json_view(ms@[i as int].value)));
            match &ms[i].value {
                JsonValue::Object(d) => {
                    proof {
                        lemma_members_view(d@);
                    }
                    assert(json_view(ms@[i as int].value) == JsonView::Object(members_view(d@)));
                    match remap_docs_table(d, id_map) {
                        Err(e) => {
                            return Err(e);
                        },
                        Ok(nd) => {
                            assert(docs_remapped(msv, idm) == Ok::<
                                Option<(int, Seq<(Seq<char>, JsonView)>)>,
                                NodeErrorView,
                            >(Some((i as int, members_view(nd@)))));
                            Some(nd)
                        },
                    }
                },
                _ => {
                    return Err(NodeError::DocsNotObject);
                },
            }
        },
    };
    let ghost dv = match docs_idx {
        Some(i) => Some((i as int, members_view(new_docs->Some_0@))),
        None => None::<(int, Seq<(Seq<char>, JsonView)>)>,
    };
    assert(docs_remapped(msv, idm) == Ok::<Option<(int, Seq<(Seq<char>, JsonView)>)>, NodeErrorView>(dv));
    let mut out: Vec<JsonMember> = Vec::new();
    let mut k: usize = 0;
    while k < ms.len()
        invariant
            k <= ms.len(),
            *node == JsonValue::Object(*ms),
            msv == members_view(ms@),
            idm == pairs_view(id_map@),
            msv.len() == ms.len(),
            forall|j: int| 0 <= j < ms.len() ==> #[trigger] msv[j] == (ms@[j].key@, json_view(ms@[j].value)),
            docs_idx is Some <==> new_docs is Some,
            dv == match docs_idx {
                Some(i) => Some((i as int, members_view(new_docs->Some_0@))),
                None => None::<(int, Seq<(Seq<char>, JsonView)>)>,
            },
            docs_remapped(msv, idm) == Ok::<Option<(int, Seq<(Seq<char>, JsonView)>)>, NodeErrorView>(dv),
            remap_members(msv, dv, idm, k as int) == Ok::<Seq<(Seq<char>, JsonView)>, NodeErrorView>(
                members_view(out@),
            ),
        decreases ms.len() - k,
    {
        assert(msv[k as int] == (ms@[k as int].key@, json_view(ms@[k as int].value)));
        let key = &ms[k].key;
        let ghost before = members_view(out@);
        let ghost old_out = out@;
        if str_eq(key.as_str(), "docs") || str_eq(key.as_str(), "df") {
            let kept = match docs_idx {
                Some(i) => if i == k {
                    match &new_docs {
                        Some(nd) => JsonValue::Object(clone_members(nd)),
                        None => json_clone(&ms[k].value),
                    }
                } else {
                    json_clone(&ms[k].value)
                },
                None => json_clone(&ms[k].value),
            };
            out.push(JsonMember { key: copy_string(key), value: kept });
        } else {
            assert(decreases_to!(*node => node->Object_0@[k as int].value));
            match remap_inverted_index_doc_refs(&ms[k].value, id_map) {
                Err(e) => {
                    proof {
                        lemma_remap_members_err(msv, dv, idm, k + 1, ms.len() as int);
                    }
                    return Err(e);
                },
                Ok(c) => {
                    out.push(JsonMember { key: copy_string(key), value: c });
                },
            }
        }
        assert(out@.subrange(0, out.len() - 1) =~= old_out);
        k += 1;
    }
    Ok(JsonValue::Object(out))
}

/// An unsigned integer value, or zero for anything else or nothing.
pub open spec fn uint_or_zero(v: Option<JsonView>) -> nat {
    match v {
        Some(JsonView::UInt(n)) => n as nat,
        _ => 0,
    }
}

/// The target members with the source's `df` added to the target's.
pub open spec fn df_merged(tm: Seq<(Seq<char>, JsonView)>, sm: Seq<(Seq<char>, JsonView)>) -> Result<
    Seq<(Seq<char>, JsonView)>,
    NodeErrorView,
> {
    match obj_get(sm, "df"@) {
        None => Ok(tm),
        Some(JsonView::UInt(b)) => {
            let total = uint_or_zero(obj_get(tm, "df"@)) + b;
            if total > u64::MAX {
                Err(NodeErrorView::DfOverflow)
            } else {
                Ok(obj_insert(tm, "df"@, JsonView::UInt(total as u64)))
            }
        },
        Some(_) => Err(NodeErrorView::DfNotUnsigned),
    }
}

/// The target `docs` table with the first `n` source entries added; a
/// document already in the table is refused.
pub open spec fn docs_union(td: Seq<(Seq<char>, JsonView)>, sd: Seq<(Seq<char>, JsonView)>, n: int) -> Result<
    Seq<(Seq<char>, JsonView)>,
    NodeErrorView,
>
    decreases n,
{
    if n <= 0 {
        Ok(td)
    } else {
        match docs_union(td, sd, n - 1) {
            Err(e) => Err(e),
            Ok(acc) => if key_index(acc, sd[n - 1].0) is Some {
                Err(NodeErrorView::DuplicateDocRef { doc_id: sd[n - 1].0 })
            } else {
                Ok(acc.push(sd[n - 1]))
            },
        }
    }
}

/// The target members with the source's `docs` table added to the
/// target's (an empty one where the target has none).
pub open spec fn docs_merged(tm: Seq<(Seq<char>, JsonView)>, sm: Seq<(Seq<char>, JsonView)>) -> Result<
    Seq<(Seq<char>, JsonView)>,
    NodeErrorView,
> {
    match obj_get(sm, "docs"@) {
        None => Ok(tm),
        Some(sd) => {
            let td = match obj_get(tm, "docs"@) {
                Some(x) => x,
                None => JsonView::Object(Seq::empty()),
            };
            match td {
                JsonView::Object(tdm) => match sd {
                    JsonView::Object(sdm) => match docs_union(tdm, sdm, sdm.len() as int) {
                        Err(e) => Err(e),
                        Ok(u) => Ok(obj_insert(tm, "docs"@, JsonView::Object(u))),
                    },
                    _ => Err(NodeErrorView::SourceDocsNotObject),
                },
                _ => Err(NodeErrorView::TargetDocsNotObject),
            }
        },
    }
}

/// Two nodes of saved inverted indexes merged: `df` summed, `docs` tables
/// united, and every other member merged where both have it and copied
/// where only the source has it.
pub open spec fn merge_node(t: JsonView, s: JsonView) -> Result<JsonView, NodeErrorView>
    decreases s, 0int,
{
    match t {
        JsonView::Object(tm) => match s {
            JsonView::Object(sm) => match df_merged(tm, sm) {
                Err(e) => Err(e),
                Ok(tm1) => match docs_merged(tm1, sm) {
                    Err(e) => Err(e),
                    Ok(tm2) => match merge_members(tm2, sm, sm.len() as int) {
                        Err(e) => Err(e),
                        Ok(tm3) => Ok(JsonView::Object(tm3)),
                    },
                },
            },
            _ => Err(NodeErrorView::SourceNotObject),
        },
        _ => Err(NodeErrorView::TargetNotObject),
    }
}

/// The target members with the first `n` source members other than `df`
/// and `docs` merged in.
pub open spec fn merge_members(tm: Seq<(Seq<char>, JsonView)>, sm: Seq<(Seq<char>, JsonView)>, n: int) -> Result<
    Seq<(Seq<char>, JsonView)>,
    NodeErrorView,
>
    decreases sm, n,
{
    if n <= 0 || n > sm.len() {
        Ok(tm)
    } else {
        match merge_members(tm, sm, n - 1) {
            Err(e) => Err(e),
            Ok(acc) => if sm[n - 1].0 == "df"@ || sm[n - 1].0 == "docs"@ {
                Ok(acc)
            } else {
                match obj_get(acc, sm[n - 1].0) {
                    Some(tc) => match merge_node(tc, sm[n - 1].1) {
                        Err(e) => Err(e),
                        Ok(m) => Ok(obj_insert(acc, sm[n - 1].0, m)),
                    },
                    None => Ok(obj_insert(acc, sm[n - 1].0, sm[n - 1].1)),
                }
            },
        }
    }
}

proof fn lemma_merge_members_err(tm: Seq<(Seq<char>, JsonView)>, sm: Seq<(Seq<char>, JsonView)>, a: int, b: int)
    requires
        0 <= a <= b <= sm.len(),
        merge_members(tm, sm, a) is Err,
    ensures
        merge_members(tm, sm, b) == merge_members(tm, sm, a),
    decreases b - a,
{
    if a < b {
        lemma_merge_members_err(tm, sm, a, b - 1);
    }
}

proof fn lemma_docs_union_err(td: Seq<(Seq<char>, JsonView)>, sd: Seq<(Seq<char>, JsonView)>, a: int, b: int)
    requires
        0 <= a <= b,
        docs_union(td, sd, a) is Err,
    ensures
        docs_union(td, sd, b) == docs_union(td, sd, a),
    decreases b - a,
{
    if a < b {
        lemma_docs_union_err(td, sd, a, b - 1);
    }
}

/// The members with the source's `df` added to the target's.
fn merge_df(acc: &mut Vec<JsonMember>, sm: &Vec<JsonMember>) -> (r: Result<(), NodeError>)
    ensures
        match df_merged(members_view(old(acc)@), members_view(sm@)) {
            Ok(m) => r is Ok && members_view(final(acc)@) == m,
            Err(e) => r matches Err(x) && x@ == e,
        },
{
    proof {
        lemma_members_view(sm@);
        lemma_members_view(acc@);
    }
    match find_member(sm, "df") {
        None => Ok(()),
        Some(i) => {
            assert(members_view(sm@)[i as int].1 == json_view(sm@[i as int].value));
            match &sm[i].value {
                JsonValue::UInt(b) => {
                    let a: u64 = match find_member(acc, "df") {
                        Some(j) => {
                            assert(members_view(acc@)[j as int].1 == json_view(acc@[j as int].value));
                            match &acc[j].value {
                                JsonValue::UInt(a) => *a,
                                _ => 0,
                            }
                        },
                        None => 0,
                    };
                    assert(a == uint_or_zero(obj_get(members_view(acc@), "df"@)));
                    match a.checked_add(*b) {
                        None => Err(NodeError::DfOverflow),
                        Some(total) => {
                            set_member(acc, "df", JsonValue::UInt(total));
                            Ok(())
                        },
                    }
                },
                _ => Err(NodeError::DfNotUnsigned),
            }
        },
    }
}

/// The members with the source's `docs` table added to the target's.
fn merge_docs(acc: &mut Vec<JsonMember>, sm: &Vec<JsonMember>) -> (r: Result<(), NodeError>)
    ensures
        match docs_merged(members_view(old(acc)@), members_view(sm@)) {
            Ok(m) => r is Ok && members_view(final(acc)@) == m,
            Err(e) => r matches Err(x) && x@ == e,
        },
{
    proof {
        lemma_members_view(sm@);
        lemma_members_view(acc@);
    }
    let i = match find_member(sm, "docs") {
        None => {
            return Ok(());
        },
        Some(i) => i,
    };
    assert(members_view(sm@)[i as int].1 == json_view(sm@[i as int].value));
    let mut tdocs: Vec<JsonMember> = match find_member(acc, "docs") {
        Some(j) => {
            assert(members_view(acc@)[j as int].1 == json_view(acc@[j as int].value));
            match &acc[j].value {
                JsonValue::Object(x) => clone_members(x),
                _ => {
                    return Err(NodeError::TargetDocsNotObject);
                },
            }
        },
        None => Vec::new(),
    };
    let sd = match &sm[i].value {
        JsonValue::Object(x) => x,
        _ => {
            return Err(NodeError::SourceDocsNotObject);
        },
    };
    let ghost tdv = members_view(tdocs@);
    let ghost sdv = members_view(sd@);
    proof {
        lemma_members_view(sd@);
    }
    let ghost goal = match docs_union(tdv, sdv, sdv.len() as int) {
        Err(e) => Err(e),
        Ok(u) => Ok(obj_insert(members_view(acc@), "docs"@, JsonView::Object(u))),
    };
    assert(docs_merged(members_view(old(acc)@), members_view(sm@)) == goal);
    let mut k: usize = 0;
    while k < sd.len()
        invariant
            k <= sd.len(),
            acc@ == old(acc)@,
            docs_merged(members_view(old(acc)@), members_view(sm@)) == goal,
            goal == match docs_union(tdv, sdv, sdv.len() as int) {
                Err(e) => Err(e),
                Ok(u) => Ok(obj_insert(members_view(acc@), "docs"@, JsonView::Object(u))),
            },
            sdv == members_view(sd@),
            sdv.len() == sd.len(),
            forall|j: int| 0 <= j < sd.len() ==> #[trigger] sdv[j] == (sd@[j].key@, json_view(sd@[j].value)),
            docs_union(tdv, sdv, k as int) == Ok::<Seq<(Seq<char>, JsonView)>, NodeErrorView>(members_view(tdocs@)),
        decreases sd.len() - k,
    {
        assert(sdv[k as int] == (sd@[k as int].key@, json_view(sd@[k as int].value)));
        if find_member(&tdocs, sd[k].key.as_str()).is_some() {
            proof {
                lemma_docs_union_err(tdv, sdv, k + 1, sd.len() as int);
            }
            return Err(NodeError::DuplicateDocRef { doc_id: copy_string(&sd[k].key) });
        }
        let ghost old_docs = tdocs@;
        tdocs.push(JsonMember { key: copy_string(&sd[k].key), value: json_clone(&sd[k].value) });
        assert(tdocs@.subrange(0, tdocs.len() - 1) =~= old_docs);
        k += 1;
    }
    set_member(acc, "docs", JsonValue::Object(tdocs));
    Ok(())
}

/// Merges a node of one book's saved inverted index into the node for the
/// same term of the shared index.
pub fn merge_inverted_index_nodes(target: &JsonValue, source: &JsonValue) -> (r: Result<JsonValue, NodeError>)
    ensures
        match merge_node(json_view(*target), json_view(*source)) {
            Ok(v) => r matches Ok(x) && json_view(x) == v,
            Err(e) => r matches Err(x) && x@ == e,
        },
    decreases source,
{
    let tm = match target {
        JsonValue::Object(tm) => tm,
        _ => {
            return Err(NodeError::TargetNotObject);
        },
    };
    let sm = match source {
        JsonValue::Object(sm) => sm,
        _ => {
            return Err(NodeError::SourceNotObject);
        },
    };
    let ghost smv = members_view(sm@);
    proof {
        lemma_members_view(sm@);
    }
    let mut acc = clone_members(tm);
    match merge_df(&mut acc, sm) {
        Err(e) => {
            return Err(e);
        },
        Ok(()) => {},
    }
    match merge_docs(&mut acc, sm) {
        Err(e) => {
            return Err(e);
        },
        Ok(()) => {},
    }
    let ghost tm2 = members_view(acc@);
    let ghost goal = match merge_members(tm2, smv, smv.len() as int) {
        Err(e) => Err(e),
        Ok(tm3) => Ok(JsonView::Object(tm3)),
    };
    assert(merge_node(json_view(*target), json_view(*source)) == goal);
    let mut k: usize = 0;
    while k < sm.len()
        invariant
            k <= sm.len(),
            merge_node(json_view(*target), json_view(*source)) == goal,
            goal == match merge_members(tm2, smv, smv.len() as int) {
                Err(e) => Err(e),
                Ok(tm3) => Ok(JsonView::Object(tm3)),
            },
            *source == JsonValue::Object(*sm),
            smv == members_view(sm@),
            smv.len() == sm.len(),
            forall|j: int| 0 <= j < sm.len() ==> #[trigger] smv[j] == (sm@[j].key@, json_view(sm@[j].value)),
            merge_members(tm2, smv, k as int) == Ok::<Seq<(Seq<char>, JsonView)>, NodeErrorView>(members_view(acc@)),
        decreases sm.len() - k,
    {
        assert(smv[k as int] == (sm@[k as int].key@, json_view(sm@[k as int].value)));
        let key = &sm[k].key;
        if !(str_eq(key.as_str(), "df") || str_eq(key.as_str(), "docs")) {
            proof {
                lemma_members_view(acc@);
            }
            match find_member(&acc, key.as_str()) {
                Some(j) => {
                    assert(members_view(acc@)[j as int].1 == json_view(acc@[j as int].value));
                    assert(decreases_to!(*source => source->Object_0@[k as int].value));
                    match merge_inverted_index_nodes(&acc[j].value, &sm[k].value) {
                        Err(e) => {
                            proof {
                                lemma_merge_members_err(tm2, smv, k + 1, sm.len() as int);
                            }
                            return Err(e);
                        },
                        Ok(m) => {
                            set_member(&mut acc, key.as_str(), m);
                        },
                    }
                },
                None => {
                    set_member(&mut acc, key.as_str(), json_clone(&sm[k].value));
                },
            }
        }
        k += 1;
    }
    Ok(JsonValue::Object(acc))
}

} // verus!
