//! Feed classification: what an upstream response amounts to. Transport
//! failures, non-success statuses and empty bodies all read as the
//! canonical empty payload; a body that is JSON is taken apart into one
//! of the two recognized shapes — the live object or the historical
//! array — and anything else is a schema error. The JSON reading itself
//! is serde_json's, behind trusted declarations that tie what they
//! return to a named model of the parsed document; every decision
//! around them is verified against that model.

use vstd::prelude::*;
use vstd::string::StrSliceExecFns;

use crate::text::trim_spec;
use crate::text::trim_str;

verus! {

#[verifier::external_type_specification]
#[verifier::external_body]
pub struct ExValue(serde_json::Value);

/// What a parsed JSON value is: its kind, and for the kinds this feed
/// reads — strings, arrays, objects — its contents.
pub ghost enum JsonView {
    Null,
    Bool(bool),
    Num,
    Text(Seq<char>),
    Arr(Seq<serde_json::Value>),
    Obj(Map<Seq<char>, serde_json::Value>),
}

/// The model of a serde_json value: which variant it holds and what is
/// inside. The probing declarations below all speak of it.
pub uninterp spec fn json_view(v: serde_json::Value) -> JsonView;

/// Whether serde_json accepts a text as a JSON document; the parse
/// succeeds or fails by the text alone.
pub uninterp spec fn json_ok(s: Seq<char>) -> bool;

/// What one member of a parsed JSON object is, as far as this feed
/// reads it: absent, null, a string, an array of strings, or any other
/// value.
pub ghost enum FieldDoc {
    Missing,
    Null,
    Text(Seq<char>),
    Strings(Seq<Seq<char>>),
    Other,
}

/// What one element of a parsed historical array is: not an object, or
/// an object read through its three entry members.
pub ghost enum EntryDoc {
    NotObject,
    Fields { date: FieldDoc, locality: FieldDoc, category: FieldDoc },
}

/// What a parsed feed document is, projected onto the members the feed
/// reads: an object with its `data`, `cat` and `desc` members, an
/// array of entry elements, or any other document.
pub ghost enum JsonDoc {
    Object { data: FieldDoc, cat: FieldDoc, desc: FieldDoc },
    Array(Seq<EntryDoc>),
    Other,
}

/// The document a text parses to, projected as [`JsonDoc`]; a function
/// of the text alone, meaningful on texts that parse at all.
pub uninterp spec fn doc_of(s: Seq<char>) -> JsonDoc;

/// The elements of `es` are exactly the strings `xs`.
pub open spec fn is_string_array(es: Seq<serde_json::Value>, xs: Seq<Seq<char>>) -> bool {
    es.len() == xs.len() && forall|i: int|
        0 <= i < es.len() ==> json_view(#[trigger] es[i]) == JsonView::Text(xs[i])
}

/// The member `key` of object `m` is what the field document `f` says
/// it is.
pub open spec fn field_agrees(
    m: Map<Seq<char>, serde_json::Value>,
    key: Seq<char>,
    f: FieldDoc,
) -> bool {
    match f {
        FieldDoc::Missing => !m.contains_key(key),
        FieldDoc::Null => m.contains_key(key) && json_view(m[key]) is Null,
        FieldDoc::Text(t) => m.contains_key(key) && json_view(m[key]) == JsonView::Text(t),
        FieldDoc::Strings(xs) => m.contains_key(key) && (json_view(m[key])
            matches JsonView::Arr(es) && is_string_array(es, xs)),
        FieldDoc::Other => m.contains_key(key) && match json_view(m[key]) {
            JsonView::Null => false,
            JsonView::Text(_) => false,
            JsonView::Arr(es) => !(forall|i: int|
                0 <= i < es.len() ==> json_view(#[trigger] es[i]) is Text),
            _ => true,
        },
    }
}

/// The array element `v` is what the entry document `e` says it is.
pub open spec fn entry_agrees(v: serde_json::Value, e: EntryDoc) -> bool {
    match e {
        EntryDoc::NotObject => !(json_view(v) is Obj),
        EntryDoc::Fields { date, locality, category } => json_view(v)
            matches JsonView::Obj(m) && field_agrees(m, "alertDate"@, date) && field_agrees(
            m,
            "data"@,
            locality,
        ) && field_agrees(m, "category"@, category),
    }
}

/// The parsed value `v` is what the document `d` says it is.
pub open spec fn doc_agrees(v: serde_json::Value, d: JsonDoc) -> bool {
    match d {
        JsonDoc::Object { data, cat, desc } => json_view(v) matches JsonView::Obj(m)
            && field_agrees(m, "data"@, data) && field_agrees(m, "cat"@, cat) && field_agrees(
            m,
            "desc"@,
            desc,
        ),
        JsonDoc::Array(es) => json_view(v) matches JsonView::Arr(vs) && vs.len() == es.len()
            && forall|i: int| 0 <= i < vs.len() ==> entry_agrees(#[trigger] vs[i], es[i]),
        JsonDoc::Other => !(json_view(v) is Obj) && !(json_view(v) is Arr),
    }
}

/// Relies on serde_json::from_str: parses a text as a JSON document,
/// which then is what the text's document model says.
#[verifier::external_body]
fn parse_json(s: &str) -> (r: Option<serde_json::Value>)
    ensures
        r is Some <==> json_ok(s@),
        r matches Some(v) ==> doc_agrees(v, doc_of(s@)),
{
    serde_json::from_str::<serde_json::Value>(s).ok()
}

/// Relies on serde_json::Value::is_object.
#[verifier::external_body]
fn value_is_object(v: &serde_json::Value) -> (r: bool)
    ensures
        r == (json_view(*v) is Obj),
{
    v.is_object()
}

/// Relies on serde_json::Value::is_null.
#[verifier::external_body]
fn value_is_null(v: &serde_json::Value) -> (r: bool)
    ensures
        r == (json_view(*v) is Null),
{
    v.is_null()
}

/// Relies on serde_json::Value::get: the named member of an object,
/// nothing on any other document.
#[verifier::external_body]
fn value_get<'a>(v: &'a serde_json::Value, key: &str) -> (r: Option<&'a serde_json::Value>)
    ensures
        json_view(*v) matches JsonView::Obj(m) ==> ((r is Some <==> m.contains_key(key@)) && (
        r matches Some(f) ==> m.contains_key(key@) && *f == m[key@])),
        !(json_view(*v) is Obj) ==> r is None,
{
    v.get(key)
}

/// Relies on serde_json::Value::as_str, with the text copied out.
#[verifier::external_body]
fn value_as_str(v: &serde_json::Value) -> (r: Option<String>)
    ensures
        r is Some <==> json_view(*v) is Text,
        r matches Some(s) ==> json_view(*v) == JsonView::Text(s@),
{
    v.as_str().map(|s| s.to_string())
}

/// Relies on serde_json::Value::as_array.
#[verifier::external_body]
fn value_as_array<'a>(v: &'a serde_json::Value) -> (r: Option<&'a Vec<serde_json::Value>>)
    ensures
        r is Some <==> json_view(*v) is Arr,
        r matches Some(a) ==> json_view(*v) == JsonView::Arr(a@),
{
    v.as_array()
}

/// One entry of the historical feed, as received: each field may be
/// absent.
#[derive(Debug, PartialEq, Eq)]
pub struct HistoryEntry {
    pub date: Option<String>,
    pub locality: Option<String>,
    pub category: Option<String>,
}

/// The mathematical value of a [`HistoryEntry`].
pub ghost struct HistoryEntryView {
    pub date: Option<Seq<char>>,
    pub locality: Option<Seq<char>>,
    pub category: Option<Seq<char>>,
}

impl View for HistoryEntry {
    type V = HistoryEntryView;

    open spec fn view(&self) -> HistoryEntryView {
        HistoryEntryView {
            date: self.date.deep_view(),
            locality: self.locality.deep_view(),
            category: self.category.deep_view(),
        }
    }
}

impl DeepView for HistoryEntry {
    type V = HistoryEntryView;

    open spec fn deep_view(&self) -> HistoryEntryView {
        self.view()
    }
}

/// A feed payload in one of the two recognized shapes.
#[derive(Debug, PartialEq, Eq)]
pub enum FeedPayload {
    Live { cities: Option<Vec<String>>, category: Option<String>, instructions: Option<String> },
    Historical { entries: Vec<HistoryEntry> },
}

/// The mathematical value of a [`FeedPayload`].
pub ghost enum FeedPayloadView {
    Live {
        cities: Option<Seq<Seq<char>>>,
        category: Option<Seq<char>>,
        instructions: Option<Seq<char>>,
    },
    Historical { entries: Seq<HistoryEntryView> },
}

impl View for FeedPayload {
    type V = FeedPayloadView;

    open spec fn view(&self) -> FeedPayloadView {
        match self {
            FeedPayload::Live { cities, category, instructions } => FeedPayloadView::Live {
                cities: cities.deep_view(),
                category: category.deep_view(),
                instructions: instructions.deep_view(),
            },
            FeedPayload::Historical { entries } => FeedPayloadView::Historical {
                entries: entries.deep_view(),
            },
        }
    }
}

/// The canonical empty payload: no alert.
pub open spec fn none_payload() -> FeedPayloadView {
    FeedPayloadView::Live { cities: None, category: None, instructions: None }
}

fn make_none_payload() -> (r: FeedPayload)
    ensures
        r@ == none_payload(),
{
    FeedPayload::Live { cities: None, category: None, instructions: None }
}

/// How reaching the upstream feed went: not at all, or a status with a
/// body.
pub enum HttpOutcome {
    Failed,
    Response { status: u16, body: String },
}

/// Why a body could not become a payload: not JSON at all, or JSON in
/// neither recognized shape.
#[derive(Debug, Clone, Copy, PartialEq, Eq)]
pub enum FeedError {
    Parse,
    Schema,
}

/// What a string member yields: nothing when absent or null, its text
/// when a string, no reading otherwise.
pub open spec fn text_field_policy(f: FieldDoc) -> Option<Option<Seq<char>>> {
    match f {
        FieldDoc::Missing => Some(None),
        FieldDoc::Null => Some(None),
        FieldDoc::Text(t) => Some(Some(t)),
        _ => None,
    }
}

/// What the city-list member yields: nothing when absent or null, its
/// strings when an array of strings, no reading otherwise.
pub open spec fn list_field_policy(f: FieldDoc) -> Option<Option<Seq<Seq<char>>>> {
    match f {
        FieldDoc::Missing => Some(None),
        FieldDoc::Null => Some(None),
        FieldDoc::Strings(xs) => Some(Some(xs)),
        _ => None,
    }
}

/// What one historical element yields: its three members read as
/// optional strings; no reading when it is not such an object.
pub open spec fn entry_policy(e: EntryDoc) -> Option<HistoryEntryView> {
    match e {
        EntryDoc::NotObject => None,
        EntryDoc::Fields { date, locality, category } => {
            match (text_field_policy(date), text_field_policy(locality), text_field_policy(
                category,
            )) {
                (Some(d), Some(l), Some(c)) => Some(
                    HistoryEntryView { date: d, locality: l, category: c },
                ),
                _ => None,
            }
        },
    }
}

/// What a historical array yields: every element read as an entry; no
/// reading when any element refuses.
pub open spec fn entries_policy(es: Seq<EntryDoc>) -> Option<Seq<HistoryEntryView>>
    decreases es.len(),
{
    if es.len() == 0 {
        Some(Seq::empty())
    } else {
        match (entries_policy(es.drop_last()), entry_policy(es.last())) {
            (Some(rs), Some(r)) => Some(rs.push(r)),
            _ => None,
        }
    }
}

/// What a parsed feed document yields: an object without a `data`
/// member is the canonical empty payload; an object with one is the
/// live payload when its members read; an array is the historical
/// payload when its entries read; everything else, and every failed
/// reading, breaks the schema.
pub open spec fn payload_policy(d: JsonDoc) -> Result<FeedPayloadView, FeedError> {
    match d {
        JsonDoc::Object { data, cat, desc } => {
            if data is Missing {
                Ok(none_payload())
            } else {
                match (list_field_policy(data), text_field_policy(cat), text_field_policy(desc)) {
                    (Some(cs), Some(c), Some(i)) => Ok(
                        FeedPayloadView::Live { cities: cs, category: c, instructions: i },
                    ),
                    _ => Err(FeedError::Schema),
                }
            }
        },
        JsonDoc::Array(es) => match entries_policy(es) {
            Some(rs) => Ok(FeedPayloadView::Historical { entries: rs }),
            None => Err(FeedError::Schema),
        },
        JsonDoc::Other => Err(FeedError::Schema),
    }
}

/// An optional string member of a JSON object, read as its field
/// document says.
fn opt_string_field(v: &serde_json::Value, key: &str, Ghost(f): Ghost<FieldDoc>) -> (r: Result<
    Option<String>,
    FeedError,
>)
    requires
        (json_view(*v) matches JsonView::Obj(m) && field_agrees(m, key@, f)),
    ensures
        match text_field_policy(f) {
            Some(t) => r matches Ok(o) && o.deep_view() == t,
            None => r == Err::<Option<String>, FeedError>(FeedError::Schema),
        },
{
    match value_get(v, key) {
        None => {
            proof {
                assert(f is Missing);
            }
            Ok(None)
        },
        Some(fv) => {
            if value_is_null(fv) {
                proof {
                    assert(f is Null);
                }
                Ok(None)
            } else {
                match value_as_str(fv) {
                    None => {
                        proof {
                            assert(text_field_policy(f) is None);
                        }
                        Err(FeedError::Schema)
                    },
                    Some(s) => {
                        proof {
                            assert(f == FieldDoc::Text(s@));
                        }
                        Ok(Some(s))
                    },
                }
            }
        },
    }
}

/// Takes a live-shape object apart into its payload, as the document's
/// policy says.
#[verifier::loop_isolation(false)]
fn extract_live(
    v: &serde_json::Value,
    Ghost(data): Ghost<FieldDoc>,
    Ghost(cat): Ghost<FieldDoc>,
    Ghost(desc): Ghost<FieldDoc>,
) -> (r: Result<FeedPayload, FeedError>)
    requires
        doc_agrees(*v, JsonDoc::Object { data, cat, desc }),
        !(data is Missing),
    ensures
        match payload_policy(JsonDoc::Object { data, cat, desc }) {
            Ok(pv) => r matches Ok(p) && p@ == pv,
            Err(e) => r == Err::<FeedPayload, FeedError>(e),
        },
{
    let ghost m = json_view(*v)->Obj_0;
    let cities: Option<Vec<String>> = match value_get(v, "data") {
        None => {
            proof {
                assert(false);
            }
            None
        },
        Some(d) => {
            if value_is_null(d) {
                proof {
                    assert(data is Null);
                }
                None
            } else {
                match value_as_array(d) {
                    None => {
                        proof {
                            assert(list_field_policy(data) is None);
                        }
                        return Err(FeedError::Schema);
                    },
                    Some(arr) => {
                        let n = arr.len();
                        let mut cs: Vec<String> = Vec::new();
                        let mut i: usize = 0;
                        proof {
                            assert(cs.deep_view() =~= Seq::<Seq<char>>::empty());
                        }
                        while i < n
                            invariant
                                n == arr@.len(),
                                0 <= i <= n,
                                cs.deep_view().len() == i,
                                forall|k: int|
                                    0 <= k < i ==> json_view(#[trigger] arr@[k]) == JsonView::Text(
                                        cs.deep_view()[k],
                                    ),
                            decreases n - i,
                        {
                            match value_as_str(&arr[i]) {
                                None => {
                                    proof {
                                        match data {
                                            FieldDoc::Strings(xs) => {
                                                assert(json_view(arr@[i as int])
                                                    == JsonView::Text(xs[i as int]));
                                            },
                                            _ => {},
                                        }
                                        assert(list_field_policy(data) is None);
                                    }
                                    return Err(FeedError::Schema);
                                },
                                Some(s) => {
                                    let ghost pre = cs.deep_view();
                                    cs.push(s);
                                    proof {
                                        assert(cs.deep_view() =~= pre.push(s@));
                                    }
                                },
                            }
                            i += 1;
                        }
                        proof {
                            match data {
                                FieldDoc::Strings(xs) => {
                                    assert(is_string_array(arr@, xs));
                                    assert forall|k: int|
                                        0 <= k < xs.len() implies cs.deep_view()[k] == xs[k] by {
                                        assert(json_view(arr@[k]) == JsonView::Text(
                                            cs.deep_view()[k],
                                        ));
                                        assert(json_view(arr@[k]) == JsonView::Text(xs[k]));
                                    }
                                    assert(cs.deep_view() =~= xs);
                                },
                                FieldDoc::Other => {
                                    assert(false);
                                },
                                _ => {
                                    assert(false);
                                },
                            }
                        }
                        Some(cs)
                    },
                }
            }
        },
    };
    let category = match opt_string_field(v, "cat", Ghost(cat)) {
        Ok(c) => c,
        Err(e) => {
            return Err(e);
        },
    };
    let instructions = match opt_string_field(v, "desc", Ghost(desc)) {
        Ok(i) => i,
        Err(e) => {
            return Err(e);
        },
    };
    Ok(FeedPayload::Live { cities, category, instructions })
}

proof fn lemma_entries_policy_none_sticks(es: Seq<EntryDoc>, k: int)
    requires
        0 <= k <= es.len(),
        entries_policy(es.subrange(0, k)) is None,
    ensures
        entries_policy(es) is None,
    decreases es.len() - k,
{
    if k == es.len() {
        assert(es.subrange(0, k) =~= es);
    } else {
        let p = es.subrange(0, k);
        let q = es.subrange(0, k + 1);
        assert(q.drop_last() =~= p);
        lemma_entries_policy_none_sticks(es, k + 1);
    }
}

/// Takes a historical-shape array apart into its entries, as the
/// document's policy says.
#[verifier::loop_isolation(false)]
fn extract_historical(arr: &Vec<serde_json::Value>, Ghost(es): Ghost<Seq<EntryDoc>>) -> (r: Result<
    Vec<HistoryEntry>,
    FeedError,
>)
    requires
        arr@.len() == es.len(),
        forall|i: int| 0 <= i < arr@.len() ==> entry_agrees(#[trigger] arr@[i], es[i]),
    ensures
        match entries_policy(es) {
            Some(rs) => r matches Ok(v) && v.deep_view() == rs,
            None => r == Err::<Vec<HistoryEntry>, FeedError>(FeedError::Schema),
        },
{
    let n = arr.len();
    let mut entries: Vec<HistoryEntry> = Vec::new();
    let mut i: usize = 0;
    proof {
        assert(es.subrange(0, 0) =~= Seq::<EntryDoc>::empty());
        assert(entries.deep_view() =~= Seq::<HistoryEntryView>::empty());
    }
    while i < n
        invariant
            0 <= i <= n,
            entries_policy(es.subrange(0, i as int)) == Some(entries.deep_view()),
        decreases n - i,
    {
        let ghost pre = es.subrange(0, i as int);
        let ghost post = es.subrange(0, i + 1);
        proof {
            assert(post.drop_last() =~= pre);
            assert(post.last() == es[i as int]);
        }
        let e = &arr[i];
        if !value_is_object(e) {
            proof {
                assert(es[i as int] is NotObject);
                lemma_entries_policy_none_sticks(es, i + 1);
            }
            return Err(FeedError::Schema);
        }
        let ghost ed = es[i as int];
        proof {
            assert(ed matches EntryDoc::Fields { .. });
        }
        let ghost fdate = ed->Fields_date;
        let ghost flocality = ed->Fields_locality;
        let ghost fcategory = ed->Fields_category;
        let date = match opt_string_field(e, "alertDate", Ghost(fdate)) {
            Ok(d) => d,
            Err(_) => {
                proof {
                    lemma_entries_policy_none_sticks(es, i + 1);
                }
                return Err(FeedError::Schema);
            },
        };
        let locality = match opt_string_field(e, "data", Ghost(flocality)) {
            Ok(l) => l,
            Err(_) => {
                proof {
                    lemma_entries_policy_none_sticks(es, i + 1);
                }
                return Err(FeedError::Schema);
            },
        };
        let category = match opt_string_field(e, "category", Ghost(fcategory)) {
            Ok(c) => c,
            Err(_) => {
                proof {
                    lemma_entries_policy_none_sticks(es, i + 1);
                }
                return Err(FeedError::Schema);
            },
        };
        let ghost pre_entries = entries.deep_view();
        entries.push(HistoryEntry { date, locality, category });
        proof {
            assert(entries.deep_view() =~= pre_entries.push(
                (HistoryEntry { date, locality, category })@,
            ));
            assert(entries_policy(post) == Some(entries.deep_view()));
        }
        i += 1;
    }
    proof {
        assert(es.subrange(0, n as int) =~= es);
    }
    Ok(entries)
}

/// Classifies an upstream response into a feed payload. A transport
/// failure, a non-success status and a blank body all read as the
/// canonical empty payload; a body that is not JSON is a parse error;
/// a body that is reads exactly as its document's policy says.
pub fn fetch_payload(outcome: &HttpOutcome) -> (r: Result<FeedPayload, FeedError>)
    ensures
        outcome is Failed ==> (r matches Ok(p) && p@ == none_payload()),
        (outcome matches HttpOutcome::Response { status, .. } && !(200 <= *status < 300)) ==> (
        r matches Ok(p) && p@ == none_payload()),
        (outcome matches HttpOutcome::Response { status, body } && 200 <= *status < 300
            && trim_spec(body@).len() == 0) ==> (r matches Ok(p) && p@ == none_payload()),
        (outcome matches HttpOutcome::Response { status, body } && 200 <= *status < 300
            && trim_spec(body@).len() > 0) ==> ((r matches Err(e) && e == FeedError::Parse)
            <==> !json_ok(outcome->body@)),
        (outcome matches HttpOutcome::Response { status, body } && 200 <= *status < 300
            && trim_spec(body@).len() > 0 && json_ok(body@)) ==> (match payload_policy(
            doc_of(outcome->body@),
        ) {
            Ok(pv) => r matches Ok(p) && p@ == pv,
            Err(e) => r == Err::<FeedPayload, FeedError>(e),
        }),
{
    match outcome {
        HttpOutcome::Failed => Ok(make_none_payload()),
        HttpOutcome::Response { status, body } => {
            if !(200 <= *status && *status < 300) {
                return Ok(make_none_payload());
            }
            let t = trim_str(body.as_str());
            if t.as_str().unicode_len() == 0 {
                return Ok(make_none_payload());
            }
            match parse_json(body.as_str()) {
                None => Err(FeedError::Parse),
                Some(v) => {
                    let ghost d = doc_of(body@);
                    match value_as_array(&v) {
                        Some(arr) => {
                            proof {
                                assert(d matches JsonDoc::Array(..));
                            }
                            let ghost es = d->Array_0;
                            match extract_historical(arr, Ghost(es)) {
                                Ok(entries) => Ok(FeedPayload::Historical { entries }),
                                Err(e) => Err(e),
                            }
                        },
                        None => {
                            if value_is_object(&v) {
                                proof {
                                    assert(d matches JsonDoc::Object { .. });
                                }
                                let ghost data = d->Object_data;
                                let ghost cat = d->Object_cat;
                                let ghost desc = d->Object_desc;
                                match value_get(&v, "data") {
                                    None => {
                                        proof {
                                            assert(data is Missing);
                                        }
                                        Ok(make_none_payload())
                                    },
                                    Some(_) => {
                                        proof {
                                            assert(!(data is Missing));
                                        }
                                        extract_live(&v, Ghost(data), Ghost(cat), Ghost(desc))
                                    },
                                }
                            } else {
                                proof {
                                    assert(d is Other);
                                }
                                Err(FeedError::Schema)
                            }
                        },
                    }
                },
            }
        },
    }
}

} // verus!
