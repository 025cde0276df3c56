//! Normalization of a feed payload into the canonical alert. Localities
//! are trimmed, entries naming the native-script test marker are
//! dropped, duplicates are kept once in first-seen order, historical
//! entries older than the freshness window — or whose date cannot be
//! read — are discarded, and the category code classifies the alert
//! type under the table of the payload's own schema. Normalization is
//! total: a payload in one of the two recognized shapes always yields
//! an alert.

use vstd::prelude::*;
use vstd::string::StringExecFns;

use crate::alert::none_alert;
use crate::alert::AlertResult;
use crate::alert::AlertView;
use crate::category::get_alert_type_by_category;
use crate::category::get_alert_type_by_historical_category;
use crate::category::hist_label;
use crate::category::lemma_labels_never_none;
use crate::category::live_label;
use crate::feed::none_payload;
use crate::feed::FeedPayload;
use crate::feed::FeedPayloadView;
use crate::feed::HistoryEntryView;
use crate::text::contains_seq;
use crate::text::str_contains;
use crate::text::str_eq;
use crate::text::trim_spec;
use crate::text::trim_str;

verus! {

/// Seconds a historical entry stays fresh.
pub const FRESH_WINDOW_SECS: i64 = 120;

/// The native-script word that marks a test entry.
pub open spec fn test_marker() -> Seq<char> {
    "בדיקה"@
}

/// What chrono makes of an RFC 3339 timestamp: seconds since the Unix
/// epoch, or nothing when the text is not a well-formed timestamp.
pub uninterp spec fn rfc3339_secs(s: Seq<char>) -> Option<i64>;

/// Relies on chrono::DateTime::parse_from_rfc3339 and its timestamp:
/// both depend on the text alone.
#[verifier::external_body]
fn parse_rfc3339_secs(s: &str) -> (r: Option<i64>)
    ensures
        r == rfc3339_secs(s@),
{
    match chrono::DateTime::parse_from_rfc3339(s) {
        Ok(d) => Some(d.timestamp()),
        Err(_) => None,
    }
}

/// Adds one live-feed locality to the list: trimmed, dropped when it
/// names the test marker or is already listed.
pub open spec fn add_locality(acc: Seq<Seq<char>>, city: Seq<char>) -> Seq<Seq<char>> {
    let t = trim_spec(city);
    if contains_seq(t, test_marker()) {
        acc
    } else if acc.contains(t) {
        acc
    } else {
        acc.push(t)
    }
}

/// The localities a live payload's city list yields, in first-seen
/// order without duplicates.
pub open spec fn live_localities(cities: Seq<Seq<char>>) -> Seq<Seq<char>>
    decreases cities.len(),
{
    if cities.len() == 0 {
        Seq::empty()
    } else {
        add_locality(live_localities(cities.drop_last()), cities.last())
    }
}

/// The canonical alert a live payload yields. A payload without a
/// category is no alert: its type stays `none` and it names no
/// localities.
pub open spec fn live_canonical(
    cities: Option<Seq<Seq<char>>>,
    category: Option<Seq<char>>,
    instructions: Option<Seq<char>>,
) -> AlertView {
    AlertView {
        alert_type: match category {
            Some(c) => live_label(c),
            None => "none"@,
        },
        cities: match category {
            None => Seq::empty(),
            Some(_) => match cities {
                Some(cs) => live_localities(cs),
                None => Seq::empty(),
            },
        },
        instructions,
    }
}

/// The running state while historical entries are folded up: the
/// localities so far and the type the last counted entry set.
pub ghost struct HistState {
    pub cities: Seq<Seq<char>>,
    pub alert_type: Seq<char>,
}

/// What one historical entry does to the state: an entry missing a
/// field, or whose date is no readable timestamp, changes nothing; a
/// stale or test-marked entry is dropped; any other entry adds its
/// locality and sets the alert type — later entries win.
pub open spec fn hist_step(st: HistState, e: HistoryEntryView, now: i64) -> HistState {
    match (e.date, e.locality, e.category) {
        (Some(d), Some(l), Some(c)) => match rfc3339_secs(d) {
            None => st,
            Some(ts) => {
                if now - ts > FRESH_WINDOW_SECS {
                    st
                } else {
                    let t = trim_spec(l);
                    if contains_seq(t, test_marker()) {
                        st
                    } else {
                        HistState {
                            cities: if st.cities.contains(t) {
                                st.cities
                            } else {
                                st.cities.push(t)
                            },
                            alert_type: hist_label(c),
                        }
                    }
                }
            },
        },
        _ => st,
    }
}

/// The state all historical entries fold up to, in feed order.
pub open spec fn hist_fold(entries: Seq<HistoryEntryView>, now: i64) -> HistState
    decreases entries.len(),
{
    if entries.len() == 0 {
        HistState { cities: Seq::empty(), alert_type: "none"@ }
    } else {
        hist_step(hist_fold(entries.drop_last(), now), entries.last(), now)
    }
}

/// What normalizing a payload at time `now` yields.
pub open spec fn canonical_of(p: FeedPayloadView, now: i64) -> AlertView {
    match p {
        FeedPayloadView::Live { cities, category, instructions } => live_canonical(
            cities,
            category,
            instructions,
        ),
        FeedPayloadView::Historical { entries } => {
            let st = hist_fold(entries, now);
            AlertView { alert_type: st.alert_type, cities: st.cities, instructions: None }
        },
    }
}

/// Does the list already hold this locality?
fn vec_contains_str(v: &Vec<String>, s: &str) -> (r: bool)
    ensures
        r == v.deep_view().contains(s@),
{
    let n = v.len();
    let mut i: usize = 0;
    while i < n
        invariant
            n == v@.len(),
            0 <= i <= n,
            forall|k: int| 0 <= k < i ==> v.deep_view()[k] != s@,
        decreases n - i,
    {
        if str_eq(v[i].as_str(), s) {
            proof {
                assert(v.deep_view()[i as int] == s@);
            }
            return true;
        }
        i += 1;
    }
    proof {
        if v.deep_view().contains(s@) {
            let k = choose|k: int| 0 <= k < v.deep_view().len() && v.deep_view()[k] == s@;
            assert(v.deep_view()[k] != s@);
        }
    }
    false
}

/// Normalizes a feed payload into the canonical alert, exactly as
/// [`canonical_of`] states it.
#[verifier::loop_isolation(false)]
pub fn normalize(payload: &FeedPayload, now: i64) -> (r: AlertResult)
    ensures
        r@ == canonical_of(payload@, now),
{
    match payload {
        FeedPayload::Live { cities, category, instructions } => {
            let mut acc: Vec<String> = Vec::new();
            match category {
                None => {},
                Some(_) => match cities {
                    None => {},
                    Some(cs) => {
                        let n = cs.len();
                        let mut i: usize = 0;
                        proof {
                            assert(cs.deep_view().subrange(0, 0) =~= Seq::<Seq<char>>::empty());
                        }
                        while i < n
                            invariant
                                n == cs@.len(),
                                0 <= i <= n,
                                acc.deep_view() == live_localities(
                                    cs.deep_view().subrange(0, i as int),
                                ),
                            decreases n - i,
                        {
                            let ghost pre = cs.deep_view().subrange(0, i as int);
                            let ghost post = cs.deep_view().subrange(0, i + 1);
                            proof {
                                assert(post.drop_last() =~= pre);
                                assert(post.last() == cs.deep_view()[i as int]);
                            }
                            let t = trim_str(cs[i].as_str());
                            if !str_contains(t.as_str(), "בדיקה") {
                                let dup = vec_contains_str(&acc, t.as_str());
                                if !dup {
                                    let ghost accpre = acc.deep_view();
                                    acc.push(t);
                                    proof {
                                        assert(acc.deep_view() =~= accpre.push(trim_spec(
                                            cs.deep_view()[i as int],
                                        )));
                                    }
                                }
                            }
                            proof {
                                assert(acc.deep_view() =~= live_localities(post));
                            }
                            i += 1;
                        }
                        proof {
                            assert(cs.deep_view().subrange(0, n as int) =~= cs.deep_view());
                        }
                    },
                },
            }
            proof {
                if category is None || cities is None {
                    assert(acc.deep_view() =~= Seq::<Seq<char>>::empty());
                }
            }
            let alert_type = match category {
                None => String::from_str("none"),
                Some(c) => get_alert_type_by_category(c.as_str()),
            };
            let instructions_out = match instructions {
                None => None,
                Some(s) => Some(s.clone()),
            };
            AlertResult { alert_type, cities: acc, instructions: instructions_out }
        },
        FeedPayload::Historical { entries } => {
            let n = entries.len();
            let mut acc: Vec<String> = Vec::new();
            let mut atype: String = String::from_str("none");
            let mut i: usize = 0;
            proof {
                assert(entries.deep_view().subrange(0, 0) =~= Seq::<HistoryEntryView>::empty());
                assert(acc.deep_view() =~= Seq::<Seq<char>>::empty());
            }
            while i < n
                invariant
                    n == entries@.len(),
                    0 <= i <= n,
                    hist_fold(entries.deep_view().subrange(0, i as int), now) == (HistState {
                        cities: acc.deep_view(),
                        alert_type: atype@,
                    }),
                decreases n - i,
            {
                let ghost pre = entries.deep_view().subrange(0, i as int);
                let ghost post = entries.deep_view().subrange(0, i + 1);
                proof {
                    assert(post.drop_last() =~= pre);
                    assert(post.last() == entries.deep_view()[i as int]);
                }
                let e = &entries[i];
                match (&e.date, &e.locality, &e.category) {
                    (Some(d), Some(l), Some(c)) => {
                        match parse_rfc3339_secs(d.as_str()) {
                            None => {},
                            Some(ts) => {
                                let stale = (now as i128) - (ts as i128) > FRESH_WINDOW_SECS
                                    as i128;
                                if !stale {
                                    let t = trim_str(l.as_str());
                                    if !str_contains(t.as_str(), "בדיקה") {
                                        let dup = vec_contains_str(&acc, t.as_str());
                                        if !dup {
                                            let ghost accpre = acc.deep_view();
                                            acc.push(t);
                                            proof {
                                                assert(acc.deep_view() =~= accpre.push(trim_spec(
                                                    l@,
                                                )));
                                            }
                                        }
                                        atype = get_alert_type_by_historical_category(c.as_str());
                                    }
                                }
                            },
                        }
                    },
                    _ => {},
                }
                proof {
                    assert(hist_fold(post, now) == (HistState {
                        cities: acc.deep_view(),
                        alert_type: atype@,
                    }));
                }
                i += 1;
            }
            proof {
                assert(entries.deep_view().subrange(0, n as int) =~= entries.deep_view());
            }
            AlertResult { alert_type: atype, cities: acc, instructions: None }
        },
    }
}

proof fn lemma_live_no_marker(cities: Seq<Seq<char>>)
    ensures
        forall|k: int|
            0 <= k < live_localities(cities).len() ==> !contains_seq(
                #[trigger] live_localities(cities)[k],
                test_marker(),
            ),
    decreases cities.len(),
{
    if cities.len() > 0 {
        lemma_live_no_marker(cities.drop_last());
        let prev = live_localities(cities.drop_last());
        let t = trim_spec(cities.last());
        if !contains_seq(t, test_marker()) && !prev.contains(t) {
            assert forall|k: int|
                0 <= k < prev.push(t).len() implies !contains_seq(
                #[trigger] prev.push(t)[k],
                test_marker(),
            ) by {
                if k < prev.len() {
                    assert(prev.push(t)[k] == prev[k]);
                } else {
                    assert(prev.push(t)[k] == t);
                }
            }
        }
    }
}

proof fn lemma_hist_no_marker(entries: Seq<HistoryEntryView>, now: i64)
    ensures
        forall|k: int|
            0 <= k < hist_fold(entries, now).cities.len() ==> !contains_seq(
                #[trigger] hist_fold(entries, now).cities[k],
                test_marker(),
            ),
    decreases entries.len(),
{
    if entries.len() > 0 {
        lemma_hist_no_marker(entries.drop_last(), now);
        let st = hist_fold(entries.drop_last(), now);
        let e = entries.last();
        match (e.date, e.locality, e.category) {
            (Some(d), Some(l), Some(c)) => {
                let t = trim_spec(l);
                if rfc3339_secs(d) matches Some(ts) && !(now - ts > FRESH_WINDOW_SECS)
                    && !contains_seq(t, test_marker()) && !st.cities.contains(t) {
                    assert forall|k: int|
                        0 <= k < st.cities.push(t).len() implies !contains_seq(
                        #[trigger] st.cities.push(t)[k],
                        test_marker(),
                    ) by {
                        if k < st.cities.len() {
                            assert(st.cities.push(t)[k] == st.cities[k]);
                        } else {
                            assert(st.cities.push(t)[k] == t);
                        }
                    }
                }
            },
            _ => {},
        }
    }
}

/// Test-marked entries never reach the air: whatever the feed schema,
/// every locality of a normalized alert is free of the test marker.
pub proof fn lemma_test_marker_excluded(p: FeedPayloadView, now: i64)
    ensures
        forall|k: int|
            0 <= k < canonical_of(p, now).cities.len() ==> !contains_seq(
                #[trigger] canonical_of(p, now).cities[k],
                test_marker(),
            ),
{
    match p {
        FeedPayloadView::Live { cities, category, .. } => {
            match (category, cities) {
                (Some(_), Some(cs)) => {
                    lemma_live_no_marker(cs);
                },
                _ => {},
            }
        },
        FeedPayloadView::Historical { entries } => lemma_hist_no_marker(entries, now),
    }
}

/// A historical entry that is complete, carries a well-formed
/// timestamp, and lies beyond the freshness window.
pub open spec fn entry_stale(e: HistoryEntryView, now: i64) -> bool {
    match (e.date, e.locality, e.category) {
        (Some(d), Some(l), Some(c)) => match rfc3339_secs(d) {
            Some(ts) => now - ts > FRESH_WINDOW_SECS,
            None => false,
        },
        _ => false,
    }
}

/// The historical entries with the stale ones left out, in their order.
pub open spec fn fresh_entries(entries: Seq<HistoryEntryView>, now: i64) -> Seq<HistoryEntryView>
    decreases entries.len(),
{
    if entries.len() == 0 {
        entries
    } else {
        let rest = fresh_entries(entries.drop_last(), now);
        if entry_stale(entries.last(), now) {
            rest
        } else {
            rest.push(entries.last())
        }
    }
}

/// Stale entries are excluded: folding all historical entries is the
/// same as folding only the ones inside the freshness window.
pub proof fn lemma_stale_entries_excluded(entries: Seq<HistoryEntryView>, now: i64)
    ensures
        hist_fold(fresh_entries(entries, now), now) == hist_fold(entries, now),
    decreases entries.len(),
{
    if entries.len() > 0 {
        let dl = entries.drop_last();
        lemma_stale_entries_excluded(dl, now);
        if entry_stale(entries.last(), now) {
            assert(fresh_entries(entries, now) == fresh_entries(dl, now));
        } else {
            let f = fresh_entries(dl, now).push(entries.last());
            assert(f.drop_last() =~= fresh_entries(dl, now));
            assert(f.last() == entries.last());
        }
    }
}

/// The same, at the canonical alert: a historical payload normalizes
/// to the very alert its non-stale entries alone would give.
pub proof fn lemma_stale_entries_excluded_canonical(entries: Seq<HistoryEntryView>, now: i64)
    ensures
        canonical_of(FeedPayloadView::Historical { entries: fresh_entries(entries, now) }, now)
            == canonical_of(FeedPayloadView::Historical { entries }, now),
{
    lemma_stale_entries_excluded(entries, now);
}

/// The canonical empty payload — what the feed client yields for a
/// failed, empty or alert-free response — normalizes to the none
/// alert, which dispatch suppresses.
pub proof fn lemma_empty_payload_is_none_alert(now: i64)
    ensures
        canonical_of(none_payload(), now) == none_alert(),
{
}

proof fn lemma_hist_fold_none_invariant(entries: Seq<HistoryEntryView>, now: i64)
    ensures
        hist_fold(entries, now).alert_type == "none"@ ==> hist_fold(entries, now).cities.len()
            == 0,
    decreases entries.len(),
{
    if entries.len() > 0 {
        lemma_hist_fold_none_invariant(entries.drop_last(), now);
        let e = entries.last();
        match (e.date, e.locality, e.category) {
            (Some(d), Some(l), Some(c)) => {
                lemma_labels_never_none(c);
            },
            _ => {},
        }
    }
}

/// The canonical-alert invariant: an alert whose type is `none` names
/// no localities — so nothing is ever resolved or sent for it.
pub proof fn lemma_none_alert_carries_no_localities(p: FeedPayloadView, now: i64)
    ensures
        canonical_of(p, now).alert_type == "none"@ ==> canonical_of(p, now).cities.len() == 0,
{
    match p {
        FeedPayloadView::Live { cities, category, .. } => {
            match category {
                None => {},
                Some(c) => {
                    lemma_labels_never_none(c);
                },
            }
        },
        FeedPayloadView::Historical { entries } => {
            lemma_hist_fold_none_invariant(entries, now);
        },
    }
}

/// Normalization is a function of the payload and the clock reading
/// alone: normalizing the same payload twice yields the identical
/// canonical alert.
pub proof fn lemma_normalize_idempotent(p: FeedPayloadView, now: i64, a1: AlertView, a2: AlertView)
    requires
        a1 == canonical_of(p, now),
        a2 == canonical_of(p, now),
    ensures
        a1 == a2,
{
}

} // verus!
