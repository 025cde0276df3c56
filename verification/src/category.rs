//! Classification of upstream category codes. The live feed and the
//! historical feed use two different numeric code spaces; each has its own
//! total lookup table, and anything outside a table reads as `unknown`.

use vstd::prelude::*;
use vstd::string::StringExecFns;

use crate::text::parse_u32_spec;
use crate::text::parse_u32_str;

verus! {

/// The label a live-feed numeric code stands for.
pub open spec fn live_label_of_code(n: u32) -> Seq<char> {
    if n == 1 {
        "missiles"@
    } else if n == 2 {
        "general"@
    } else if n == 3 {
        "earthQuake"@
    } else if n == 4 {
        "radiologicalEvent"@
    } else if n == 5 {
        "tsunami"@
    } else if n == 6 {
        "hostileAircraftIntrusion"@
    } else if n == 7 {
        "hazardousMaterials"@
    } else if n == 13 {
        "terroristInfiltration"@
    } else if n == 101 {
        "missilesDrill"@
    } else if n == 102 {
        "generalDrill"@
    } else if n == 103 {
        "earthQuakeDrill"@
    } else if n == 104 {
        "radiologicalEventDrill"@
    } else if n == 105 {
        "tsunamiDrill"@
    } else if n == 106 {
        "hostileAircraftIntrusionDrill"@
    } else if n == 107 {
        "hazardousMaterialsDrill"@
    } else if n == 113 {
        "terroristInfiltrationDrill"@
    } else {
        "unknown"@
    }
}

/// The label a historical-feed numeric code stands for.
pub open spec fn hist_label_of_code(n: u32) -> Seq<char> {
    if n == 1 {
        "missiles"@
    } else if n == 2 {
        "hostileAircraftIntrusion"@
    } else if n == 3 {
        "general"@
    } else if n == 4 {
        "general"@
    } else if n == 7 {
        "earthQuake"@
    } else if n == 9 {
        "radiologicalEvent"@
    } else if n == 10 {
        "terroristInfiltration"@
    } else if n == 11 {
        "tsunami"@
    } else if n == 12 {
        "hazardousMaterials"@
    } else {
        "unknown"@
    }
}

/// What classifying a live-feed category string yields: the code's label
/// when the string is a numeral, `unknown` otherwise.
pub open spec fn live_label(c: Seq<char>) -> Seq<char> {
    match parse_u32_spec(c) {
        Some(n) => live_label_of_code(n),
        None => "unknown"@,
    }
}

/// What classifying a historical-feed category string yields.
pub open spec fn hist_label(c: Seq<char>) -> Seq<char> {
    match parse_u32_spec(c) {
        Some(n) => hist_label_of_code(n),
        None => "unknown"@,
    }
}

/// Maps a live-feed category string to its alert-type label.
pub fn get_alert_type_by_category(category: &str) -> (r: String)
    ensures
        r@ == live_label(category@),
{
    match parse_u32_str(category) {
        Some(1u32) => String::from_str("missiles"),
        Some(2u32) => String::from_str("general"),
        Some(3u32) => String::from_str("earthQuake"),
        Some(4u32) => String::from_str("radiologicalEvent"),
        Some(5u32) => String::from_str("tsunami"),
        Some(6u32) => String::from_str("hostileAircraftIntrusion"),
        Some(7u32) => String::from_str("hazardousMaterials"),
        Some(13u32) => String::from_str("terroristInfiltration"),
        Some(101u32) => String::from_str("missilesDrill"),
        Some(102u32) => String::from_str("generalDrill"),
        Some(103u32) => String::from_str("earthQuakeDrill"),
        Some(104u32) => String::from_str("radiologicalEventDrill"),
        Some(105u32) => String::from_str("tsunamiDrill"),
        Some(106u32) => String::from_str("hostileAircraftIntrusionDrill"),
        Some(107u32) => String::from_str("hazardousMaterialsDrill"),
        Some(113u32) => String::from_str("terroristInfiltrationDrill"),
        _ => String::from_str("unknown"),
    }
}

/// Maps a historical-feed category string to its alert-type label.
pub fn get_alert_type_by_historical_category(category: &str) -> (r: String)
    ensures
        r@ == hist_label(category@),
{
    match parse_u32_str(category) {
        Some(1u32) => String::from_str("missiles"),
        Some(2u32) => String::from_str("hostileAircraftIntrusion"),
        Some(3u32) => String::from_str("general"),
        Some(4u32) => String::from_str("general"),
        Some(7u32) => String::from_str("earthQuake"),
        Some(9u32) => String::from_str("radiologicalEvent"),
        Some(10u32) => String::from_str("terroristInfiltration"),
        Some(11u32) => String::from_str("tsunami"),
        Some(12u32) => String::from_str("hazardousMaterials"),
        _ => String::from_str("unknown"),
    }
}

/// One of the labels either table can yield.
pub open spec fn is_defined_label(l: Seq<char>) -> bool {
    ||| l == "missiles"@
    ||| l == "general"@
    ||| l == "earthQuake"@
    ||| l == "radiologicalEvent"@
    ||| l == "tsunami"@
    ||| l == "hostileAircraftIntrusion"@
    ||| l == "hazardousMaterials"@
    ||| l == "terroristInfiltration"@
    ||| l == "missilesDrill"@
    ||| l == "generalDrill"@
    ||| l == "earthQuakeDrill"@
    ||| l == "radiologicalEventDrill"@
    ||| l == "tsunamiDrill"@
    ||| l == "hostileAircraftIntrusionDrill"@
    ||| l == "hazardousMaterialsDrill"@
    ||| l == "terroristInfiltrationDrill"@
    ||| l == "unknown"@
}

/// Neither table ever classifies to the label `none`: `none` means no
/// alert at all, never a category's reading.
pub proof fn lemma_labels_never_none(c: Seq<char>)
    ensures
        live_label(c) != "none"@,
        hist_label(c) != "none"@,
{
    reveal_strlit("none");
    reveal_strlit("missiles");
    reveal_strlit("general");
    reveal_strlit("earthQuake");
    reveal_strlit("radiologicalEvent");
    reveal_strlit("tsunami");
    reveal_strlit("hostileAircraftIntrusion");
    reveal_strlit("hazardousMaterials");
    reveal_strlit("terroristInfiltration");
    reveal_strlit("missilesDrill");
    reveal_strlit("generalDrill");
    reveal_strlit("earthQuakeDrill");
    reveal_strlit("radiologicalEventDrill");
    reveal_strlit("tsunamiDrill");
    reveal_strlit("hostileAircraftIntrusionDrill");
    reveal_strlit("hazardousMaterialsDrill");
    reveal_strlit("terroristInfiltrationDrill");
    reveal_strlit("unknown");
    assert("none"@.len() == 4);
    assert("missiles"@.len() == 8);
    assert("general"@.len() == 7);
    assert("earthQuake"@.len() == 10);
    assert("radiologicalEvent"@.len() == 17);
    assert("tsunami"@.len() == 7);
    assert("hostileAircraftIntrusion"@.len() == 24);
    assert("hazardousMaterials"@.len() == 18);
    assert("terroristInfiltration"@.len() == 21);
    assert("missilesDrill"@.len() == 13);
    assert("generalDrill"@.len() == 12);
    assert("earthQuakeDrill"@.len() == 15);
    assert("radiologicalEventDrill"@.len() == 22);
    assert("tsunamiDrill"@.len() == 12);
    assert("hostileAircraftIntrusionDrill"@.len() == 29);
    assert("hazardousMaterialsDrill"@.len() == 23);
    assert("terroristInfiltrationDrill"@.len() == 26);
    assert("unknown"@.len() == 7);
}

/// Category mapping is total: every category string — numeral or not, in
/// a table or out of it — classifies to a defined label under either
/// table, and anything that is not a numeral of a listed code classifies
/// to `unknown`.
pub proof fn lemma_category_mapping_total(c: Seq<char>)
    ensures
        is_defined_label(live_label(c)),
        is_defined_label(hist_label(c)),
        parse_u32_spec(c) is None ==> live_label(c) == "unknown"@ && hist_label(c) == "unknown"@,
{
}

} // verus!
