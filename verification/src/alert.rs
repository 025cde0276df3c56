//! The canonical alert every feed schema normalizes into.

use vstd::prelude::*;

verus! {

/// A normalized alert: its type label, the affected localities in
/// first-seen order without duplicates, and optional instructions.
/// An alert whose type is `none` carries no localities and leads to
/// no dispatch.
#[derive(Debug, PartialEq, Eq)]
pub struct AlertResult {
    pub alert_type: String,
    pub cities: Vec<String>,
    pub instructions: Option<String>,
}

/// The mathematical value of an [`AlertResult`].
pub ghost struct AlertView {
    pub alert_type: Seq<char>,
    pub cities: Seq<Seq<char>>,
    pub instructions: Option<Seq<char>>,
}

impl View for AlertResult {
    type V = AlertView;

    open spec fn view(&self) -> AlertView {
        AlertView {
            alert_type: self.alert_type@,
            cities: self.cities.deep_view(),
            instructions: self.instructions.deep_view(),
        }
    }
}

/// The alert that an empty or suppressed cycle yields.
pub open spec fn none_alert() -> AlertView {
    AlertView { alert_type: "none"@, cities: Seq::empty(), instructions: None }
}

} // verus!
