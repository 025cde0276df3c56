//! One poll cycle's decision: payload to canonical alert to zones to
//! dispatch plan. The caller fetches the payload and performs the
//! planned sends; everything between is verified against the composed
//! specification.

use vstd::prelude::*;

use crate::dispatch::dispatch_plan_spec;
use crate::dispatch::plan_dispatch;
use crate::dispatch::DispatchPlan;
use crate::feed::FeedPayload;
use crate::feed::FeedPayloadView;
use crate::normalize::canonical_of;
use crate::normalize::normalize;
use crate::zones::resolve;
use crate::zones::zone_list_spec;
use crate::zones::CityEntry;

verus! {

/// What one cycle comes to: the payload's canonical alert resolved and
/// planned; nothing when the alert is suppressed.
pub open spec fn cycle_plan_spec(p: FeedPayloadView, g: Seq<CityEntry>, now: i64) -> Option<
    (Seq<char>, Seq<u32>),
> {
    let a = canonical_of(p, now);
    dispatch_plan_spec(a.alert_type, a.instructions, zone_list_spec(a.cities, g))
}

/// Decides one poll cycle: normalizes the payload, resolves its
/// localities against the gazetteer, and plans the dispatch. Nothing
/// to send reads as no plan.
pub fn plan_cycle(payload: &FeedPayload, gazetteer: &Vec<CityEntry>, now: i64) -> (r: Option<
    DispatchPlan,
>)
    ensures
        r is None <==> cycle_plan_spec(payload@, gazetteer@, now) is None,
        r matches Some(p) ==> cycle_plan_spec(payload@, gazetteer@, now) == Some(
            (p.message@, p.channels@),
        ),
{
    let alert = normalize(payload, now);
    let zones = resolve(&alert.cities, gazetteer);
    plan_dispatch(&alert, &zones)
}

} // verus!
