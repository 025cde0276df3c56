//! The dispatch engine's decisions: suppression of drills and tests,
//! message text, channel selection, the global minimum gap between
//! sends, and the per-send retry policy. The outbound radio transport
//! itself is an external program; the caller performs each planned
//! send and feeds its outcome back in.

use vstd::prelude::*;
use vstd::string::StringExecFns;

use crate::alert::AlertResult;
use crate::text::contains_lower;
use crate::text::str_contains_ci;
use crate::text::str_eq;
use crate::zones::ZoneSet;

verus! {

/// Least allowed gap between the starts of two consecutive sends.
pub const MIN_SEND_GAP_MS: u64 = 10000;

/// Fixed delay between the attempts of one send.
pub const RETRY_DELAY_MS: u64 = 5000;

/// Retries after the first attempt of one send.
pub const SEND_RETRIES: u32 = 3;

/// The broadcast channel that reaches every zone.
pub const BROADCAST_CHANNEL: u32 = 0;

/// An alert type that must never be sent out: no alert at all, or an
/// exercise (its label contains `drill` or `test` in any letter case).
pub open spec fn suppressed(t: Seq<char>) -> bool {
    t == "none"@ || contains_lower(t, "drill"@) || contains_lower(t, "test"@)
}

/// Decides whether an alert type is suppressed.
pub fn is_suppressed(alert_type: &str) -> (r: bool)
    ensures
        r == suppressed(alert_type@),
{
    str_eq(alert_type, "none") || str_contains_ci(alert_type, "drill") || str_contains_ci(
        alert_type,
        "test",
    )
}

/// The outbound message text: the alert type after a siren mark, then
/// the quoted instructions when there are any.
pub open spec fn message_spec(t: Seq<char>, instructions: Option<Seq<char>>) -> Seq<char> {
    match instructions {
        Some(i) => "🚨"@ + t + " - \""@ + i + "\""@,
        None => "🚨"@ + t,
    }
}

/// Builds the outbound message text.
pub fn build_message(alert_type: &str, instructions: &Option<String>) -> (r: String)
    ensures
        r@ == message_spec(alert_type@, instructions.deep_view()),
{
    let mut m = String::from_str("🚨");
    m.append(alert_type);
    match instructions {
        Some(i) => {
            m.append(" - \"");
            m.append(i.as_str());
            m.append("\"");
            proof {
                assert(m@ =~= message_spec(alert_type@, instructions.deep_view()));
            }
        },
        None => {},
    }
    m
}

/// The channels one alert goes out on: the single broadcast channel
/// when more than six zones are affected, otherwise one channel per
/// affected zone; none when no zone is affected.
pub open spec fn channels_spec(zs: Seq<u32>) -> Seq<u32> {
    if zs.len() > 6 {
        seq![BROADCAST_CHANNEL]
    } else {
        zs
    }
}

/// A planned dispatch: the message and the channels to send it to.
#[derive(Debug)]
pub struct DispatchPlan {
    pub message: String,
    pub channels: Vec<u32>,
}

/// What dispatching an alert comes to: nothing for a suppressed type,
/// otherwise the message text and the target channels.
pub open spec fn dispatch_plan_spec(
    t: Seq<char>,
    instructions: Option<Seq<char>>,
    zs: Seq<u32>,
) -> Option<(Seq<char>, Seq<u32>)> {
    if suppressed(t) {
        None
    } else {
        Some((message_spec(t, instructions), channels_spec(zs)))
    }
}

/// Plans the dispatch of a normalized alert to its resolved zones.
pub fn plan_dispatch(alert: &AlertResult, zones: &ZoneSet) -> (r: Option<DispatchPlan>)
    ensures
        r is None <==> dispatch_plan_spec(
            alert.alert_type@,
            alert.instructions.deep_view(),
            zones.zones@,
        ) is None,
        r matches Some(p) ==> dispatch_plan_spec(
            alert.alert_type@,
            alert.instructions.deep_view(),
            zones.zones@,
        ) == Some((p.message@, p.channels@)),
{
    if is_suppressed(alert.alert_type.as_str()) {
        return None;
    }
    let message = build_message(alert.alert_type.as_str(), &alert.instructions);
    let n = zones.len();
    let mut channels: Vec<u32> = Vec::new();
    if n > 6 {
        channels.push(BROADCAST_CHANNEL);
        proof {
            assert(channels@ =~= channels_spec(zones.zones@));
        }
    } else {
        let mut i: usize = 0;
        while i < n
            invariant
                n == zones.zones@.len(),
                n <= 6,
                0 <= i <= n,
                channels@ == zones.zones@.subrange(0, i as int),
            decreases n - i,
        {
            channels.push(zones.zones[i]);
            proof {
                assert(channels@ =~= zones.zones@.subrange(0, i + 1));
            }
            i += 1;
        }
        proof {
            assert(channels@ =~= zones.zones@);
        }
    }
    Some(DispatchPlan { message, channels })
}

/// Suppression keeps exercises off the air: a suppressed alert type
/// yields no dispatch at all, whatever its localities resolved to.
pub proof fn lemma_suppressed_no_dispatch(
    t: Seq<char>,
    instructions: Option<Seq<char>>,
    zs: Seq<u32>,
)
    requires
        suppressed(t),
    ensures
        dispatch_plan_spec(t, instructions, zs) is None,
{
}

/// The pacing state of the dispatch engine: when the last successful
/// send started, if any has.
pub struct MessageSender {
    pub last_message_time: Option<u64>,
}

/// How long a send that is ready at `now_ms` must still wait to keep
/// the minimum gap from the previous send.
pub open spec fn pacing_delay_spec(last: Option<u64>, now_ms: u64) -> u64 {
    match last {
        None => 0u64,
        Some(t) => if now_ms - t >= MIN_SEND_GAP_MS {
            0u64
        } else {
            (MIN_SEND_GAP_MS - (now_ms - t)) as u64
        },
    }
}

impl MessageSender {
    /// A fresh engine: no send has happened, so none is owed a gap.
    pub fn new() -> (r: MessageSender)
        ensures
            r.last_message_time is None,
    {
        MessageSender { last_message_time: None }
    }

    /// How long to wait before the next send may start. `now_ms` comes
    /// from the same monotonic clock as the recorded send times.
    pub fn pacing_delay_ms(&self, now_ms: u64) -> (r: u64)
        requires
            self.last_message_time matches Some(t) ==> t <= now_ms,
        ensures
            r == pacing_delay_spec(self.last_message_time, now_ms),
    {
        match self.last_message_time {
            None => 0,
            Some(t) => {
                let elapsed = now_ms - t;
                if elapsed >= MIN_SEND_GAP_MS {
                    0
                } else {
                    MIN_SEND_GAP_MS - elapsed
                }
            },
        }
    }

    /// Records a successful send that started at `now_ms`.
    pub fn record_send(&mut self, now_ms: u64)
        ensures
            final(self).last_message_time == Some(now_ms),
    {
        self.last_message_time = Some(now_ms);
    }
}

/// Pacing: when a send was recorded at `t1`, the earliest moment the
/// next send may start — `now` plus the owed delay — lies at least the
/// minimum gap after `t1`.
pub proof fn lemma_pacing_gap(t1: u64, now: u64)
    requires
        t1 <= now,
    ensures
        now + pacing_delay_spec(Some(t1), now) >= t1 + MIN_SEND_GAP_MS,
{
}

/// What one attempt's outcome means for the send: done, another try
/// after the fixed delay, or the send has failed for good.
#[derive(Debug, PartialEq, Eq)]
pub enum SendStep {
    Sent,
    RetryAfterMs(u64),
    Failed,
}

/// Decides how a send goes on after attempt number `attempt` (counted
/// from zero) out of `1 + retries` allowed attempts.
pub fn retry_decision(attempt: u32, retries: u32, ok: bool) -> (r: SendStep)
    ensures
        ok ==> r == SendStep::Sent,
        !ok && attempt < retries ==> r == SendStep::RetryAfterMs(RETRY_DELAY_MS),
        !ok && attempt >= retries ==> r == SendStep::Failed,
{
    if ok {
        SendStep::Sent
    } else if attempt < retries {
        SendStep::RetryAfterMs(RETRY_DELAY_MS)
    } else {
        SendStep::Failed
    }
}

} // verus!
