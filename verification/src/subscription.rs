use vstd::prelude::*;
use crate::clock::{elapsed_since_rfc3339, rfc3339_elapsed, Now};
use crate::text::str_eq;

verus! {

/// The subscription of a chat as stored.
pub struct SubscriptionInfo {
    pub chat_username: String,
    pub paid_by_user_id: i64,
    pub paid_by_username: Option<String>,
    pub start_date: String,
    pub end_date: String,
    pub plan_type: String,
}

/// Whether a subscription ending at the RFC 3339 instant `end_date` is still
/// running at `now`: its end lies after `now`. An unreadable end date counts
/// as expired.
pub open spec fn subscription_running(end_date: Seq<char>, now: Now) -> bool {
    match rfc3339_elapsed(end_date, now.secs, now.nanos) {
        Some((secs, nanos)) => secs < 0 || (secs == 0 && nanos < 0),
        None => false,
    }
}

/// Whether a chat whose latest subscription ends at `end_date` (`None`: it
/// never had one) is paid for at `now`.
pub fn check_chat_payment(end_date: Option<&str>, now: Now) -> (res: bool)
    requires
        now.valid(),
    ensures
        res == match end_date {
            Some(e) => subscription_running(e@, now),
            None => false,
        },
{
    match end_date {
        None => false,
        Some(e) => match elapsed_since_rfc3339(e, now) {
            Some((secs, nanos)) => secs < 0 || (secs == 0 && nanos < 0),
            None => false,
        },
    }
}

pub open spec fn plan_days(plan_type: Seq<char>) -> Option<i64> {
    if plan_type == "monthly"@ {
        Some(30)
    } else if plan_type == "yearly"@ {
        Some(365)
    } else {
        None
    }
}

/// The days a subscription of `plan_type` runs; `None` for an unknown plan,
/// which cannot be subscribed to.
pub fn plan_duration_days(plan_type: &str) -> (res: Option<i64>)
    ensures
        res == plan_days(plan_type@),
{
    if str_eq(plan_type, "monthly") {
        Some(30)
    } else if str_eq(plan_type, "yearly") {
        Some(365)
    } else {
        None
    }
}

} // verus!
