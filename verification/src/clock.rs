use vstd::prelude::*;

verus! {

/// The latest instant the library accepts as "now": 9999-12-31T23:59:59Z.
pub const MAX_NOW_SECS: i64 = 253402300799;

/// An instant given by the caller as the current time: whole seconds since the
/// Unix epoch and the nanoseconds within that second.
#[derive(Clone, Copy, Debug, PartialEq, Eq, Structural)]
pub struct Now {
    pub secs: i64,
    pub nanos: u32,
}

impl Now {
    pub open spec fn valid(self) -> bool {
        0 <= self.secs <= MAX_NOW_SECS && self.nanos < 1_000_000_000
    }
}

/// The time from the instant that the RFC 3339 text `s` names up to `now`, as
/// chrono's `TimeDelta` gives it: whole seconds (rounded toward zero) and the
/// remaining nanoseconds (with the sign of the whole); `None` when `s` is not
/// valid RFC 3339.
pub uninterp spec fn rfc3339_elapsed(s: Seq<char>, now_secs: i64, now_nanos: u32) -> Option<(i64, i32)>;

/// Calls `chrono::DateTime::parse_from_rfc3339` on `s`, and subtracts the parsed
/// instant from `now` (`DateTime<Utc> - DateTime<Utc>`), reading the difference by
/// `TimeDelta::num_seconds` and `TimeDelta::subsec_nanos`. The contract names the
/// result and states the range of the nanoseconds (`subsec_nanos` lies strictly
/// between -10^9 and 10^9 and has the sign of the difference); the parser itself
/// is not restated.
#[verifier::external_body]
pub(crate) fn elapsed_since_rfc3339(s: &str, now: Now) -> (res: Option<(i64, i32)>)
    requires
        now.valid(),
    ensures
        res == rfc3339_elapsed(s@, now.secs, now.nanos),
        res matches Some((secs, nanos)) ==> -1_000_000_000 < nanos < 1_000_000_000 && (secs > 0
            ==> nanos >= 0) && (secs < 0 ==> nanos <= 0),
{
    let now_dt = chrono::DateTime::from_timestamp(now.secs, now.nanos).unwrap();
    chrono::DateTime::parse_from_rfc3339(s).ok().map(
        |t| {
            let d = now_dt - t.with_timezone(&chrono::Utc);
            (d.num_seconds(), d.subsec_nanos())
        },
    )
}

/// Integer division rounding toward zero, as Rust's `/` on integers does.
pub open spec fn div_trunc(a: int, b: int) -> int
    recommends
        b > 0,
{
    if a >= 0 {
        a / b
    } else {
        -((-a) / b)
    }
}

/// Whole days in a span of `secs` whole seconds (`TimeDelta::num_days`).
pub open spec fn whole_days(secs: i64) -> int {
    div_trunc(secs as int, 86400)
}

pub fn num_days(secs: i64) -> (res: i64)
    ensures
        res == whole_days(secs),
{
    secs / 86400
}

} // verus!
