//! The host clock, read through chrono and validated into the library's
//! calendar model.

use vstd::prelude::*;
use chrono::{Datelike, Timelike};
use crate::datetime::DateTime;

verus! {

/// Relies on chrono's `Local::now` with the `Datelike` and `Timelike`
/// accessors: `month` ranges over 1 to 12, `day` over 1 to 31, `hour` over
/// 0 to 23, `minute` and `second` over 0 to 59. The year carries no
/// documented bound, so nothing is assumed of it.
#[verifier::external_body]
fn local_now_parts() -> (r: (i64, u32, u32, u32, u32, u32))
    ensures
        1 <= r.1 <= 12,
        1 <= r.2 <= 31,
        r.3 < 24,
        r.4 < 60,
        r.5 < 60,
{
    let t = chrono::Local::now();
    (t.year() as i64, t.month(), t.day(), t.hour(), t.minute(), t.second())
}

/// The current local time, validated into a well-formed timestamp; `None`
/// when the host clock stands outside the representable calendar range.
pub fn now_local() -> (r: Option<DateTime>)
    ensures
        r matches Some(d) ==> d.wf(),
{
    let (y, mo, dy, h, mi, s) = local_now_parts();
    DateTime::from_parts(y, mo, dy, h, mi, s)
}

} // verus!
