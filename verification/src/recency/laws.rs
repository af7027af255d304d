//! What the flags for a window come to.

use vstd::prelude::*;

use super::{cutoff_of, day_text, is_day, midnight_of, Cutoff};
use crate::calendar::quotient;
use crate::error::OslError;

verus! {

/// No flag keeps everything. A number of days, at least one, keeps from the midnight so many
/// days before today's on; a date keeps from its own midnight on, and has to exist. Both
/// together are refused.
pub proof fn law_what_the_flags_come_to(days: u64, date: Seq<char>, now: i64)
    ensures
        cutoff_of(None, None, now) == Ok::<Option<Cutoff>, OslError<Seq<char>>>(None),
        cutoff_of(Some(days), Some(date), now) is Err,
        cutoff_of(Some(days), Some(date), now)->Err_0 is Usage,
        cutoff_of(Some(0), None, now) is Err && cutoff_of(Some(0), None, now)->Err_0 is Usage,
        0 < days <= i64::MAX && i64::MIN <= quotient(now as int, 86400) * 86400 - days * 86400
            ==> {
            let c = cutoff_of(Some(days), None, now);
            &&& c is Ok && c->Ok_0 is Some
            &&& c->Ok_0->0.unix == quotient(now as int, 86400) * 86400 - days * 86400
            &&& c->Ok_0->0.date == day_text(c->Ok_0->0.unix as int)
        },
        ({
            let c = cutoff_of(None, Some(date), now);
            &&& c is Ok <==> is_day(date)
            &&& c is Err ==> c->Err_0 is Usage
            &&& c is Ok ==> c->Ok_0 is Some && c->Ok_0->0.date == date && midnight_of(date)
                == Ok::<i64, OslError<Seq<char>>>(c->Ok_0->0.unix)
        }),
{
    let today = quotient(now as int, 86400) * 86400;
    assert(today <= i64::MAX);
}

}
