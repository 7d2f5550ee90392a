//! The time-bucket indexer's key computation: a deliberately simple,
//! reproducible `(year, week)` bucket derived from a timestamp.
//!
//! The formula uses a fixed 365-day year and 7-day weeks counted from the
//! start of that year, with no leap-year correction: it is a stable bucketing
//! function, not a calendar.  Week numbers start at 1.

use vstd::prelude::*;

use crate::types::{BucketKey, Timestamp};

verus! {

/// Whole seconds of a timestamp, which is measured in microseconds.
pub open spec fn timestamp_seconds(t: Timestamp) -> int {
    t.0 as int / 1000000
}

/// Days elapsed since the Unix epoch.
pub open spec fn days_of(seconds: int) -> int {
    seconds / 86400
}

/// The bucket year: 1970 plus elapsed fixed-length years.
pub open spec fn bucket_year(seconds: int) -> int {
    1970 + days_of(seconds) / 365
}

/// The bucket week: the day's position inside its fixed-length year,
/// divided into 7-day weeks, counted from 1.
pub open spec fn bucket_week(seconds: int) -> int {
    (days_of(seconds) % 365) / 7 + 1
}

/// The bucket key of a moment, per the two functions above.
pub open spec fn spec_bucket_key(seconds: int) -> BucketKey {
    BucketKey { year: bucket_year(seconds) as i64, week: bucket_week(seconds) as u32 }
}

/// Compute the `(year, week)` bucket of a timestamp.
///
/// The result is a function of the timestamp alone: the same moment always
/// lands in the same bucket, on every replica.
pub fn bucket_key(timestamp: Timestamp) -> (k: BucketKey)
    requires
        timestamp.0 >= 0,
    ensures
        k == spec_bucket_key(timestamp_seconds(timestamp)),
        1 <= k.week <= 53,
        k.year >= 1970,
{
    let micros: u64 = timestamp.0 as u64;
    let seconds: u64 = micros / 1000000;
    let days: u64 = seconds / 86400;
    let years_elapsed: u64 = days / 365;
    let day_of_year: u64 = days % 365;
    let week: u32 = (day_of_year / 7 + 1) as u32;
    let year: i64 = 1970 + (years_elapsed as i64);
    proof {
        vstd::arithmetic::div_mod::lemma_mod_bound(days as int, 365);
        vstd::arithmetic::div_mod::lemma_div_is_ordered(seconds as int, u64::MAX as int, 86400);
        vstd::arithmetic::div_mod::lemma_div_nonincreasing(days as int, 365);
        vstd::arithmetic::div_mod::lemma_div_pos_is_pos(days as int, 365);
        assert(seconds as int == timestamp_seconds(timestamp));
        assert(days as int == days_of(seconds as int));
    }
    BucketKey { year, week }
}

/// Two moments fall in the same bucket exactly when the formula places their
/// days in the same fixed-length year and the same 7-day slot of it: the
/// bucket key separates nothing finer and nothing coarser than that window.
pub proof fn lemma_bucket_key_window(s1: int, s2: int)
    requires
        0 <= s1 <= i64::MAX,
        0 <= s2 <= i64::MAX,
    ensures
        spec_bucket_key(s1) == spec_bucket_key(s2) <==> {
            &&& days_of(s1) / 365 == days_of(s2) / 365
            &&& (days_of(s1) % 365) / 7 == (days_of(s2) % 365) / 7
        },
{
    vstd::arithmetic::div_mod::lemma_div_pos_is_pos(s1, 86400);
    vstd::arithmetic::div_mod::lemma_div_pos_is_pos(s2, 86400);
    vstd::arithmetic::div_mod::lemma_div_pos_is_pos(days_of(s1), 365);
    vstd::arithmetic::div_mod::lemma_div_pos_is_pos(days_of(s2), 365);
    vstd::arithmetic::div_mod::lemma_mod_bound(days_of(s1), 365);
    vstd::arithmetic::div_mod::lemma_mod_bound(days_of(s2), 365);
    vstd::arithmetic::div_mod::lemma_div_nonincreasing(s1, 86400);
    vstd::arithmetic::div_mod::lemma_div_nonincreasing(s2, 86400);
    vstd::arithmetic::div_mod::lemma_div_nonincreasing(days_of(s1), 365);
    vstd::arithmetic::div_mod::lemma_div_nonincreasing(days_of(s2), 365);
}

} // verus!
