use vstd::prelude::*;

verus! {

/// Length of one period, in seconds.
pub const SECONDS_IN_PERIOD: i64 = 1800;

/// Largest byte length of a winner's user name.
pub const MAX_USERNAME_LEN: usize = 32;

/// Largest byte length of a post identifier.
pub const MAX_POST_ID_LEN: usize = 64;

/// Name given to the collection when it is created.
pub const COLLECTION_NAME: &'static str = "Daily Winners NFT Collection";

/// Start of the period that holds `t`, with division truncated toward zero
/// as Rust's `/` does on signed integers.
pub open spec fn period_start(t: int) -> int {
    if t >= 0 {
        (t / 1800) * 1800
    } else {
        -(((-t) / 1800) * 1800)
    }
}

/// Whether `t` is the first second of a period.
pub open spec fn is_aligned(t: int) -> bool {
    t % 1800 == 0
}

/// Rounds a Unix timestamp to the start of its period.
pub fn get_period_timestamp(unix_timestamp: i64) -> (r: i64)
    ensures
        r as int == period_start(unix_timestamp as int),
        is_aligned(r as int),
{
    (unix_timestamp / SECONDS_IN_PERIOD) * SECONDS_IN_PERIOD
}

} // verus!
