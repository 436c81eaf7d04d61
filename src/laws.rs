//! What holds of the ledger across operations.
use vstd::prelude::*;

use crate::error::ErrorCode;
use crate::ledger::{
    byte_len, has_period, has_post, lemma_admit_preserves_wf, lemma_mint_preserves_wf,
    lemma_minted_count_le, period_index, LedgerView,
};

verus! {

/// In a well-formed ledger, and so after every operation, no two records
/// share a period.
pub proof fn lemma_one_record_per_period(v: LedgerView, t: int)
    requires
        v.wf(),
    ensures
        forall|i: int, j: int|
            0 <= i < v.winners.len() && 0 <= j < v.winners.len()
                && (#[trigger] v.winners[i]).period_timestamp == t
                && (#[trigger] v.winners[j]).period_timestamp == t ==> i == j,
{
}

/// In a well-formed ledger, and so after every operation, no more
/// certificates have been issued than periods admitted.
pub proof fn lemma_minted_at_most_periods(v: LedgerView)
    requires
        v.wf(),
        v.collection is Some,
    ensures
        v.collection->Some_0.total_minted <= v.collection->Some_0.total_periods,
{
    lemma_minted_count_le(v.winners);
}

/// Neither admission nor certification turns a certified record back into
/// an uncertified one, and neither moves a record.
pub proof fn lemma_certified_stays_certified(
    v: LedgerView,
    caller: Seq<u8>,
    t: int,
    username: Seq<char>,
    post_id: Seq<char>,
    like_count: int,
    now: int,
    minted_period: int,
)
    requires
        v.wf(),
    ensures
        v.admit_check(caller, t, username, post_id, like_count, now) is Ok ==> forall|i: int|
            0 <= i < v.winners.len() ==> #[trigger] v.admit_next(
                t,
                username,
                post_id,
                like_count,
            ).winners[i] == v.winners[i],
        v.mint_check(caller, minted_period) is Ok ==> forall|i: int|
            0 <= i < v.winners.len() ==> (#[trigger] v.mint_next(minted_period, now).winners[i]).period_timestamp
                == v.winners[i].period_timestamp && (v.winners[i].has_been_minted
                ==> v.mint_next(minted_period, now).winners[i].has_been_minted),
{
}

/// Once a record has been certified, every later certification of its
/// period fails and so changes nothing; where the caller may certify, it
/// fails because the record is already certified.
pub proof fn lemma_second_certification_fails(
    v: LedgerView,
    caller: Seq<u8>,
    t: int,
    now: int,
    second_caller: Seq<u8>,
    issued: bool,
)
    requires
        v.wf(),
        v.mint_result(caller, t, true) is Ok,
    ensures
        v.mint_next(t, now).wf(),
        v.mint_next(t, now).mint_result(second_caller, t, issued) is Err,
        !v.certify_requires_authority || second_caller == v.collection->Some_0.authority
            ==> v.mint_next(t, now).mint_result(second_caller, t, issued) == Err::<(), ErrorCode>(
            ErrorCode::AlreadyMinted,
        ),
{
    lemma_mint_preserves_wf(v, caller, t, now);
    let n = v.mint_next(t, now);
    let i = period_index(v.winners, t);
    assert(n.winners[i].period_timestamp == t);
    assert(has_period(n.winners, t));
    assert(period_index(n.winners, t) == i);
}

/// Admission of a period that is not on a period boundary always fails;
/// where the collection exists and the caller is its authority, it fails
/// because the period is invalid.
pub proof fn lemma_misaligned_period_rejected(
    v: LedgerView,
    caller: Seq<u8>,
    t: int,
    username: Seq<char>,
    post_id: Seq<char>,
    like_count: int,
    now: int,
)
    requires
        t % 1800 != 0,
    ensures
        v.admit_check(caller, t, username, post_id, like_count, now) is Err,
        v.collection is Some && caller == v.collection->Some_0.authority ==> v.admit_check(
            caller,
            t,
            username,
            post_id,
            like_count,
            now,
        ) == Err::<(), ErrorCode>(ErrorCode::InvalidPeriod),
{
}

/// An admission that passes every earlier check fails on a zero like count
/// and succeeds on a like count of one, where the period and post are free.
pub proof fn lemma_like_count_bound(
    v: LedgerView,
    t: int,
    username: Seq<char>,
    post_id: Seq<char>,
    now: int,
)
    requires
        v.wf(),
        v.collection is Some,
        t < now,
        t % 1800 == 0,
        0 < byte_len(username) <= 32,
        0 < byte_len(post_id) <= 64,
    ensures
        v.admit_check(v.collection->Some_0.authority, t, username, post_id, 0, now) == Err::<
            (),
            ErrorCode,
        >(ErrorCode::InvalidLikeCount),
        !has_period(v.winners, t) && !has_post(v.winners, post_id)
            && v.collection->Some_0.total_periods < u64::MAX ==> v.admit_check(
            v.collection->Some_0.authority,
            t,
            username,
            post_id,
            1,
            now,
        ) is Ok,
{
}

/// A successful admission leaves exactly one record for its period, whose
/// data is what was admitted, and it is not yet certified.
pub proof fn lemma_admitted_record_is_unique(
    v: LedgerView,
    caller: Seq<u8>,
    t: int,
    username: Seq<char>,
    post_id: Seq<char>,
    like_count: int,
    now: int,
)
    requires
        v.wf(),
        v.admit_check(caller, t, username, post_id, like_count, now) is Ok,
    ensures
        ({
            let n = v.admit_next(t, username, post_id, like_count);
            &&& n.wf()
            &&& has_period(n.winners, t)
            &&& period_index(n.winners, t) == v.winners.len()
            &&& !n.winners[period_index(n.winners, t)].has_been_minted
            &&& n.winners[period_index(n.winners, t)].post_id == post_id
        }),
{
    lemma_admit_preserves_wf(v, caller, t, username, post_id, like_count, now);
    let n = v.admit_next(t, username, post_id, like_count);
    assert(n.winners[v.winners.len() as int].period_timestamp == t);
}

} // verus!
