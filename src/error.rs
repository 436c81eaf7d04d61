use vstd::prelude::*;

verus! {

/// Every way in which an operation on the ledger can fail. A failed
/// operation leaves the ledger as it was.
#[derive(Clone, Copy, Debug, PartialEq, Eq, Structural)]
pub enum ErrorCode {
    /// The record has already been certified.
    AlreadyMinted,
    /// The caller is not the collection's authority.
    InvalidAuthority,
    /// The period is not in the past, not aligned to a period boundary, or
    /// names no admitted record.
    InvalidPeriod,
    /// The user name is empty or too long.
    InvalidUsername,
    /// The post identifier is empty or too long.
    InvalidPostId,
    /// The like count is zero.
    InvalidLikeCount,
    /// The collection, or the record asked for, does not exist.
    NotFound,
    /// The collection has already been created.
    AlreadyInitialized,
    /// A record for this period already exists.
    PeriodTaken,
    /// A record for this post already exists.
    PostIdTaken,
    /// The period counter is at its largest value.
    CounterOverflow,
    /// The token issuer refused to issue the certificate token.
    IssuerFailure,
}

} // verus!
