use vstd::prelude::*;

verus! {

/// A 32-byte account identity: an authority, a wallet or the collection's
/// own address.
#[derive(Clone, Copy, Debug, PartialEq, Eq)]
pub struct Identity {
    pub bytes: [u8; 32],
}

impl View for Identity {
    type V = Seq<u8>;

    open spec fn view(&self) -> Seq<u8> {
        self.bytes@
    }
}

impl Identity {
    pub fn new(bytes: [u8; 32]) -> (r: Identity)
        ensures
            r@ == bytes@,
    {
        Identity { bytes }
    }

    /// Byte-wise comparison of two identities.
    pub fn same_as(&self, other: &Identity) -> (r: bool)
        ensures
            r == (self@ == other@),
    {
        broadcast use vstd::array::group_array_axioms;

        let mut i: usize = 0;
        while i < 32
            invariant
                i <= 32,
                self@.len() == 32,
                other@.len() == 32,
                forall|j: int| 0 <= j < i ==> self@[j] == other@[j],
            decreases 32 - i,
        {
            if self.bytes[i] != other.bytes[i] {
                return false;
            }
            i = i + 1;
        }
        assert(self@ =~= other@);
        true
    }
}

/// The registry: who may add records, and how many were admitted and
/// certified.
pub struct NFTCollection {
    pub authority: Identity,
    pub collection_name: String,
    pub total_minted: u64,
    pub total_periods: u64,
    pub created_at: i64,
}

pub struct CollectionView {
    pub authority: Seq<u8>,
    pub collection_name: Seq<char>,
    pub total_minted: int,
    pub total_periods: int,
    pub created_at: int,
}

impl View for NFTCollection {
    type V = CollectionView;

    open spec fn view(&self) -> CollectionView {
        CollectionView {
            authority: self.authority@,
            collection_name: self.collection_name@,
            total_minted: self.total_minted as int,
            total_periods: self.total_periods as int,
            created_at: self.created_at as int,
        }
    }
}

impl NFTCollection {
    /// Counts one more admitted period.
    pub fn record_period_admitted(&mut self)
        requires
            old(self).total_periods < u64::MAX,
        ensures
            final(self)@ == (CollectionView {
                total_periods: old(self)@.total_periods + 1,
                ..old(self)@
            }),
    {
        self.total_periods = self.total_periods + 1;
    }

    /// Counts one more issued certificate.
    pub fn record_certificate_issued(&mut self)
        requires
            old(self).total_minted < u64::MAX,
        ensures
            final(self)@ == (CollectionView {
                total_minted: old(self)@.total_minted + 1,
                ..old(self)@
            }),
    {
        self.total_minted = self.total_minted + 1;
    }
}

/// The winning post of one period.
pub struct Winner30Min {
    pub period_timestamp: i64,
    pub winner_username: String,
    pub post_id: String,
    pub like_count: u64,
    pub has_been_minted: bool,
}

pub struct WinnerView {
    pub period_timestamp: int,
    pub winner_username: Seq<char>,
    pub post_id: Seq<char>,
    pub like_count: int,
    pub has_been_minted: bool,
}

impl View for Winner30Min {
    type V = WinnerView;

    open spec fn view(&self) -> WinnerView {
        WinnerView {
            period_timestamp: self.period_timestamp as int,
            winner_username: self.winner_username@,
            post_id: self.post_id@,
            like_count: self.like_count as int,
            has_been_minted: self.has_been_minted,
        }
    }
}

/// The certificate issued for a winner: a snapshot of the winner's data at
/// the time it was certified.
pub struct DefessNFT {
    pub collection: Identity,
    pub winner_post_id: String,
    pub winner_username: String,
    pub like_count: u64,
    pub minted_at: i64,
    pub period_timestamp: i64,
}

pub struct CertificateView {
    pub collection: Seq<u8>,
    pub winner_post_id: Seq<char>,
    pub winner_username: Seq<char>,
    pub like_count: int,
    pub minted_at: int,
    pub period_timestamp: int,
}

impl View for DefessNFT {
    type V = CertificateView;

    open spec fn view(&self) -> CertificateView {
        CertificateView {
            collection: self.collection@,
            winner_post_id: self.winner_post_id@,
            winner_username: self.winner_username@,
            like_count: self.like_count as int,
            minted_at: self.minted_at as int,
            period_timestamp: self.period_timestamp as int,
        }
    }
}

} // verus!
