use vstd::prelude::*;
use vstd::utf8::encode_utf8;

use crate::constants::{
    COLLECTION_NAME, MAX_POST_ID_LEN, MAX_USERNAME_LEN, SECONDS_IN_PERIOD,
};
use crate::error::ErrorCode;
use crate::state::{
    CertificateView, CollectionView, DefessNFT, Identity, NFTCollection, Winner30Min, WinnerView,
};

verus! {

/// Number of bytes that a string takes in UTF-8.
pub open spec fn byte_len(s: Seq<char>) -> int {
    encode_utf8(s).len() as int
}

/// Whether some record of `ws` is for period `t`.
pub open spec fn has_period(ws: Seq<WinnerView>, t: int) -> bool {
    exists|i: int| 0 <= i < ws.len() && (#[trigger] ws[i]).period_timestamp == t
}

/// Whether some record of `ws` is for post `p`.
pub open spec fn has_post(ws: Seq<WinnerView>, p: Seq<char>) -> bool {
    exists|i: int| 0 <= i < ws.len() && (#[trigger] ws[i]).post_id == p
}

/// Whether some certified record of `ws` is for post `p`.
pub open spec fn certified_post(ws: Seq<WinnerView>, p: Seq<char>) -> bool {
    exists|i: int| 0 <= i < ws.len() && (#[trigger] ws[i]).has_been_minted && ws[i].post_id == p
}

/// The position of the record for period `t`, where there is one.
pub open spec fn period_index(ws: Seq<WinnerView>, t: int) -> int {
    choose|i: int| 0 <= i < ws.len() && (#[trigger] ws[i]).period_timestamp == t
}

/// How many records of `ws` have been certified.
pub open spec fn minted_count(ws: Seq<WinnerView>) -> nat
    decreases ws.len(),
{
    if ws.len() == 0 {
        0
    } else {
        minted_count(ws.drop_last()) + if ws.last().has_been_minted {
            1nat
        } else {
            0nat
        }
    }
}

/// The whole store: the registry, once created, the period records and the
/// certificates.
pub struct LedgerView {
    pub address: Seq<u8>,
    pub collection: Option<CollectionView>,
    pub winners: Seq<WinnerView>,
    pub certificates: Seq<CertificateView>,
    pub certify_requires_authority: bool,
}

impl LedgerView {
    /// The ledger's invariant: one record per period and per post, counters
    /// that match the records, and one certificate per certified post.
    pub open spec fn wf(self) -> bool {
        &&& match self.collection {
            None => self.winners.len() == 0 && self.certificates.len() == 0,
            Some(c) => {
                &&& c.total_periods == self.winners.len()
                &&& c.total_minted == minted_count(self.winners)
                &&& c.total_periods <= u64::MAX
            },
        }
        &&& forall|i: int, j: int|
            0 <= i < self.winners.len() && 0 <= j < self.winners.len() && i != j
                ==> (#[trigger] self.winners[i]).period_timestamp
                != (#[trigger] self.winners[j]).period_timestamp
        &&& forall|i: int, j: int|
            0 <= i < self.winners.len() && 0 <= j < self.winners.len() && i != j
                ==> (#[trigger] self.winners[i]).post_id != (#[trigger] self.winners[j]).post_id
        &&& forall|k: int|
            0 <= k < self.certificates.len() ==> certified_post(
                self.winners,
                (#[trigger] self.certificates[k]).winner_post_id,
            )
        &&& forall|k: int, l: int|
            0 <= k < self.certificates.len() && 0 <= l < self.certificates.len() && k != l
                ==> (#[trigger] self.certificates[k]).winner_post_id
                != (#[trigger] self.certificates[l]).winner_post_id
    }

    /// The outcome of admitting a winner for period `t`: the first check
    /// that fails, in the order the checks are made, or success.
    pub open spec fn admit_check(
        self,
        caller: Seq<u8>,
        t: int,
        username: Seq<char>,
        post_id: Seq<char>,
        like_count: int,
        now: int,
    ) -> Result<(), ErrorCode> {
        match self.collection {
            None => Err(ErrorCode::NotFound),
            Some(c) => if caller != c.authority {
                Err(ErrorCode::InvalidAuthority)
            } else if !(t < now) || t % 1800 != 0 {
                Err(ErrorCode::InvalidPeriod)
            } else if !(0 < byte_len(username) <= 32) {
                Err(ErrorCode::InvalidUsername)
            } else if !(0 < byte_len(post_id) <= 64) {
                Err(ErrorCode::InvalidPostId)
            } else if like_count == 0 {
                Err(ErrorCode::InvalidLikeCount)
            } else if has_period(self.winners, t) {
                Err(ErrorCode::PeriodTaken)
            } else if has_post(self.winners, post_id) {
                Err(ErrorCode::PostIdTaken)
            } else if c.total_periods >= u64::MAX {
                Err(ErrorCode::CounterOverflow)
            } else {
                Ok(())
            },
        }
    }

    /// The ledger after a successful admission.
    pub open spec fn admit_next(
        self,
        t: int,
        username: Seq<char>,
        post_id: Seq<char>,
        like_count: int,
    ) -> LedgerView {
        let c = self.collection->Some_0;
        LedgerView {
            collection: Some(CollectionView { total_periods: c.total_periods + 1, ..c }),
            winners: self.winners.push(
                WinnerView {
                    period_timestamp: t,
                    winner_username: username,
                    post_id,
                    like_count,
                    has_been_minted: false,
                },
            ),
            ..self
        }
    }

    /// The checks made before a certificate is issued for period `t`.
    pub open spec fn mint_check(self, caller: Seq<u8>, t: int) -> Result<(), ErrorCode> {
        match self.collection {
            None => Err(ErrorCode::NotFound),
            Some(c) => if self.certify_requires_authority && caller != c.authority {
                Err(ErrorCode::InvalidAuthority)
            } else if !has_period(self.winners, t) {
                Err(ErrorCode::NotFound)
            } else if self.winners[period_index(self.winners, t)].has_been_minted {
                Err(ErrorCode::AlreadyMinted)
            } else {
                Ok(())
            },
        }
    }

    /// The outcome of certifying period `t`, given whether the token issuer
    /// issued the token.
    pub open spec fn mint_result(self, caller: Seq<u8>, t: int, issued: bool) -> Result<
        (),
        ErrorCode,
    > {
        if self.mint_check(caller, t) is Err {
            self.mint_check(caller, t)
        } else if !issued {
            Err(ErrorCode::IssuerFailure)
        } else {
            Ok(())
        }
    }

    /// The certificate issued at time `now` for the record of period `t`.
    pub open spec fn certificate_for(self, t: int, now: int) -> CertificateView {
        let w = self.winners[period_index(self.winners, t)];
        CertificateView {
            collection: self.address,
            winner_post_id: w.post_id,
            winner_username: w.winner_username,
            like_count: w.like_count,
            minted_at: now,
            period_timestamp: t,
        }
    }

    /// The ledger after a successful certification.
    pub open spec fn mint_next(self, t: int, now: int) -> LedgerView {
        let c = self.collection->Some_0;
        let i = period_index(self.winners, t);
        LedgerView {
            collection: Some(CollectionView { total_minted: c.total_minted + 1, ..c }),
            winners: self.winners.update(i, WinnerView { has_been_minted: true, ..self.winners[i] }),
            certificates: self.certificates.push(self.certificate_for(t, now)),
            ..self
        }
    }
}

/// Appending a record adds one to the certified count exactly when the
/// record is certified.
pub proof fn lemma_minted_count_push(ws: Seq<WinnerView>, w: WinnerView)
    ensures
        minted_count(ws.push(w)) == minted_count(ws) + if w.has_been_minted {
            1nat
        } else {
            0nat
        },
{
    assert(ws.push(w).drop_last() =~= ws);
}

/// No more records are certified than there are records.
pub proof fn lemma_minted_count_le(ws: Seq<WinnerView>)
    ensures
        minted_count(ws) <= ws.len(),
    decreases ws.len(),
{
    if ws.len() > 0 {
        lemma_minted_count_le(ws.drop_last());
    }
}

/// Certifying one uncertified record adds one to the certified count.
pub proof fn lemma_minted_count_update(ws: Seq<WinnerView>, i: int, w: WinnerView)
    requires
        0 <= i < ws.len(),
        !ws[i].has_been_minted,
        w.has_been_minted,
    ensures
        minted_count(ws.update(i, w)) == minted_count(ws) + 1,
    decreases ws.len(),
{
    let u = ws.update(i, w);
    if i == ws.len() - 1 {
        assert(u.drop_last() =~= ws.drop_last());
    } else {
        assert(u.drop_last() =~= ws.drop_last().update(i, w));
        lemma_minted_count_update(ws.drop_last(), i, w);
    }
}

/// Where one record is uncertified, fewer records are certified than exist.
pub proof fn lemma_minted_count_lt(ws: Seq<WinnerView>, i: int)
    requires
        0 <= i < ws.len(),
        !ws[i].has_been_minted,
    ensures
        minted_count(ws) < ws.len(),
{
    let w = WinnerView { has_been_minted: true, ..ws[i] };
    lemma_minted_count_update(ws, i, w);
    lemma_minted_count_le(ws.update(i, w));
}

/// The store that holds the registry, the period records and the
/// certificates. Each operation either applies all of its changes or none.
pub struct Ledger {
    /// The registry's own address, which certificates refer back to.
    pub address: Identity,
    pub collection: Option<NFTCollection>,
    pub winners: Vec<Winner30Min>,
    pub certificates: Vec<DefessNFT>,
    /// Whether certification, like admission, is reserved to the authority.
    pub certify_requires_authority: bool,
}

impl View for Ledger {
    type V = LedgerView;

    open spec fn view(&self) -> LedgerView {
        LedgerView {
            address: self.address@,
            collection: match self.collection {
                Some(c) => Some(c@),
                None => None,
            },
            winners: self.winners@.map_values(|w: Winner30Min| w@),
            certificates: self.certificates@.map_values(|n: DefessNFT| n@),
            certify_requires_authority: self.certify_requires_authority,
        }
    }
}

impl Ledger {
    /// An empty store whose registry will live at `address`.
    pub fn new(address: Identity, certify_requires_authority: bool) -> (r: Ledger)
        ensures
            r@.wf(),
            r@.address == address@,
            r@.collection is None,
            r@.winners.len() == 0,
            r@.certificates.len() == 0,
            r@.certify_requires_authority == certify_requires_authority,
    {
        let r = Ledger {
            address,
            collection: None,
            winners: Vec::new(),
            certificates: Vec::new(),
            certify_requires_authority,
        };
        assert(r@.winners =~= Seq::<WinnerView>::empty());
        assert(r@.certificates =~= Seq::<CertificateView>::empty());
        r
    }

    /// The position of the record for period `t`, if there is one.
    pub fn find_period(&self, t: i64) -> (r: Option<usize>)
        ensures
            match r {
                Some(i) => i < self@.winners.len() && self@.winners[i as int].period_timestamp
                    == t as int,
                None => !has_period(self@.winners, t as int),
            },
    {
        let mut i: usize = 0;
        while i < self.winners.len()
            invariant
                i <= self.winners.len(),
                forall|j: int| 0 <= j < i ==> self.winners[j].period_timestamp != t,
            decreases self.winners.len() - i,
        {
            if self.winners[i].period_timestamp == t {
                assert(self@.winners[i as int] == self.winners[i as int]@);
                return Some(i);
            }
            i = i + 1;
        }
        assert forall|j: int| 0 <= j < self@.winners.len() implies (
        #[trigger] self@.winners[j]).period_timestamp != t as int by {
            assert(self@.winners[j] == self.winners[j]@);
        }
        None
    }

    /// Whether some record is for post `post_id`.
    pub fn holds_post(&self, post_id: &String) -> (r: bool)
        ensures
            r == has_post(self@.winners, post_id@),
    {
        let mut i: usize = 0;
        while i < self.winners.len()
            invariant
                i <= self.winners.len(),
                forall|j: int| 0 <= j < i ==> self.winners[j].post_id@ != post_id@,
            decreases self.winners.len() - i,
        {
            if self.winners[i].post_id == *post_id {
                assert(self@.winners[i as int] == self.winners[i as int]@);
                return true;
            }
            i = i + 1;
        }
        assert forall|j: int| 0 <= j < self@.winners.len() implies (
        #[trigger] self@.winners[j]).post_id != post_id@ by {
            assert(self@.winners[j] == self.winners[j]@);
        }
        false
    }
}

/// Admission keeps the invariant: the new record's period and post are not
/// taken, and the period counter grows with the records.
pub proof fn lemma_admit_preserves_wf(
    v: LedgerView,
    caller: Seq<u8>,
    t: int,
    username: Seq<char>,
    post_id: Seq<char>,
    like_count: int,
    now: int,
)
    requires
        v.wf(),
        v.admit_check(caller, t, username, post_id, like_count, now) is Ok,
    ensures
        v.admit_next(t, username, post_id, like_count).wf(),
{
    let n = v.admit_next(t, username, post_id, like_count);
    let w = n.winners.last();
    lemma_minted_count_push(v.winners, w);
    assert forall|i: int, j: int|
        0 <= i < n.winners.len() && 0 <= j < n.winners.len() && i != j implies (
        #[trigger] n.winners[i]).period_timestamp != (#[trigger] n.winners[j]).period_timestamp
        && n.winners[i].post_id != n.winners[j].post_id by {
        if i == v.winners.len() {
            assert(v.winners[j] == n.winners[j]);
        } else if j == v.winners.len() {
            assert(v.winners[i] == n.winners[i]);
        }
    }
    assert forall|k: int| 0 <= k < n.certificates.len() implies certified_post(
        n.winners,
        (#[trigger] n.certificates[k]).winner_post_id,
    ) by {
        let p = v.certificates[k].winner_post_id;
        assert(certified_post(v.winners, p));
        let i = choose|i: int|
            0 <= i < v.winners.len() && (#[trigger] v.winners[i]).has_been_minted
                && v.winners[i].post_id == p;
        assert(n.winners[i] == v.winners[i]);
    }
}

/// Certification keeps the invariant: the record flips to certified, the
/// certified count grows by one, and the new certificate's post had none.
pub proof fn lemma_mint_preserves_wf(v: LedgerView, caller: Seq<u8>, t: int, now: int)
    requires
        v.wf(),
        v.mint_check(caller, t) is Ok,
    ensures
        v.mint_next(t, now).wf(),
{
    let n = v.mint_next(t, now);
    let i = period_index(v.winners, t);
    let w = n.winners[i];
    lemma_minted_count_update(v.winners, i, w);
    assert forall|a: int| 0 <= a < v.winners.len() implies (#[trigger] n.winners[a]).period_timestamp
        == v.winners[a].period_timestamp && n.winners[a].post_id == v.winners[a].post_id
        && (v.winners[a].has_been_minted ==> n.winners[a].has_been_minted) by {}
    let ck = v.certificate_for(t, now);
    assert forall|k: int| 0 <= k < n.certificates.len() implies certified_post(
        n.winners,
        (#[trigger] n.certificates[k]).winner_post_id,
    ) by {
        if k == v.certificates.len() {
            assert(n.winners[i].has_been_minted);
        } else {
            let p = v.certificates[k].winner_post_id;
            assert(certified_post(v.winners, p));
            let j = choose|j: int|
                0 <= j < v.winners.len() && (#[trigger] v.winners[j]).has_been_minted
                    && v.winners[j].post_id == p;
            assert(n.winners[j].has_been_minted);
        }
    }
    assert forall|k: int| 0 <= k < v.certificates.len() implies (#[trigger] v.certificates[k]).winner_post_id
        != ck.winner_post_id by {
        let p = v.certificates[k].winner_post_id;
        assert(certified_post(v.winners, p));
        let j = choose|j: int|
            0 <= j < v.winners.len() && (#[trigger] v.winners[j]).has_been_minted
                && v.winners[j].post_id == p;
        assert(j != i);
    }
    assert forall|k: int, l: int|
        0 <= k < n.certificates.len() && 0 <= l < n.certificates.len() && k != l implies (
        #[trigger] n.certificates[k]).winner_post_id != (
        #[trigger] n.certificates[l]).winner_post_id by {
        if k == v.certificates.len() {
            assert(n.certificates[l] == v.certificates[l]);
        } else if l == v.certificates.len() {
            assert(n.certificates[k] == v.certificates[k]);
        } else {
            assert(n.certificates[k] == v.certificates[k]);
            assert(n.certificates[l] == v.certificates[l]);
        }
    }
}

impl Ledger {
    /// Creates the registry, owned by `authority`, at time `now`. It can be
    /// created only once.
    pub fn initialize_collection(&mut self, authority: Identity, now: i64) -> (r: Result<
        (),
        ErrorCode,
    >)
        requires
            old(self)@.wf(),
        ensures
            final(self)@.wf(),
            old(self)@.collection is Some ==> r == Err::<(), ErrorCode>(ErrorCode::AlreadyInitialized)
                && final(self)@ == old(self)@,
            old(self)@.collection is None ==> r is Ok && final(self)@ == (LedgerView {
                collection: Some(
                    CollectionView {
                        authority: authority@,
                        collection_name: COLLECTION_NAME@,
                        total_minted: 0,
                        total_periods: 0,
                        created_at: now as int,
                    },
                ),
                ..old(self)@
            }),
    {
        if self.collection.is_some() {
            return Err(ErrorCode::AlreadyInitialized);
        }
        self.collection = Some(
            NFTCollection {
                authority,
                collection_name: COLLECTION_NAME.to_owned(),
                total_minted: 0,
                total_periods: 0,
                created_at: now,
            },
        );
        Ok(())
    }

    /// Records the winner of period `period_timestamp`, on behalf of
    /// `caller`, at time `now`. The checks are made in the order that
    /// `admit_check` gives, before anything changes.
    pub fn select_period_winner(
        &mut self,
        caller: &Identity,
        period_timestamp: i64,
        winner_username: String,
        post_id: String,
        like_count: u64,
        now: i64,
    ) -> (r: Result<(), ErrorCode>)
        requires
            old(self)@.wf(),
        ensures
            final(self)@.wf(),
            r == old(self)@.admit_check(
                caller@,
                period_timestamp as int,
                winner_username@,
                post_id@,
                like_count as int,
                now as int,
            ),
            r is Ok ==> final(self)@ == old(self)@.admit_next(
                period_timestamp as int,
                winner_username@,
                post_id@,
                like_count as int,
            ),
            r is Err ==> final(self)@ == old(self)@,
    {
        let total_periods = match &self.collection {
            None => {
                return Err(ErrorCode::NotFound);
            },
            Some(c) => {
                if !caller.same_as(&c.authority) {
                    return Err(ErrorCode::InvalidAuthority);
                }
                c.total_periods
            },
        };
        if !(period_timestamp < now) || period_timestamp % SECONDS_IN_PERIOD != 0 {
            return Err(ErrorCode::InvalidPeriod);
        }
        let username_len = winner_username.as_str().as_bytes().len();
        assert(username_len == byte_len(winner_username@));
        if username_len == 0 || username_len > MAX_USERNAME_LEN {
            return Err(ErrorCode::InvalidUsername);
        }
        let post_id_len = post_id.as_str().as_bytes().len();
        assert(post_id_len == byte_len(post_id@));
        if post_id_len == 0 || post_id_len > MAX_POST_ID_LEN {
            return Err(ErrorCode::InvalidPostId);
        }
        if like_count == 0 {
            return Err(ErrorCode::InvalidLikeCount);
        }
        if self.find_period(period_timestamp).is_some() {
            return Err(ErrorCode::PeriodTaken);
        }
        if self.holds_post(&post_id) {
            return Err(ErrorCode::PostIdTaken);
        }
        if total_periods == u64::MAX {
            return Err(ErrorCode::CounterOverflow);
        }
        proof {
            lemma_admit_preserves_wf(
                self@,
                caller@,
                period_timestamp as int,
                winner_username@,
                post_id@,
                like_count as int,
                now as int,
            );
        }
        let ghost before = self@;
        self.winners.push(
            Winner30Min {
                period_timestamp,
                winner_username,
                post_id,
                like_count,
                has_been_minted: false,
            },
        );
        match &mut self.collection {
            Some(c) => c.record_period_admitted(),
            None => {},
        }
        assert(self@.winners =~= before.winners.push(self.winners@.last()@));
        Ok(())
    }
}

impl Ledger {
    /// The position of the uncertified record of period `t`, where `caller`
    /// may certify it.
    fn locate_uncertified(&self, caller: &Identity, t: i64) -> (r: Result<usize, ErrorCode>)
        requires
            self@.wf(),
        ensures
            match r {
                Ok(i) => self@.mint_check(caller@, t as int) is Ok && i as int == period_index(
                    self@.winners,
                    t as int,
                ) && i < self.winners.len(),
                Err(e) => self@.mint_check(caller@, t as int) == Err::<(), ErrorCode>(e),
            },
    {
        match &self.collection {
            None => {
                return Err(ErrorCode::NotFound);
            },
            Some(c) => {
                if self.certify_requires_authority && !caller.same_as(&c.authority) {
                    return Err(ErrorCode::InvalidAuthority);
                }
            },
        }
        let i = match self.find_period(t) {
            None => {
                return Err(ErrorCode::NotFound);
            },
            Some(i) => i,
        };
        assert(i as int == period_index(self@.winners, t as int));
        assert(self@.winners[i as int] == self.winners[i as int]@);
        if self.winners[i].has_been_minted {
            return Err(ErrorCode::AlreadyMinted);
        }
        Ok(i)
    }

    /// The certificate that certifying period `period_timestamp` at time
    /// `now` would issue, or the reason it cannot be issued. Nothing changes.
    pub fn prepare_certificate(&self, caller: &Identity, period_timestamp: i64, now: i64) -> (r:
        Result<DefessNFT, ErrorCode>)
        requires
            self@.wf(),
        ensures
            match r {
                Ok(n) => self@.mint_check(caller@, period_timestamp as int) is Ok && n@
                    == self@.certificate_for(period_timestamp as int, now as int),
                Err(e) => self@.mint_check(caller@, period_timestamp as int) == Err::<
                    (),
                    ErrorCode,
                >(e),
            },
    {
        let i = match self.locate_uncertified(caller, period_timestamp) {
            Err(e) => {
                return Err(e);
            },
            Ok(i) => i,
        };
        let w = &self.winners[i];
        assert(self@.winners[i as int] == w@);
        Ok(
            DefessNFT {
                collection: self.address,
                winner_post_id: w.post_id.clone(),
                winner_username: w.winner_username.clone(),
                like_count: w.like_count,
                minted_at: now,
                period_timestamp,
            },
        )
    }

    /// Certifies the record of period `period_timestamp` at time `now`,
    /// where `issued` tells whether the token issuer issued its token. The
    /// record, its certificate and the certified count change together, or
    /// nothing changes.
    pub fn mint_winner_nft(
        &mut self,
        caller: &Identity,
        period_timestamp: i64,
        now: i64,
        issued: bool,
    ) -> (r: Result<(), ErrorCode>)
        requires
            old(self)@.wf(),
        ensures
            final(self)@.wf(),
            r == old(self)@.mint_result(caller@, period_timestamp as int, issued),
            r is Ok ==> final(self)@ == old(self)@.mint_next(period_timestamp as int, now as int),
            r is Err ==> final(self)@ == old(self)@,
    {
        let certificate = match self.prepare_certificate(caller, period_timestamp, now) {
            Err(e) => {
                return Err(e);
            },
            Ok(n) => n,
        };
        if !issued {
            return Err(ErrorCode::IssuerFailure);
        }
        let i = match self.locate_uncertified(caller, period_timestamp) {
            Err(e) => {
                return Err(e);
            },
            Ok(i) => i,
        };
        proof {
            lemma_mint_preserves_wf(self@, caller@, period_timestamp as int, now as int);
            lemma_minted_count_lt(self@.winners, i as int);
        }
        let ghost before = self@;
        self.winners[i].has_been_minted = true;
        self.certificates.push(certificate);
        match &mut self.collection {
            Some(c) => c.record_certificate_issued(),
            None => {},
        }
        assert(self@.winners =~= before.mint_next(period_timestamp as int, now as int).winners);
        assert(self@.certificates =~= before.mint_next(
            period_timestamp as int,
            now as int,
        ).certificates);
        Ok(())
    }
}

impl Ledger {
    /// The record of period `t`.
    pub fn get_winner(&self, t: i64) -> (r: Result<&Winner30Min, ErrorCode>)
        requires
            self@.wf(),
        ensures
            match r {
                Ok(w) => has_period(self@.winners, t as int) && w@ == self@.winners[period_index(
                    self@.winners,
                    t as int,
                )],
                Err(e) => e == ErrorCode::NotFound && !has_period(self@.winners, t as int),
            },
    {
        match self.find_period(t) {
            None => Err(ErrorCode::NotFound),
            Some(i) => {
                assert(i as int == period_index(self@.winners, t as int));
                assert(self@.winners[i as int] == self.winners[i as int]@);
                Ok(&self.winners[i])
            },
        }
    }

    /// The certificate issued for post `post_id`, if any.
    pub fn get_certificate(&self, post_id: &String) -> (r: Option<&DefessNFT>)
        requires
            self@.wf(),
        ensures
            match r {
                Some(n) => exists|k: int|
                    0 <= k < self@.certificates.len() && #[trigger] self@.certificates[k] == n@
                        && n@.winner_post_id == post_id@,
                None => forall|k: int|
                    0 <= k < self@.certificates.len()
                        ==> (#[trigger] self@.certificates[k]).winner_post_id != post_id@,
            },
    {
        let mut k: usize = 0;
        while k < self.certificates.len()
            invariant
                k <= self.certificates.len(),
                forall|j: int| 0 <= j < k ==> self.certificates[j].winner_post_id@ != post_id@,
            decreases self.certificates.len() - k,
        {
            if self.certificates[k].winner_post_id == *post_id {
                assert(self@.certificates[k as int] == self.certificates[k as int]@);
                return Some(&self.certificates[k]);
            }
            k = k + 1;
        }
        assert forall|j: int| 0 <= j < self@.certificates.len() implies (
        #[trigger] self@.certificates[j]).winner_post_id != post_id@ by {
            assert(self@.certificates[j] == self.certificates[j]@);
        }
        None
    }
}

} // verus!
