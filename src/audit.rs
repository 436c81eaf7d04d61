//! Executable checks of the ledger's invariant, for a ledger read back from
//! storage.
use vstd::prelude::*;

use crate::ledger::{certified_post, minted_count, Ledger};

verus! {

impl Ledger {
    /// Whether the counters match the records.
    fn counters_match(&self) -> (r: bool)
        ensures
            r == match self@.collection {
                None => self@.winners.len() == 0 && self@.certificates.len() == 0,
                Some(c) => {
                    &&& c.total_periods == self@.winners.len()
                    &&& c.total_minted == minted_count(self@.winners)
                    &&& c.total_periods <= u64::MAX
                },
            },
    {
        let c = match &self.collection {
            None => {
                return self.winners.len() == 0 && self.certificates.len() == 0;
            },
            Some(c) => c,
        };
        let ghost ws = self@.winners;
        let mut count: usize = 0;
        let mut i: usize = 0;
        while i < self.winners.len()
            invariant
                ws == self@.winners,
                i <= self.winners.len(),
                count <= i,
                count as int == minted_count(ws.subrange(0, i as int)),
            decreases self.winners.len() - i,
        {
            assert(ws.subrange(0, i + 1).drop_last() =~= ws.subrange(0, i as int));
            assert(ws[i as int] == self.winners[i as int]@);
            if self.winners[i].has_been_minted {
                count = count + 1;
            }
            i = i + 1;
        }
        assert(ws.subrange(0, ws.len() as int) =~= ws);
        c.total_periods == self.winners.len() as u64 && c.total_minted == count as u64
    }

    /// Whether no two records share a period or a post.
    fn records_distinct(&self) -> (r: bool)
        ensures
            r == (forall|a: int, b: int|
                0 <= a < self@.winners.len() && 0 <= b < self@.winners.len() && a != b
                    ==> (#[trigger] self@.winners[a]).period_timestamp
                    != (#[trigger] self@.winners[b]).period_timestamp
                    && self@.winners[a].post_id != self@.winners[b].post_id),
    {
        let ghost ws = self@.winners;
        let n = self.winners.len();
        let mut i: usize = 0;
        while i < n
            invariant
                ws == self@.winners,
                n == self.winners.len(),
                i <= n,
                forall|a: int, b: int|
                    0 <= a < i && 0 <= b < n && a != b ==> (#[trigger] ws[a]).period_timestamp
                        != (#[trigger] ws[b]).period_timestamp && ws[a].post_id != ws[b].post_id,
            decreases n - i,
        {
            let mut j: usize = 0;
            while j < n
                invariant
                    ws == self@.winners,
                    n == self.winners.len(),
                    i < n,
                    j <= n,
                    forall|a: int, b: int|
                        0 <= a < i && 0 <= b < n && a != b ==> (#[trigger] ws[a]).period_timestamp
                            != (#[trigger] ws[b]).period_timestamp && ws[a].post_id
                            != ws[b].post_id,
                    forall|b: int|
                        0 <= b < j && b != i ==> ws[i as int].period_timestamp != (
                        #[trigger] ws[b]).period_timestamp && ws[i as int].post_id != ws[b].post_id,
                decreases n - j,
            {
                assert(ws[i as int] == self.winners[i as int]@);
                assert(ws[j as int] == self.winners[j as int]@);
                if j != i && (self.winners[j].period_timestamp == self.winners[i].period_timestamp
                    || self.winners[j].post_id == self.winners[i].post_id) {
                    return false;
                }
                j = j + 1;
            }
            i = i + 1;
        }
        true
    }

    /// Whether every certificate is for a distinct, certified post.
    fn certificates_backed(&self) -> (r: bool)
        ensures
            r == ((forall|k: int|
                0 <= k < self@.certificates.len() ==> certified_post(
                    self@.winners,
                    (#[trigger] self@.certificates[k]).winner_post_id,
                )) && (forall|k: int, l: int|
                0 <= k < self@.certificates.len() && 0 <= l < self@.certificates.len() && k != l
                    ==> (#[trigger] self@.certificates[k]).winner_post_id
                    != (#[trigger] self@.certificates[l]).winner_post_id)),
    {
        let ghost ws = self@.winners;
        let ghost cs = self@.certificates;
        let n = self.certificates.len();
        let mut k: usize = 0;
        while k < n
            invariant
                ws == self@.winners,
                cs == self@.certificates,
                n == self.certificates.len(),
                k <= n,
                forall|a: int| 0 <= a < k ==> certified_post(ws, (#[trigger] cs[a]).winner_post_id),
                forall|a: int, b: int|
                    0 <= a < k && 0 <= b < n && a != b ==> (#[trigger] cs[a]).winner_post_id != (
                    #[trigger] cs[b]).winner_post_id,
            decreases n - k,
        {
            assert(cs[k as int] == self.certificates[k as int]@);
            let mut found = false;
            let mut i: usize = 0;
            while i < self.winners.len()
                invariant
                    ws == self@.winners,
                    cs == self@.certificates,
                    n == self.certificates.len(),
                    k < n,
                    i <= self.winners.len(),
                    found ==> certified_post(ws, cs[k as int].winner_post_id),
                    !found ==> forall|a: int|
                        0 <= a < i ==> !((#[trigger] ws[a]).has_been_minted && ws[a].post_id
                            == cs[k as int].winner_post_id),
                decreases self.winners.len() - i,
            {
                assert(ws[i as int] == self.winners[i as int]@);
                if self.winners[i].has_been_minted && self.winners[i].post_id
                    == self.certificates[k].winner_post_id {
                    found = true;
                }
                i = i + 1;
            }
            if !found {
                return false;
            }
            let mut l: usize = 0;
            while l < n
                invariant
                    cs == self@.certificates,
                    n == self.certificates.len(),
                    k < n,
                    l <= n,
                    forall|b: int|
                        0 <= b < l && b != k ==> cs[k as int].winner_post_id != (
                        #[trigger] cs[b]).winner_post_id,
                decreases n - l,
            {
                assert(cs[l as int] == self.certificates[l as int]@);
                if l != k && self.certificates[l].winner_post_id
                    == self.certificates[k].winner_post_id {
                    assert(cs[k as int].winner_post_id == cs[l as int].winner_post_id);
                    return false;
                }
                l = l + 1;
            }
            k = k + 1;
        }
        true
    }

    /// Whether the ledger meets its invariant, as it must before any
    /// operation; a ledger read back from storage is checked with this.
    pub fn is_well_formed(&self) -> (r: bool)
        ensures
            r == self@.wf(),
    {
        self.counters_match() && self.records_distinct() && self.certificates_backed()
    }
}

} // verus!
