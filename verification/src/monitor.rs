//! Deciding which fetched transactions are new.
//!
//! The wallet polls the block explorer for the transactions of its address.
//! A transaction is reported, and stored, the first time it is seen with at
//! least one confirmation; its hash is then remembered so that it is never
//! reported again.
use vstd::prelude::*;

use crate::models::Transaction;

verus! {

/// Token sent to the block explorer.
pub const BLOCKCYPHER_API_KEY: &'static str = "api de blockcypher";

/// A transaction is reported when it is confirmed and its hash has not been
/// seen.
pub open spec fn is_reportable(seen: Set<Seq<char>>, tx: Transaction) -> bool {
    tx.confirmations > 0 && !seen.contains(tx.hash@)
}

/// Walks a batch in order: the transactions reported, and the hashes seen
/// afterwards.
pub open spec fn report_step(seen: Set<Seq<char>>, batch: Seq<Transaction>) -> (Seq<Transaction>, Set<Seq<char>>)
    decreases batch.len(),
{
    if batch.len() == 0 {
        (seq![], seen)
    } else {
        let (reported, now_seen) = report_step(seen, batch.drop_last());
        let tx = batch.last();
        if is_reportable(now_seen, tx) {
            (reported.push(tx), now_seen.insert(tx.hash@))
        } else {
            (reported, now_seen)
        }
    }
}

/// The hashes of a sequence of transactions.
pub open spec fn hashes_of(txs: Seq<Transaction>) -> Set<Seq<char>> {
    Set::new(|h: Seq<char>| exists|k: int| 0 <= k < txs.len() && txs[k].hash@ == h)
}

/// What one pass over a batch does: the hashes seen afterwards are those
/// seen before and those reported; each reported transaction is confirmed,
/// comes from the batch and had an unseen hash; no hash is reported twice;
/// every confirmed transaction of the batch has its hash seen afterwards.
pub proof fn lemma_report_step(seen: Set<Seq<char>>, batch: Seq<Transaction>)
    ensures
        report_step(seen, batch).1 == seen.union(hashes_of(report_step(seen, batch).0)),
        forall|k: int|
            0 <= k < report_step(seen, batch).0.len() ==> {
                &&& (#[trigger] report_step(seen, batch).0[k]).confirmations > 0
                &&& !seen.contains(report_step(seen, batch).0[k].hash@)
                &&& batch.contains(report_step(seen, batch).0[k])
            },
        forall|k1: int, k2: int|
            0 <= k1 < k2 < report_step(seen, batch).0.len() ==> (#[trigger] report_step(
                seen,
                batch,
            ).0[k1]).hash@ != (#[trigger] report_step(seen, batch).0[k2]).hash@,
        forall|k: int|
            0 <= k < batch.len() && (#[trigger] batch[k]).confirmations > 0 ==> report_step(
                seen,
                batch,
            ).1.contains(batch[k].hash@),
    decreases batch.len(),
{
    if batch.len() > 0 {
        let prefix = batch.drop_last();
        lemma_report_step(seen, prefix);
        let (reported, now_seen) = report_step(seen, prefix);
        let tx = batch.last();
        let (out, after) = report_step(seen, batch);
        assert forall|k: int| 0 <= k < reported.len() implies batch.contains(
            #[trigger] reported[k],
        ) by {
            let m = choose|m: int| 0 <= m < prefix.len() && prefix[m] == reported[k];
            assert(batch[m] == reported[k]);
        }
        if is_reportable(now_seen, tx) {
            assert(out == reported.push(tx));
            assert(hashes_of(out) =~= hashes_of(reported).insert(tx.hash@)) by {
                assert forall|h: Seq<char>| hashes_of(out).contains(h) implies #[trigger] hashes_of(
                    reported,
                ).insert(tx.hash@).contains(h) by {
                    let k = choose|k: int| 0 <= k < out.len() && out[k].hash@ == h;
                    if k < reported.len() {
                        assert(out[k] == reported[k]);
                    }
                }
                assert forall|h: Seq<char>| #[trigger] hashes_of(reported).insert(tx.hash@).contains(h)
                    implies hashes_of(out).contains(h) by {
                    if h == tx.hash@ {
                        assert(out[reported.len() as int].hash@ == h);
                    } else {
                        let k = choose|k: int| 0 <= k < reported.len() && reported[k].hash@ == h;
                        assert(out[k] == reported[k]);
                    }
                }
            }
            assert(after =~= seen.union(hashes_of(out)));
            assert(batch.contains(tx)) by {
                assert(batch[batch.len() - 1] == tx);
            }
            assert forall|k1: int, k2: int| 0 <= k1 < k2 < out.len() implies (#[trigger] out[k1]).hash@
                != (#[trigger] out[k2]).hash@ by {
                if k2 == reported.len() {
                    assert(out[k1] == reported[k1]);
                    assert(hashes_of(reported).contains(reported[k1].hash@));
                } else {
                    assert(out[k1] == reported[k1]);
                    assert(out[k2] == reported[k2]);
                }
            }
            assert forall|k: int| 0 <= k < out.len() implies {
                &&& (#[trigger] out[k]).confirmations > 0
                &&& !seen.contains(out[k].hash@)
                &&& batch.contains(out[k])
            } by {
                if k < reported.len() {
                    assert(out[k] == reported[k]);
                }
            }
        } else {
            assert(out == reported);
        }
        assert forall|k: int| 0 <= k < batch.len() && (#[trigger] batch[k]).confirmations > 0 implies after.contains(
            batch[k].hash@,
        ) by {
            if k < prefix.len() {
                assert(batch[k] == prefix[k]);
            }
        }
    }
}

/// When every confirmed transaction of a batch has a seen hash, a pass over
/// the batch reports nothing and leaves the seen hashes as they were.
pub proof fn lemma_nothing_new(seen: Set<Seq<char>>, batch: Seq<Transaction>)
    requires
        forall|k: int|
            0 <= k < batch.len() && (#[trigger] batch[k]).confirmations > 0 ==> seen.contains(
                batch[k].hash@,
            ),
    ensures
        report_step(seen, batch) == (Seq::<Transaction>::empty(), seen),
    decreases batch.len(),
{
    if batch.len() > 0 {
        let prefix = batch.drop_last();
        assert forall|k: int| 0 <= k < prefix.len() && (#[trigger] prefix[k]).confirmations > 0 implies seen.contains(
            prefix[k].hash@,
        ) by {
            assert(prefix[k] == batch[k]);
        }
        lemma_nothing_new(seen, prefix);
        assert(batch.last() == batch[batch.len() - 1]);
    }
}

/// A transaction is reported once: running a batch again, right after it
/// was processed, reports nothing.
pub proof fn law_batch_reported_once(seen: Set<Seq<char>>, batch: Seq<Transaction>)
    ensures
        report_step(report_step(seen, batch).1, batch).0 == Seq::<Transaction>::empty(),
{
    lemma_report_step(seen, batch);
    lemma_nothing_new(report_step(seen, batch).1, batch);
}

/// A hash reported by one pass is never reported by a later pass, whatever
/// the later batch holds.
pub proof fn law_never_reported_twice(
    seen: Set<Seq<char>>,
    first: Seq<Transaction>,
    second: Seq<Transaction>,
)
    ensures
        forall|i: int, j: int|
            0 <= i < report_step(seen, first).0.len() && 0 <= j < report_step(
                report_step(seen, first).1,
                second,
            ).0.len() ==> (#[trigger] report_step(seen, first).0[i]).hash@ != (#[trigger] report_step(
                report_step(seen, first).1,
                second,
            ).0[j]).hash@,
{
    let (reported, after) = report_step(seen, first);
    lemma_report_step(seen, first);
    lemma_report_step(after, second);
    assert forall|i: int, j: int|
        0 <= i < reported.len() && 0 <= j < report_step(after, second).0.len() implies (
        #[trigger] reported[i]).hash@ != (#[trigger] report_step(after, second).0[j]).hash@ by {
        assert(hashes_of(reported).contains(reported[i].hash@));
    }
}

/// Processing a batch only adds hashes: nothing seen is forgotten.
pub proof fn law_seen_only_grows(seen: Set<Seq<char>>, batch: Seq<Transaction>)
    ensures
        seen.subset_of(report_step(seen, batch).1),
{
    lemma_report_step(seen, batch);
}

/// Position `i` of a batch holds the first confirmed transaction with its
/// hash, and that hash was not seen before the batch.
pub open spec fn is_first_new(seen: Set<Seq<char>>, batch: Seq<Transaction>, i: int) -> bool {
    &&& batch[i].confirmations > 0
    &&& !seen.contains(batch[i].hash@)
    &&& forall|j: int|
        0 <= j < i ==> !((#[trigger] batch[j]).confirmations > 0 && batch[j].hash@ == batch[i].hash@)
}

/// `out` is the batch's transactions at the strictly increasing positions
/// `positions`, which are exactly the positions that hold a first new
/// transaction.
pub open spec fn selects_in_order(
    seen: Set<Seq<char>>,
    batch: Seq<Transaction>,
    out: Seq<Transaction>,
    positions: Seq<int>,
) -> bool {
    &&& positions.len() == out.len()
    &&& forall|k: int|
        0 <= k < positions.len() ==> 0 <= #[trigger] positions[k] < batch.len() && out[k]
            == batch[positions[k]]
    &&& forall|k1: int, k2: int|
        0 <= k1 < k2 < positions.len() ==> #[trigger] positions[k1] < #[trigger] positions[k2]
    &&& forall|i: int| 0 <= i < batch.len() ==> (is_first_new(seen, batch, i) <==> positions.contains(i))
}

/// The transactions reported from a batch are, in the batch's order, exactly
/// those confirmed transactions whose hash was not seen before and does not
/// occur in an earlier confirmed transaction of the batch.
pub proof fn lemma_report_order(seen: Set<Seq<char>>, batch: Seq<Transaction>) -> (positions: Seq<int>)
    ensures
        selects_in_order(seen, batch, report_step(seen, batch).0, positions),
    decreases batch.len(),
{
    if batch.len() == 0 {
        Seq::<int>::empty()
    } else {
        let n = batch.len() - 1;
        let prefix = batch.drop_last();
        let earlier = lemma_report_order(seen, prefix);
        lemma_report_step(seen, prefix);
        let (reported, now_seen) = report_step(seen, prefix);
        let tx = batch.last();
        assert(tx == batch[n]);
        assert forall|i: int| 0 <= i < n implies is_first_new(seen, batch, i) == is_first_new(
            seen,
            prefix,
            i,
        ) by {
            assert(batch[i] == prefix[i]);
            assert forall|j: int| 0 <= j < i implies #[trigger] batch[j] == prefix[j] by {}
        }
        // The last position is first new exactly when it is reportable now.
        if is_reportable(now_seen, tx) {
            assert(is_first_new(seen, batch, n)) by {
                assert(!seen.contains(tx.hash@));
                assert forall|j: int| 0 <= j < n implies !((#[trigger] batch[j]).confirmations > 0
                    && batch[j].hash@ == batch[n].hash@) by {
                    assert(batch[j] == prefix[j]);
                    if prefix[j].confirmations > 0 {
                        assert(now_seen.contains(prefix[j].hash@));
                    }
                }
            }
        } else {
            assert(!is_first_new(seen, batch, n)) by {
                if tx.confirmations > 0 && !seen.contains(tx.hash@) {
                    assert(now_seen.contains(tx.hash@));
                    assert(hashes_of(reported).contains(tx.hash@));
                    let k = choose|k: int| 0 <= k < reported.len() && reported[k].hash@ == tx.hash@;
                    let j = earlier[k];
                    assert(0 <= j < n && reported[k] == prefix[j]);
                    assert(batch[j] == prefix[j]);
                    assert(batch[j].confirmations > 0 && batch[j].hash@ == batch[n].hash@);
                }
            }
        }
        let positions = if is_reportable(now_seen, tx) {
            earlier.push(n)
        } else {
            earlier
        };
        let out = report_step(seen, batch).0;
        assert forall|k: int| 0 <= k < positions.len() implies 0 <= #[trigger] positions[k]
            < batch.len() && out[k] == batch[positions[k]] by {
            if k < earlier.len() {
                assert(positions[k] == earlier[k]);
                assert(out[k] == reported[k]);
                assert(batch[earlier[k]] == prefix[earlier[k]]);
            }
        }
        assert forall|k1: int, k2: int| 0 <= k1 < k2 < positions.len() implies #[trigger] positions[k1]
            < #[trigger] positions[k2] by {
            if k2 < earlier.len() {
                assert(positions[k1] == earlier[k1] && positions[k2] == earlier[k2]);
            } else {
                assert(positions[k1] == earlier[k1]);
                assert(earlier[k1] < n);
            }
        }
        assert forall|i: int| 0 <= i < batch.len() implies (is_first_new(seen, batch, i)
            <==> positions.contains(i)) by {
            if i < n {
                if earlier.contains(i) {
                    let k = choose|k: int| 0 <= k < earlier.len() && earlier[k] == i;
                    assert(positions[k] == i);
                }
                if positions.contains(i) {
                    let k = choose|k: int| 0 <= k < positions.len() && positions[k] == i;
                    if k < earlier.len() {
                        assert(earlier[k] == i);
                    }
                }
            } else {
                if is_reportable(now_seen, tx) {
                    assert(positions[earlier.len() as int] == n);
                } else {
                    if positions.contains(n) {
                        let k = choose|k: int| 0 <= k < positions.len() && positions[k] == n;
                        assert(earlier[k] < n);
                    }
                }
            }
        }
        positions
    }
}

/// The law for one poll: what is reported is, in the batch's order, the
/// batch's confirmed transactions with a hash not seen before, each at its
/// hash's first confirmed occurrence.
pub proof fn law_reports_in_batch_order(seen: Set<Seq<char>>, batch: Seq<Transaction>)
    ensures
        exists|positions: Seq<int>|
            selects_in_order(seen, batch, report_step(seen, batch).0, positions),
{
    let positions = lemma_report_order(seen, batch);
}

/// Runs the monitor over successive batches, one per poll: the transactions
/// reported in each round, and the hashes seen at the end.
pub open spec fn report_run(seen: Set<Seq<char>>, batches: Seq<Seq<Transaction>>) -> (Seq<Seq<Transaction>>, Set<Seq<char>>)
    decreases batches.len(),
{
    if batches.len() == 0 {
        (seq![], seen)
    } else {
        let (rounds, now_seen) = report_run(seen, batches.drop_last());
        let (fresh, after) = report_step(now_seen, batches.last());
        (rounds.push(fresh), after)
    }
}

/// Over a whole run of any number of polls: every reported transaction is
/// confirmed, comes from that round's batch and had a hash unseen when the
/// run began; its hash is seen at the end; and no hash is reported twice,
/// in one round or in two.
pub proof fn law_reported_once_per_run(seen: Set<Seq<char>>, batches: Seq<Seq<Transaction>>)
    ensures
        report_run(seen, batches).0.len() == batches.len(),
        seen.subset_of(report_run(seen, batches).1),
        forall|r: int, k: int|
            0 <= r < batches.len() && 0 <= k < report_run(seen, batches).0[r].len() ==> {
                &&& (#[trigger] report_run(seen, batches).0[r][k]).confirmations > 0
                &&& !seen.contains(report_run(seen, batches).0[r][k].hash@)
                &&& batches[r].contains(report_run(seen, batches).0[r][k])
                &&& report_run(seen, batches).1.contains(report_run(seen, batches).0[r][k].hash@)
            },
        forall|r1: int, k1: int, r2: int, k2: int|
            0 <= r1 < batches.len() && 0 <= k1 < report_run(seen, batches).0[r1].len() && 0 <= r2
                < batches.len() && 0 <= k2 < report_run(seen, batches).0[r2].len() && (r1 != r2
                || k1 != k2) ==> (#[trigger] report_run(seen, batches).0[r1][k1]).hash@
                != (#[trigger] report_run(seen, batches).0[r2][k2]).hash@,
    decreases batches.len(),
{
    if batches.len() > 0 {
        let earlier = batches.drop_last();
        law_reported_once_per_run(seen, earlier);
        let (rounds, now_seen) = report_run(seen, earlier);
        let batch = batches.last();
        lemma_report_step(now_seen, batch);
        let (fresh, after) = report_step(now_seen, batch);
        let all = report_run(seen, batches).0;
        assert(all == rounds.push(fresh));
        assert(after == now_seen.union(hashes_of(fresh)));
        assert forall|r: int, k: int|
            0 <= r < batches.len() && 0 <= k < all[r].len() implies {
                &&& (#[trigger] all[r][k]).confirmations > 0
                &&& !seen.contains(all[r][k].hash@)
                &&& batches[r].contains(all[r][k])
                &&& after.contains(all[r][k].hash@)
            } by {
            if r < earlier.len() {
                assert(all[r] == rounds[r]);
                assert(batches[r] == earlier[r]);
            } else {
                assert(all[r] == fresh);
                assert(batches[r] == batch);
                assert(hashes_of(fresh).contains(fresh[k].hash@));
            }
        }
        assert forall|r1: int, k1: int, r2: int, k2: int|
            0 <= r1 < batches.len() && 0 <= k1 < all[r1].len() && 0 <= r2 < batches.len() && 0
                <= k2 < all[r2].len() && (r1 != r2 || k1 != k2) implies (#[trigger] all[r1][k1]).hash@
            != (#[trigger] all[r2][k2]).hash@ by {
            if r1 < earlier.len() && r2 < earlier.len() {
                assert(all[r1] == rounds[r1]);
                assert(all[r2] == rounds[r2]);
            } else if r1 < earlier.len() {
                assert(all[r1] == rounds[r1]);
                assert(all[r2] == fresh);
                assert(now_seen.contains(rounds[r1][k1].hash@));
            } else if r2 < earlier.len() {
                assert(all[r2] == rounds[r2]);
                assert(all[r1] == fresh);
                assert(now_seen.contains(rounds[r2][k2].hash@));
            } else {
                assert(all[r1] == fresh);
                assert(all[r2] == fresh);
                if k1 > k2 {
                    assert(fresh[k2].hash@ != fresh[k1].hash@);
                }
            }
        }
    }
}

/// The hashes of transactions already reported.
pub struct SeenTransactions {
    hashes: Vec<String>,
}

impl View for SeenTransactions {
    type V = Set<Seq<char>>;

    closed spec fn view(&self) -> Set<Seq<char>> {
        Set::new(|h: Seq<char>| exists|i: int| 0 <= i < self.hashes@.len() && self.hashes@[i]@ == h)
    }
}

impl SeenTransactions {
    /// No hash is stored twice.
    #[verifier::type_invariant]
    spec fn wf(&self) -> bool {
        forall|i: int, j: int|
            0 <= i < j < self.hashes@.len() ==> self.hashes@[i]@ != self.hashes@[j]@
    }

    /// Nothing seen yet.
    pub fn new() -> (seen: Self)
        ensures
            seen@ == Set::<Seq<char>>::empty(),
    {
        let seen = SeenTransactions { hashes: Vec::new() };
        assert(seen@ =~= Set::<Seq<char>>::empty());
        seen
    }

    /// Whether `hash` has been seen.
    pub fn contains(&self, hash: &String) -> (found: bool)
        ensures
            found == self@.contains(hash@),
    {
        let mut i: usize = 0;
        while i < self.hashes.len()
            invariant
                i <= self.hashes@.len(),
                forall|j: int| 0 <= j < i ==> self.hashes@[j]@ != hash@,
            decreases self.hashes@.len() - i,
        {
            if self.hashes[i] == *hash {
                return true;
            }
            i = i + 1;
        }
        false
    }

    fn remember(&mut self, hash: String)
        requires
            !old(self)@.contains(hash@),
        ensures
            final(self)@ == old(self)@.insert(hash@),
    {
        proof {
            use_type_invariant(&*self);
        }
        let mut hashes: Vec<String> = Vec::new();
        std::mem::swap(&mut hashes, &mut self.hashes);
        hashes.push(hash);
        assert forall|i: int, j: int| 0 <= i < j < hashes@.len() implies hashes@[i]@ != hashes@[j]@ by {
            if j == old(self).hashes@.len() {
                assert(old(self)@.contains(hashes@[i]@));
            }
        }
        self.hashes = hashes;
        assert(self@ =~= old(self)@.insert(hash@)) by {
            assert forall|h: Seq<char>| #[trigger] self@.contains(h) implies old(self)@.insert(
                hash@,
            ).contains(h) by {
                let i = choose|i: int| 0 <= i < self.hashes@.len() && self.hashes@[i]@ == h;
                if i < old(self).hashes@.len() {
                    assert(old(self).hashes@[i]@ == h);
                }
            }
            assert forall|h: Seq<char>| #[trigger] old(self)@.insert(hash@).contains(h) implies self@.contains(
                h,
            ) by {
                if h == hash@ {
                    assert(self.hashes@[old(self).hashes@.len() as int]@ == h);
                } else {
                    let i = choose|i: int| 0 <= i < old(self).hashes@.len() && old(self).hashes@[i]@ == h;
                    assert(self.hashes@[i]@ == h);
                }
            }
        }
    }

    /// Takes a fetched batch and returns, in order, the transactions to
    /// report: each confirmed transaction whose hash has not been seen, the
    /// first time its hash occurs. Their hashes are remembered.
    pub fn select_new(&mut self, batch: Vec<Transaction>) -> (fresh: Vec<Transaction>)
        ensures
            (fresh@, final(self)@) == report_step(old(self)@, batch@),
    {
        let ghost seen0 = self@;
        let ghost original = batch@;
        let n = batch.len();
        let mut rest = batch;
        let mut fresh: Vec<Transaction> = Vec::new();
        let mut i: usize = 0;
        assert(original.take(0) =~= Seq::<Transaction>::empty());
        assert(original.skip(0) =~= original);
        while rest.len() > 0
            invariant
                i <= original.len(),
                n == original.len(),
                rest@ == original.skip(i as int),
                (fresh@, self@) == report_step(seen0, original.take(i as int)),
            decreases rest@.len(),
        {
            let tx = rest.remove(0);
            assert(original.take(i + 1).drop_last() =~= original.take(i as int));
            assert(original.take(i + 1).last() == tx);
            assert(original.skip(i + 1) =~= original.skip(i as int).drop_first());
            if tx.confirmations > 0 && !self.contains(&tx.hash) {
                self.remember(tx.hash.clone());
                fresh.push(tx);
            }
            i = i + 1;
        }
        assert(original.take(i as int) =~= original);
        proof {
            law_reports_in_batch_order(seen0, original);
        }
        fresh
    }
}

/// What the monitor does after one poll of the block explorer.
#[derive(Debug)]
pub enum PollAction {
    /// The request failed: report the error and wait for the next poll.
    ReportFetchError,
    /// The explorer lists no transaction for the address.
    ReportNoTransactions,
    /// Store (and announce) these new transactions, in this order.
    Store(Vec<Transaction>),
}

impl SeenTransactions {
    /// One step of the monitoring loop: `fetched` is the explorer's answer
    /// (`None` when the request failed).
    pub fn on_poll(&mut self, fetched: Option<Vec<Transaction>>) -> (action: PollAction)
        ensures
            match fetched {
                None => action is ReportFetchError && final(self)@ == old(self)@,
                Some(batch) => if batch@.len() == 0 {
                    action is ReportNoTransactions && final(self)@ == old(self)@
                } else {
                    action matches PollAction::Store(fresh) && (fresh@, final(self)@)
                        == report_step(old(self)@, batch@)
                },
            },
    {
        match fetched {
            None => PollAction::ReportFetchError,
            Some(batch) => {
                if batch.len() == 0 {
                    PollAction::ReportNoTransactions
                } else {
                    PollAction::Store(self.select_new(batch))
                }
            },
        }
    }
}

/// The block explorer's URL for the full transaction list of an address.
pub fn transactions_url(address: &str) -> (url: String)
    ensures
        url@ == "https://api.blockcypher.com/v1/ltc/main/addrs/"@ + address@ + "/full?limit=50&token="@
            + BLOCKCYPHER_API_KEY@,
{
    let url = String::from_str("https://api.blockcypher.com/v1/ltc/main/addrs/");
    let url = url.concat(address);
    let url = url.concat("/full?limit=50&token=");
    url.concat(BLOCKCYPHER_API_KEY)
}

} // verus!
