//! Batch orchestrator: expands (quantity, value) requests into individual
//! derivation, funding and persistence steps, strictly in order. The
//! caller performs the outside work (the gateway call, the sink append)
//! and reports each outcome back; every decision is taken here.
//!
//! Per code the states run `PENDING -> DERIVED -> (FUNDING, looping on
//! failure) -> FUNDED -> PERSISTED`, with zero-valued codes skipping the
//! funding stage.

use crate::coins::{coin_wf, CoinParams};
use crate::derivation::{create_promo_key_with_target, keypair_derived, OptimisedPromoKeypair};
use crate::records::{csv_record, record_chars};
use vstd::prelude::*;

verus! {

/// One homogeneous batch request: `qty` codes each worth `value` (in 1e-8
/// coin units).
pub struct PromoBatch {
    /// The value of each code of the batch, in 1e-8 coin units.
    pub value: u64,
    /// How many codes the batch asks for.
    pub qty: u64,
}

/// What the funding gateway reported for one attempt.
pub enum FundingOutcome {
    /// The transfer went through.
    Accepted,
    /// The transfer failed; the same request must be retried.
    Rejected,
}

/// The total number of codes a list of batches asks for.
pub open spec fn sum_qty(batches: Seq<PromoBatch>) -> nat
    decreases batches.len(),
{
    if batches.len() == 0 {
        0
    } else {
        (sum_qty(batches.drop_last()) + batches.last().qty) as nat
    }
}

/// Splitting the first batch off the sum.
pub proof fn lemma_sum_qty_first(batches: Seq<PromoBatch>)
    requires
        batches.len() > 0,
    ensures
        sum_qty(batches) == batches[0].qty + sum_qty(batches.drop_first()),
    decreases batches.len(),
{
    if batches.len() == 1 {
        assert(batches.drop_last() =~= Seq::<PromoBatch>::empty());
        assert(batches.drop_first() =~= Seq::<PromoBatch>::empty());
        assert(batches.last() == batches[0]);
    } else {
        lemma_sum_qty_first(batches.drop_last());
        assert(batches.drop_last().drop_first() =~= batches.drop_first().drop_last());
        assert(batches.drop_last()[0] == batches[0]);
        assert(batches.drop_first().last() == batches.last());
        assert(batches.drop_first().len() > 0);
        assert(sum_qty(batches.drop_first()) == sum_qty(batches.drop_first().drop_last())
            + batches.drop_first().last().qty);
    }
}

/// The batch orchestrator: walks the requests in order, derives one code
/// at a time, waits for its funding, and releases one persistence record
/// per code before moving on.
pub struct Orchestrator {
    /// The batch requests, in the order they are served.
    pub batches: Vec<PromoBatch>,
    /// The batch currently being served.
    pub batch_idx: usize,
    /// How many codes of the current batch are already persisted.
    pub done_in_batch: u64,
    /// The keypair currently between derivation and persistence, if any.
    pub pending: Option<OptimisedPromoKeypair>,
    /// Whether the pending keypair needs no further funding.
    pub pending_funded: bool,
    /// The persisted keypairs, in generation order.
    pub completed: Vec<OptimisedPromoKeypair>,
    /// The user-chosen code prefix.
    pub prefix: String,
    /// The coin being generated for.
    pub coin: CoinParams,
    /// The hash-chain iteration target for every derived code.
    pub target: u64,
    /// The total quantity initially asked for.
    pub initial_total: Ghost<nat>,
}

impl Orchestrator {
    /// Codes still owed: what is left of the current batch plus all later
    /// batches.
    pub open spec fn remaining(&self) -> nat {
        if 0 <= self.batch_idx < self.batches@.len() {
            ((self.batches@[self.batch_idx as int].qty - self.done_in_batch) + sum_qty(
                self.batches@.subrange(self.batch_idx as int + 1, self.batches@.len() as int),
            )) as nat
        } else {
            0
        }
    }

    /// The orchestrator's invariant.
    pub open spec fn wf(&self) -> bool {
        &&& self.target >= 1
    &&& coin_wf(self.coin)
    &&& self.batch_idx <= self.batches@.len()
    &&& (self.batch_idx < self.batches@.len() ==> self.done_in_batch < self.batches@[self.batch_idx as int].qty)
    &&& (forall|i: int|
        0 <= i < self.batches@.len() ==> #[trigger] self.batches@[i].value + self.coin.promo_fee
            <= u64::MAX)
    &&& (self.pending matches Some(kp) ==> {
        &&& self.batch_idx < self.batches@.len()
        &&& keypair_derived(kp, self.prefix@, self.coin.pub_key_byte, self.target as nat)
        &&& (self.pending_funded ==> kp.value == self.batches@[self.batch_idx as int].value)
        &&& (!self.pending_funded ==> kp.value == 0 && self.batches@[self.batch_idx as int].value
            > 0)
    })
    &&& self.completed@.len() + self.remaining() == self.initial_total@
    }

    /// Every code has run its course: nothing pending, nothing owed.
    pub open spec fn finished_spec(&self) -> bool {
        self.pending is None && self.batch_idx >= self.batches@.len()
    }

    /// Advances past exhausted batches.
    fn skip_empty(&mut self)
        requires
            old(self).pending is None,
            old(self).done_in_batch == 0,
            old(self).batch_idx <= old(self).batches@.len(),
        ensures
            final(self).batches == old(self).batches,
            final(self).completed == old(self).completed,
            final(self).prefix == old(self).prefix,
            final(self).coin == old(self).coin,
            final(self).target == old(self).target,
            final(self).initial_total == old(self).initial_total,
            final(self).pending is None,
            final(self).pending_funded == old(self).pending_funded,
            final(self).done_in_batch == 0,
            old(self).batch_idx <= final(self).batch_idx <= final(self).batches@.len(),
            final(self).batch_idx < final(self).batches@.len() ==> final(self).batches@[final(self).batch_idx as int].qty > 0,
            sum_qty(
                final(self).batches@.subrange(
                    final(self).batch_idx as int,
                    final(self).batches@.len() as int,
                ),
            ) == sum_qty(
                old(self).batches@.subrange(
                    old(self).batch_idx as int,
                    old(self).batches@.len() as int,
                ),
            ),
    {
        let len = self.batches.len();
        while self.batch_idx < len && self.batches[self.batch_idx].qty == 0
            invariant
                len == self.batches@.len(),
                self.batches == old(self).batches,
                self.completed == old(self).completed,
                self.prefix == old(self).prefix,
                self.coin == old(self).coin,
                self.target == old(self).target,
                self.initial_total == old(self).initial_total,
                self.pending is None,
                self.pending_funded == old(self).pending_funded,
                self.done_in_batch == 0,
                old(self).batch_idx <= self.batch_idx <= len,
                sum_qty(self.batches@.subrange(self.batch_idx as int, len as int)) == sum_qty(
                    old(self).batches@.subrange(old(self).batch_idx as int, len as int),
                ),
            decreases len - self.batch_idx,
        {
            proof {
                let tail = self.batches@.subrange(self.batch_idx as int, len as int);
                lemma_sum_qty_first(tail);
                assert(tail.drop_first() =~= self.batches@.subrange(
                    self.batch_idx as int + 1,
                    len as int,
                ));
            }
            self.batch_idx = self.batch_idx + 1;
        }
    }

    /// Plans a run: takes the batch requests, the code prefix, the coin
    /// and the iteration target, and stands ready to serve the requests in
    /// order.
    pub fn new(batches: Vec<PromoBatch>, prefix: String, coin: CoinParams, target: u64) -> (r:
        Orchestrator)
        requires
            target >= 1,
            coin_wf(coin),
            forall|i: int|
                0 <= i < batches@.len() ==> #[trigger] batches@[i].value + coin.promo_fee
                    <= u64::MAX,
        ensures
            r.wf(),
            r.completed@.len() == 0,
            r.pending is None,
            r.initial_total@ == sum_qty(batches@),
            r.batches == batches,
            r.prefix == prefix,
            r.coin == coin,
            r.target == target,
            r.finished_spec() <==> sum_qty(batches@) == 0,
    {
        let ghost total = sum_qty(batches@);
        let mut r = Orchestrator {
            batches,
            batch_idx: 0,
            done_in_batch: 0,
            pending: None,
            pending_funded: false,
            completed: Vec::new(),
            prefix,
            coin,
            target,
            initial_total: Ghost(total),
        };
        proof {
            assert(r.batches@.subrange(0, r.batches@.len() as int) =~= r.batches@);
        }
        r.skip_empty();
        proof {
            let idx = r.batch_idx as int;
            let len = r.batches@.len() as int;
            if idx < len {
                let tail = r.batches@.subrange(idx, len);
                lemma_sum_qty_first(tail);
                assert(tail.drop_first() =~= r.batches@.subrange(idx + 1, len));
            }
        }
        r
    }

    /// Whether every requested code has been produced and persisted.
    pub fn finished(&self) -> (r: bool)
        ensures
            r == self.finished_spec(),
    {
        self.pending.is_none() && self.batch_idx >= self.batches.len()
    }

    /// Derives the next code of the current batch: draws the code,
    /// stretches it into a key and encodes the address. Returns false (and
    /// changes nothing) in the practically unreachable event that no valid
    /// scalar was found.
    pub fn derive_next(&mut self) -> (r: bool)
        requires
            old(self).wf(),
            old(self).pending is None,
            !old(self).finished_spec(),
        ensures
            final(self).wf(),
            !r ==> *final(self) == *old(self),
            r ==> ({
                &&& final(self).pending matches Some(kp)
                &&& keypair_derived(
                    kp,
                    old(self).prefix@,
                    old(self).coin.pub_key_byte,
                    old(self).target as nat,
                )
                &&& kp.value == 0
                &&& final(self).pending_funded == (old(self).batches@[old(self).batch_idx as int].value == 0)
                &&& final(self).completed == old(self).completed
                &&& final(self).batches == old(self).batches
                &&& final(self).batch_idx == old(self).batch_idx
                &&& final(self).done_in_batch == old(self).done_in_batch
                &&& final(self).prefix == old(self).prefix
                &&& final(self).coin == old(self).coin
                &&& final(self).target == old(self).target
                &&& final(self).initial_total == old(self).initial_total
            }),
    {
        match create_promo_key_with_target(self.prefix.as_str(), &self.coin, self.target) {
            Some(kp) => {
                self.pending_funded = self.batches[self.batch_idx].value == 0;
                self.pending = Some(kp);
                true
            },
            None => false,
        }
    }

    /// The funding call the caller must make next, if any: the pending
    /// address and the amount owed to it (its value plus the coin's fee).
    pub fn funding_request(&self) -> (r: Option<(String, u64)>)
        requires
            self.wf(),
        ensures
            r is Some <==> (self.pending is Some && !self.pending_funded),
            r matches Some(req) ==> (self.pending matches Some(kp) && req.0@ == kp.public@ && req.1
                == self.batches@[self.batch_idx as int].value + self.coin.promo_fee),
    {
        match self.pending.as_ref() {
            Some(kp) => {
                if !self.pending_funded {
                    let amount = self.batches[self.batch_idx].value + self.coin.promo_fee;
                    Some((kp.public.clone(), amount))
                } else {
                    None
                }
            },
            None => None,
        }
    }

    /// Takes the gateway's verdict on the pending funding call. A rejected
    /// transfer changes nothing: the identical request stays owed and is
    /// retried. An accepted transfer sets the code's value, exactly once.
    pub fn on_funding(&mut self, outcome: FundingOutcome)
        requires
            old(self).wf(),
            old(self).pending is Some,
            !old(self).pending_funded,
        ensures
            final(self).wf(),
            outcome == FundingOutcome::Rejected ==> *final(self) == *old(self),
            outcome == FundingOutcome::Accepted ==> ({
                &&& old(self).pending matches Some(kp)
                &&& final(self).pending matches Some(kp2)
                &&& kp2.private == kp.private
                &&& kp2.public == kp.public
                &&& kp2.code == kp.code
                &&& kp2.value == old(self).batches@[old(self).batch_idx as int].value
                &&& final(self).pending_funded
                &&& final(self).completed == old(self).completed
                &&& final(self).batches == old(self).batches
                &&& final(self).batch_idx == old(self).batch_idx
                &&& final(self).done_in_batch == old(self).done_in_batch
                &&& final(self).prefix == old(self).prefix
                &&& final(self).coin == old(self).coin
                &&& final(self).target == old(self).target
                &&& final(self).initial_total == old(self).initial_total
            }),
    {
        match outcome {
            FundingOutcome::Rejected => {},
            FundingOutcome::Accepted => {
                let mut kp = self.pending.take().unwrap();
                kp.value = self.batches[self.batch_idx].value;
                self.pending = Some(kp);
                self.pending_funded = true;
            },
        }
    }

    /// The persistence record owed for the pending, fully funded code.
    pub fn persist_line(&self) -> (r: String)
        requires
            self.wf(),
            self.pending is Some,
            self.pending_funded,
        ensures
            self.pending matches Some(kp) ==> r@ == record_chars(
                self.coin.ticker@,
                kp.value as nat,
                kp.code@,
            ),
    {
        match self.pending.as_ref() {
            Some(kp) => csv_record(self.coin.ticker.as_str(), kp.value, kp.code.as_str()),
            None => vstd::pervasive::unreached(),
        }
    }

    /// Acknowledges that the pending code's record reached the sink: the
    /// keypair joins the completed list, its batch is consumed by one, and
    /// the orchestrator moves on.
    pub fn on_persisted(&mut self)
        requires
            old(self).wf(),
            old(self).pending is Some,
            old(self).pending_funded,
        ensures
            final(self).wf(),
            old(self).pending matches Some(kp) ==> final(self).completed@ == old(self).completed@.push(kp),
            final(self).pending is None,
            final(self).batches == old(self).batches,
            final(self).prefix == old(self).prefix,
            final(self).coin == old(self).coin,
            final(self).target == old(self).target,
            final(self).initial_total == old(self).initial_total,
    {
        let ghost pre = *self;
        proof {
            assert(pre.batch_idx < pre.batches@.len());
        }
        let kp = self.pending.take().unwrap();
        self.completed.push(kp);
        self.done_in_batch = self.done_in_batch + 1;
        if self.done_in_batch == self.batches[self.batch_idx].qty {
            let len = self.batches.len();
            assert(self.batch_idx < len);
            self.batch_idx = self.batch_idx + 1;
            self.done_in_batch = 0;
            proof {
                let idx = pre.batch_idx as int;
                let len = pre.batches@.len() as int;
                let tail = pre.batches@.subrange(idx, len);
                lemma_sum_qty_first(tail);
                assert(tail.drop_first() =~= pre.batches@.subrange(idx + 1, len));
            }
            self.skip_empty();
            proof {
                let idx2 = self.batch_idx as int;
                let len = self.batches@.len() as int;
                if idx2 < len {
                    let tail2 = self.batches@.subrange(idx2, len);
                    lemma_sum_qty_first(tail2);
                    assert(tail2.drop_first() =~= self.batches@.subrange(idx2 + 1, len));
                } else {
                    assert(self.batches@.subrange(idx2, len) =~= Seq::<PromoBatch>::empty());
                    assert(sum_qty(Seq::<PromoBatch>::empty()) == 0);
                }
            }
        }
    }
}

/// Accounting: the persisted codes and the codes still owed (the one in
/// flight included) always add up to exactly what the batches asked for.
pub proof fn lemma_batch_accounting(o: &Orchestrator)
    requires
        o.wf(),
    ensures
        o.completed@.len() + o.remaining() == o.initial_total@,
{
}

/// When a run has finished, exactly as many keypairs were persisted as the
/// batches requested.
pub proof fn lemma_finished_accounting(o: &Orchestrator)
    requires
        o.wf(),
        o.finished_spec(),
    ensures
        o.completed@.len() == o.initial_total@,
{
}

} // verus!
