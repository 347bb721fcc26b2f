//! Assembling redemption claims.
//!
//! Eligible coins are filtered through the premine guard, partitioned
//! into contiguous batches, and each batch becomes one fully specified
//! claim: all batch inputs consumed, a liquid output, an optional
//! time-locked output carrying the batch's earliest release date, zero
//! fee and an exact-change policy, and the announcement trail.

use vstd::prelude::*;

use crate::address::ReceivingAddress;
use crate::amount::NativeCurrencyAmount;
use crate::amount::MAX_NAU;
use crate::announcement::encode_address;
use crate::announcement::encode_triple;
use crate::announcement::spec_encode_address;
use crate::announcement::spec_encode_triple;
use crate::announcement::PublicAnnouncement;
use crate::announcement::Utxo;
use crate::announcement::UtxoTriple;
use crate::bound::absolute_index_set_to_aocl_leaf_index_lower_bound;
use crate::bound::spec_set_lower_bound;
use crate::bound::ALLOWABLE_AOCL_INDEX_LOWER_BOUND;
use crate::claim::lemma_amounts_partition;
use crate::claim::lemma_sum_split;
use crate::claim::spec_earliest_release;
use crate::claim::spec_liquid_amount;
use crate::claim::spec_sum_amounts;
use crate::claim::spec_timelocked_amount;
use crate::claim::ClaimDetails;
use crate::claim::RedemptionInput;
use crate::digest::fresh_digest;
use crate::timestamp::Timestamp;

verus! {

/// Produces redemption claims, holding what is needed to decide whether
/// and where to redeem: the node's configuration facts and the wallet's
/// default receiving address.
#[derive(Clone, Copy, Debug)]
pub struct Redeemer {
    /// Transaction initiation has been switched off by configuration.
    pub no_transaction_initiation: bool,
    /// The network accepts mock proofs, so proving capability is moot.
    pub uses_mock_proof: bool,
    /// The node can produce the proof collection a claim requires.
    pub can_prove_proof_collection: bool,
    /// The wallet's first receiving address, used when the caller names
    /// no destination.
    pub default_receiving_address: ReceivingAddress,
}

/// Why claim production could not start or finish.
#[derive(Clone, Debug)]
pub enum RedeemError {
    TransactionInitiationDisabled,
    ProverCapabilityTooWeak,
    CreateTxError(String),
}

/// The batch size: the caller's choice floored at one, or ten.
pub open spec fn spec_chunk_size(cs: Option<usize>) -> int {
    match cs {
        None => 10,
        Some(c) => if c < 1 {
            1
        } else {
            c as int
        },
    }
}

/// The inputs that pass the premine guard, in order.
pub open spec fn spec_claimable(s: Seq<RedemptionInput>) -> Seq<RedemptionInput>
    decreases s.len(),
{
    if s.len() == 0 {
        Seq::empty()
    } else {
        spec_claimable(s.drop_last()) + (if spec_set_lower_bound(s.last().absolute_indices.indices@)
            >= ALLOWABLE_AOCL_INDEX_LOWER_BOUND {
            seq![s.last()]
        } else {
            Seq::empty()
        })
    }
}

/// Filtering never grows the total amount.
pub proof fn lemma_claimable_sum_le(s: Seq<RedemptionInput>)
    ensures
        spec_sum_amounts(spec_claimable(s)) <= spec_sum_amounts(s),
        spec_sum_amounts(spec_claimable(s)) >= 0,
    decreases s.len(),
{
    lemma_amounts_partition(spec_claimable(s));
    if s.len() > 0 {
        lemma_claimable_sum_le(s.drop_last());
        lemma_amounts_partition(s.drop_last());
        if spec_set_lower_bound(s.last().absolute_indices.indices@)
            >= ALLOWABLE_AOCL_INDEX_LOWER_BOUND {
            assert(spec_claimable(s).drop_last() =~= spec_claimable(s.drop_last()));
        } else {
            assert(spec_claimable(s) =~= spec_claimable(s.drop_last()));
        }
    }
}

/// Every input that assembly keeps clears the premine guard: claims are
/// only ever built over coins the validator would accept.
pub proof fn lemma_claimable_clears_guard(s: Seq<RedemptionInput>)
    ensures
        forall|k: int|
            0 <= k < spec_claimable(s).len() ==> spec_set_lower_bound(
                (#[trigger] spec_claimable(s)[k]).absolute_indices.indices@,
            ) >= ALLOWABLE_AOCL_INDEX_LOWER_BOUND,
    decreases s.len(),
{
    if s.len() > 0 {
        lemma_claimable_clears_guard(s.drop_last());
        assert forall|k: int| 0 <= k < spec_claimable(s).len() implies spec_set_lower_bound(
            (#[trigger] spec_claimable(s)[k]).absolute_indices.indices@,
        ) >= ALLOWABLE_AOCL_INDEX_LOWER_BOUND by {
            if k < spec_claimable(s.drop_last()).len() {
                assert(spec_claimable(s)[k] == spec_claimable(s.drop_last())[k]);
            } else {
                assert(spec_claimable(s)[k] == s.last());
            }
        }
    }
}

/// The number of contiguous batches of size `cs` needed for `n` items.
pub open spec fn spec_num_chunks(n: int, cs: int) -> int
    decreases n,
{
    if n <= 0 || cs <= 0 {
        0
    } else if n <= cs {
        1
    } else {
        1 + spec_num_chunks(n - cs, cs)
    }
}

/// A batch with no release date has no time-locked amount.
pub proof fn lemma_no_release_no_timelock(s: Seq<RedemptionInput>)
    requires
        spec_earliest_release(s) is None,
    ensures
        spec_timelocked_amount(s) == 0,
    decreases s.len(),
{
    if s.len() > 0 {
        lemma_no_release_no_timelock(s.drop_last());
    }
}

/// The `k`-th batch of `s` under batch size `cs`.
pub open spec fn spec_chunk(s: Seq<RedemptionInput>, cs: int, k: int) -> Seq<RedemptionInput> {
    s.subrange(
        k * cs,
        if (k + 1) * cs <= s.len() {
            (k + 1) * cs
        } else {
            s.len() as int
        },
    )
}

/// The destination of a run: the caller's address if given, else the
/// wallet's default receiving address.
pub open spec fn spec_destination(r: Redeemer, o: Option<ReceivingAddress>) -> ReceivingAddress {
    match o {
        Some(a) => a,
        None => r.default_receiving_address,
    }
}

/// What one assembled claim must say about its batch: all batch inputs
/// consumed; a liquid output, and a time-locked output exactly when the
/// batch has a release date, locked to the earliest one; exact change and
/// zero fee; one announcement per output, in output order, then exactly
/// one destination announcement.
pub open spec fn spec_details_ok(
    d: ClaimDetails,
    chunk: Seq<RedemptionInput>,
    dest: ReceivingAddress,
    ts: Timestamp,
) -> bool {
    &&& d.inputs@ == chunk
    &&& d.fee.nau == 0
    &&& d.timestamp == ts
    &&& d.wf()
    &&& d.outputs@.len() == (if spec_earliest_release(chunk) is Some {
        2int
    } else {
        1int
    })
    &&& d.outputs@[0].utxo.amount.nau == spec_liquid_amount(chunk)
    &&& d.outputs@[0].utxo.release_date is None
    &&& d.outputs@[0].utxo.lock_script_hash == dest.spending_lock
    &&& (spec_earliest_release(chunk) is Some ==> {
        &&& d.outputs@[1].utxo.amount.nau == spec_timelocked_amount(chunk)
        &&& d.outputs@[1].utxo.release_date == spec_earliest_release(chunk)
        &&& d.outputs@[1].utxo.lock_script_hash == dest.spending_lock
    })
    &&& spec_sum_amounts(chunk) == d.outputs@[0].utxo.amount.nau + (if spec_earliest_release(chunk)
        is Some {
        d.outputs@[1].utxo.amount.nau as int
    } else {
        0int
    })
    &&& d.public_announcements@.len() == d.outputs@.len() + 1
    &&& (forall|i: int|
        0 <= i < d.outputs@.len() ==> (#[trigger] d.public_announcements@[i]).message@
            == spec_encode_triple(d.outputs@[i]))
    &&& d.public_announcements@.last().message@ == spec_encode_address(dest)
}

/// The liquid and time-locked totals over `v[a..b]`.
fn range_amounts(v: &Vec<RedemptionInput>, a: usize, b: usize) -> (r: (u128, u128))
    requires
        a <= b <= v@.len(),
        spec_sum_amounts(v@.subrange(a as int, b as int)) <= MAX_NAU,
    ensures
        r.0 == spec_liquid_amount(v@.subrange(a as int, b as int)),
        r.1 == spec_timelocked_amount(v@.subrange(a as int, b as int)),
{
    let ghost whole = v@.subrange(a as int, b as int);
    let mut liquid: u128 = 0;
    let mut timelocked: u128 = 0;
    let mut i: usize = a;
    while i < b
        invariant
            a <= i <= b <= v@.len(),
            spec_sum_amounts(whole) <= MAX_NAU,
            whole == v@.subrange(a as int, b as int),
            liquid == spec_liquid_amount(v@.subrange(a as int, i as int)),
            timelocked == spec_timelocked_amount(v@.subrange(a as int, i as int)),
        decreases b - i,
    {
        proof {
            let pre = v@.subrange(a as int, i as int);
            let post = v@.subrange(a as int, i as int + 1);
            assert(post.drop_last() =~= pre);
            assert(post.last() == v@[i as int]);
            lemma_amounts_partition(pre);
            lemma_amounts_partition(post);
            lemma_sum_split(whole, i + 1 - a);
            assert(whole.take(i + 1 - a) =~= post);
            lemma_amounts_partition(whole.skip(i + 1 - a));
        }
        match v[i].release_date {
            None => {
                liquid = liquid + v[i].amount.to_nau();
            },
            Some(_) => {
                timelocked = timelocked + v[i].amount.to_nau();
            },
        }
        i = i + 1;
    }
    (liquid, timelocked)
}

/// The earliest release date among the time-locked inputs of `v[a..b]`.
fn range_earliest(v: &Vec<RedemptionInput>, a: usize, b: usize) -> (r: Option<Timestamp>)
    requires
        a <= b <= v@.len(),
    ensures
        r == spec_earliest_release(v@.subrange(a as int, b as int)),
{
    let mut earliest: Option<Timestamp> = None;
    let mut i: usize = a;
    while i < b
        invariant
            a <= i <= b <= v@.len(),
            earliest == spec_earliest_release(v@.subrange(a as int, i as int)),
        decreases b - i,
    {
        proof {
            let pre = v@.subrange(a as int, i as int);
            let post = v@.subrange(a as int, i as int + 1);
            assert(post.drop_last() =~= pre);
            assert(post.last() == v@[i as int]);
        }
        earliest = match (earliest, v[i].release_date) {
            (None, None) => None,
            (None, Some(t)) => Some(t),
            (Some(p), None) => Some(p),
            (Some(p), Some(t)) => if t.millis < p.millis {
                Some(t)
            } else {
                Some(p)
            },
        };
        i = i + 1;
    }
    earliest
}

/// A copy of `v[a..b]`.
fn copy_range(v: &Vec<RedemptionInput>, a: usize, b: usize) -> (r: Vec<RedemptionInput>)
    requires
        a <= b <= v@.len(),
    ensures
        r@ == v@.subrange(a as int, b as int),
{
    let mut out: Vec<RedemptionInput> = Vec::new();
    let mut i: usize = a;
    while i < b
        invariant
            a <= i <= b <= v@.len(),
            out@ == v@.subrange(a as int, i as int),
        decreases b - i,
    {
        out.push(v[i]);
        i = i + 1;
        proof {
            assert(out@ =~= v@.subrange(a as int, i as int));
        }
    }
    out
}

impl Redeemer {
    /// A redeemer over the given node facts and default destination.
    pub fn new(
        no_transaction_initiation: bool,
        uses_mock_proof: bool,
        can_prove_proof_collection: bool,
        default_receiving_address: ReceivingAddress,
    ) -> (r: Self)
        ensures
            r.no_transaction_initiation == no_transaction_initiation,
            r.uses_mock_proof == uses_mock_proof,
            r.can_prove_proof_collection == can_prove_proof_collection,
            r.default_receiving_address == default_receiving_address,
    {
        Redeemer {
            no_transaction_initiation,
            uses_mock_proof,
            can_prove_proof_collection,
            default_receiving_address,
        }
    }

    /// Whether claim production may proceed: initiation must be enabled,
    /// and the node must be able to prove a proof collection unless the
    /// network accepts mock proofs.
    pub fn can_proceed(&self) -> (r: Result<(), RedeemError>)
        ensures
            match r {
                Ok(_) => !self.no_transaction_initiation && (self.uses_mock_proof
                    || self.can_prove_proof_collection),
                Err(RedeemError::TransactionInitiationDisabled) => self.no_transaction_initiation,
                Err(RedeemError::ProverCapabilityTooWeak) => !self.no_transaction_initiation
                    && !self.uses_mock_proof && !self.can_prove_proof_collection,
                Err(RedeemError::CreateTxError(_)) => false,
            },
    {
        if self.no_transaction_initiation {
            return Err(RedeemError::TransactionInitiationDisabled);
        }
        if !self.uses_mock_proof && !self.can_prove_proof_collection {
            return Err(RedeemError::ProverCapabilityTooWeak);
        }
        Ok(())
    }

    /// Partition the eligible inputs into claim batches.
    ///
    /// Inputs failing the premine guard are silently excluded: validation
    /// would reject them anyway.  The remaining inputs are split, in the
    /// given order, into contiguous batches of the requested size; each
    /// batch becomes one claim whose outputs sweep it exactly.
    pub fn assemble_data(
        &self,
        spendable_inputs: &Vec<RedemptionInput>,
        destination_address: Option<ReceivingAddress>,
        timestamp: Timestamp,
        chunk_size: Option<usize>,
    ) -> (r: Result<Vec<ClaimDetails>, RedeemError>)
        requires
            forall|i: int| 0 <= i < spendable_inputs@.len() ==> (#[trigger] spendable_inputs@[i]).wf(),
            spec_sum_amounts(spendable_inputs@) <= MAX_NAU,
        ensures
            r matches Ok(list) && {
                let claimable = spec_claimable(spendable_inputs@);
                let cs = spec_chunk_size(chunk_size);
                let dest = spec_destination(*self, destination_address);
                &&& list@.len() == spec_num_chunks(claimable.len() as int, cs)
                &&& forall|k: int|
                    0 <= k < list@.len() ==> spec_details_ok(
                        #[trigger] list@[k],
                        spec_chunk(claimable, cs, k),
                        dest,
                        timestamp,
                    )
            },
    {
        let minimum_chunk_size: usize = 1;
        let default_chunk_size: usize = 10;
        let cs: usize = match chunk_size {
            Some(c) => if c < minimum_chunk_size {
                minimum_chunk_size
            } else {
                c
            },
            None => default_chunk_size,
        };

        let destination = match destination_address {
            Some(a) => a,
            None => self.default_receiving_address,
        };
        proof {
            assert(destination == spec_destination(*self, destination_address));
        }

        // Premine guard: keep only inputs whose insertion-index lower
        // bound clears the threshold.
        let mut claimable: Vec<RedemptionInput> = Vec::new();
        let mut i: usize = 0;
        while i < spendable_inputs.len()
            invariant
                i <= spendable_inputs.len(),
                forall|k: int|
                    0 <= k < spendable_inputs@.len() ==> (#[trigger] spendable_inputs@[k]).wf(),
                claimable@ == spec_claimable(spendable_inputs@.take(i as int)),
                forall|k: int| 0 <= k < claimable@.len() ==> (#[trigger] claimable@[k]).wf(),
            decreases spendable_inputs.len() - i,
        {
            proof {
                assert(spendable_inputs@.take(i as int + 1).drop_last() =~= spendable_inputs@.take(
                    i as int,
                ));
            }
            let lower_bound = absolute_index_set_to_aocl_leaf_index_lower_bound(
                &spendable_inputs[i].absolute_indices,
            );
            if lower_bound >= ALLOWABLE_AOCL_INDEX_LOWER_BOUND {
                claimable.push(spendable_inputs[i]);
            }
            i = i + 1;
        }
        proof {
            assert(spendable_inputs@.take(spendable_inputs@.len() as int) =~= spendable_inputs@);
            lemma_claimable_sum_le(spendable_inputs@);
        }

        // Partition into batches and build one claim per batch.
        let ghost all = claimable@;
        let mut details_list: Vec<ClaimDetails> = Vec::new();
        let mut start: usize = 0;
        while start < claimable.len()
            invariant
                start <= claimable.len(),
                cs >= 1,
                all == claimable@,
                destination == spec_destination(*self, destination_address),
                spec_sum_amounts(all) <= MAX_NAU,
                forall|k: int| 0 <= k < all.len() ==> (#[trigger] all[k]).wf(),
                details_list@.len() * cs == start || (start == all.len() && all.len()
                    <= details_list@.len() * cs),
                details_list@.len() + spec_num_chunks(all.len() - start, cs as int) == spec_num_chunks(
                    all.len() as int,
                    cs as int,
                ),
                forall|q: int|
                    0 <= q < details_list@.len() ==> spec_details_ok(
                        #[trigger] details_list@[q],
                        spec_chunk(all, cs as int, q),
                        spec_destination(*self, destination_address),
                        timestamp,
                    ),
            decreases claimable.len() - start,
        {
            let stop: usize = if claimable.len() - start > cs {
                start + cs
            } else {
                claimable.len()
            };
            let ghost chunk = all.subrange(start as int, stop as int);
            proof {
                // The batch's total fits, so its partial sums fit.
                lemma_sum_split(all, start as int);
                assert(all.take(start as int) =~= all.subrange(0, start as int));
                lemma_sum_split(all.skip(start as int), stop - start);
                assert(all.skip(start as int).take(stop - start) =~= chunk);
                lemma_amounts_partition(all.take(start as int));
                lemma_amounts_partition(all.skip(start as int).skip(stop - start));
                lemma_amounts_partition(chunk);
            }
            let amounts = range_amounts(&claimable, start, stop);
            let earliest = range_earliest(&claimable, start, stop);
            let batch_inputs = copy_range(&claimable, start, stop);

            let liquid_output = UtxoTriple {
                utxo: Utxo {
                    lock_script_hash: destination.spending_lock,
                    amount: NativeCurrencyAmount::from_nau(amounts.0),
                    release_date: None,
                },
                sender_randomness: fresh_digest(),
                receiver_privacy_digest: fresh_digest(),
            };
            let mut outputs: Vec<UtxoTriple> = Vec::new();
            let mut public_announcements: Vec<PublicAnnouncement> = Vec::new();
            outputs.push(liquid_output);
            public_announcements.push(encode_triple(&liquid_output));
            match earliest {
                Some(release_date) => {
                    let timelocked_output = UtxoTriple {
                        utxo: Utxo {
                            lock_script_hash: destination.spending_lock,
                            amount: NativeCurrencyAmount::from_nau(amounts.1),
                            release_date: Some(release_date),
                        },
                        sender_randomness: fresh_digest(),
                        receiver_privacy_digest: fresh_digest(),
                    };
                    outputs.push(timelocked_output);
                    public_announcements.push(encode_triple(&timelocked_output));
                },
                None => {},
            }
            public_announcements.push(encode_address(&destination));

            let details = ClaimDetails {
                inputs: batch_inputs,
                outputs,
                fee: NativeCurrencyAmount::from_nau(0),
                public_announcements,
                timestamp,
            };
            proof {
                if spec_earliest_release(chunk) is None {
                    lemma_no_release_no_timelock(chunk);
                }
                assert(details.outputs@[0].utxo.lock_script_hash.words
                    =~= destination.spending_lock.words);
                assert forall|ii: int| 0 <= ii < details.outputs@.len() implies (
                #[trigger] details.public_announcements@[ii]).message@ == spec_encode_triple(
                    details.outputs@[ii],
                ) by {
                    assert(ii == 0 || ii == 1);
                }
                assert(spec_details_ok(
                    details,
                    chunk,
                    spec_destination(*self, destination_address),
                    timestamp,
                ));
                let q = details_list@.len() as int;
                assert(q * cs == start);
                assert((q + 1) * cs == q * cs + cs) by (nonlinear_arith);
                assert(chunk =~= spec_chunk(all, cs as int, q));
            }
            details_list.push(details);
            start = stop;
        }
        proof {
            assert(spec_num_chunks(all.len() - start, cs as int) == 0);
        }
        Ok(details_list)
    }
}

} // verus!
