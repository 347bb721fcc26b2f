//! Validating batches of redemption claims.
//!
//! Validation runs a fixed five-stage pipeline over all claims — per-claim
//! proof validity, synchronization to the accumulator, the premine guard,
//! batch-wide double-spend exclusion, and accumulator membership — then
//! reconciles every announcement against the declared outputs and compiles
//! the report.  The first violated stage aborts the whole run; the first
//! two stages collect every offender before reporting.
//!
//! Proof verification and the accumulator are external collaborators: the
//! caller supplies their verdicts (one per claim, and one per pooled
//! removal record, in order), and validation is exact for every value of
//! those verdicts.

use vstd::prelude::*;

use crate::address::ReceivingAddress;
use crate::announcement::lemma_address_roundtrip;
use crate::announcement::lemma_triple_roundtrip;
use crate::announcement::spec_addition_record;
use crate::announcement::spec_decode;
use crate::announcement::spec_encode_address;
use crate::announcement::spec_encode_triple;
use crate::announcement::decode_announcement;
use crate::announcement::DecodedAnnouncement;
use crate::announcement::PublicAnnouncement;
use crate::announcement::UtxoTriple;
use crate::bound::absolute_index_set_to_aocl_leaf_index_lower_bound;
use crate::bound::spec_set_lower_bound;
use crate::bound::AbsoluteIndexSet;
use crate::bound::ALLOWABLE_AOCL_INDEX_LOWER_BOUND;
use crate::claim::AdditionRecord;
use crate::claim::ClaimDetails;
use crate::claim::LoadedClaim;
use crate::claim::RedemptionInput;
use crate::claim::RemovalRecord;
use crate::digest::Digest;
use crate::redeem::spec_details_ok;
use crate::redeem::Redeemer;
use crate::timestamp::Timestamp;
use crate::report::RedemptionReport;
use crate::report::RedemptionReportEntry;

verus! {

/// Why a batch of claims was rejected.  Any one of these aborts the whole
/// run; no partial report is produced.
#[derive(Debug)]
pub enum RedemptionValidationError {
    /// These claims failed external proof verification.
    InvalidClaims(Vec<String>),
    /// These claims record a different accumulator digest than the one
    /// validated against.
    UnsyncedClaims(Vec<String>),
    /// A removal index set's insertion-index lower bound, given here,
    /// falls below the premine threshold.
    PotentialPremineClaim(u64),
    /// Two claims (or two inputs) spend the same coin.
    MutuallyIncompatibleClaims,
    /// This removal record is not removable from the accumulator.
    InvalidRemovalRecord(AbsoluteIndexSet),
    /// The named claim's announcement at this position decodes as neither
    /// an output preimage nor an address.
    UnparsablePublicAnnouncement(String, usize),
    /// The named claim's announcement at this position decodes as an
    /// output preimage whose commitment is not among the claim's outputs.
    UtxoNotOutput(String, usize),
    /// A claim carries no address announcement.
    MissingDestinationAddress,
}

/// The names of the claims marked invalid by the external verifier, in
/// order.
pub open spec fn spec_invalid_names(claims: Seq<LoadedClaim>, validity: Seq<bool>) -> Seq<
    Seq<char>,
>
    decreases claims.len(),
{
    if claims.len() == 0 {
        Seq::empty()
    } else {
        spec_invalid_names(claims.drop_last(), validity) + (if !validity[claims.len() - 1] {
            seq![claims.last().name@]
        } else {
            Seq::empty()
        })
    }
}

/// The names of the claims recording a different accumulator digest, in
/// order.
pub open spec fn spec_unsynced_names(claims: Seq<LoadedClaim>, h: Digest) -> Seq<Seq<char>>
    decreases claims.len(),
{
    if claims.len() == 0 {
        Seq::empty()
    } else {
        spec_unsynced_names(claims.drop_last(), h) + (if claims.last().claim.kernel.mutator_set_hash.words@
            != h.words@ {
            seq![claims.last().name@]
        } else {
            Seq::empty()
        })
    }
}

/// All removal index sets, pooled across all claims in claim order.
pub open spec fn spec_pooled(claims: Seq<LoadedClaim>) -> Seq<AbsoluteIndexSet>
    decreases claims.len(),
{
    if claims.len() == 0 {
        Seq::empty()
    } else {
        spec_pooled(claims.drop_last()) + claims.last().claim.kernel.inputs@.map_values(
            |r: RemovalRecord| r.absolute_indices,
        )
    }
}

/// Every removal index set of every claim lies in the filter's range.
pub open spec fn spec_claims_wf(claims: Seq<LoadedClaim>) -> bool {
    forall|c: int, i: int|
        #![trigger claims[c].claim.kernel.inputs@[i]]
        0 <= c < claims.len() && 0 <= i < claims[c].claim.kernel.inputs@.len()
            ==> claims[c].claim.kernel.inputs@[i].absolute_indices.wf()
}

/// The position of the first pooled index set failing the premine guard,
/// or a negative value.
pub open spec fn spec_first_premine_violation(pool: Seq<AbsoluteIndexSet>) -> int
    decreases pool.len(),
{
    if pool.len() == 0 {
        -1
    } else if spec_set_lower_bound(pool.first().indices@) < ALLOWABLE_AOCL_INDEX_LOWER_BOUND {
        0
    } else {
        let r = spec_first_premine_violation(pool.drop_first());
        if r < 0 {
            -1
        } else {
            r + 1
        }
    }
}

/// Whether two pooled index sets coincide.
pub open spec fn spec_has_duplicate(pool: Seq<AbsoluteIndexSet>) -> bool {
    exists|i: int, j: int|
        0 <= i < j < pool.len() && (#[trigger] pool[i]).indices@ == (#[trigger] pool[j]).indices@
}

/// The position of the first verdict marking a record non-removable, or a
/// negative value.
pub open spec fn spec_first_nonremovable(removable: Seq<bool>) -> int
    decreases removable.len(),
{
    if removable.len() == 0 {
        -1
    } else if !removable.first() {
        0
    } else {
        let r = spec_first_nonremovable(removable.drop_first());
        if r < 0 {
            -1
        } else {
            r + 1
        }
    }
}

/// Whether the outputs contain a commitment.
pub open spec fn spec_output_contains(outs: Seq<AdditionRecord>, d: Digest) -> bool {
    exists|i: int|
        0 <= i < outs.len() && (#[trigger] outs[i]).canonical_commitment.words@ == d.words@
}

/// Whether announcement `j` is at fault: unparsable, or an output
/// preimage whose commitment is not among the declared outputs.
pub open spec fn spec_ann_fault(
    anns: Seq<PublicAnnouncement>,
    outs: Seq<AdditionRecord>,
    j: int,
) -> bool {
    match spec_decode(anns[j].message@) {
        DecodedAnnouncement::Unparsable => true,
        DecodedAnnouncement::UtxoPayload(t) => !spec_output_contains(outs, spec_addition_record(t)),
        DecodedAnnouncement::AddressPayload(_) => false,
    }
}

/// The position of the first announcement at fault, or a negative value.
pub open spec fn spec_first_ann_fault(
    anns: Seq<PublicAnnouncement>,
    outs: Seq<AdditionRecord>,
) -> int
    decreases anns.len(),
{
    if anns.len() == 0 {
        -1
    } else if spec_ann_fault(anns, outs, 0) {
        0
    } else {
        let r = spec_first_ann_fault(anns.drop_first(), outs);
        if r < 0 {
            -1
        } else {
            r + 1
        }
    }
}

/// The destination a claim resolves to: the last announcement that
/// decodes as an address, if any.
pub open spec fn spec_ann_destination(anns: Seq<PublicAnnouncement>) -> Option<ReceivingAddress>
    decreases anns.len(),
{
    if anns.len() == 0 {
        None
    } else {
        match spec_decode(anns.last().message@) {
            DecodedAnnouncement::AddressPayload(a) => Some(a),
            _ => spec_ann_destination(anns.drop_last()),
        }
    }
}

/// The output preimages announced by a claim, in announcement order.
pub open spec fn spec_ann_triples(anns: Seq<PublicAnnouncement>) -> Seq<UtxoTriple>
    decreases anns.len(),
{
    if anns.len() == 0 {
        Seq::empty()
    } else {
        spec_ann_triples(anns.drop_last()) + (match spec_decode(anns.last().message@) {
            DecodedAnnouncement::UtxoPayload(t) => seq![t],
            _ => Seq::empty(),
        })
    }
}

/// Whether reconciliation rejects a claim: an announcement at fault, or
/// no destination address.
pub open spec fn spec_claim_trouble(c: LoadedClaim) -> bool {
    ||| spec_first_ann_fault(c.claim.kernel.public_announcements@, c.claim.kernel.outputs@) >= 0
    ||| spec_ann_destination(c.claim.kernel.public_announcements@) is None
}

/// The position of the first claim that reconciliation rejects, or a
/// negative value.
pub open spec fn spec_first_trouble(claims: Seq<LoadedClaim>) -> int
    decreases claims.len(),
{
    if claims.len() == 0 {
        -1
    } else if spec_claim_trouble(claims.first()) {
        0
    } else {
        let r = spec_first_trouble(claims.drop_first());
        if r < 0 {
            -1
        } else {
            r + 1
        }
    }
}

/// The report entries one reconciled claim contributes: one per announced
/// output preimage, to the claim's resolved destination.
pub open spec fn spec_claim_entries(c: LoadedClaim) -> Seq<RedemptionReportEntry> {
    match spec_ann_destination(c.claim.kernel.public_announcements@) {
        Some(d) => spec_ann_triples(c.claim.kernel.public_announcements@).map_values(
            |t: UtxoTriple|
                RedemptionReportEntry {
                    amount: t.utxo.amount,
                    earliest_release_date: t.utxo.release_date,
                    address: d,
                },
        ),
        None => Seq::empty(),
    }
}

/// The full report: each claim's entries, in claim order.
pub open spec fn spec_report_entries(claims: Seq<LoadedClaim>) -> Seq<RedemptionReportEntry>
    decreases claims.len(),
{
    if claims.len() == 0 {
        Seq::empty()
    } else {
        spec_report_entries(claims.drop_last()) + spec_claim_entries(claims.last())
    }
}

/// Stage one passes: the external verifier accepted every claim.
pub open spec fn spec_stage_valid_ok(claims: Seq<LoadedClaim>, validity: Seq<bool>) -> bool {
    spec_invalid_names(claims, validity).len() == 0
}

/// Stage two passes: every claim records the current accumulator digest.
pub open spec fn spec_stage_synced_ok(claims: Seq<LoadedClaim>, h: Digest) -> bool {
    spec_unsynced_names(claims, h).len() == 0
}

/// Stage three passes: every pooled index set clears the premine guard.
pub open spec fn spec_stage_premine_ok(claims: Seq<LoadedClaim>) -> bool {
    spec_first_premine_violation(spec_pooled(claims)) < 0
}

/// Stage four passes: no pooled index set repeats.
pub open spec fn spec_stage_nodup_ok(claims: Seq<LoadedClaim>) -> bool {
    !spec_has_duplicate(spec_pooled(claims))
}

/// Stage five passes: the accumulator can remove every pooled record.
pub open spec fn spec_stage_removable_ok(removable: Seq<bool>) -> bool {
    spec_first_nonremovable(removable) < 0
}

/// Stage six passes: reconciliation accepts every claim.
pub open spec fn spec_stage_reconcile_ok(claims: Seq<LoadedClaim>) -> bool {
    spec_first_trouble(claims) < 0
}

proof fn lemma_premine_first_at(pool: Seq<AbsoluteIndexSet>, j: int)
    requires
        0 <= j < pool.len(),
        spec_set_lower_bound(pool[j].indices@) < ALLOWABLE_AOCL_INDEX_LOWER_BOUND,
        forall|k: int|
            0 <= k < j ==> spec_set_lower_bound((#[trigger] pool[k]).indices@)
                >= ALLOWABLE_AOCL_INDEX_LOWER_BOUND,
    ensures
        spec_first_premine_violation(pool) == j,
    decreases pool.len(),
{
    if j > 0 {
        assert(pool.drop_first()[j - 1] == pool[j]);
        assert forall|k: int| 0 <= k < j - 1 implies spec_set_lower_bound(
            (#[trigger] pool.drop_first()[k]).indices@,
        ) >= ALLOWABLE_AOCL_INDEX_LOWER_BOUND by {
            assert(pool.drop_first()[k] == pool[k + 1]);
        }
        lemma_premine_first_at(pool.drop_first(), j - 1);
    }
}

proof fn lemma_premine_first_none(pool: Seq<AbsoluteIndexSet>)
    requires
        forall|k: int|
            0 <= k < pool.len() ==> spec_set_lower_bound((#[trigger] pool[k]).indices@)
                >= ALLOWABLE_AOCL_INDEX_LOWER_BOUND,
    ensures
        spec_first_premine_violation(pool) < 0,
    decreases pool.len(),
{
    if pool.len() > 0 {
        assert forall|k: int| 0 <= k < pool.drop_first().len() implies spec_set_lower_bound(
            (#[trigger] pool.drop_first()[k]).indices@,
        ) >= ALLOWABLE_AOCL_INDEX_LOWER_BOUND by {
            assert(pool.drop_first()[k] == pool[k + 1]);
        }
        lemma_premine_first_none(pool.drop_first());
    }
}

proof fn lemma_nonremovable_first_at(removable: Seq<bool>, j: int)
    requires
        0 <= j < removable.len(),
        !removable[j],
        forall|k: int| 0 <= k < j ==> removable[k],
    ensures
        spec_first_nonremovable(removable) == j,
    decreases removable.len(),
{
    if j > 0 {
        assert(removable.drop_first()[j - 1] == removable[j]);
        assert forall|k: int| 0 <= k < j - 1 implies removable.drop_first()[k] by {
            assert(removable.drop_first()[k] == removable[k + 1]);
        }
        lemma_nonremovable_first_at(removable.drop_first(), j - 1);
    }
}

proof fn lemma_nonremovable_first_none(removable: Seq<bool>)
    requires
        forall|k: int| 0 <= k < removable.len() ==> removable[k],
    ensures
        spec_first_nonremovable(removable) < 0,
    decreases removable.len(),
{
    if removable.len() > 0 {
        assert forall|k: int| 0 <= k < removable.drop_first().len() implies removable.drop_first()[k] by {
            assert(removable.drop_first()[k] == removable[k + 1]);
        }
        lemma_nonremovable_first_none(removable.drop_first());
    }
}

proof fn lemma_ann_fault_first_at(anns: Seq<PublicAnnouncement>, outs: Seq<AdditionRecord>, j: int)
    requires
        0 <= j < anns.len(),
        spec_ann_fault(anns, outs, j),
        forall|k: int| 0 <= k < j ==> !spec_ann_fault(anns, outs, k),
    ensures
        spec_first_ann_fault(anns, outs) == j,
    decreases anns.len(),
{
    if j > 0 {
        assert(!spec_ann_fault(anns, outs, 0));
        assert(anns.drop_first()[j - 1] == anns[j]);
        assert(spec_ann_fault(anns.drop_first(), outs, j - 1));
        assert forall|k: int| 0 <= k < j - 1 implies !spec_ann_fault(anns.drop_first(), outs, k) by {
            assert(anns.drop_first()[k] == anns[k + 1]);
            assert(!spec_ann_fault(anns, outs, k + 1));
        }
        lemma_ann_fault_first_at(anns.drop_first(), outs, j - 1);
    }
}

proof fn lemma_ann_fault_first_none(anns: Seq<PublicAnnouncement>, outs: Seq<AdditionRecord>)
    requires
        forall|k: int| 0 <= k < anns.len() ==> !spec_ann_fault(anns, outs, k),
    ensures
        spec_first_ann_fault(anns, outs) < 0,
    decreases anns.len(),
{
    if anns.len() > 0 {
        assert forall|k: int| 0 <= k < anns.drop_first().len() implies !spec_ann_fault(
            anns.drop_first(),
            outs,
            k,
        ) by {
            assert(anns.drop_first()[k] == anns[k + 1]);
            assert(!spec_ann_fault(anns, outs, k + 1));
        }
        lemma_ann_fault_first_none(anns.drop_first(), outs);
    }
}

proof fn lemma_trouble_first_at(claims: Seq<LoadedClaim>, j: int)
    requires
        0 <= j < claims.len(),
        spec_claim_trouble(claims[j]),
        forall|k: int| 0 <= k < j ==> !spec_claim_trouble(#[trigger] claims[k]),
    ensures
        spec_first_trouble(claims) == j,
    decreases claims.len(),
{
    if j > 0 {
        assert(claims.drop_first()[j - 1] == claims[j]);
        assert forall|k: int| 0 <= k < j - 1 implies !spec_claim_trouble(
            #[trigger] claims.drop_first()[k],
        ) by {
            assert(claims.drop_first()[k] == claims[k + 1]);
        }
        lemma_trouble_first_at(claims.drop_first(), j - 1);
    }
}

proof fn lemma_trouble_first_none(claims: Seq<LoadedClaim>)
    requires
        forall|k: int| 0 <= k < claims.len() ==> !spec_claim_trouble(#[trigger] claims[k]),
    ensures
        spec_first_trouble(claims) < 0,
    decreases claims.len(),
{
    if claims.len() > 0 {
        assert forall|k: int| 0 <= k < claims.drop_first().len() implies !spec_claim_trouble(
            #[trigger] claims.drop_first()[k],
        ) by {
            assert(claims.drop_first()[k] == claims[k + 1]);
        }
        lemma_trouble_first_none(claims.drop_first());
    }
}

/// Whether the declared outputs contain a commitment.
fn outputs_contain(outs: &Vec<AdditionRecord>, d: &Digest) -> (r: bool)
    ensures
        r == spec_output_contains(outs@, *d),
{
    let mut i: usize = 0;
    while i < outs.len()
        invariant
            i <= outs.len(),
            forall|k: int|
                0 <= k < i ==> (#[trigger] outs@[k]).canonical_commitment.words@ != d.words@,
        decreases outs.len() - i,
    {
        if outs[i].canonical_commitment == *d {
            return true;
        }
        i = i + 1;
    }
    false
}

/// Announced preimage prefixes decode back to the declared outputs.
proof fn lemma_triples_prefix(d: ClaimDetails, anns: Seq<PublicAnnouncement>, j: int)
    requires
        d.wf(),
        0 <= j <= d.outputs@.len() <= anns.len(),
        forall|i: int|
            0 <= i < d.outputs@.len() ==> (#[trigger] anns[i]).message@ == spec_encode_triple(
                d.outputs@[i],
            ),
    ensures
        spec_ann_triples(anns.take(j)) == d.outputs@.take(j),
    decreases j,
{
    if j == 0 {
        assert(spec_ann_triples(anns.take(0)) =~= d.outputs@.take(0));
    } else {
        lemma_triples_prefix(d, anns, j - 1);
        assert(anns.take(j).drop_last() =~= anns.take(j - 1));
        assert(anns.take(j).last() == anns[j - 1]);
        lemma_triple_roundtrip(d.outputs@[j - 1]);
        assert(spec_ann_triples(anns.take(j)) =~= d.outputs@.take(j));
    }
}

/// Assembly and validation agree: the announcements of an assembled
/// claim always reconcile.  Every announcement decodes, each announced
/// output preimage is among the claim's declared outputs in output
/// order, and the final announcement resolves the claim's destination.
pub proof fn lemma_assembled_claim_reconciles(
    d: ClaimDetails,
    chunk: Seq<RedemptionInput>,
    dest: ReceivingAddress,
    ts: Timestamp,
    anns: Seq<PublicAnnouncement>,
    outs: Seq<AdditionRecord>,
)
    requires
        spec_details_ok(d, chunk, dest, ts),
        anns.len() == d.public_announcements@.len(),
        forall|i: int|
            0 <= i < anns.len() ==> (#[trigger] anns[i]).message@
                == d.public_announcements@[i].message@,
        outs.len() == d.outputs@.len(),
        forall|i: int|
            0 <= i < outs.len() ==> (#[trigger] outs[i]).canonical_commitment
                == spec_addition_record(d.outputs@[i]),
    ensures
        spec_first_ann_fault(anns, outs) < 0,
        spec_ann_destination(anns) == Some(dest),
        spec_ann_triples(anns) == d.outputs@,
{
    let n = d.outputs@.len() as int;
    assert(anns.len() == n + 1);
    assert forall|k: int| 0 <= k < anns.len() implies !spec_ann_fault(anns, outs, k) by {
        if k < n {
            assert(anns[k].message@ == spec_encode_triple(d.outputs@[k]));
            assert(d.outputs@[k].wf());
            lemma_triple_roundtrip(d.outputs@[k]);
            assert(outs[k].canonical_commitment.words@ == spec_addition_record(
                d.outputs@[k],
            ).words@);
            assert(spec_output_contains(outs, spec_addition_record(d.outputs@[k])));
        } else {
            assert(anns[k].message@ == d.public_announcements@.last().message@);
            assert(anns[k].message@ == spec_encode_address(dest));
            lemma_address_roundtrip(dest);
        }
    }
    lemma_ann_fault_first_none(anns, outs);
    assert(anns.last().message@ == spec_encode_address(dest));
    lemma_address_roundtrip(dest);
    assert(spec_ann_destination(anns) == Some(dest));
    lemma_triples_prefix(d, anns, n);
    assert(anns.drop_last() =~= anns.take(n));
    assert(spec_ann_triples(anns) == spec_ann_triples(anns.drop_last()) + Seq::<
        UtxoTriple,
    >::empty());
    assert(d.outputs@.take(n) =~= d.outputs@);
    assert(spec_ann_triples(anns) =~= d.outputs@);
}

/// A single claim that the verifier vouches for and that records the
/// right digest passes the first two stages.
proof fn lemma_single_claim_verdicts(claim: LoadedClaim, h: Digest)
    requires
        claim.claim.kernel.mutator_set_hash.words@ == h.words@,
    ensures
        spec_stage_valid_ok(seq![claim], seq![true]),
        spec_stage_synced_ok(seq![claim], h),
{
    let s = seq![claim];
    assert(s.drop_last().len() == 0);
    assert(seq![true][0] == true);
    assert(spec_invalid_names(s.drop_last(), seq![true]) =~= Seq::<Seq<char>>::empty());
    assert(spec_invalid_names(s, seq![true]) =~= Seq::<Seq<char>>::empty());
    assert(spec_unsynced_names(s.drop_last(), h) =~= Seq::<Seq<char>>::empty());
    assert(spec_unsynced_names(s, h) =~= Seq::<Seq<char>>::empty());
}

/// A single claim whose inputs clear the premine guard and are pairwise
/// distinct passes the guard and double-spend stages.
proof fn lemma_single_claim_inputs(claim: LoadedClaim)
    requires
        forall|i: int|
            0 <= i < claim.claim.kernel.inputs@.len() ==> spec_set_lower_bound(
                (#[trigger] claim.claim.kernel.inputs@[i]).absolute_indices.indices@,
            ) >= ALLOWABLE_AOCL_INDEX_LOWER_BOUND,
        forall|i: int, j: int|
            0 <= i < j < claim.claim.kernel.inputs@.len() ==> (
            #[trigger] claim.claim.kernel.inputs@[i]).absolute_indices.indices@ != (
            #[trigger] claim.claim.kernel.inputs@[j]).absolute_indices.indices@,
    ensures
        spec_stage_premine_ok(seq![claim]),
        spec_stage_nodup_ok(seq![claim]),
{
    let s = seq![claim];
    let kernel = claim.claim.kernel;
    assert(s.drop_last().len() == 0);
    assert(s.last() == claim);
    let pool = spec_pooled(s);
    assert(spec_pooled(s.drop_last()) =~= Seq::<AbsoluteIndexSet>::empty());
    assert(pool =~= kernel.inputs@.map_values(|r: RemovalRecord| r.absolute_indices));
    assert forall|k: int| 0 <= k < pool.len() implies spec_set_lower_bound(
        (#[trigger] pool[k]).indices@,
    ) >= ALLOWABLE_AOCL_INDEX_LOWER_BOUND by {
        assert(pool[k] == kernel.inputs@[k].absolute_indices);
    }
    lemma_premine_first_none(pool);
    assert forall|i: int, j: int| 0 <= i < j < pool.len() implies (
    #[trigger] pool[i]).indices@ != (#[trigger] pool[j]).indices@ by {
        assert(pool[i] == kernel.inputs@[i].absolute_indices);
        assert(pool[j] == kernel.inputs@[j].absolute_indices);
    }
}

/// The entries a single reconciled claim contributes, from the decoded
/// facts alone.
proof fn lemma_claim_entries_from_facts(
    claim: LoadedClaim,
    outputs: Seq<UtxoTriple>,
    dest: ReceivingAddress,
)
    requires
        spec_first_ann_fault(
            claim.claim.kernel.public_announcements@,
            claim.claim.kernel.outputs@,
        ) < 0,
        spec_ann_triples(claim.claim.kernel.public_announcements@) == outputs,
        spec_ann_destination(claim.claim.kernel.public_announcements@) == Some(dest),
    ensures
        spec_stage_reconcile_ok(seq![claim]),
        spec_report_entries(seq![claim]) == outputs.map_values(
            |t: UtxoTriple|
                RedemptionReportEntry {
                    amount: t.utxo.amount,
                    earliest_release_date: t.utxo.release_date,
                    address: dest,
                },
        ),
{
    let s = seq![claim];
    assert(s.drop_last().len() == 0);
    assert(s.last() == claim);
    assert(!spec_claim_trouble(claim));
    lemma_trouble_first_none(s);
    assert(spec_report_entries(s.drop_last()) =~= Seq::<RedemptionReportEntry>::empty());
    assert(spec_report_entries(s) =~= spec_claim_entries(claim));
    let entries = spec_claim_entries(claim);
    let mapped = outputs.map_values(
        |t: UtxoTriple|
            RedemptionReportEntry {
                amount: t.utxo.amount,
                earliest_release_date: t.utxo.release_date,
                address: dest,
            },
    );
    assert(entries.len() == mapped.len());
    assert forall|i: int| 0 <= i < entries.len() implies entries[i] == mapped[i] by {
        assert(entries[i] == RedemptionReportEntry {
            amount: outputs[i].utxo.amount,
            earliest_release_date: outputs[i].utxo.release_date,
            address: dest,
        });
    }
    assert(entries =~= mapped);
}

/// An assembled claim passes every validation stage.  If a claim's
/// kernel proves down from assembled details — removal records for the
/// batch inputs, commitments for the outputs, the announcement trail, and
/// the accumulator digest validated against — and the external
/// collaborators accept it (the verifier vouches for it and the
/// accumulator can remove every input), then all six stages hold and the
/// claim contributes exactly one report entry per output, to the
/// destination the batch was assembled for.
#[verifier::rlimit(100)]
pub proof fn lemma_assembled_claim_passes_validation(
    claim: LoadedClaim,
    d: ClaimDetails,
    chunk: Seq<RedemptionInput>,
    dest: ReceivingAddress,
    ts: Timestamp,
    h: Digest,
    removable: Seq<bool>,
)
    requires
        spec_details_ok(d, chunk, dest, ts),
        claim.claim.kernel.inputs@.len() == d.inputs@.len(),
        forall|i: int|
            0 <= i < d.inputs@.len() ==> (#[trigger] claim.claim.kernel.inputs@[i]).absolute_indices
                == d.inputs@[i].absolute_indices,
        claim.claim.kernel.outputs@.len() == d.outputs@.len(),
        forall|i: int|
            0 <= i < d.outputs@.len() ==> (
            #[trigger] claim.claim.kernel.outputs@[i]).canonical_commitment
                == spec_addition_record(d.outputs@[i]),
        claim.claim.kernel.public_announcements@.len() == d.public_announcements@.len(),
        forall|i: int|
            0 <= i < d.public_announcements@.len() ==> (
            #[trigger] claim.claim.kernel.public_announcements@[i]).message@
                == d.public_announcements@[i].message@,
        claim.claim.kernel.mutator_set_hash.words@ == h.words@,
        forall|i: int|
            0 <= i < chunk.len() ==> spec_set_lower_bound(
                (#[trigger] chunk[i]).absolute_indices.indices@,
            ) >= ALLOWABLE_AOCL_INDEX_LOWER_BOUND,
        forall|i: int, j: int|
            0 <= i < j < chunk.len() ==> (#[trigger] chunk[i]).absolute_indices.indices@ != (
            #[trigger] chunk[j]).absolute_indices.indices@,
        removable.len() == d.inputs@.len(),
        forall|i: int| 0 <= i < removable.len() ==> removable[i],
    ensures
        spec_stage_valid_ok(seq![claim], seq![true]),
        spec_stage_synced_ok(seq![claim], h),
        spec_stage_premine_ok(seq![claim]),
        spec_stage_nodup_ok(seq![claim]),
        spec_stage_removable_ok(removable),
        spec_stage_reconcile_ok(seq![claim]),
        spec_report_entries(seq![claim]) == d.outputs@.map_values(
            |t: UtxoTriple|
                RedemptionReportEntry {
                    amount: t.utxo.amount,
                    earliest_release_date: t.utxo.release_date,
                    address: dest,
                },
        ),
{
    let s = seq![claim];
    let kernel = claim.claim.kernel;
    assert(s.drop_last().len() == 0);
    assert(s.last() == claim);

    // Stages one and two: verdicts and synchronization.
    lemma_single_claim_verdicts(claim, h);

    // Stages three and four: the batch inputs cleared the premine guard
    // at assembly and are pairwise distinct.
    assert(d.inputs@ == chunk);
    assert forall|i: int| 0 <= i < kernel.inputs@.len() implies spec_set_lower_bound(
        (#[trigger] kernel.inputs@[i]).absolute_indices.indices@,
    ) >= ALLOWABLE_AOCL_INDEX_LOWER_BOUND by {
        assert(kernel.inputs@[i].absolute_indices == chunk[i].absolute_indices);
    }
    assert forall|i: int, j: int| 0 <= i < j < kernel.inputs@.len() implies (
    #[trigger] kernel.inputs@[i]).absolute_indices.indices@ != (
    #[trigger] kernel.inputs@[j]).absolute_indices.indices@ by {
        assert(kernel.inputs@[i].absolute_indices == chunk[i].absolute_indices);
        assert(kernel.inputs@[j].absolute_indices == chunk[j].absolute_indices);
    }
    lemma_single_claim_inputs(claim);

    // Stage five: the accumulator can remove every record.
    lemma_nonremovable_first_none(removable);

    // Stage six and the report: the announcement trail reconciles, one
    // entry per announced output, to the destination.
    lemma_assembled_claim_reconciles(
        d,
        chunk,
        dest,
        ts,
        kernel.public_announcements@,
        kernel.outputs@,
    );
    lemma_claim_entries_from_facts(claim, d.outputs@, dest);
}

impl Redeemer {
    /// Validate a batch of claims against one accumulator state and
    /// compile the report.
    ///
    /// `claim_validity` holds the external verifier's verdict for each
    /// claim, in order; `removable` holds the accumulator's `can_remove`
    /// verdict for each pooled removal record, in claim order then input
    /// order; `accumulator_hash` is the current accumulator digest.
    #[verifier::loop_isolation(false)]
    #[verifier::rlimit(100)]
    pub fn validate_redemption(
        claims: &Vec<LoadedClaim>,
        claim_validity: &Vec<bool>,
        accumulator_hash: Digest,
        removable: &Vec<bool>,
    ) -> (r: Result<RedemptionReport, RedemptionValidationError>)
        requires
            claim_validity@.len() == claims@.len(),
            removable@.len() == spec_pooled(claims@).len(),
            spec_claims_wf(claims@),
        ensures
            match r {
                Ok(report) => {
                    &&& spec_stage_valid_ok(claims@, claim_validity@)
                    &&& spec_stage_synced_ok(claims@, accumulator_hash)
                    &&& spec_stage_premine_ok(claims@)
                    &&& spec_stage_nodup_ok(claims@)
                    &&& spec_stage_removable_ok(removable@)
                    &&& spec_stage_reconcile_ok(claims@)
                    &&& report@ == spec_report_entries(claims@)
                },
                Err(e) => match e {
                    RedemptionValidationError::InvalidClaims(v) => {
                        &&& !spec_stage_valid_ok(claims@, claim_validity@)
                        &&& v@.map_values(|s: String| s@) == spec_invalid_names(
                            claims@,
                            claim_validity@,
                        )
                    },
                    RedemptionValidationError::UnsyncedClaims(v) => {
                        &&& spec_stage_valid_ok(claims@, claim_validity@)
                        &&& !spec_stage_synced_ok(claims@, accumulator_hash)
                        &&& v@.map_values(|s: String| s@) == spec_unsynced_names(
                            claims@,
                            accumulator_hash,
                        )
                    },
                    RedemptionValidationError::PotentialPremineClaim(b) => {
                        &&& spec_stage_valid_ok(claims@, claim_validity@)
                        &&& spec_stage_synced_ok(claims@, accumulator_hash)
                        &&& !spec_stage_premine_ok(claims@)
                        &&& b as nat == spec_set_lower_bound(
                            spec_pooled(claims@)[spec_first_premine_violation(
                                spec_pooled(claims@),
                            )].indices@,
                        )
                    },
                    RedemptionValidationError::MutuallyIncompatibleClaims => {
                        &&& spec_stage_valid_ok(claims@, claim_validity@)
                        &&& spec_stage_synced_ok(claims@, accumulator_hash)
                        &&& spec_stage_premine_ok(claims@)
                        &&& !spec_stage_nodup_ok(claims@)
                    },
                    RedemptionValidationError::InvalidRemovalRecord(s) => {
                        &&& spec_stage_valid_ok(claims@, claim_validity@)
                        &&& spec_stage_synced_ok(claims@, accumulator_hash)
                        &&& spec_stage_premine_ok(claims@)
                        &&& spec_stage_nodup_ok(claims@)
                        &&& !spec_stage_removable_ok(removable@)
                        &&& s.indices@ == spec_pooled(claims@)[spec_first_nonremovable(
                            removable@,
                        )].indices@
                    },
                    RedemptionValidationError::UnparsablePublicAnnouncement(name, j) => {
                        &&& spec_stage_valid_ok(claims@, claim_validity@)
                        &&& spec_stage_synced_ok(claims@, accumulator_hash)
                        &&& spec_stage_premine_ok(claims@)
                        &&& spec_stage_nodup_ok(claims@)
                        &&& spec_stage_removable_ok(removable@)
                        &&& !spec_stage_reconcile_ok(claims@)
                        &&& {
                            let c = spec_first_trouble(claims@);
                            let anns = claims@[c].claim.kernel.public_announcements@;
                            &&& name@ == claims@[c].name@
                            &&& spec_first_ann_fault(anns, claims@[c].claim.kernel.outputs@)
                                == j as int
                            &&& spec_decode(anns[j as int].message@)
                                is Unparsable
                        }
                    },
                    RedemptionValidationError::UtxoNotOutput(name, j) => {
                        &&& spec_stage_valid_ok(claims@, claim_validity@)
                        &&& spec_stage_synced_ok(claims@, accumulator_hash)
                        &&& spec_stage_premine_ok(claims@)
                        &&& spec_stage_nodup_ok(claims@)
                        &&& spec_stage_removable_ok(removable@)
                        &&& !spec_stage_reconcile_ok(claims@)
                        &&& {
                            let c = spec_first_trouble(claims@);
                            let anns = claims@[c].claim.kernel.public_announcements@;
                            &&& name@ == claims@[c].name@
                            &&& spec_first_ann_fault(anns, claims@[c].claim.kernel.outputs@)
                                == j as int
                            &&& spec_decode(anns[j as int].message@)
                                is UtxoPayload
                        }
                    },
                    RedemptionValidationError::MissingDestinationAddress => {
                        &&& spec_stage_valid_ok(claims@, claim_validity@)
                        &&& spec_stage_synced_ok(claims@, accumulator_hash)
                        &&& spec_stage_premine_ok(claims@)
                        &&& spec_stage_nodup_ok(claims@)
                        &&& spec_stage_removable_ok(removable@)
                        &&& !spec_stage_reconcile_ok(claims@)
                        &&& {
                            let c = spec_first_trouble(claims@);
                            &&& spec_first_ann_fault(
                                claims@[c].claim.kernel.public_announcements@,
                                claims@[c].claim.kernel.outputs@,
                            ) < 0
                            &&& spec_ann_destination(
                                claims@[c].claim.kernel.public_announcements@,
                            ) is None
                        }
                    },
                },
            },
    {
        // Stage one: external proof validity, collecting every offender.
        let mut invalid_names: Vec<String> = Vec::new();
        let mut i: usize = 0;
        while i < claims.len()
            invariant
                i <= claims.len(),
                claim_validity@.len() == claims@.len(),
                invalid_names@.map_values(|s: String| s@) == spec_invalid_names(
                    claims@.take(i as int),
                    claim_validity@,
                ),
            decreases claims.len() - i,
        {
            proof {
                assert(claims@.take(i as int + 1).drop_last() =~= claims@.take(i as int));
            }
            if !claim_validity[i] {
                invalid_names.push(claims[i].name.clone());
            }
            i = i + 1;
            proof {
                assert(invalid_names@.map_values(|s: String| s@) =~= spec_invalid_names(
                    claims@.take(i as int),
                    claim_validity@,
                ));
            }
        }
        proof {
            assert(claims@.take(claims@.len() as int) =~= claims@);
        }
        if invalid_names.len() > 0 {
            return Err(RedemptionValidationError::InvalidClaims(invalid_names));
        }

        // Stage two: synchronization to the current accumulator digest,
        // collecting every offender.
        let mut unsynced_names: Vec<String> = Vec::new();
        let mut i2: usize = 0;
        while i2 < claims.len()
            invariant
                i2 <= claims.len(),
                unsynced_names@.map_values(|s: String| s@) == spec_unsynced_names(
                    claims@.take(i2 as int),
                    accumulator_hash,
                ),
            decreases claims.len() - i2,
        {
            proof {
                assert(claims@.take(i2 as int + 1).drop_last() =~= claims@.take(i2 as int));
            }
            if !(claims[i2].claim.kernel.mutator_set_hash == accumulator_hash) {
                unsynced_names.push(claims[i2].name.clone());
            }
            i2 = i2 + 1;
            proof {
                assert(unsynced_names@.map_values(|s: String| s@) =~= spec_unsynced_names(
                    claims@.take(i2 as int),
                    accumulator_hash,
                ));
            }
        }
        proof {
            assert(claims@.take(claims@.len() as int) =~= claims@);
        }
        if unsynced_names.len() > 0 {
            return Err(RedemptionValidationError::UnsyncedClaims(unsynced_names));
        }

        // Pool every removal index set, in claim order then input order.
        let mut pool: Vec<AbsoluteIndexSet> = Vec::new();
        let mut ci: usize = 0;
        while ci < claims.len()
            invariant
                ci <= claims.len(),
                spec_claims_wf(claims@),
                pool@ == spec_pooled(claims@.take(ci as int)),
                forall|k: int| 0 <= k < pool@.len() ==> (#[trigger] pool@[k]).wf(),
            decreases claims.len() - ci,
        {
            let inputs = &claims[ci].claim.kernel.inputs;
            let ghost base = pool@;
            let mut ii: usize = 0;
            while ii < inputs.len()
                invariant
                    ii <= inputs.len(),
                    ci < claims.len(),
                    spec_claims_wf(claims@),
                    inputs@ == claims@[ci as int].claim.kernel.inputs@,
                    pool@ == base + inputs@.take(ii as int).map_values(
                        |r: RemovalRecord| r.absolute_indices,
                    ),
                    forall|k: int| 0 <= k < base.len() ==> (#[trigger] base[k]).wf(),
                    forall|k: int| 0 <= k < pool@.len() ==> (#[trigger] pool@[k]).wf(),
                decreases inputs.len() - ii,
            {
                pool.push(inputs[ii].absolute_indices);
                ii = ii + 1;
                proof {
                    assert(claims@[ci as int].claim.kernel.inputs@[ii as int - 1].absolute_indices.wf());
                    assert(pool@ =~= base + inputs@.take(ii as int).map_values(
                        |r: RemovalRecord| r.absolute_indices,
                    ));
                }
            }
            ci = ci + 1;
            proof {
                assert(claims@.take(ci as int).drop_last() =~= claims@.take(ci as int - 1));
                assert(inputs@.take(inputs@.len() as int) =~= inputs@);
                assert(pool@ =~= spec_pooled(claims@.take(ci as int)));
            }
        }
        proof {
            assert(claims@.take(claims@.len() as int) =~= claims@);
        }

        // Stage three: the premine guard, aborting at the first offender.
        let mut pi: usize = 0;
        while pi < pool.len()
            invariant
                pi <= pool.len(),
                pool@ == spec_pooled(claims@),
                forall|k: int| 0 <= k < pool@.len() ==> (#[trigger] pool@[k]).wf(),
                forall|k: int|
                    0 <= k < pi ==> spec_set_lower_bound((#[trigger] pool@[k]).indices@)
                        >= ALLOWABLE_AOCL_INDEX_LOWER_BOUND,
            decreases pool.len() - pi,
        {
            let earliest_possible = absolute_index_set_to_aocl_leaf_index_lower_bound(&pool[pi]);
            if earliest_possible < ALLOWABLE_AOCL_INDEX_LOWER_BOUND {
                proof {
                    lemma_premine_first_at(pool@, pi as int);
                }
                return Err(RedemptionValidationError::PotentialPremineClaim(earliest_possible));
            }
            pi = pi + 1;
        }
        proof {
            lemma_premine_first_none(pool@);
        }

        // Stage four: no double-spends across the whole batch.
        let mut di: usize = 0;
        while di < pool.len()
            invariant
                di <= pool.len(),
                pool@ == spec_pooled(claims@),
                forall|a: int, b: int|
                    0 <= a < b < pool@.len() && a < di ==> (#[trigger] pool@[a]).indices@ != (
                    #[trigger] pool@[b]).indices@,
            decreases pool.len() - di,
        {
            let mut dj: usize = di + 1;
            while dj < pool.len()
                invariant
                    di < dj <= pool.len(),
                    pool@ == spec_pooled(claims@),
                    forall|b: int|
                        di < b < dj ==> (#[trigger] pool@[b]).indices@ != pool@[di as int].indices@,
                decreases pool.len() - dj,
            {
                if pool[di] == pool[dj] {
                    return Err(RedemptionValidationError::MutuallyIncompatibleClaims);
                }
                dj = dj + 1;
            }
            di = di + 1;
        }

        // Stage five: accumulator membership, aborting at the first
        // record the accumulator cannot remove.
        let mut ri: usize = 0;
        while ri < removable.len()
            invariant
                ri <= removable.len(),
                pool@ == spec_pooled(claims@),
                removable@.len() == pool@.len(),
                forall|k: int| 0 <= k < ri ==> removable@[k],
            decreases removable.len() - ri,
        {
            if !removable[ri] {
                proof {
                    lemma_nonremovable_first_at(removable@, ri as int);
                }
                return Err(RedemptionValidationError::InvalidRemovalRecord(pool[ri]));
            }
            ri = ri + 1;
        }
        proof {
            lemma_nonremovable_first_none(removable@);
        }

        // Stage six and seven: reconcile announcements and compile the
        // report.
        let mut report = RedemptionReport::new();
        let mut c: usize = 0;
        while c < claims.len()
            invariant
                c <= claims.len(),
                forall|k: int| 0 <= k < c ==> !spec_claim_trouble(#[trigger] claims@[k]),
                report@ == spec_report_entries(claims@.take(c as int)),
            decreases claims.len() - c,
        {
            let kernel = &claims[c].claim.kernel;
            let ghost anns = kernel.public_announcements@;
            let ghost outs = kernel.outputs@;
            let mut triples: Vec<UtxoTriple> = Vec::new();
            let mut destination: Option<ReceivingAddress> = None;
            let mut j: usize = 0;
            while j < kernel.public_announcements.len()
                invariant
                    j <= kernel.public_announcements.len(),
                    c < claims.len(),
                    kernel.public_announcements@ == anns,
                    kernel.outputs@ == outs,
                    anns == claims@[c as int].claim.kernel.public_announcements@,
                    outs == claims@[c as int].claim.kernel.outputs@,
                    forall|k: int| 0 <= k < j ==> !spec_ann_fault(anns, outs, k),
                    triples@ == spec_ann_triples(anns.take(j as int)),
                    destination == spec_ann_destination(anns.take(j as int)),
                decreases kernel.public_announcements.len() - j,
            {
                proof {
                    assert(anns.take(j as int + 1).drop_last() =~= anns.take(j as int));
                    assert(anns.take(j as int + 1).last() == anns[j as int]);
                }
                match decode_announcement(&kernel.public_announcements[j]) {
                    DecodedAnnouncement::Unparsable => {
                        proof {
                            lemma_ann_fault_first_at(anns, outs, j as int);
                            lemma_trouble_first_at(claims@, c as int);
                        }
                        return Err(
                            RedemptionValidationError::UnparsablePublicAnnouncement(
                                claims[c].name.clone(),
                                j,
                            ),
                        );
                    },
                    DecodedAnnouncement::UtxoPayload(t) => {
                        proof {
                            assert(t.wf());
                        }
                        let commitment = t.addition_record();
                        if !outputs_contain(&kernel.outputs, &commitment) {
                            proof {
                                lemma_ann_fault_first_at(anns, outs, j as int);
                                lemma_trouble_first_at(claims@, c as int);
                            }
                            return Err(
                                RedemptionValidationError::UtxoNotOutput(claims[c].name.clone(), j),
                            );
                        }
                        triples.push(t);
                        proof {
                            assert(triples@ =~= spec_ann_triples(anns.take(j as int + 1)));
                        }
                    },
                    DecodedAnnouncement::AddressPayload(a) => {
                        destination = Some(a);
                    },
                }
                j = j + 1;
            }
            proof {
                assert(anns.take(anns.len() as int) =~= anns);
                lemma_ann_fault_first_none(anns, outs);
            }
            match destination {
                None => {
                    proof {
                        lemma_trouble_first_at(claims@, c as int);
                    }
                    return Err(RedemptionValidationError::MissingDestinationAddress);
                },
                Some(dest) => {
                    let ghost base_entries = report@;
                    let mut ti: usize = 0;
                    while ti < triples.len()
                        invariant
                            ti <= triples.len(),
                            c < claims.len(),
                            triples@ == spec_ann_triples(
                                claims@[c as int].claim.kernel.public_announcements@,
                            ),
                            spec_ann_destination(
                                claims@[c as int].claim.kernel.public_announcements@,
                            ) == Some(dest),
                            report@ == base_entries + spec_claim_entries(claims@[c as int]).take(
                                ti as int,
                            ),
                        decreases triples.len() - ti,
                    {
                        report.add_row(
                            triples[ti].utxo.amount,
                            triples[ti].utxo.release_date,
                            dest,
                        );
                        ti = ti + 1;
                        proof {
                            assert(report@ =~= base_entries + spec_claim_entries(
                                claims@[c as int],
                            ).take(ti as int));
                        }
                    }
                    proof {
                        assert(spec_claim_entries(claims@[c as int]).take(
                            spec_claim_entries(claims@[c as int]).len() as int,
                        ) =~= spec_claim_entries(claims@[c as int]));
                    }
                },
            }
            c = c + 1;
            proof {
                assert(claims@.take(c as int).drop_last() =~= claims@.take(c as int - 1));
                assert(claims@.take(c as int).last() == claims@[c as int - 1]);
                assert(report@ =~= spec_report_entries(claims@.take(c as int)));
            }
        }
        proof {
            assert(claims@.take(claims@.len() as int) =~= claims@);
            lemma_trouble_first_none(claims@);
        }
        Ok(report)
    }
}

} // verus!
