//! Claims and their building blocks.
//!
//! A redemption claim is a constrained transaction: removal records for
//! every consumed coin, commitment records for its outputs, the plaintext
//! announcements, and the accumulator digest it was built against.

use vstd::prelude::*;

use crate::amount::NativeCurrencyAmount;
use crate::announcement::spec_addition_record;
use crate::announcement::spec_encode_triple;
use crate::announcement::PublicAnnouncement;
use crate::announcement::UtxoTriple;
use crate::bound::AbsoluteIndexSet;
use crate::digest::Digest;
use crate::timestamp::Timestamp;

verus! {

/// A removal record: the accumulator's witness that one coin is spent.
#[derive(Clone, Copy, Debug)]
pub struct RemovalRecord {
    pub absolute_indices: AbsoluteIndexSet,
}

/// An addition record: the commitment under which one output enters the
/// ledger.
#[derive(Clone, Copy, Debug)]
pub struct AdditionRecord {
    pub canonical_commitment: Digest,
}

impl PartialEq for AdditionRecord {
    fn eq(&self, other: &Self) -> (r: bool) {
        self.canonical_commitment == other.canonical_commitment
    }
}

impl vstd::std_specs::cmp::PartialEqSpecImpl for AdditionRecord {
    open spec fn obeys_eq_spec() -> bool {
        true
    }

    open spec fn eq_spec(&self, other: &Self) -> bool {
        self.canonical_commitment.words@ == other.canonical_commitment.words@
    }
}

/// The kernel of a claim: what the validator reads.
#[derive(Debug)]
pub struct ClaimKernel {
    pub inputs: Vec<RemovalRecord>,
    pub outputs: Vec<AdditionRecord>,
    pub public_announcements: Vec<PublicAnnouncement>,
    pub mutator_set_hash: Digest,
}

/// A proved redemption claim, as read back from storage.
#[derive(Debug)]
pub struct RedemptionClaim {
    pub kernel: ClaimKernel,
}

/// A claim together with the name it was loaded under.
#[derive(Debug)]
pub struct LoadedClaim {
    pub name: String,
    pub claim: RedemptionClaim,
}

/// One spendable coin eligible for redemption: its amount, its optional
/// release date, and its removal index set.
#[derive(Clone, Copy, Debug)]
pub struct RedemptionInput {
    pub amount: NativeCurrencyAmount,
    pub release_date: Option<Timestamp>,
    pub absolute_indices: AbsoluteIndexSet,
}

impl RedemptionInput {
    /// A well-formed input has a representable amount and a well-formed
    /// index set.
    pub open spec fn wf(&self) -> bool {
        &&& self.amount.wf()
        &&& self.absolute_indices.wf()
    }
}

/// The fully specified content of one claim batch, ready for proving.
#[derive(Debug)]
pub struct ClaimDetails {
    pub inputs: Vec<RedemptionInput>,
    pub outputs: Vec<UtxoTriple>,
    pub fee: NativeCurrencyAmount,
    pub public_announcements: Vec<PublicAnnouncement>,
    pub timestamp: Timestamp,
}

/// The total amount over a sequence of inputs.
pub open spec fn spec_sum_amounts(s: Seq<RedemptionInput>) -> int
    decreases s.len(),
{
    if s.len() == 0 {
        0
    } else {
        spec_sum_amounts(s.drop_last()) + s.last().amount.nau
    }
}

/// The total amount over the inputs with no release date.
pub open spec fn spec_liquid_amount(s: Seq<RedemptionInput>) -> int
    decreases s.len(),
{
    if s.len() == 0 {
        0
    } else {
        spec_liquid_amount(s.drop_last()) + if s.last().release_date is None {
            s.last().amount.nau as int
        } else {
            0
        }
    }
}

/// The total amount over the inputs with a release date.
pub open spec fn spec_timelocked_amount(s: Seq<RedemptionInput>) -> int
    decreases s.len(),
{
    if s.len() == 0 {
        0
    } else {
        spec_timelocked_amount(s.drop_last()) + if s.last().release_date is Some {
            s.last().amount.nau as int
        } else {
            0
        }
    }
}

/// The earliest release date among the time-locked inputs, if any.
pub open spec fn spec_earliest_release(s: Seq<RedemptionInput>) -> Option<Timestamp>
    decreases s.len(),
{
    if s.len() == 0 {
        None
    } else {
        match (spec_earliest_release(s.drop_last()), s.last().release_date) {
            (None, None) => None,
            (None, Some(t)) => Some(t),
            (Some(p), None) => Some(p),
            (Some(p), Some(t)) => if t.millis < p.millis {
                Some(t)
            } else {
                Some(p)
            },
        }
    }
}

/// Liquid and time-locked amounts partition the total.
pub proof fn lemma_amounts_partition(s: Seq<RedemptionInput>)
    ensures
        spec_liquid_amount(s) + spec_timelocked_amount(s) == spec_sum_amounts(s),
        spec_sum_amounts(s) >= 0,
        spec_liquid_amount(s) >= 0,
        spec_timelocked_amount(s) >= 0,
    decreases s.len(),
{
    if s.len() > 0 {
        lemma_amounts_partition(s.drop_last());
    }
}

/// The total splits at any cut point.
pub proof fn lemma_sum_split(s: Seq<RedemptionInput>, k: int)
    requires
        0 <= k <= s.len(),
    ensures
        spec_sum_amounts(s) == spec_sum_amounts(s.take(k)) + spec_sum_amounts(s.skip(k)),
    decreases s.len() - k,
{
    if k == s.len() {
        assert(s.take(k) =~= s);
        assert(s.skip(k).len() == 0);
    } else {
        lemma_sum_split(s.drop_last(), k);
        assert(s.drop_last().take(k) =~= s.take(k));
        assert(s.skip(k).drop_last() =~= s.drop_last().skip(k));
        assert(s.skip(k).len() > 0);
        assert(s.skip(k).last() == s.last());
    }
}

/// A copy of a payload word vector.
fn copy_words(m: &Vec<u64>) -> (r: Vec<u64>)
    ensures
        r@ == m@,
{
    let mut out: Vec<u64> = Vec::new();
    let mut i: usize = 0;
    while i < m.len()
        invariant
            i <= m.len(),
            out@ == m@.take(i as int),
        decreases m.len() - i,
    {
        out.push(m[i]);
        i = i + 1;
        proof {
            assert(out@ =~= m@.take(i as int));
        }
    }
    proof {
        assert(m@.take(m@.len() as int) =~= m@);
    }
    out
}

impl ClaimDetails {
    /// Every output preimage carries a representable amount.
    pub open spec fn wf(&self) -> bool {
        forall|i: int| 0 <= i < self.outputs@.len() ==> (#[trigger] self.outputs@[i]).wf()
    }

    /// The claim kernel these details prove down to: removal records for
    /// the inputs, commitments for the outputs, the announcements, and
    /// the accumulator digest the claim is synchronized to.
    pub fn to_claim_kernel(&self, mutator_set_hash: Digest) -> (r: ClaimKernel)
        requires
            self.wf(),
        ensures
            r.inputs@.len() == self.inputs@.len(),
            forall|i: int|
                0 <= i < r.inputs@.len() ==> (#[trigger] r.inputs@[i]).absolute_indices
                    == self.inputs@[i].absolute_indices,
            r.outputs@.len() == self.outputs@.len(),
            forall|i: int|
                0 <= i < r.outputs@.len() ==> (#[trigger] r.outputs@[i]).canonical_commitment
                    == spec_addition_record(self.outputs@[i]),
            r.public_announcements@.len() == self.public_announcements@.len(),
            forall|i: int|
                0 <= i < r.public_announcements@.len() ==> (
                #[trigger] r.public_announcements@[i]).message@
                    == self.public_announcements@[i].message@,
            r.mutator_set_hash == mutator_set_hash,
    {
        let mut inputs: Vec<RemovalRecord> = Vec::new();
        let mut i: usize = 0;
        while i < self.inputs.len()
            invariant
                i <= self.inputs.len(),
                inputs@.len() == i,
                forall|k: int|
                    0 <= k < i ==> (#[trigger] inputs@[k]).absolute_indices
                        == self.inputs@[k].absolute_indices,
            decreases self.inputs.len() - i,
        {
            inputs.push(RemovalRecord { absolute_indices: self.inputs[i].absolute_indices });
            i = i + 1;
        }
        let mut outputs: Vec<AdditionRecord> = Vec::new();
        let mut j: usize = 0;
        while j < self.outputs.len()
            invariant
                j <= self.outputs.len(),
                self.wf(),
                outputs@.len() == j,
                forall|k: int|
                    0 <= k < j ==> (#[trigger] outputs@[k]).canonical_commitment
                        == spec_addition_record(self.outputs@[k]),
            decreases self.outputs.len() - j,
        {
            outputs.push(AdditionRecord { canonical_commitment: self.outputs[j].addition_record() });
            j = j + 1;
        }
        let mut public_announcements: Vec<PublicAnnouncement> = Vec::new();
        let mut k: usize = 0;
        while k < self.public_announcements.len()
            invariant
                k <= self.public_announcements.len(),
                public_announcements@.len() == k,
                forall|n: int|
                    0 <= n < k ==> (#[trigger] public_announcements@[n]).message@
                        == self.public_announcements@[n].message@,
            decreases self.public_announcements.len() - k,
        {
            public_announcements.push(
                PublicAnnouncement { message: copy_words(&self.public_announcements[k].message) },
            );
            k = k + 1;
        }
        ClaimKernel { inputs, outputs, public_announcements, mutator_set_hash }
    }
}

} // verus!
