//! The lower bound on a coin's ledger insertion index.
//!
//! A spent coin is identified by its removal index set: fixed-size large
//! indices into the accumulator's sliding-window filter.  The filter only
//! reveals which window the indices could have come from, so the coin's
//! true insertion position is known only up to a window-sized range.  The
//! lower end of that range is forgery-resistant, and is the sole mechanism
//! keeping the premine allocation from being redeemed as ordinary coins.

use vstd::arithmetic::div_mod::lemma_div_is_ordered;
use vstd::arithmetic::div_mod::lemma_fundamental_div_mod;
use vstd::arithmetic::mul::lemma_mul_inequality;
use vstd::prelude::*;

verus! {

/// Indices per filter chunk.
pub const CHUNK_SIZE: u32 = 4096;

/// Indices per filter window.
pub const WINDOW_SIZE: u32 = 1048576;

/// Ledger insertions per window slide.
pub const BATCH_SIZE: u32 = 8;

/// Indices in one removal index set.
pub const NUM_INDICES: usize = 45;

/// The number of UTXOs in the premine.
pub const NUM_UTXOS_IN_PREMINE: usize = 80;

/// The threshold for the lower bound on the insertion index.  A coin whose
/// bound falls below this cannot reliably be told apart from a premine
/// UTXO and is not redeemable.
pub const ALLOWABLE_AOCL_INDEX_LOWER_BOUND: u64 = 80;

/// The largest filter index the accumulator can produce: the window of the
/// last insertion index whose derived leaf bound still fits in 64 bits.
pub const MAX_ABSOLUTE_INDEX: u128 = 2305843009213693951 * 4096 + 1048575;

/// A removal index set: the fixed-size set of filter indices identifying a
/// spent coin without revealing its insertion position.
#[derive(Clone, Copy, Debug)]
pub struct AbsoluteIndexSet {
    pub indices: [u128; NUM_INDICES],
}

impl AbsoluteIndexSet {
    /// Every index lies within the filter's range.
    pub open spec fn wf(&self) -> bool {
        forall|i: int| 0 <= i < self.indices@.len() ==> self.indices@[i] <= MAX_ABSOLUTE_INDEX
    }

    /// The set with the given indices.
    pub fn new(indices: &[u128; NUM_INDICES]) -> (r: Self)
        ensures
            r.indices@ == indices@,
    {
        AbsoluteIndexSet { indices: *indices }
    }
}

impl PartialEq for AbsoluteIndexSet {
    fn eq(&self, other: &Self) -> (r: bool) {
        let mut i: usize = 0;
        while i < 45
            invariant
                i <= 45,
                forall|k: int| 0 <= k < i ==> self.indices@[k] == other.indices@[k],
            decreases 45 - i,
        {
            if self.indices[i] != other.indices[i] {
                return false;
            }
            i = i + 1;
        }
        proof {
            assert(self.indices@ =~= other.indices@);
        }
        true
    }
}

impl vstd::std_specs::cmp::PartialEqSpecImpl for AbsoluteIndexSet {
    open spec fn obeys_eq_spec() -> bool {
        true
    }

    open spec fn eq_spec(&self, other: &Self) -> bool {
        self.indices@ == other.indices@
    }
}

/// The largest value in `s` (zero when `s` is empty).
pub open spec fn seq_max(s: Seq<u128>) -> u128
    decreases s.len(),
{
    if s.len() == 0 {
        0
    } else {
        let m = seq_max(s.drop_last());
        if s.last() > m {
            s.last()
        } else {
            m
        }
    }
}

/// The maximum bounds every element and is one of them.
pub proof fn lemma_seq_max(s: Seq<u128>)
    requires
        s.len() > 0,
    ensures
        forall|i: int| 0 <= i < s.len() ==> s[i] <= seq_max(s),
        exists|i: int| 0 <= i < s.len() && s[i] == seq_max(s),
    decreases s.len(),
{
    if s.len() > 1 {
        lemma_seq_max(s.drop_last());
        assert forall|i: int| 0 <= i < s.len() implies s[i] <= seq_max(s) by {
            if i < s.len() - 1 {
                assert(s[i] == s.drop_last()[i]);
            }
        }
        if seq_max(s) != s.last() {
            let i = choose|i: int|
                0 <= i < s.drop_last().len() && s.drop_last()[i] == seq_max(s.drop_last());
            assert(s[i] == seq_max(s));
        } else {
            assert(s[s.len() - 1] == seq_max(s));
        }
    } else {
        assert(s.drop_last().len() == 0);
        assert(seq_max(s.drop_last()) == 0);
        assert(s.last() == s[0]);
        assert(s[0] == seq_max(s));
    }
}

/// The smallest multiple of `CHUNK_SIZE` at or above `x`.
pub open spec fn spec_round_up_to_chunk(x: nat) -> nat {
    (((x + CHUNK_SIZE - 1) as nat) / (CHUNK_SIZE as nat)) * (CHUNK_SIZE as nat)
}

/// The lower bound on the start of the window that produced a maximal
/// index `mx`: round up to a chunk boundary, then back off one window,
/// saturating at zero.
pub open spec fn spec_window_start_lower_bound(mx: nat) -> nat {
    if spec_round_up_to_chunk(mx) >= WINDOW_SIZE {
        (spec_round_up_to_chunk(mx) - WINDOW_SIZE) as nat
    } else {
        0
    }
}

/// The lower bound on the ledger leaf index derived from a maximal filter
/// index `mx`.
pub open spec fn spec_leaf_index_lower_bound(mx: nat) -> nat {
    (spec_window_start_lower_bound(mx) / (CHUNK_SIZE as nat)) * (BATCH_SIZE as nat) + 1
}

/// The lower bound derived from a removal index set.
pub open spec fn spec_set_lower_bound(s: Seq<u128>) -> nat {
    spec_leaf_index_lower_bound(seq_max(s) as nat)
}

/// The start of the filter window of the coin inserted at `leaf`.
pub open spec fn spec_window_start(leaf: u64) -> nat {
    (leaf as nat / (BATCH_SIZE as nat)) * (CHUNK_SIZE as nat)
}

/// Whether `s` could have been derived from a coin inserted at `leaf`:
/// every index lies in that coin's filter window.
pub open spec fn spec_consistent_with_leaf(s: Seq<u128>, leaf: u64) -> bool {
    forall|i: int|
        0 <= i < s.len() ==> spec_window_start(leaf) <= #[trigger] s[i] < spec_window_start(leaf)
            + WINDOW_SIZE
}

/// Compute the lower bound on the ledger (AOCL) leaf index from a removal
/// index set.
pub fn absolute_index_set_to_aocl_leaf_index_lower_bound(ais: &AbsoluteIndexSet) -> (r: u64)
    requires
        ais.wf(),
    ensures
        r as nat == spec_set_lower_bound(ais.indices@),
{
    let mut mx: u128 = 0;
    let mut i: usize = 0;
    while i < 45
        invariant
            i <= 45,
            ais.wf(),
            mx == seq_max(ais.indices@.take(i as int)),
        decreases 45 - i,
    {
        proof {
            assert(ais.indices@.take(i as int + 1).drop_last() =~= ais.indices@.take(i as int));
        }
        if ais.indices[i] > mx {
            mx = ais.indices[i];
        }
        i = i + 1;
    }
    proof {
        assert(ais.indices@.take(ais.indices@.len() as int) =~= ais.indices@);
        lemma_seq_max(ais.indices@);
        assert(mx <= MAX_ABSOLUTE_INDEX);
    }
    let rounded = ((mx + 4095) / 4096) * 4096;
    let window_start_lower_bound = if rounded >= 1048576 {
        rounded - 1048576
    } else {
        0
    };
    let chunk_index_lower_bound = window_start_lower_bound / 4096;
    proof {
        let cm: int = 2305843009213693951;
        lemma_fundamental_div_mod((mx + 4095) as int, 4096);
        lemma_div_is_ordered(
            window_start_lower_bound as int,
            cm * 4096 + 4094,
            4096,
        );
        lemma_fundamental_div_mod(cm * 4096 + 4094, 4096);
        if chunk_index_lower_bound as int > cm {
            lemma_mul_inequality(cm + 1, chunk_index_lower_bound as int, 4096);
            assert(false);
        }
    }
    let aocl_leaf_index_lower_bound = chunk_index_lower_bound * 8 + 1;
    aocl_leaf_index_lower_bound as u64
}

/// A larger maximal index never gives a smaller bound.  Since windows
/// slide forward as the ledger grows, the bound is monotone in where a
/// coin's indices can lie.
pub proof fn lemma_lower_bound_monotone(s1: Seq<u128>, s2: Seq<u128>)
    requires
        seq_max(s1) <= seq_max(s2),
    ensures
        spec_set_lower_bound(s1) <= spec_set_lower_bound(s2),
{
    let m1 = seq_max(s1) as nat;
    let m2 = seq_max(s2) as nat;
    lemma_div_is_ordered((m1 + CHUNK_SIZE - 1) as int, (m2 + CHUNK_SIZE - 1) as int, 4096);
    lemma_mul_inequality(
        ((m1 + CHUNK_SIZE - 1) as nat / 4096) as int,
        ((m2 + CHUNK_SIZE - 1) as nat / 4096) as int,
        4096,
    );
    lemma_div_is_ordered(
        spec_window_start_lower_bound(m1) as int,
        spec_window_start_lower_bound(m2) as int,
        4096,
    );
    lemma_mul_inequality(
        (spec_window_start_lower_bound(m1) / 4096) as int,
        (spec_window_start_lower_bound(m2) / 4096) as int,
        8,
    );
}

/// Soundness: a set consistent with a coin inserted at `leaf` never gives
/// a bound beyond the start of that coin's insertion batch — in
/// particular, never beyond the coin's one-based insertion position.
pub proof fn lemma_lower_bound_sound(s: Seq<u128>, leaf: u64)
    requires
        s.len() > 0,
        spec_consistent_with_leaf(s, leaf),
    ensures
        spec_set_lower_bound(s) <= (leaf as nat / (BATCH_SIZE as nat)) * (BATCH_SIZE as nat) + 1,
        spec_set_lower_bound(s) <= leaf + 1,
{
    let b = leaf as nat / (BATCH_SIZE as nat);
    let ws = spec_window_start(leaf);
    let mx = seq_max(s) as nat;
    lemma_seq_max(s);
    assert(mx < ws + WINDOW_SIZE);
    // The rounded-up maximum stays at or below the window's end.
    let q = (mx + CHUNK_SIZE - 1) as nat / 4096;
    lemma_fundamental_div_mod((mx + CHUNK_SIZE - 1) as int, 4096);
    if q > b * 4096 / 4096 + 256 {
        lemma_mul_inequality((b + 257) as int, q as int, 4096);
        assert(false) by {
            assert(4096 * q as int <= mx as int + 4095);
            assert((b + 257) * 4096 == b * 4096 + 257 * 4096) by (nonlinear_arith);
            assert(mx + CHUNK_SIZE - 1 < b * 4096 + 257 * 4096);
        }
    }
    assert(q <= b + 256) by {
        vstd::arithmetic::div_mod::lemma_div_by_multiple(b as int, 4096);
    }
    lemma_mul_inequality(q as int, (b + 256) as int, 4096);
    assert((b + 256) * 4096 == b * 4096 + WINDOW_SIZE) by (nonlinear_arith);
    // So the window-start bound stays at or below the true window start.
    assert(spec_window_start_lower_bound(mx) <= ws);
    lemma_div_is_ordered(spec_window_start_lower_bound(mx) as int, ws as int, 4096);
    assert(ws / 4096 == b) by {
        vstd::arithmetic::div_mod::lemma_div_by_multiple(b as int, 4096);
    }
    lemma_mul_inequality((spec_window_start_lower_bound(mx) / 4096) as int, b as int, 8);
    // And the batch start is at most the insertion index itself.
    lemma_fundamental_div_mod(leaf as int, 8);
}

/// A coin inserted below the premine threshold always fails the guard:
/// whatever indices its window yields, the derived bound stays below the
/// threshold.
pub proof fn lemma_premine_guard_fails(s: Seq<u128>, leaf: u64)
    requires
        s.len() > 0,
        spec_consistent_with_leaf(s, leaf),
        (leaf as int) < NUM_UTXOS_IN_PREMINE,
    ensures
        spec_set_lower_bound(s) < ALLOWABLE_AOCL_INDEX_LOWER_BOUND,
{
    lemma_lower_bound_sound(s, leaf);
    lemma_div_is_ordered(leaf as int, 79, 8);
    lemma_mul_inequality((leaf as nat / 8) as int, 9, 8);
}

/// A coin inserted a full window past the threshold always passes the
/// guard, whatever indices its window yields.  (Coins between the
/// threshold and this margin may or may not pass, depending on where in
/// the window their indices fall.)
pub proof fn lemma_premine_guard_passes(s: Seq<u128>, leaf: u64)
    requires
        s.len() > 0,
        spec_consistent_with_leaf(s, leaf),
        leaf as int >= ALLOWABLE_AOCL_INDEX_LOWER_BOUND + (WINDOW_SIZE as int / CHUNK_SIZE as int)
            * BATCH_SIZE as int,
    ensures
        spec_set_lower_bound(s) >= ALLOWABLE_AOCL_INDEX_LOWER_BOUND,
{
    let b = leaf as nat / (BATCH_SIZE as nat);
    let ws = spec_window_start(leaf);
    let mx = seq_max(s) as nat;
    lemma_seq_max(s);
    let witness = choose|i: int| 0 <= i < s.len() && s[i] == seq_max(s);
    assert(ws <= mx);
    // The insertion batch is far enough in for the window to clear zero.
    assert(b >= 266) by {
        lemma_div_is_ordered(2128, leaf as int, 8);
    }
    lemma_mul_inequality(266, b as int, 4096);
    // Rounding up never moves the maximum down.
    let q = (mx + CHUNK_SIZE - 1) as nat / 4096;
    lemma_fundamental_div_mod((mx + CHUNK_SIZE - 1) as int, 4096);
    assert(q * 4096 >= mx);
    assert(spec_round_up_to_chunk(mx) >= ws);
    // So the window-start bound is at most one window behind the start.
    assert(spec_window_start_lower_bound(mx) >= ws - WINDOW_SIZE);
    assert((b - 256) * 4096 == b * 4096 - WINDOW_SIZE) by (nonlinear_arith);
    lemma_div_is_ordered((b - 256) * 4096, spec_window_start_lower_bound(mx) as int, 4096);
    assert((b - 256) * 4096 / 4096 == b - 256) by {
        vstd::arithmetic::div_mod::lemma_div_by_multiple((b - 256) as int, 4096);
    }
    lemma_mul_inequality((b - 256) as int, (spec_window_start_lower_bound(mx) / 4096) as int, 8);
    assert((b - 256) * 8 >= 80) by (nonlinear_arith)
        requires
            b >= 266,
    ;
}

} // verus!
