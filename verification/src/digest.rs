//! Digests: fixed-size words used for accumulator hashes, output
//! commitments and blinding values.

use vstd::arithmetic::mul::lemma_mul_inequality;
use vstd::prelude::*;

verus! {

/// A fixed-size digest of five 64-bit words.
#[derive(Clone, Copy, Debug)]
pub struct Digest {
    pub words: [u64; 5],
}

impl Digest {
    /// The digest with the given words.
    pub fn new(words: [u64; 5]) -> (r: Self)
        ensures
            r.words@ == words@,
    {
        Digest { words }
    }
}

impl PartialEq for Digest {
    fn eq(&self, other: &Self) -> (r: bool) {
        let r = self.words[0] == other.words[0] && self.words[1] == other.words[1]
            && self.words[2] == other.words[2] && self.words[3] == other.words[3]
            && self.words[4] == other.words[4];
        proof {
            if r {
                assert(self.words@ =~= other.words@);
            }
        }
        r
    }
}

impl vstd::std_specs::cmp::PartialEqSpecImpl for Digest {
    open spec fn obeys_eq_spec() -> bool {
        true
    }

    open spec fn eq_spec(&self, other: &Self) -> bool {
        self.words@ == other.words@
    }
}

/// One absorption step of the word-mixing commitment.
pub open spec fn spec_mix(h: u64, w: u64) -> u64 {
    ((((h ^ w) as nat) * 1099511628211 + 11400714819323198485) % 18446744073709551616) as u64
}

/// The running state after absorbing all of `s`, left to right.
pub open spec fn spec_absorb(s: Seq<u64>) -> u64
    decreases s.len(),
{
    if s.len() == 0 {
        14695981039346656037u64
    } else {
        spec_mix(spec_absorb(s.drop_last()), s.last())
    }
}

/// The commitment digest of a word sequence: the absorbed state, squeezed
/// once per output word with a distinct tag.
pub open spec fn spec_commit(s: Seq<u64>) -> Digest {
    Digest {
        words: [
            spec_mix(spec_absorb(s), 1),
            spec_mix(spec_absorb(s), 2),
            spec_mix(spec_absorb(s), 3),
            spec_mix(spec_absorb(s), 4),
            spec_mix(spec_absorb(s), 5),
        ],
    }
}

/// One absorption step of the word-mixing commitment.
fn mix(h: u64, w: u64) -> (r: u64)
    ensures
        r == spec_mix(h, w),
{
    proof {
        lemma_mul_inequality((h ^ w) as int, 0xffff_ffff_ffff_ffff, 1099511628211);
    }
    let wide: u128 = ((h ^ w) as u128) * 1099511628211u128 + 11400714819323198485u128;
    (wide % 18446744073709551616u128) as u64
}

/// The commitment digest of a word sequence.
pub fn commit_words(s: &Vec<u64>) -> (r: Digest)
    ensures
        r == spec_commit(s@),
{
    let mut h: u64 = 14695981039346656037u64;
    let mut i: usize = 0;
    while i < s.len()
        invariant
            i <= s.len(),
            h == spec_absorb(s@.take(i as int)),
        decreases s.len() - i,
    {
        h = mix(h, s[i]);
        i = i + 1;
        proof {
            assert(s@.take(i as int).drop_last() =~= s@.take(i as int - 1));
        }
    }
    proof {
        assert(s@.take(s@.len() as int) =~= s@);
    }
    Digest { words: [mix(h, 1), mix(h, 2), mix(h, 3), mix(h, 4), mix(h, 5)] }
}

/// Relies on `rand::random`: draws a fresh 64-bit value.  Nothing is
/// promised of the result.
#[verifier::external_body]
fn random_u64() -> u64 {
    rand::random()
}

/// A fresh, randomly drawn digest, used as a blinding value.  Every call
/// draws new randomness, so no two outputs are expected to share one.
pub fn fresh_digest() -> Digest {
    Digest { words: [random_u64(), random_u64(), random_u64(), random_u64(), random_u64()] }
}

} // verus!
