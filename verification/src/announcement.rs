//! Public announcements and their payload codec.
//!
//! A claim carries plaintext announcements.  Two kinds exist, told apart
//! purely by successful decoding: the preimage of one output (an amount,
//! an optional release date and the blinding material), and a destination
//! address.  A payload that decodes as neither is unparsable.

use vstd::prelude::*;

use crate::address::ReceivingAddress;
use crate::amount::NativeCurrencyAmount;
use crate::amount::MAX_NAU;
use crate::digest::spec_commit;
use crate::digest::commit_words;
use crate::digest::Digest;
use crate::timestamp::Timestamp;

verus! {

/// An opaque payload attached to a claim.
#[derive(Clone, Debug)]
pub struct PublicAnnouncement {
    pub message: Vec<u64>,
}

/// A spendable output: who may spend it, how much, and from when.
#[derive(Clone, Copy, Debug)]
pub struct Utxo {
    pub lock_script_hash: Digest,
    pub amount: NativeCurrencyAmount,
    pub release_date: Option<Timestamp>,
}

/// One output together with its blinding material: the plaintext preimage
/// of the output's commitment.
#[derive(Clone, Copy, Debug)]
pub struct UtxoTriple {
    pub utxo: Utxo,
    pub sender_randomness: Digest,
    pub receiver_privacy_digest: Digest,
}

/// The outcome of decoding one announcement payload.
#[derive(Clone, Copy, Debug)]
pub enum DecodedAnnouncement {
    AddressPayload(ReceivingAddress),
    UtxoPayload(UtxoTriple),
    Unparsable,
}

/// The payload words announcing a destination address.
pub open spec fn spec_encode_address(a: ReceivingAddress) -> Seq<u64> {
    a.spending_lock.words@
}

/// The payload words announcing one output preimage: the amount split
/// into two words, the release-date discriminant and value, then the lock
/// script hash and the two blinding digests.
pub open spec fn spec_encode_triple(t: UtxoTriple) -> Seq<u64> {
    seq![
        (t.utxo.amount.nau as nat / 18446744073709551616) as u64,
        (t.utxo.amount.nau as nat % 18446744073709551616) as u64,
        if t.utxo.release_date is Some {
            1u64
        } else {
            0u64
        },
        match t.utxo.release_date {
            Some(ts) => ts.millis,
            None => 0u64,
        },
    ] + t.utxo.lock_script_hash.words@ + t.sender_randomness.words@
        + t.receiver_privacy_digest.words@
}

/// Whether a nineteen-word payload is a well-formed output preimage.
pub open spec fn spec_triple_payload_ok(m: Seq<u64>) -> bool {
    &&& m.len() == 19
    &&& (m[2] == 0 || m[2] == 1)
    &&& (m[2] == 0 ==> m[3] == 0)
    &&& (m[0] as nat) * 18446744073709551616 + m[1] as nat <= MAX_NAU
}

/// The output preimage a well-formed nineteen-word payload stands for.
pub open spec fn spec_triple_of_payload(m: Seq<u64>) -> UtxoTriple {
    UtxoTriple {
        utxo: Utxo {
            lock_script_hash: Digest { words: [m[4], m[5], m[6], m[7], m[8]] },
            amount: NativeCurrencyAmount {
                nau: ((m[0] as nat) * 18446744073709551616 + m[1] as nat) as u128,
            },
            release_date: if m[2] == 1 {
                Some(Timestamp { millis: m[3] })
            } else {
                None
            },
        },
        sender_randomness: Digest { words: [m[9], m[10], m[11], m[12], m[13]] },
        receiver_privacy_digest: Digest { words: [m[14], m[15], m[16], m[17], m[18]] },
    }
}

/// What one payload decodes to.  A five-word payload is an address; a
/// well-formed nineteen-word payload is an output preimage; everything
/// else is unparsable.
pub open spec fn spec_decode(m: Seq<u64>) -> DecodedAnnouncement {
    if m.len() == 5 {
        DecodedAnnouncement::AddressPayload(
            ReceivingAddress { spending_lock: Digest { words: [m[0], m[1], m[2], m[3], m[4]] } },
        )
    } else if spec_triple_payload_ok(m) {
        DecodedAnnouncement::UtxoPayload(spec_triple_of_payload(m))
    } else {
        DecodedAnnouncement::Unparsable
    }
}

/// The commitment of an output preimage, as recorded among a claim's
/// outputs.
pub open spec fn spec_addition_record(t: UtxoTriple) -> Digest {
    spec_commit(spec_encode_triple(t))
}

impl UtxoTriple {
    /// A well-formed preimage carries a representable amount.
    pub open spec fn wf(&self) -> bool {
        self.utxo.amount.wf()
    }

    /// The commitment of this preimage.
    pub fn addition_record(&self) -> (r: Digest)
        requires
            self.wf(),
        ensures
            r == spec_addition_record(*self),
    {
        let payload = encode_triple(self);
        commit_words(&payload.message)
    }
}

/// Append the five words of a digest.
fn append_digest_words(out: &mut Vec<u64>, d: &Digest)
    ensures
        final(out)@ == old(out)@ + d.words@,
{
    out.push(d.words[0]);
    out.push(d.words[1]);
    out.push(d.words[2]);
    out.push(d.words[3]);
    out.push(d.words[4]);
    proof {
        assert(final(out)@ =~= old(out)@ + d.words@);
    }
}

/// The announcement payload for a destination address.
pub fn encode_address(a: &ReceivingAddress) -> (r: PublicAnnouncement)
    ensures
        r.message@ == spec_encode_address(*a),
{
    let mut message: Vec<u64> = Vec::new();
    append_digest_words(&mut message, &a.spending_lock);
    proof {
        assert(message@ =~= spec_encode_address(*a));
    }
    PublicAnnouncement { message }
}

/// The announcement payload for one output preimage.
pub fn encode_triple(t: &UtxoTriple) -> (r: PublicAnnouncement)
    requires
        t.wf(),
    ensures
        r.message@ == spec_encode_triple(*t),
{
    let mut message: Vec<u64> = Vec::new();
    message.push((t.utxo.amount.nau / 18446744073709551616u128) as u64);
    message.push((t.utxo.amount.nau % 18446744073709551616u128) as u64);
    match t.utxo.release_date {
        Some(ts) => {
            message.push(1);
            message.push(ts.millis);
        },
        None => {
            message.push(0);
            message.push(0);
        },
    }
    append_digest_words(&mut message, &t.utxo.lock_script_hash);
    append_digest_words(&mut message, &t.sender_randomness);
    append_digest_words(&mut message, &t.receiver_privacy_digest);
    proof {
        assert(message@ =~= spec_encode_triple(*t));
    }
    PublicAnnouncement { message }
}

/// Decode one announcement payload.
pub fn decode_announcement(m: &PublicAnnouncement) -> (r: DecodedAnnouncement)
    ensures
        r == spec_decode(m.message@),
{
    if m.message.len() == 5 {
        let d = Digest::new(
            [m.message[0], m.message[1], m.message[2], m.message[3], m.message[4]],
        );
        proof {
            assert(d.words@ =~= Seq::new(5, |i: int| m.message@[i]));
            assert(d.words =~= [m.message@[0], m.message@[1], m.message@[2], m.message@[3], m.message@[4]]);
        }
        DecodedAnnouncement::AddressPayload(ReceivingAddress { spending_lock: d })
    } else if m.message.len() == 19 {
        let flag_ok = m.message[2] == 0 || m.message[2] == 1;
        let date_ok = m.message[2] == 1 || m.message[3] == 0;
        let amount_wide: u128 = (m.message[0] as u128) * 18446744073709551616u128 + (
        m.message[1] as u128);
        let amount_ok = amount_wide <= MAX_NAU;
        if flag_ok && date_ok && amount_ok {
            let t = UtxoTriple {
                utxo: Utxo {
                    lock_script_hash: Digest::new(
                        [m.message[4], m.message[5], m.message[6], m.message[7], m.message[8]],
                    ),
                    amount: NativeCurrencyAmount::from_nau(amount_wide),
                    release_date: if m.message[2] == 1 {
                        Some(Timestamp::new(m.message[3]))
                    } else {
                        None
                    },
                },
                sender_randomness: Digest::new(
                    [m.message[9], m.message[10], m.message[11], m.message[12], m.message[13]],
                ),
                receiver_privacy_digest: Digest::new(
                    [m.message[14], m.message[15], m.message[16], m.message[17], m.message[18]],
                ),
            };
            proof {
                assert(t.utxo.lock_script_hash.words =~= spec_triple_of_payload(
                    m.message@,
                ).utxo.lock_script_hash.words);
                assert(t.sender_randomness.words =~= spec_triple_of_payload(
                    m.message@,
                ).sender_randomness.words);
                assert(t.receiver_privacy_digest.words =~= spec_triple_of_payload(
                    m.message@,
                ).receiver_privacy_digest.words);
            }
            DecodedAnnouncement::UtxoPayload(t)
        } else {
            DecodedAnnouncement::Unparsable
        }
    } else {
        DecodedAnnouncement::Unparsable
    }
}

/// Announcing an address and decoding the payload gives that address back.
pub proof fn lemma_address_roundtrip(a: ReceivingAddress)
    ensures
        spec_decode(spec_encode_address(a)) == DecodedAnnouncement::AddressPayload(a),
{
    let m = spec_encode_address(a);
    assert(m.len() == 5);
    let d = Digest { words: [m[0], m[1], m[2], m[3], m[4]] };
    assert(d.words =~= a.spending_lock.words);
}

/// Announcing an output preimage and decoding the payload gives that
/// preimage back.
pub proof fn lemma_triple_roundtrip(t: UtxoTriple)
    requires
        t.wf(),
    ensures
        spec_decode(spec_encode_triple(t)) == DecodedAnnouncement::UtxoPayload(t),
{
    let m = spec_encode_triple(t);
    assert(m.len() == 19);
    let hi = (t.utxo.amount.nau as nat / 18446744073709551616) as u64;
    let lo = (t.utxo.amount.nau as nat % 18446744073709551616) as u64;
    assert(t.utxo.amount.nau as nat == (hi as nat) * 18446744073709551616 + lo as nat) by {
        vstd::arithmetic::div_mod::lemma_fundamental_div_mod(
            t.utxo.amount.nau as int,
            18446744073709551616,
        );
    }
    let u = spec_triple_of_payload(m);
    assert(u.utxo.lock_script_hash.words =~= t.utxo.lock_script_hash.words);
    assert(u.sender_randomness.words =~= t.sender_randomness.words);
    assert(u.receiver_privacy_digest.words =~= t.receiver_privacy_digest.words);
}

} // verus!
