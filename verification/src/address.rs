//! Receiving addresses and their textual encoding.
//!
//! An address is identified by fixed-size cryptographic material (its
//! spending lock digest).  Its canonical rendering encodes that material in
//! a 32-character alphabet behind a network prefix and appends a six
//! character checksum, so every encoded address of one network has the
//! same length regardless of content.

use vstd::prelude::*;

use crate::digest::Digest;
use crate::text::ascii_chars;
use crate::text::is_ascii_seq;
use crate::text::string_from_ascii;

verus! {

/// The network an address is rendered for.
#[derive(Clone, Copy, Debug, PartialEq, Eq, Structural)]
pub enum Network {
    Main,
    Testnet,
}

/// A receiving address: the digest that locks coins to their owner.
#[derive(Clone, Copy, Debug)]
pub struct ReceivingAddress {
    pub spending_lock: Digest,
}

/// The human-readable prefix of an encoded address.
pub open spec fn spec_hrp(network: Network) -> Seq<u8> {
    match network {
        Network::Main => seq![97u8, 100u8, 100u8, 114u8],
        Network::Testnet => seq![116u8, 97u8, 100u8, 100u8, 114u8],
    }
}

/// The encoding alphabet, indexed by a five-bit value.
pub open spec fn spec_charset(v: nat) -> u8 {
    if v == 0 {
        113
    } else if v == 1 {
        112
    } else if v == 2 {
        122
    } else if v == 3 {
        114
    } else if v == 4 {
        121
    } else if v == 5 {
        57
    } else if v == 6 {
        120
    } else if v == 7 {
        56
    } else if v == 8 {
        103
    } else if v == 9 {
        102
    } else if v == 10 {
        50
    } else if v == 11 {
        116
    } else if v == 12 {
        118
    } else if v == 13 {
        100
    } else if v == 14 {
        119
    } else if v == 15 {
        48
    } else if v == 16 {
        115
    } else if v == 17 {
        51
    } else if v == 18 {
        106
    } else if v == 19 {
        110
    } else if v == 20 {
        53
    } else if v == 21 {
        52
    } else if v == 22 {
        107
    } else if v == 23 {
        104
    } else if v == 24 {
        99
    } else if v == 25 {
        101
    } else if v == 26 {
        54
    } else if v == 27 {
        109
    } else if v == 28 {
        117
    } else if v == 29 {
        97
    } else if v == 30 {
        55
    } else {
        108
    }
}

/// The thirteen five-bit groups of one word, most significant first.
pub open spec fn spec_word_values(w: u64) -> Seq<u8> {
    Seq::new(13, |j: int| ((w >> ((60 - 5 * j) as u64)) & 31) as u8)
}

/// The five-bit values encoding an address's material.
pub open spec fn spec_address_values(a: ReceivingAddress) -> Seq<u8> {
    spec_word_values(a.spending_lock.words@[0]) + spec_word_values(a.spending_lock.words@[1])
        + spec_word_values(a.spending_lock.words@[2]) + spec_word_values(a.spending_lock.words@[3])
        + spec_word_values(a.spending_lock.words@[4])
}

/// One step of the checksum polynomial.
pub open spec fn spec_polymod_step(chk: u32, v: u8) -> u32 {
    let b = chk >> 25;
    let base = ((chk & 0x1ffffff) << 5) ^ (v as u32);
    base ^ (if b & 1 != 0 {
        0x3b6a57b2u32
    } else {
        0
    }) ^ (if b & 2 != 0 {
        0x26508e6du32
    } else {
        0
    }) ^ (if b & 4 != 0 {
        0x1ea119fau32
    } else {
        0
    }) ^ (if b & 8 != 0 {
        0x3d4233ddu32
    } else {
        0
    }) ^ (if b & 16 != 0 {
        0x2bc830a3u32
    } else {
        0
    })
}

/// The checksum polynomial over `vals`, starting from `chk`.
pub open spec fn spec_polymod(vals: Seq<u8>, chk: u32) -> u32
    decreases vals.len(),
{
    if vals.len() == 0 {
        chk
    } else {
        spec_polymod(vals.drop_first(), spec_polymod_step(chk, vals.first()))
    }
}

/// The expanded prefix fed into the checksum: high bits, a zero, low bits.
pub open spec fn spec_hrp_expand(hrp: Seq<u8>) -> Seq<u8> {
    Seq::new(hrp.len(), |i: int| (hrp[i] >> 5) as u8) + seq![0u8] + Seq::new(
        hrp.len(),
        |i: int| (hrp[i] & 31) as u8,
    )
}

/// The checksum state of an address on a network.
pub open spec fn spec_checksum_state(a: ReceivingAddress, network: Network) -> u32 {
    spec_polymod(
        spec_hrp_expand(spec_hrp(network)) + spec_address_values(a) + seq![
            0u8,
            0u8,
            0u8,
            0u8,
            0u8,
            0u8,
        ],
        1,
    ) ^ 0x2bc830a3
}

/// The six checksum values of an address on a network.
pub open spec fn spec_checksum_values(a: ReceivingAddress, network: Network) -> Seq<u8> {
    Seq::new(
        6,
        |i: int| ((spec_checksum_state(a, network) >> ((25 - 5 * i) as u32)) & 31) as u8,
    )
}

/// The bytes of a fully encoded address: prefix, separator, data, checksum.
pub open spec fn spec_address_encoding(a: ReceivingAddress, network: Network) -> Seq<u8> {
    spec_hrp(network) + seq![49u8] + (spec_address_values(a) + spec_checksum_values(
        a,
        network,
    )).map_values(|v: u8| spec_charset(v as nat))
}

/// The bytes of the abbreviated rendering: prefix, separator, the first
/// six and the last six encoded characters around an ellipsis.
pub open spec fn spec_address_abbreviation(a: ReceivingAddress, network: Network) -> Seq<u8> {
    let data = (spec_address_values(a) + spec_checksum_values(a, network)).map_values(
        |v: u8| spec_charset(v as nat),
    );
    spec_hrp(network) + seq![49u8] + data.take(6) + seq![46u8, 46u8, 46u8] + data.skip(
        data.len() - 6,
    )
}

/// The alphabet byte for a five-bit value.
fn charset_byte(v: u8) -> (r: u8)
    requires
        v < 32,
    ensures
        r == spec_charset(v as nat),
        r < 128,
{
    if v == 0 {
        113
    } else if v == 1 {
        112
    } else if v == 2 {
        122
    } else if v == 3 {
        114
    } else if v == 4 {
        121
    } else if v == 5 {
        57
    } else if v == 6 {
        120
    } else if v == 7 {
        56
    } else if v == 8 {
        103
    } else if v == 9 {
        102
    } else if v == 10 {
        50
    } else if v == 11 {
        116
    } else if v == 12 {
        118
    } else if v == 13 {
        100
    } else if v == 14 {
        119
    } else if v == 15 {
        48
    } else if v == 16 {
        115
    } else if v == 17 {
        51
    } else if v == 18 {
        106
    } else if v == 19 {
        110
    } else if v == 20 {
        53
    } else if v == 21 {
        52
    } else if v == 22 {
        107
    } else if v == 23 {
        104
    } else if v == 24 {
        99
    } else if v == 25 {
        101
    } else if v == 26 {
        54
    } else if v == 27 {
        109
    } else if v == 28 {
        117
    } else if v == 29 {
        97
    } else if v == 30 {
        55
    } else {
        108
    }
}

/// The prefix bytes of a network.
fn hrp_bytes(network: Network) -> (r: Vec<u8>)
    ensures
        r@ == spec_hrp(network),
        is_ascii_seq(r@),
{
    let mut out: Vec<u8> = Vec::new();
    match network {
        Network::Main => {
            out.push(97);
            out.push(100);
            out.push(100);
            out.push(114);
            proof {
                assert(out@ =~= spec_hrp(Network::Main));
            }
        },
        Network::Testnet => {
            out.push(116);
            out.push(97);
            out.push(100);
            out.push(100);
            out.push(114);
            proof {
                assert(out@ =~= spec_hrp(Network::Testnet));
            }
        },
    }
    out
}

/// Append the thirteen five-bit groups of one word.
fn append_word_values(out: &mut Vec<u8>, w: u64)
    ensures
        final(out)@ == old(out)@ + spec_word_values(w),
        forall|i: int|
            old(out)@.len() <= i < final(out)@.len() ==> final(out)@[i] < 32,
{
    let mut j: usize = 0;
    while j < 13
        invariant
            j <= 13,
            out@ == old(out)@ + spec_word_values(w).take(j as int),
            forall|i: int| old(out)@.len() <= i < out@.len() ==> out@[i] < 32,
        decreases 13 - j,
    {
        let shift: u64 = (60 - 5 * j) as u64;
        let v: u8 = ((w >> shift) & 31) as u8;
        proof {
            let sh = shift;
            assert((w >> sh) & 31 < 32) by (bit_vector);
        }
        out.push(v);
        j = j + 1;
        proof {
            assert(out@ =~= old(out)@ + spec_word_values(w).take(j as int));
        }
    }
    proof {
        assert(spec_word_values(w).take(13) =~= spec_word_values(w));
    }
}

/// One step of the checksum polynomial.
fn polymod_step(chk: u32, v: u8) -> (r: u32)
    ensures
        r == spec_polymod_step(chk, v),
{
    let b = chk >> 25;
    proof {
        let c = chk;
        assert((c & 0x1ffffff) << 5 <= 0xffffffe0u32) by (bit_vector);
    }
    let base = ((chk & 0x1ffffff) << 5) ^ (v as u32);
    base ^ (if b & 1 != 0 {
        0x3b6a57b2u32
    } else {
        0
    }) ^ (if b & 2 != 0 {
        0x26508e6du32
    } else {
        0
    }) ^ (if b & 4 != 0 {
        0x1ea119fau32
    } else {
        0
    }) ^ (if b & 8 != 0 {
        0x3d4233ddu32
    } else {
        0
    }) ^ (if b & 16 != 0 {
        0x2bc830a3u32
    } else {
        0
    })
}

/// The checksum polynomial over `vals`, starting from `chk`.
fn polymod(vals: &Vec<u8>, chk: u32) -> (r: u32)
    ensures
        r == spec_polymod(vals@, chk),
{
    let mut state = chk;
    let mut i: usize = 0;
    proof {
        assert(vals@.skip(0) =~= vals@);
    }
    while i < vals.len()
        invariant
            i <= vals.len(),
            spec_polymod(vals@.skip(i as int), state) == spec_polymod(vals@, chk),
        decreases vals.len() - i,
    {
        proof {
            assert(vals@.skip(i as int).drop_first() =~= vals@.skip(i as int + 1));
            assert(vals@.skip(i as int).first() == vals@[i as int]);
        }
        state = polymod_step(state, vals[i]);
        i = i + 1;
    }
    proof {
        assert(vals@.skip(vals@.len() as int) =~= Seq::<u8>::empty());
    }
    state
}

impl ReceivingAddress {
    /// The address locked by the given digest.
    pub fn new(spending_lock: Digest) -> (r: Self)
        ensures
            r.spending_lock.words@ == spending_lock.words@,
    {
        ReceivingAddress { spending_lock }
    }

    /// The five-bit values encoding the address's material.
    fn data_values(&self) -> (r: Vec<u8>)
        ensures
            r@ == spec_address_values(*self),
            forall|i: int| 0 <= i < r@.len() ==> r@[i] < 32,
    {
        let mut out: Vec<u8> = Vec::new();
        append_word_values(&mut out, self.spending_lock.words[0]);
        append_word_values(&mut out, self.spending_lock.words[1]);
        append_word_values(&mut out, self.spending_lock.words[2]);
        append_word_values(&mut out, self.spending_lock.words[3]);
        append_word_values(&mut out, self.spending_lock.words[4]);
        proof {
            assert(out@ =~= spec_address_values(*self));
        }
        out
    }

    /// The data and checksum values of the encoding, before the alphabet
    /// is applied.
    fn encoding_values(&self, network: Network) -> (r: Vec<u8>)
        ensures
            r@ == spec_address_values(*self) + spec_checksum_values(*self, network),
            forall|i: int| 0 <= i < r@.len() ==> r@[i] < 32,
    {
        let data = self.data_values();
        let hrp = hrp_bytes(network);
        let mut checksummed: Vec<u8> = Vec::new();
        let mut i: usize = 0;
        while i < hrp.len()
            invariant
                i <= hrp.len(),
                hrp@ == spec_hrp(network),
                checksummed@ == Seq::new(i as nat, |k: int| (spec_hrp(network)[k] >> 5) as u8),
            decreases hrp.len() - i,
        {
            let hv: u8 = hrp[i] >> 5;
            checksummed.push(hv);
            i = i + 1;
            proof {
                assert(checksummed@ =~= Seq::new(i as nat, |k: int| (spec_hrp(network)[k] >> 5) as u8));
            }
        }
        checksummed.push(0);
        let mut i2: usize = 0;
        let ghost mid = checksummed@;
        while i2 < hrp.len()
            invariant
                i2 <= hrp.len(),
                hrp@ == spec_hrp(network),
                checksummed@ == mid + Seq::new(i2 as nat, |k: int| (spec_hrp(network)[k] & 31) as u8),
            decreases hrp.len() - i2,
        {
            let lv: u8 = hrp[i2] & 31;
            checksummed.push(lv);
            i2 = i2 + 1;
            proof {
                assert(checksummed@ =~= mid + Seq::new(
                    i2 as nat,
                    |k: int| (spec_hrp(network)[k] & 31) as u8,
                ));
            }
        }
        proof {
            assert(checksummed@ =~= spec_hrp_expand(spec_hrp(network)));
        }
        let mut j: usize = 0;
        let ghost expanded = checksummed@;
        while j < data.len()
            invariant
                j <= data.len(),
                data@ == spec_address_values(*self),
                checksummed@ == expanded + data@.take(j as int),
            decreases data.len() - j,
        {
            checksummed.push(data[j]);
            j = j + 1;
            proof {
                assert(checksummed@ =~= expanded + data@.take(j as int));
            }
        }
        proof {
            assert(data@.take(data@.len() as int) =~= data@);
        }
        let mut k: usize = 0;
        let ghost with_data = checksummed@;
        while k < 6
            invariant
                k <= 6,
                checksummed@ == with_data + Seq::new(k as nat, |i: int| 0u8),
            decreases 6 - k,
        {
            checksummed.push(0);
            k = k + 1;
            proof {
                assert(checksummed@ =~= with_data + Seq::new(k as nat, |i: int| 0u8));
            }
        }
        proof {
            assert(Seq::new(6, |i: int| 0u8) =~= seq![0u8, 0u8, 0u8, 0u8, 0u8, 0u8]);
            assert(checksummed@ =~= spec_hrp_expand(spec_hrp(network)) + spec_address_values(*self)
                + seq![0u8, 0u8, 0u8, 0u8, 0u8, 0u8]);
        }
        let state = polymod(&checksummed, 1) ^ 0x2bc830a3;
        let mut out = data;
        let mut c: usize = 0;
        let ghost data_vals = spec_address_values(*self);
        while c < 6
            invariant
                c <= 6,
                state == spec_checksum_state(*self, network),
                out@ == data_vals + spec_checksum_values(*self, network).take(c as int),
                forall|i: int| 0 <= i < out@.len() ==> out@[i] < 32,
            decreases 6 - c,
        {
            let shift: u32 = (25 - 5 * c) as u32;
            let v: u8 = ((state >> shift) & 31) as u8;
            proof {
                let st = state;
                let sh = shift;
                assert((st >> sh) & 31 < 32) by (bit_vector);
            }
            out.push(v);
            c = c + 1;
            proof {
                assert(out@ =~= data_vals + spec_checksum_values(*self, network).take(c as int));
            }
        }
        proof {
            assert(spec_checksum_values(*self, network).take(6) =~= spec_checksum_values(
                *self,
                network,
            ));
        }
        out
    }

    /// The full encoding, as bytes.
    pub fn encode_bytes(&self, network: Network) -> (r: Vec<u8>)
        ensures
            r@ == spec_address_encoding(*self, network),
            is_ascii_seq(r@),
    {
        let values = self.encoding_values(network);
        let mut out = hrp_bytes(network);
        out.push(49);
        let ghost head = out@;
        let mut i: usize = 0;
        while i < values.len()
            invariant
                i <= values.len(),
                values@ == spec_address_values(*self) + spec_checksum_values(*self, network),
                forall|k: int| 0 <= k < values@.len() ==> values@[k] < 32,
                out@ == head + values@.take(i as int).map_values(|v: u8| spec_charset(v as nat)),
                is_ascii_seq(out@),
            decreases values.len() - i,
        {
            let b = charset_byte(values[i]);
            out.push(b);
            i = i + 1;
            proof {
                assert(out@ =~= head + values@.take(i as int).map_values(
                    |v: u8| spec_charset(v as nat),
                ));
            }
        }
        proof {
            assert(values@.take(values@.len() as int) =~= values@);
            assert(out@ =~= spec_address_encoding(*self, network));
        }
        out
    }

    /// The full encoding: prefix, separator, data and checksum characters.
    pub fn encode(&self, network: Network) -> (r: String)
        ensures
            r@ == ascii_chars(spec_address_encoding(*self, network)),
    {
        string_from_ascii(self.encode_bytes(network))
    }

    /// The abbreviated encoding, as bytes.
    pub fn encode_abbreviated_bytes(&self, network: Network) -> (r: Vec<u8>)
        ensures
            r@ == spec_address_abbreviation(*self, network),
            is_ascii_seq(r@),
    {
        let full = self.encode_bytes(network);
        let hrp = hrp_bytes(network);
        let mut out = hrp_bytes(network);
        out.push(49);
        let start = hrp.len() + 1;
        out.push(full[start]);
        out.push(full[start + 1]);
        out.push(full[start + 2]);
        out.push(full[start + 3]);
        out.push(full[start + 4]);
        out.push(full[start + 5]);
        out.push(46);
        out.push(46);
        out.push(46);
        out.push(full[full.len() - 6]);
        out.push(full[full.len() - 5]);
        out.push(full[full.len() - 4]);
        out.push(full[full.len() - 3]);
        out.push(full[full.len() - 2]);
        out.push(full[full.len() - 1]);
        proof {
            let data = (spec_address_values(*self) + spec_checksum_values(*self, network)).map_values(
                |v: u8| spec_charset(v as nat),
            );
            assert(out@ =~= spec_address_abbreviation(*self, network));
        }
        out
    }

    /// The abbreviated encoding: prefix, separator, the first six and last
    /// six encoded characters around an ellipsis.
    pub fn encode_abbreviated(&self, network: Network) -> (r: String)
        ensures
            r@ == ascii_chars(spec_address_abbreviation(*self, network)),
    {
        string_from_ascii(self.encode_abbreviated_bytes(network))
    }
}

impl PartialEq for ReceivingAddress {
    fn eq(&self, other: &Self) -> (r: bool) {
        self.spending_lock == other.spending_lock
    }
}

impl vstd::std_specs::cmp::PartialEqSpecImpl for ReceivingAddress {
    open spec fn obeys_eq_spec() -> bool {
        true
    }

    open spec fn eq_spec(&self, other: &Self) -> bool {
        self.spending_lock.words@ == other.spending_lock.words@
    }
}

} // verus!
