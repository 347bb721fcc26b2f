//! Amounts of the native currency.
//!
//! An amount is a count of indivisible atomic units ("nau").  One coin is
//! `NAU_PER_COIN` units, and no amount may exceed the maximum supply of
//! `MAX_COINS` coins.  Amounts in reports are non-negative by invariant.

use vstd::arithmetic::mul::lemma_mul_inequality;
use vstd::prelude::*;

use crate::text::append_bytes;
use crate::text::append_repeat;
use crate::text::append_u128_decimal;
use crate::text::ascii_chars;
use crate::text::dec_bytes;
use crate::text::is_ascii_seq;
use crate::text::lemma_dec_bytes_len_bound;
use crate::text::lemma_dec_bytes_wf;
use crate::text::pow10;
use crate::text::repeat_byte;
use crate::text::string_from_ascii;
use crate::text::strip_trailing_zeros;

verus! {

/// Atomic units per coin: ten to the thirtieth power.
pub const NAU_PER_COIN: u128 = 1000000000000000000000000000000;

/// The maximum supply, in coins.
pub const MAX_COINS: u128 = 42000000;

/// The maximum representable amount, in atomic units.
pub const MAX_NAU: u128 = 42000000 * 1000000000000000000000000000000;

/// An amount of the native currency, counted in atomic units.
#[derive(Clone, Copy, Debug, PartialEq, Eq, Structural)]
pub struct NativeCurrencyAmount {
    pub nau: u128,
}

/// The decimal rendering of an amount: whole coins, and — when the amount
/// is no whole number of coins — a dot and the fractional digits with
/// trailing zeros removed.
pub open spec fn spec_display_lossless(nau: u128) -> Seq<u8> {
    if nau as nat % (NAU_PER_COIN as nat) == 0 {
        dec_bytes(nau as nat / (NAU_PER_COIN as nat))
    } else {
        dec_bytes(nau as nat / (NAU_PER_COIN as nat)) + seq![46u8] + strip_trailing_zeros(
            repeat_byte(
                48,
                (30 - dec_bytes(nau as nat % (NAU_PER_COIN as nat)).len()) as nat,
            ) + dec_bytes(nau as nat % (NAU_PER_COIN as nat)),
        )
    }
}

/// Fractional parts have at most thirty digits.
proof fn lemma_frac_digit_count(f: nat)
    requires
        f < NAU_PER_COIN,
    ensures
        dec_bytes(f).len() <= 30,
{
    assert(pow10(30) == NAU_PER_COIN) by {
        reveal_with_fuel(pow10, 31);
    }
    lemma_dec_bytes_len_bound(f, 30);
}

impl NativeCurrencyAmount {
    /// An amount is well formed when it does not exceed the maximum supply.
    pub open spec fn wf(&self) -> bool {
        self.nau <= MAX_NAU
    }

    /// The amount of `nau` atomic units.
    pub fn from_nau(nau: u128) -> (r: Self)
        requires
            nau <= MAX_NAU,
        ensures
            r.nau == nau,
            r.wf(),
    {
        NativeCurrencyAmount { nau }
    }

    /// The amount of `n` whole coins.
    pub fn coins(n: u32) -> (r: Self)
        requires
            n <= MAX_COINS,
        ensures
            r.nau == n * NAU_PER_COIN,
            r.wf(),
    {
        proof {
            lemma_mul_inequality(n as int, MAX_COINS as int, NAU_PER_COIN as int);
        }
        NativeCurrencyAmount { nau: (n as u128) * NAU_PER_COIN }
    }

    /// The largest representable amount.
    pub fn max_amount() -> (r: Self)
        ensures
            r.nau == MAX_NAU,
            r.wf(),
    {
        NativeCurrencyAmount { nau: MAX_NAU }
    }

    /// The amount in atomic units.
    pub fn to_nau(&self) -> (r: u128)
        ensures
            r == self.nau,
    {
        self.nau
    }

    /// The sum of two amounts.
    pub fn plus(&self, other: &Self) -> (r: Self)
        requires
            self.nau + other.nau <= MAX_NAU,
        ensures
            r.nau == self.nau + other.nau,
            r.wf(),
    {
        NativeCurrencyAmount { nau: self.nau + other.nau }
    }

    /// The decimal rendering, as bytes.
    pub fn display_lossless_bytes(&self) -> (r: Vec<u8>)
        ensures
            r@ == spec_display_lossless(self.nau),
            is_ascii_seq(r@),
    {
        let whole = self.nau / NAU_PER_COIN;
        let frac = self.nau % NAU_PER_COIN;
        let mut out: Vec<u8> = Vec::new();
        append_u128_decimal(&mut out, whole);
        if frac != 0 {
            out.push(46);
            let mut digits: Vec<u8> = Vec::new();
            append_u128_decimal(&mut digits, frac);
            proof {
                lemma_frac_digit_count(frac as nat);
                lemma_dec_bytes_wf(frac as nat);
            }
            let mut padded: Vec<u8> = Vec::new();
            append_repeat(&mut padded, 48, 30 - digits.len());
            append_bytes(&mut padded, &digits);
            let ghost padded_orig = padded@;
            while padded.len() > 0 && padded[padded.len() - 1] == 48
                invariant
                    strip_trailing_zeros(padded@) == strip_trailing_zeros(padded_orig),
                    is_ascii_seq(padded@),
                decreases padded.len(),
            {
                let ghost before = padded@;
                padded.pop();
                proof {
                    assert(padded@ =~= before.drop_last());
                    assert(strip_trailing_zeros(before) == strip_trailing_zeros(before.drop_last()));
                }
            }
            proof {
                assert(strip_trailing_zeros(padded@) == padded@);
            }
            append_bytes(&mut out, &padded);
            proof {
                assert(out@ =~= spec_display_lossless(self.nau));
            }
        }
        out
    }

    /// The decimal rendering of the amount: whole coins, then — unless the
    /// amount is a whole number of coins — a dot and the fractional digits
    /// with trailing zeros removed.
    pub fn display_lossless(&self) -> (r: String)
        ensures
            r@ == ascii_chars(spec_display_lossless(self.nau)),
    {
        string_from_ascii(self.display_lossless_bytes())
    }
}

} // verus!
