//! Byte-level text building for the report renderer.
//!
//! All rendering first produces a sequence of ASCII bytes; only at the
//! public surface is the byte vector turned into a `String`.  Working on
//! bytes keeps every length and padding computation inside verified code.

use vstd::prelude::*;

verus! {

/// Every byte renders as itself in UTF-8.
pub open spec fn is_ascii_seq(s: Seq<u8>) -> bool {
    forall|i: int| 0 <= i < s.len() ==> s[i] < 128
}

/// The characters that a sequence of ASCII bytes stands for.
pub open spec fn ascii_chars(s: Seq<u8>) -> Seq<char> {
    s.map_values(|b: u8| b as char)
}

/// Decimal digits of `n` as ASCII bytes, most significant first.
pub open spec fn dec_bytes(n: nat) -> Seq<u8>
    decreases n,
{
    if n < 10 {
        seq![(48 + n) as u8]
    } else {
        dec_bytes(n / 10) + seq![(48 + n % 10) as u8]
    }
}

pub proof fn lemma_dec_bytes_wf(n: nat)
    ensures
        dec_bytes(n).len() >= 1,
        is_ascii_seq(dec_bytes(n)),
    decreases n,
{
    if n >= 10 {
        lemma_dec_bytes_wf(n / 10);
        assert forall|i: int| 0 <= i < dec_bytes(n).len() implies dec_bytes(n)[i] < 128 by {
            if i < dec_bytes(n / 10).len() {
                assert(dec_bytes(n)[i] == dec_bytes(n / 10)[i]);
            }
        }
    }
}

/// `pow10(k)` is ten to the `k`-th power.
pub open spec fn pow10(k: nat) -> nat
    decreases k,
{
    if k == 0 {
        1
    } else {
        10 * pow10((k - 1) as nat)
    }
}

/// A number below `pow10(k)` has at most `k` decimal digits.
pub proof fn lemma_dec_bytes_len_bound(n: nat, k: nat)
    requires
        k >= 1,
        n < pow10(k),
    ensures
        dec_bytes(n).len() <= k,
    decreases k,
{
    if n >= 10 {
        assert(pow10(k) == 10 * pow10((k - 1) as nat));
        lemma_dec_bytes_len_bound(n / 10, (k - 1) as nat);
    }
}

/// The byte `b` repeated `k` times.
pub open spec fn repeat_byte(b: u8, k: nat) -> Seq<u8> {
    Seq::new(k, |i: int| b)
}

/// `s` left-padded with `b` to width `w` (unchanged if already as wide).
pub open spec fn pad_left(s: Seq<u8>, w: nat, b: u8) -> Seq<u8> {
    if s.len() >= w {
        s
    } else {
        repeat_byte(b, (w - s.len()) as nat) + s
    }
}

/// `s` right-padded with `b` to width `w` (unchanged if already as wide).
pub open spec fn pad_right(s: Seq<u8>, w: nat, b: u8) -> Seq<u8> {
    if s.len() >= w {
        s
    } else {
        s + repeat_byte(b, (w - s.len()) as nat)
    }
}

/// `s` with every trailing ASCII `0` removed.
pub open spec fn strip_trailing_zeros(s: Seq<u8>) -> Seq<u8>
    decreases s.len(),
{
    if s.len() > 0 && s.last() == 48 {
        strip_trailing_zeros(s.drop_last())
    } else {
        s
    }
}

/// Append the decimal rendering of `n` to `out`.
pub fn append_u128_decimal(out: &mut Vec<u8>, n: u128)
    ensures
        final(out)@ == old(out)@ + dec_bytes(n as nat),
        is_ascii_seq(old(out)@) ==> is_ascii_seq(final(out)@),
    decreases n,
{
    if n >= 10 {
        append_u128_decimal(out, n / 10);
    }
    out.push(48 + (n % 10) as u8);
    proof {
        assert(final(out)@ =~= old(out)@ + dec_bytes(n as nat));
        if is_ascii_seq(old(out)@) {
            lemma_dec_bytes_wf(n as nat);
            assert forall|i: int| 0 <= i < final(out)@.len() implies final(out)@[i] < 128 by {
                if i >= old(out)@.len() {
                    assert(final(out)@[i] == dec_bytes(n as nat)[i - old(out)@.len()]);
                }
            }
        }
    }
}

/// Append the decimal rendering of `n` to `out`.
pub fn append_u64_decimal(out: &mut Vec<u8>, n: u64)
    ensures
        final(out)@ == old(out)@ + dec_bytes(n as nat),
        is_ascii_seq(old(out)@) ==> is_ascii_seq(final(out)@),
{
    append_u128_decimal(out, n as u128);
}

/// Append `k` copies of `b` to `out`.
pub fn append_repeat(out: &mut Vec<u8>, b: u8, k: usize)
    ensures
        final(out)@ == old(out)@ + repeat_byte(b, k as nat),
        is_ascii_seq(old(out)@) && b < 128 ==> is_ascii_seq(final(out)@),
{
    let mut i: usize = 0;
    while i < k
        invariant
            i <= k,
            out@ == old(out)@ + repeat_byte(b, i as nat),
        decreases k - i,
    {
        out.push(b);
        i = i + 1;
        proof {
            assert(out@ =~= old(out)@ + repeat_byte(b, i as nat));
        }
    }
}

/// Append all of `s` to `out`.
pub fn append_bytes(out: &mut Vec<u8>, s: &Vec<u8>)
    ensures
        final(out)@ == old(out)@ + s@,
        is_ascii_seq(old(out)@) && is_ascii_seq(s@) ==> is_ascii_seq(final(out)@),
{
    let mut i: usize = 0;
    while i < s.len()
        invariant
            i <= s.len(),
            out@ == old(out)@ + s@.take(i as int),
        decreases s.len() - i,
    {
        out.push(s[i]);
        i = i + 1;
        proof {
            assert(out@ =~= old(out)@ + s@.take(i as int));
        }
    }
    proof {
        assert(s@.take(s@.len() as int) =~= s@);
    }
}

/// Append `s` left-padded with `b` to width `w`.
pub fn append_padded_left(out: &mut Vec<u8>, s: &Vec<u8>, w: usize, b: u8)
    ensures
        final(out)@ == old(out)@ + pad_left(s@, w as nat, b),
        is_ascii_seq(old(out)@) && is_ascii_seq(s@) && b < 128 ==> is_ascii_seq(final(out)@),
{
    if s.len() < w {
        append_repeat(out, b, w - s.len());
    }
    append_bytes(out, s);
    proof {
        if s@.len() < w {
            assert(old(out)@ + repeat_byte(b, (w - s@.len()) as nat) + s@ =~= old(out)@
                + pad_left(s@, w as nat, b));
        }
    }
}

/// Append `s` right-padded with `b` to width `w`.
pub fn append_padded_right(out: &mut Vec<u8>, s: &Vec<u8>, w: usize, b: u8)
    ensures
        final(out)@ == old(out)@ + pad_right(s@, w as nat, b),
        is_ascii_seq(old(out)@) && is_ascii_seq(s@) && b < 128 ==> is_ascii_seq(final(out)@),
{
    append_bytes(out, s);
    if s.len() < w {
        append_repeat(out, b, w - s.len());
        proof {
            assert(old(out)@ + s@ + repeat_byte(b, (w - s@.len()) as nat) =~= old(out)@
                + pad_right(s@, w as nat, b));
        }
    }
}

/// Relies on `String::from_utf8`: a vector of bytes below 128 is valid
/// UTF-8 and decodes to the characters with those code points.
#[verifier::external_body]
pub fn string_from_ascii(bytes: Vec<u8>) -> (r: String)
    requires
        is_ascii_seq(bytes@),
    ensures
        r@ == ascii_chars(bytes@),
{
    String::from_utf8(bytes).unwrap()
}

} // verus!
