//! The redemption report: an ordered ledger of redemption facts, with
//! semantically-aware compression and four textual renderings.

use vstd::prelude::*;
use vstd::pervasive::VecAdditionalExecFns;

use crate::address::spec_address_abbreviation;
use crate::address::spec_address_encoding;
use crate::address::Network;
use crate::address::ReceivingAddress;
use crate::amount::spec_display_lossless;
use crate::amount::NativeCurrencyAmount;
use crate::amount::MAX_NAU;
use crate::text::ascii_chars;
use crate::text::dec_bytes;
use crate::text::is_ascii_seq;
use crate::text::pad_left;
use crate::text::pad_right;
use crate::text::repeat_byte;
use crate::text::string_from_ascii;
use crate::text::append_bytes;
use crate::text::append_padded_left;
use crate::text::append_padded_right;
use crate::text::append_repeat;
use crate::text::append_u128_decimal;
use crate::text::append_u64_decimal;
use crate::timestamp::spec_standard_format;
use crate::timestamp::Timestamp;

verus! {

/// The four textual renderings of a report.
#[derive(Clone, Copy, Debug, PartialEq, Eq, Structural)]
pub enum RedemptionReportDisplayFormat {
    Readable,
    Detailed,
    ColonSeparated,
    ColonSeparatedTestnet,
}

impl Default for RedemptionReportDisplayFormat {
    fn default() -> (r: Self)
        ensures
            r == RedemptionReportDisplayFormat::Readable,
    {
        RedemptionReportDisplayFormat::Readable
    }
}

/// One redemption fact: an amount, the date it unlocks (if any), and the
/// address it goes to.
#[derive(Clone, Copy, Debug)]
pub struct RedemptionReportEntry {
    pub amount: NativeCurrencyAmount,
    pub earliest_release_date: Option<Timestamp>,
    pub address: ReceivingAddress,
}

impl RedemptionReportEntry {
    /// The entry with the given fields.
    pub fn new(
        amount: NativeCurrencyAmount,
        earliest_release_date: Option<Timestamp>,
        address: ReceivingAddress,
    ) -> (r: Self)
        ensures
            r.amount == amount,
            r.earliest_release_date == earliest_release_date,
            r.address == address,
    {
        RedemptionReportEntry { amount, earliest_release_date, address }
    }
}

/// Whether two entries may merge: same address, and a release date either
/// present in both or absent in both.
pub open spec fn spec_key_matches(a: RedemptionReportEntry, b: RedemptionReportEntry) -> bool {
    &&& a.address.spending_lock.words@ == b.address.spending_lock.words@
    &&& (a.earliest_release_date is Some <==> b.earliest_release_date is Some)
}

/// The merge of two entries sharing a key: amounts sum, and of two
/// present dates the earlier wins.
pub open spec fn spec_combine(
    existing: RedemptionReportEntry,
    incoming: RedemptionReportEntry,
) -> RedemptionReportEntry {
    RedemptionReportEntry {
        amount: NativeCurrencyAmount {
            nau: (existing.amount.nau + incoming.amount.nau) as u128,
        },
        earliest_release_date: match (existing.earliest_release_date, incoming.earliest_release_date) {
            (Some(p), Some(t)) => if t.millis < p.millis {
                Some(t)
            } else {
                Some(p)
            },
            (Some(p), None) => Some(p),
            (None, Some(t)) => Some(t),
            (None, None) => None,
        },
        address: incoming.address,
    }
}

/// The first row of `acc` that `e` merges into, or a negative value.
pub open spec fn spec_first_match(acc: Seq<RedemptionReportEntry>, e: RedemptionReportEntry) -> int
    decreases acc.len(),
{
    if acc.len() == 0 {
        -1
    } else if spec_key_matches(acc.first(), e) {
        0
    } else {
        let r = spec_first_match(acc.drop_first(), e);
        if r < 0 {
            -1
        } else {
            r + 1
        }
    }
}

/// `e` merged into the table `acc`: into the first matching row, or
/// appended when no row matches.
pub open spec fn spec_merge_into(
    acc: Seq<RedemptionReportEntry>,
    e: RedemptionReportEntry,
) -> Seq<RedemptionReportEntry> {
    let f = spec_first_match(acc, e);
    if f < 0 {
        acc.push(e)
    } else {
        acc.update(f, spec_combine(acc[f], e))
    }
}

/// All of `rows` merged into `acc`, in order.
pub open spec fn spec_compress_acc(
    acc: Seq<RedemptionReportEntry>,
    rows: Seq<RedemptionReportEntry>,
) -> Seq<RedemptionReportEntry>
    decreases rows.len(),
{
    if rows.len() == 0 {
        acc
    } else {
        spec_compress_acc(spec_merge_into(acc, rows.first()), rows.drop_first())
    }
}

/// The compression of a table: every row merged, in order, into the
/// first earlier row sharing its key.
pub open spec fn spec_compressed(t: Seq<RedemptionReportEntry>) -> Seq<RedemptionReportEntry> {
    spec_compress_acc(Seq::empty(), t)
}

/// The total amount over a table.
pub open spec fn spec_total(t: Seq<RedemptionReportEntry>) -> int
    decreases t.len(),
{
    if t.len() == 0 {
        0
    } else {
        spec_total(t.drop_last()) + t.last().amount.nau
    }
}

/// No two rows of `t` share a key.
pub open spec fn spec_distinct_keys(t: Seq<RedemptionReportEntry>) -> bool {
    forall|i: int, j: int|
        0 <= i < j < t.len() ==> !spec_key_matches(#[trigger] t[i], #[trigger] t[j])
}

/// Totals are non-negative and bounded below by any single row.
pub proof fn lemma_total_nonneg(t: Seq<RedemptionReportEntry>)
    ensures
        spec_total(t) >= 0,
    decreases t.len(),
{
    if t.len() > 0 {
        lemma_total_nonneg(t.drop_last());
    }
}

/// The total splits off the first row.
pub proof fn lemma_total_first(t: Seq<RedemptionReportEntry>)
    requires
        t.len() > 0,
    ensures
        spec_total(t) == t.first().amount.nau + spec_total(t.drop_first()),
    decreases t.len(),
{
    if t.len() == 1 {
        assert(t.drop_first().len() == 0);
        assert(spec_total(t.drop_first()) == 0);
        assert(t.drop_last().len() == 0);
        assert(spec_total(t) == spec_total(t.drop_last()) + t.last().amount.nau);
    } else {
        lemma_total_first(t.drop_last());
        assert(t.drop_first().drop_last() =~= t.drop_last().drop_first());
        assert(t.drop_last().first() == t.first());
        assert(t.drop_first().last() == t.last());
        assert(spec_total(t) == spec_total(t.drop_last()) + t.last().amount.nau);
        assert(spec_total(t.drop_first()) == spec_total(t.drop_first().drop_last())
            + t.drop_first().last().amount.nau);
    }
}

/// Updating one row changes the total by the difference at that row.
pub proof fn lemma_total_update(t: Seq<RedemptionReportEntry>, i: int, v: RedemptionReportEntry)
    requires
        0 <= i < t.len(),
    ensures
        spec_total(t.update(i, v)) == spec_total(t) - t[i].amount.nau + v.amount.nau,
    decreases t.len(),
{
    if i == t.len() - 1 {
        assert(t.update(i, v).drop_last() =~= t.drop_last());
    } else {
        lemma_total_update(t.drop_last(), i, v);
        assert(t.update(i, v).drop_last() =~= t.drop_last().update(i, v));
        assert(t.update(i, v).last() == t.last());
    }
}

/// Any single row is bounded by the total.
pub proof fn lemma_row_le_total(t: Seq<RedemptionReportEntry>, i: int)
    requires
        0 <= i < t.len(),
    ensures
        t[i].amount.nau <= spec_total(t),
    decreases t.len(),
{
    if i == t.len() - 1 {
        lemma_total_nonneg(t.drop_last());
    } else {
        lemma_row_le_total(t.drop_last(), i);
    }
}

/// Merging preserves the total, adding exactly the incoming amount.  The
/// bound keeps the merged sum representable.
pub proof fn lemma_merge_total(acc: Seq<RedemptionReportEntry>, e: RedemptionReportEntry)
    requires
        spec_total(acc) + e.amount.nau <= MAX_NAU,
    ensures
        spec_total(spec_merge_into(acc, e)) == spec_total(acc) + e.amount.nau,
{
    let f = spec_first_match(acc, e);
    if f < 0 {
        assert(acc.push(e).drop_last() =~= acc);
        assert(spec_total(acc.push(e)) == spec_total(acc) + e.amount.nau);
    } else {
        lemma_first_match_in_range(acc, e);
        lemma_row_le_total(acc, f);
        lemma_total_nonneg(acc);
        lemma_total_update(acc, f, spec_combine(acc[f], e));
    }
}

/// A found match lies inside the table and matches; everything before it
/// does not match.
pub proof fn lemma_first_match_in_range(acc: Seq<RedemptionReportEntry>, e: RedemptionReportEntry)
    requires
        spec_first_match(acc, e) >= 0,
    ensures
        spec_first_match(acc, e) < acc.len(),
        spec_key_matches(acc[spec_first_match(acc, e)], e),
        forall|k: int| 0 <= k < spec_first_match(acc, e) ==> !spec_key_matches(#[trigger] acc[k], e),
    decreases acc.len(),
{
    if acc.len() > 0 && !spec_key_matches(acc.first(), e) {
        lemma_first_match_in_range(acc.drop_first(), e);
        let f = spec_first_match(acc, e);
        assert(acc.drop_first()[f - 1] == acc[f]);
        assert forall|k: int| 0 <= k < f implies !spec_key_matches(#[trigger] acc[k], e) by {
            if k > 0 {
                assert(acc[k] == acc.drop_first()[k - 1]);
            }
        }
    }
}

/// When no row matches, the lookup reports so, and conversely.
pub proof fn lemma_first_match_none(acc: Seq<RedemptionReportEntry>, e: RedemptionReportEntry)
    requires
        spec_first_match(acc, e) < 0,
    ensures
        forall|k: int| 0 <= k < acc.len() ==> !spec_key_matches(#[trigger] acc[k], e),
    decreases acc.len(),
{
    if acc.len() > 0 {
        lemma_first_match_none(acc.drop_first(), e);
        assert forall|k: int| 0 <= k < acc.len() implies !spec_key_matches(#[trigger] acc[k], e) by {
            if k > 0 {
                assert(acc[k] == acc.drop_first()[k - 1]);
            }
        }
    }
}

/// The scan finds the first match: if rows before `j` do not match and
/// row `j` does, the scan returns `j`.
pub proof fn lemma_first_match_at(
    acc: Seq<RedemptionReportEntry>,
    e: RedemptionReportEntry,
    j: int,
)
    requires
        0 <= j < acc.len(),
        spec_key_matches(acc[j], e),
        forall|k: int| 0 <= k < j ==> !spec_key_matches(#[trigger] acc[k], e),
    ensures
        spec_first_match(acc, e) == j,
    decreases acc.len(),
{
    if j > 0 {
        assert(!spec_key_matches(acc.first(), e));
        assert(acc.drop_first()[j - 1] == acc[j]);
        assert forall|k: int| 0 <= k < j - 1 implies !spec_key_matches(
            #[trigger] acc.drop_first()[k],
            e,
        ) by {
            assert(acc.drop_first()[k] == acc[k + 1]);
        }
        lemma_first_match_at(acc.drop_first(), e, j - 1);
    }
}

/// Merging keeps keys pairwise distinct.
pub proof fn lemma_merge_distinct(acc: Seq<RedemptionReportEntry>, e: RedemptionReportEntry)
    requires
        spec_distinct_keys(acc),
    ensures
        spec_distinct_keys(spec_merge_into(acc, e)),
{
    let f = spec_first_match(acc, e);
    let out = spec_merge_into(acc, e);
    if f < 0 {
        lemma_first_match_none(acc, e);
        assert forall|i: int, j: int| 0 <= i < j < out.len() implies !spec_key_matches(
            #[trigger] out[i],
            #[trigger] out[j],
        ) by {
            if j == out.len() - 1 {
                assert(out[i] == acc[i]);
                assert(!spec_key_matches(acc[i], e));
            }
        }
    } else {
        lemma_first_match_in_range(acc, e);
        assert(spec_key_matches(spec_combine(acc[f], e), acc[f])) by {
            assert(spec_key_matches(acc[f], e));
        }
        assert forall|i: int, j: int| 0 <= i < j < out.len() implies !spec_key_matches(
            #[trigger] out[i],
            #[trigger] out[j],
        ) by {
            if i == f {
                assert(!spec_key_matches(acc[i], acc[j]));
                assert(spec_key_matches(out[i], acc[i]));
            } else if j == f {
                assert(!spec_key_matches(acc[i], acc[j]));
                assert(spec_key_matches(out[j], acc[j]));
            }
        }
    }
}

/// Compressing a table with distinct accumulated keys keeps them
/// distinct.
pub proof fn lemma_compress_acc_distinct(
    acc: Seq<RedemptionReportEntry>,
    rows: Seq<RedemptionReportEntry>,
)
    requires
        spec_distinct_keys(acc),
    ensures
        spec_distinct_keys(spec_compress_acc(acc, rows)),
    decreases rows.len(),
{
    if rows.len() > 0 {
        lemma_merge_distinct(acc, rows.first());
        lemma_compress_acc_distinct(spec_merge_into(acc, rows.first()), rows.drop_first());
    }
}

/// Compressing rows whose keys are already distinct from each other and
/// from the accumulator appends them unchanged.
pub proof fn lemma_compress_distinct_identity(
    acc: Seq<RedemptionReportEntry>,
    rows: Seq<RedemptionReportEntry>,
)
    requires
        spec_distinct_keys(acc + rows),
    ensures
        spec_compress_acc(acc, rows) == acc + rows,
    decreases rows.len(),
{
    if rows.len() == 0 {
        assert(spec_compress_acc(acc, rows) =~= acc + rows);
    } else {
        let e = rows.first();
        let whole = acc + rows;
        assert(whole[acc.len() as int] == e);
        assert forall|k: int| 0 <= k < acc.len() implies !spec_key_matches(#[trigger] acc[k], e) by {
            assert(whole[k] == acc[k]);
            assert(!spec_key_matches(whole[k], whole[acc.len() as int]));
        }
        if spec_first_match(acc, e) >= 0 {
            lemma_first_match_in_range(acc, e);
            assert(false);
        }
        assert(acc.push(e) + rows.drop_first() =~= acc + rows);
        lemma_compress_distinct_identity(acc.push(e), rows.drop_first());
    }
}

/// Compression is idempotent: compressing a compressed report changes
/// nothing.
pub proof fn lemma_compressed_idempotent(t: Seq<RedemptionReportEntry>)
    ensures
        spec_compressed(spec_compressed(t)) == spec_compressed(t),
{
    lemma_compress_acc_distinct(Seq::empty(), t);
    lemma_compress_distinct_identity(Seq::empty(), spec_compressed(t));
    assert(Seq::empty() + spec_compressed(t) =~= spec_compressed(t));
}

/// Compressing accumulates every merged amount into the total.
pub proof fn lemma_compress_acc_total(
    acc: Seq<RedemptionReportEntry>,
    rows: Seq<RedemptionReportEntry>,
)
    requires
        spec_total(acc) + spec_total(rows) <= MAX_NAU,
    ensures
        spec_total(spec_compress_acc(acc, rows)) == spec_total(acc) + spec_total(rows),
    decreases rows.len(),
{
    if rows.len() > 0 {
        lemma_total_first(rows);
        lemma_total_nonneg(rows.drop_first());
        lemma_total_nonneg(acc);
        lemma_merge_total(acc, rows.first());
        lemma_compress_acc_total(spec_merge_into(acc, rows.first()), rows.drop_first());
    }
}

/// Compression preserves the total amount over all rows, as long as that
/// total is representable.
pub proof fn lemma_compressed_preserves_total(t: Seq<RedemptionReportEntry>)
    requires
        spec_total(t) <= MAX_NAU,
    ensures
        spec_total(spec_compressed(t)) == spec_total(t),
{
    lemma_compress_acc_total(Seq::empty(), t);
}

/// The heading of the amount column.
pub open spec fn spec_heading_amount() -> Seq<u8> {
    seq![97u8, 109u8, 111u8, 117u8, 110u8, 116u8]
}

/// The heading of the release-date column.
pub open spec fn spec_heading_date() -> Seq<u8> {
    seq![
        101u8,
        97u8,
        114u8,
        108u8,
        105u8,
        101u8,
        115u8,
        116u8,
        32u8,
        114u8,
        101u8,
        108u8,
        101u8,
        97u8,
        115u8,
        101u8,
        32u8,
        100u8,
        97u8,
        116u8,
        101u8,
    ]
}

/// The heading of the address column.
pub open spec fn spec_heading_address() -> Seq<u8> {
    seq![97u8, 100u8, 100u8, 114u8, 101u8, 115u8, 115u8]
}

/// The worst-case width of a rendered amount: the maximum representable
/// value, in whichever of its two renderings is longer.
pub open spec fn spec_amount_width() -> nat {
    if spec_display_lossless(MAX_NAU).len() > dec_bytes(MAX_NAU as nat).len() {
        spec_display_lossless(MAX_NAU).len()
    } else {
        dec_bytes(MAX_NAU as nat).len()
    }
}

/// The worst-case width of a rendered release date: the latest
/// representable instant in the format's rendering.
pub open spec fn spec_date_width(format: RedemptionReportDisplayFormat) -> nat {
    match format {
        RedemptionReportDisplayFormat::Readable => spec_standard_format(u64::MAX).len(),
        _ => dec_bytes(u64::MAX as nat).len(),
    }
}

/// The width of a rendered address.  Encodings have a constant length —
/// fixed-size material — so no sampling is needed.
pub open spec fn spec_address_width(format: RedemptionReportDisplayFormat) -> nat {
    match format {
        RedemptionReportDisplayFormat::Readable => crate::address::spec_hrp(
            Network::Main,
        ).len() + 16,
        _ => crate::address::spec_hrp(Network::Main).len() + 72,
    }
}

/// The three column widths: each column as wide as its heading or its
/// worst-case field, whichever is more.
pub open spec fn spec_column_widths(format: RedemptionReportDisplayFormat) -> (nat, nat, nat) {
    (
        if spec_amount_width() > 6 {
            spec_amount_width()
        } else {
            6
        },
        if spec_date_width(format) > 21 {
            spec_date_width(format)
        } else {
            21
        },
        if spec_address_width(format) > 7 {
            spec_address_width(format)
        } else {
            7
        },
    )
}

/// An encoded address is as long as its prefix plus a separator, 65 data
/// characters and 6 checksum characters.
pub proof fn lemma_encoding_len(a: ReceivingAddress, network: Network)
    ensures
        spec_address_encoding(a, network).len() == crate::address::spec_hrp(network).len() + 72,
        spec_address_abbreviation(a, network).len() == crate::address::spec_hrp(network).len()
            + 16,
{
    assert(crate::address::spec_address_values(a).len() == 65);
    assert(crate::address::spec_checksum_values(a, network).len() == 6);
}

/// The rendered amount of one entry.
pub open spec fn spec_amount_cell(
    e: RedemptionReportEntry,
    format: RedemptionReportDisplayFormat,
) -> Seq<u8> {
    match format {
        RedemptionReportDisplayFormat::Detailed => dec_bytes(e.amount.nau as nat),
        _ => spec_display_lossless(e.amount.nau),
    }
}

/// The rendered release date of one entry: a calendar string or
/// milliseconds, and a dash when there is none.
pub open spec fn spec_date_cell(
    e: RedemptionReportEntry,
    format: RedemptionReportDisplayFormat,
) -> Seq<u8> {
    match e.earliest_release_date {
        None => seq![45u8],
        Some(rd) => match format {
            RedemptionReportDisplayFormat::Readable => spec_standard_format(rd.millis),
            _ => dec_bytes(rd.millis as nat),
        },
    }
}

/// The rendered address of one entry: abbreviated for the readable
/// format, full otherwise; on the main network except in the testnet
/// format.
pub open spec fn spec_address_cell(
    e: RedemptionReportEntry,
    format: RedemptionReportDisplayFormat,
) -> Seq<u8> {
    match format {
        RedemptionReportDisplayFormat::Readable => spec_address_abbreviation(
            e.address,
            Network::Main,
        ),
        RedemptionReportDisplayFormat::ColonSeparatedTestnet => spec_address_encoding(
            e.address,
            Network::Testnet,
        ),
        _ => spec_address_encoding(e.address, Network::Main),
    }
}

/// One rendered row: a decorated table row, a space-separated row, or a
/// colon-separated line whose date is omitted when absent.
pub open spec fn spec_entry_render(
    e: RedemptionReportEntry,
    format: RedemptionReportDisplayFormat,
    w0: nat,
    w1: nat,
    w2: nat,
) -> Seq<u8> {
    match format {
        RedemptionReportDisplayFormat::Readable => seq![124u8, 32u8] + pad_left(
            spec_amount_cell(e, format),
            w0,
            32,
        ) + seq![32u8, 124u8, 32u8] + pad_right(spec_date_cell(e, format), w1, 32) + seq![
            32u8,
            124u8,
            32u8,
        ] + pad_right(spec_address_cell(e, format), w2, 32) + seq![32u8, 124u8, 10u8],
        RedemptionReportDisplayFormat::Detailed => pad_left(spec_amount_cell(e, format), w0, 32)
            + seq![32u8] + pad_right(spec_date_cell(e, format), w1, 32) + seq![32u8] + pad_right(
            spec_address_cell(e, format),
            w2,
            32,
        ) + seq![10u8],
        _ => spec_address_cell(e, format) + seq![58u8] + spec_amount_cell(e, format) + (match e
            .earliest_release_date {
            Some(rd) => seq![58u8] + dec_bytes(rd.millis as nat),
            None => Seq::<u8>::empty(),
        }) + seq![10u8],
    }
}

/// The rendered rows of a table, in order.
pub open spec fn spec_render_body(
    t: Seq<RedemptionReportEntry>,
    format: RedemptionReportDisplayFormat,
    w0: nat,
    w1: nat,
    w2: nat,
) -> Seq<u8>
    decreases t.len(),
{
    if t.len() == 0 {
        Seq::empty()
    } else {
        spec_render_body(t.drop_last(), format, w0, w1, w2) + spec_entry_render(
            t.last(),
            format,
            w0,
            w1,
            w2,
        )
    }
}

/// The full width of a decorated table row.
pub open spec fn spec_total_width(w0: nat, w1: nat, w2: nat) -> nat {
    w0 + w1 + w2 + 10
}

/// The header: rule lines around the headings for the readable format, a
/// heading row alone for the detailed one, nothing otherwise.
pub open spec fn spec_render_header(
    format: RedemptionReportDisplayFormat,
    w0: nat,
    w1: nat,
    w2: nat,
) -> Seq<u8> {
    match format {
        RedemptionReportDisplayFormat::Readable => repeat_byte(45, spec_total_width(w0, w1, w2))
            + seq![10u8, 124u8, 32u8] + pad_right(spec_heading_amount(), w0, 32) + seq![
            32u8,
            124u8,
            32u8,
        ] + pad_right(spec_heading_date(), w1, 32) + seq![32u8, 124u8, 32u8] + pad_right(
            spec_heading_address(),
            w2,
            32,
        ) + seq![32u8, 124u8, 10u8] + repeat_byte(45, spec_total_width(w0, w1, w2)) + seq![10u8],
        RedemptionReportDisplayFormat::Detailed => pad_right(spec_heading_amount(), w0, 32) + seq![
            32u8,
        ] + pad_right(spec_heading_date(), w1, 32) + seq![32u8] + pad_right(
            spec_heading_address(),
            w2,
            32,
        ) + seq![10u8],
        _ => Seq::empty(),
    }
}

/// The footer: a rule line and the amount total for the readable format,
/// nothing otherwise.
pub open spec fn spec_render_footer(
    t: Seq<RedemptionReportEntry>,
    format: RedemptionReportDisplayFormat,
    w0: nat,
    w1: nat,
    w2: nat,
) -> Seq<u8> {
    match format {
        RedemptionReportDisplayFormat::Readable => repeat_byte(45, spec_total_width(w0, w1, w2))
            + seq![10u8, 124u8, 32u8, 116u8, 111u8, 116u8, 97u8, 108u8, 58u8, 32u8]
            + spec_display_lossless(spec_total(t) as u128),
        _ => Seq::empty(),
    }
}

/// Header, body and footer of a table under the format's column widths.
pub open spec fn spec_render_table(
    t: Seq<RedemptionReportEntry>,
    format: RedemptionReportDisplayFormat,
) -> Seq<u8> {
    let w = spec_column_widths(format);
    spec_render_header(format, w.0, w.1, w.2) + spec_render_body(t, format, w.0, w.1, w.2)
        + spec_render_footer(t, format, w.0, w.1, w.2)
}

/// The rendered report: the table and a final newline.
pub open spec fn spec_render(
    t: Seq<RedemptionReportEntry>,
    format: RedemptionReportDisplayFormat,
) -> Seq<u8> {
    spec_render_table(t, format) + seq![10u8]
}

/// A prefix never exceeds the whole total.
proof fn lemma_total_take_le(t: Seq<RedemptionReportEntry>, k: int)
    requires
        0 <= k <= t.len(),
    ensures
        spec_total(t.take(k)) <= spec_total(t),
    decreases t.len(),
{
    if k == t.len() {
        assert(t.take(k) =~= t);
    } else {
        lemma_total_take_le(t.drop_last(), k);
        assert(t.drop_last().take(k) =~= t.take(k));
    }
}

/// Repetitions concatenate.
proof fn lemma_repeat_concat(b: u8, m: nat, n: nat)
    ensures
        repeat_byte(b, m) + repeat_byte(b, n) == repeat_byte(b, m + n),
{
    assert(repeat_byte(b, m) + repeat_byte(b, n) =~= repeat_byte(b, m + n));
}

impl RedemptionReportEntry {
    /// The three column headings.
    pub fn headings() -> (r: [String; 3])
        ensures
            r@[0]@ == ascii_chars(spec_heading_amount()),
            r@[1]@ == ascii_chars(spec_heading_date()),
            r@[2]@ == ascii_chars(spec_heading_address()),
    {
        let mut h0: Vec<u8> = Vec::new();
        h0.push(97);
        h0.push(109);
        h0.push(111);
        h0.push(117);
        h0.push(110);
        h0.push(116);
        let mut h1: Vec<u8> = Vec::new();
        h1.push(101);
        h1.push(97);
        h1.push(114);
        h1.push(108);
        h1.push(105);
        h1.push(101);
        h1.push(115);
        h1.push(116);
        h1.push(32);
        h1.push(114);
        h1.push(101);
        h1.push(108);
        h1.push(101);
        h1.push(97);
        h1.push(115);
        h1.push(101);
        h1.push(32);
        h1.push(100);
        h1.push(97);
        h1.push(116);
        h1.push(101);
        let mut h2: Vec<u8> = Vec::new();
        h2.push(97);
        h2.push(100);
        h2.push(100);
        h2.push(114);
        h2.push(101);
        h2.push(115);
        h2.push(115);
        proof {
            assert(h0@ =~= spec_heading_amount());
            assert(h1@ =~= spec_heading_date());
            assert(h2@ =~= spec_heading_address());
        }
        let r = [string_from_ascii(h0), string_from_ascii(h1), string_from_ascii(h2)];
        r
    }

    /// The column widths of a format: the worst-case rendered fields,
    /// floored at the heading lengths.
    fn column_widths(format: RedemptionReportDisplayFormat) -> (r: [usize; 3])
        ensures
            r@[0] == spec_column_widths(format).0,
            r@[1] == spec_column_widths(format).1,
            r@[2] == spec_column_widths(format).2,
    {
        let lossless = NativeCurrencyAmount::max_amount().display_lossless_bytes();
        let mut nau_digits: Vec<u8> = Vec::new();
        append_u128_decimal(&mut nau_digits, MAX_NAU);
        let amount_width = if lossless.len() > nau_digits.len() {
            lossless.len()
        } else {
            nau_digits.len()
        };
        let date_width = match format {
            RedemptionReportDisplayFormat::Readable => Timestamp::max_timestamp().standard_format_bytes().len(),
            _ => {
                let mut millis_digits: Vec<u8> = Vec::new();
                append_u64_decimal(&mut millis_digits, u64::MAX);
                millis_digits.len()
            },
        };
        let sample = ReceivingAddress::new(
            crate::digest::Digest::new([0u64, 0u64, 0u64, 0u64, 0u64]),
        );
        let address_width = match format {
            RedemptionReportDisplayFormat::Readable => sample.encode_abbreviated_bytes(
                Network::Main,
            ).len(),
            _ => sample.encode_bytes(Network::Main).len(),
        };
        proof {
            lemma_encoding_len(sample, Network::Main);
        }
        let w0 = if amount_width > 6 {
            amount_width
        } else {
            6
        };
        let w1 = if date_width > 21 {
            date_width
        } else {
            21
        };
        let w2 = if address_width > 7 {
            address_width
        } else {
            7
        };
        [w0, w1, w2]
    }

    /// One rendered row under the given column widths.
    #[verifier::rlimit(100)]
    fn render_bytes(&self, format: RedemptionReportDisplayFormat, column_widths: [usize; 3]) -> (r:
        Vec<u8>)
        ensures
            r@ == spec_entry_render(
                *self,
                format,
                column_widths@[0] as nat,
                column_widths@[1] as nat,
                column_widths@[2] as nat,
            ),
            is_ascii_seq(r@),
    {
        let amount_cell: Vec<u8> = match format {
            RedemptionReportDisplayFormat::Detailed => {
                let mut v: Vec<u8> = Vec::new();
                append_u128_decimal(&mut v, self.amount.to_nau());
                v
            },
            _ => self.amount.display_lossless_bytes(),
        };
        let date_cell: Vec<u8> = match self.earliest_release_date {
            None => {
                let mut v: Vec<u8> = Vec::new();
                v.push(45);
                proof {
                    assert(v@ =~= seq![45u8]);
                }
                v
            },
            Some(rd) => match format {
                RedemptionReportDisplayFormat::Readable => rd.standard_format_bytes(),
                _ => {
                    let mut v: Vec<u8> = Vec::new();
                    append_u64_decimal(&mut v, rd.to_millis());
                    v
                },
            },
        };
        let address_cell: Vec<u8> = match format {
            RedemptionReportDisplayFormat::Readable => self.address.encode_abbreviated_bytes(
                Network::Main,
            ),
            RedemptionReportDisplayFormat::ColonSeparatedTestnet => self.address.encode_bytes(
                Network::Testnet,
            ),
            _ => self.address.encode_bytes(Network::Main),
        };
        proof {
            assert(amount_cell@ == spec_amount_cell(*self, format));
            assert(date_cell@ == spec_date_cell(*self, format));
            assert(address_cell@ == spec_address_cell(*self, format));
        }
        let mut out: Vec<u8> = Vec::new();
        match format {
            RedemptionReportDisplayFormat::Readable => {
                out.push(124);
                out.push(32);
                append_padded_left(&mut out, &amount_cell, column_widths[0], 32);
                out.push(32);
                out.push(124);
                out.push(32);
                append_padded_right(&mut out, &date_cell, column_widths[1], 32);
                out.push(32);
                out.push(124);
                out.push(32);
                append_padded_right(&mut out, &address_cell, column_widths[2], 32);
                out.push(32);
                out.push(124);
                out.push(10);
            },
            RedemptionReportDisplayFormat::Detailed => {
                append_padded_left(&mut out, &amount_cell, column_widths[0], 32);
                out.push(32);
                append_padded_right(&mut out, &date_cell, column_widths[1], 32);
                out.push(32);
                append_padded_right(&mut out, &address_cell, column_widths[2], 32);
                out.push(10);
            },
            _ => {
                append_bytes(&mut out, &address_cell);
                out.push(58);
                append_bytes(&mut out, &amount_cell);
                match self.earliest_release_date {
                    Some(rd) => {
                        out.push(58);
                        append_u64_decimal(&mut out, rd.to_millis());
                    },
                    None => {},
                }
                out.push(10);
            },
        }
        proof {
            assert(out@ =~= spec_entry_render(
                *self,
                format,
                column_widths@[0] as nat,
                column_widths@[1] as nat,
                column_widths@[2] as nat,
            ));
        }
        out
    }

    /// One rendered row under the given column widths.
    pub fn render(&self, format: RedemptionReportDisplayFormat, column_widths: [usize; 3]) -> (r:
        String)
        ensures
            r@ == ascii_chars(
                spec_entry_render(
                    *self,
                    format,
                    column_widths@[0] as nat,
                    column_widths@[1] as nat,
                    column_widths@[2] as nat,
                ),
            ),
    {
        string_from_ascii(self.render_bytes(format, column_widths))
    }
}

/// An ordered ledger of redemption facts.
#[derive(Debug)]
pub struct RedemptionReport {
    table: Vec<RedemptionReportEntry>,
}

impl View for RedemptionReport {
    type V = Seq<RedemptionReportEntry>;

    closed spec fn view(&self) -> Seq<RedemptionReportEntry> {
        self.table@
    }
}

impl RedemptionReport {
    /// The empty report.
    pub fn new() -> (r: Self)
        ensures
            r@ == Seq::<RedemptionReportEntry>::empty(),
    {
        RedemptionReport { table: Vec::new() }
    }

    /// Append one redemption fact.  Nothing is validated and nothing is
    /// merged at this point.
    pub fn add_row(
        &mut self,
        amount: NativeCurrencyAmount,
        release_date: Option<Timestamp>,
        address: ReceivingAddress,
    )
        ensures
            final(self)@ == old(self)@.push(
                RedemptionReportEntry { amount, earliest_release_date: release_date, address },
            ),
    {
        self.table.push(RedemptionReportEntry::new(amount, release_date, address));
    }

    /// The rows of the report, in order.
    pub fn rows(&self) -> (r: &Vec<RedemptionReportEntry>)
        ensures
            r@ == self@,
    {
        &self.table
    }

    /// The compression of the report: each row merges into the first
    /// earlier row with the same destination and the same release-date
    /// presence; amounts sum and the earlier of two dates wins.
    pub fn compressed(self) -> (r: Self)
        requires
            spec_total(self@) <= MAX_NAU,
        ensures
            r@ == spec_compressed(self@),
    {
        let ghost whole = self.table@;
        let mut new_table: Vec<RedemptionReportEntry> = Vec::new();
        let mut rix: usize = 0;
        proof {
            assert(whole.skip(0) =~= whole);
        }
        while rix < self.table.len()
            invariant
                rix <= self.table.len(),
                whole == self.table@,
                spec_total(whole) <= MAX_NAU,
                spec_compress_acc(new_table@, whole.skip(rix as int)) == spec_compressed(whole),
                spec_total(new_table@) + spec_total(whole.skip(rix as int)) == spec_total(whole),
            decreases self.table.len() - rix,
        {
            let old_row = self.table[rix];
            proof {
                assert(whole.skip(rix as int).first() == old_row);
                assert(whole.skip(rix as int).drop_first() =~= whole.skip(rix as int + 1));
                lemma_total_first(whole.skip(rix as int));
                lemma_total_nonneg(whole.skip(rix as int + 1));
                lemma_total_nonneg(new_table@);
                lemma_merge_total(new_table@, old_row);
            }
            let mut jix: usize = 0;
            let mut have_match = false;
            while jix < new_table.len() && !have_match
                invariant
                    jix <= new_table.len(),
                    forall|k: int|
                        0 <= k < jix ==> !spec_key_matches(#[trigger] new_table@[k], old_row),
                    have_match ==> jix < new_table.len() && spec_key_matches(
                        new_table@[jix as int],
                        old_row,
                    ),
                decreases new_table.len() - jix, (if have_match { 0int } else { 1int }),
            {
                let candidate = new_table[jix];
                let address_matches = candidate.address == old_row.address;
                let presence_matches = match (
                    candidate.earliest_release_date,
                    old_row.earliest_release_date,
                ) {
                    (None, Some(_)) | (Some(_), None) => false,
                    _ => true,
                };
                if address_matches && presence_matches {
                    have_match = true;
                } else {
                    jix = jix + 1;
                }
            }
            if have_match {
                proof {
                    lemma_first_match_at(new_table@, old_row, jix as int);
                    lemma_row_le_total(new_table@, jix as int);
                }
                let merged = RedemptionReportEntry {
                    amount: new_table[jix].amount.plus(&old_row.amount),
                    earliest_release_date: match (
                        new_table[jix].earliest_release_date,
                        old_row.earliest_release_date,
                    ) {
                        (Some(p), Some(t)) => if t.millis < p.millis {
                            Some(t)
                        } else {
                            Some(p)
                        },
                        (Some(p), None) => Some(p),
                        (None, Some(t)) => Some(t),
                        (None, None) => None,
                    },
                    address: old_row.address,
                };
                proof {
                    assert(merged == spec_combine(new_table@[jix as int], old_row));
                }
                new_table.set(jix, merged);
            } else {
                proof {
                    if spec_first_match(new_table@, old_row) >= 0 {
                        lemma_first_match_in_range(new_table@, old_row);
                        assert(false);
                    }
                }
                new_table.push(old_row);
            }
            rix = rix + 1;
        }
        proof {
            assert(whole.skip(whole.len() as int) =~= Seq::<RedemptionReportEntry>::empty());
        }
        RedemptionReport { table: new_table }
    }

    /// The rule lines and heading row of the table, as bytes.
    #[verifier::rlimit(100)]
    fn render_header_bytes(format: RedemptionReportDisplayFormat) -> (r: Vec<u8>)
        ensures
            r@ == spec_render_header(
                format,
                spec_column_widths(format).0,
                spec_column_widths(format).1,
                spec_column_widths(format).2,
            ),
            is_ascii_seq(r@),
    {
        let w = RedemptionReportEntry::column_widths(format);
        let ghost w0 = spec_column_widths(format).0;
        let ghost w1 = spec_column_widths(format).1;
        let ghost w2 = spec_column_widths(format).2;
        let headings = RedemptionReportEntry::headings();
        let mut out: Vec<u8> = Vec::new();
        match format {
            RedemptionReportDisplayFormat::Readable => {
                append_repeat(&mut out, 45, w[0]);
                append_repeat(&mut out, 45, w[1]);
                append_repeat(&mut out, 45, w[2]);
                append_repeat(&mut out, 45, 10);
                out.push(10);
                out.push(124);
                out.push(32);
                let mut h0: Vec<u8> = Vec::new();
                h0.push(97);
                h0.push(109);
                h0.push(111);
                h0.push(117);
                h0.push(110);
                h0.push(116);
                proof {
                    assert(h0@ =~= spec_heading_amount());
                }
                append_padded_right(&mut out, &h0, w[0], 32);
                out.push(32);
                out.push(124);
                out.push(32);
                let mut h1: Vec<u8> = Vec::new();
                h1.push(101);
                h1.push(97);
                h1.push(114);
                h1.push(108);
                h1.push(105);
                h1.push(101);
                h1.push(115);
                h1.push(116);
                h1.push(32);
                h1.push(114);
                h1.push(101);
                h1.push(108);
                h1.push(101);
                h1.push(97);
                h1.push(115);
                h1.push(101);
                h1.push(32);
                h1.push(100);
                h1.push(97);
                h1.push(116);
                h1.push(101);
                proof {
                    assert(h1@ =~= spec_heading_date());
                }
                append_padded_right(&mut out, &h1, w[1], 32);
                out.push(32);
                out.push(124);
                out.push(32);
                let mut h2: Vec<u8> = Vec::new();
                h2.push(97);
                h2.push(100);
                h2.push(100);
                h2.push(114);
                h2.push(101);
                h2.push(115);
                h2.push(115);
                proof {
                    assert(h2@ =~= spec_heading_address());
                }
                append_padded_right(&mut out, &h2, w[2], 32);
                out.push(32);
                out.push(124);
                out.push(10);
                append_repeat(&mut out, 45, w[0]);
                append_repeat(&mut out, 45, w[1]);
                append_repeat(&mut out, 45, w[2]);
                append_repeat(&mut out, 45, 10);
                out.push(10);
                proof {
                    lemma_repeat_concat(45, w0, w1);
                    lemma_repeat_concat(45, w0 + w1, w2);
                    lemma_repeat_concat(45, w0 + w1 + w2, 10);
                    assert(out@ =~= spec_render_header(format, w0, w1, w2));
                }
            },
            RedemptionReportDisplayFormat::Detailed => {
                let mut h0: Vec<u8> = Vec::new();
                h0.push(97);
                h0.push(109);
                h0.push(111);
                h0.push(117);
                h0.push(110);
                h0.push(116);
                proof {
                    assert(h0@ =~= spec_heading_amount());
                }
                append_padded_right(&mut out, &h0, w[0], 32);
                out.push(32);
                let mut h1: Vec<u8> = Vec::new();
                h1.push(101);
                h1.push(97);
                h1.push(114);
                h1.push(108);
                h1.push(105);
                h1.push(101);
                h1.push(115);
                h1.push(116);
                h1.push(32);
                h1.push(114);
                h1.push(101);
                h1.push(108);
                h1.push(101);
                h1.push(97);
                h1.push(115);
                h1.push(101);
                h1.push(32);
                h1.push(100);
                h1.push(97);
                h1.push(116);
                h1.push(101);
                proof {
                    assert(h1@ =~= spec_heading_date());
                }
                append_padded_right(&mut out, &h1, w[1], 32);
                out.push(32);
                let mut h2: Vec<u8> = Vec::new();
                h2.push(97);
                h2.push(100);
                h2.push(100);
                h2.push(114);
                h2.push(101);
                h2.push(115);
                h2.push(115);
                proof {
                    assert(h2@ =~= spec_heading_address());
                }
                append_padded_right(&mut out, &h2, w[2], 32);
                out.push(10);
                proof {
                    assert(out@ =~= spec_render_header(format, w0, w1, w2));
                }
            },
            _ => {},
        }
        out
    }

    /// The rule lines and heading row of the table.
    pub fn render_header(format: RedemptionReportDisplayFormat) -> (r: String)
        ensures
            r@ == ascii_chars(
                spec_render_header(
                    format,
                    spec_column_widths(format).0,
                    spec_column_widths(format).1,
                    spec_column_widths(format).2,
                ),
            ),
    {
        string_from_ascii(Self::render_header_bytes(format))
    }

    /// The rendered rows, as bytes.
    fn render_body_bytes(&self, format: RedemptionReportDisplayFormat) -> (r: Vec<u8>)
        ensures
            r@ == spec_render_body(
                self@,
                format,
                spec_column_widths(format).0,
                spec_column_widths(format).1,
                spec_column_widths(format).2,
            ),
            is_ascii_seq(r@),
    {
        let w = RedemptionReportEntry::column_widths(format);
        let ghost w0 = spec_column_widths(format).0;
        let ghost w1 = spec_column_widths(format).1;
        let ghost w2 = spec_column_widths(format).2;
        let mut out: Vec<u8> = Vec::new();
        let mut i: usize = 0;
        while i < self.table.len()
            invariant
                i <= self.table.len(),
                w@[0] == w0 && w@[1] == w1 && w@[2] == w2,
                out@ == spec_render_body(self.table@.take(i as int), format, w0, w1, w2),
                is_ascii_seq(out@),
            decreases self.table.len() - i,
        {
            let row = self.table[i].render_bytes(format, w);
            append_bytes(&mut out, &row);
            i = i + 1;
            proof {
                assert(self.table@.take(i as int).drop_last() =~= self.table@.take(i as int - 1));
            }
        }
        proof {
            assert(self.table@.take(self.table@.len() as int) =~= self.table@);
        }
        out
    }

    /// The rendered rows, in order.
    pub fn render_body(&self, format: RedemptionReportDisplayFormat) -> (r: String)
        ensures
            r@ == ascii_chars(
                spec_render_body(
                    self@,
                    format,
                    spec_column_widths(format).0,
                    spec_column_widths(format).1,
                    spec_column_widths(format).2,
                ),
            ),
    {
        string_from_ascii(self.render_body_bytes(format))
    }

    /// The rule line and amount total, as bytes.
    fn render_footer_bytes(&self, format: RedemptionReportDisplayFormat) -> (r: Vec<u8>)
        requires
            spec_total(self@) <= MAX_NAU,
        ensures
            r@ == spec_render_footer(
                self@,
                format,
                spec_column_widths(format).0,
                spec_column_widths(format).1,
                spec_column_widths(format).2,
            ),
            is_ascii_seq(r@),
    {
        let w = RedemptionReportEntry::column_widths(format);
        let ghost w0 = spec_column_widths(format).0;
        let ghost w1 = spec_column_widths(format).1;
        let ghost w2 = spec_column_widths(format).2;
        let mut out: Vec<u8> = Vec::new();
        match format {
            RedemptionReportDisplayFormat::Readable => {
                let mut total: u128 = 0;
                let mut i: usize = 0;
                while i < self.table.len()
                    invariant
                        i <= self.table.len(),
                        spec_total(self.table@) <= MAX_NAU,
                        total == spec_total(self.table@.take(i as int)),
                    decreases self.table.len() - i,
                {
                    proof {
                        assert(self.table@.take(i as int + 1).drop_last() =~= self.table@.take(
                            i as int,
                        ));
                        lemma_total_take_le(self.table@, i as int + 1);
                        lemma_total_nonneg(self.table@.take(i as int));
                    }
                    total = total + self.table[i].amount.to_nau();
                    i = i + 1;
                }
                proof {
                    assert(self.table@.take(self.table@.len() as int) =~= self.table@);
                    lemma_total_nonneg(self.table@);
                }
                append_repeat(&mut out, 45, w[0]);
                append_repeat(&mut out, 45, w[1]);
                append_repeat(&mut out, 45, w[2]);
                append_repeat(&mut out, 45, 10);
                out.push(10);
                out.push(124);
                out.push(32);
                out.push(116);
                out.push(111);
                out.push(116);
                out.push(97);
                out.push(108);
                out.push(58);
                out.push(32);
                let rendered_total = NativeCurrencyAmount::from_nau(total).display_lossless_bytes();
                append_bytes(&mut out, &rendered_total);
                proof {
                    lemma_repeat_concat(45, w0, w1);
                    lemma_repeat_concat(45, w0 + w1, w2);
                    lemma_repeat_concat(45, w0 + w1 + w2, 10);
                    assert(out@ =~= spec_render_footer(self@, format, w0, w1, w2));
                }
            },
            _ => {},
        }
        out
    }

    /// The rule line and amount total of the readable format.
    pub fn render_footer(&self, format: RedemptionReportDisplayFormat) -> (r: String)
        requires
            spec_total(self@) <= MAX_NAU,
        ensures
            r@ == ascii_chars(
                spec_render_footer(
                    self@,
                    format,
                    spec_column_widths(format).0,
                    spec_column_widths(format).1,
                    spec_column_widths(format).2,
                ),
            ),
    {
        string_from_ascii(self.render_footer_bytes(format))
    }

    /// Header, body and footer, as bytes.
    fn render_table_bytes(&self, format: RedemptionReportDisplayFormat) -> (r: Vec<u8>)
        requires
            spec_total(self@) <= MAX_NAU,
        ensures
            r@ == spec_render_table(self@, format),
            is_ascii_seq(r@),
    {
        let mut out = Self::render_header_bytes(format);
        let body = self.render_body_bytes(format);
        append_bytes(&mut out, &body);
        let footer = self.render_footer_bytes(format);
        append_bytes(&mut out, &footer);
        out
    }

    /// Header, body and footer of the rendered table.
    pub fn render_table(&self, format: RedemptionReportDisplayFormat) -> (r: String)
        requires
            spec_total(self@) <= MAX_NAU,
        ensures
            r@ == ascii_chars(spec_render_table(self@, format)),
    {
        string_from_ascii(self.render_table_bytes(format))
    }

    /// The fully rendered report: the table and a final newline.  The
    /// rendering is a pure function of the report and the format, so
    /// rendering the same report twice yields byte-identical output.
    pub fn render(&self, format: RedemptionReportDisplayFormat) -> (r: String)
        requires
            spec_total(self@) <= MAX_NAU,
        ensures
            r@ == ascii_chars(spec_render(self@, format)),
    {
        let mut out = self.render_table_bytes(format);
        out.push(10);
        string_from_ascii(out)
    }
}

} // verus!
