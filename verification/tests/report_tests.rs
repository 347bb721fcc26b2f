use rand::Rng;

use redemption::address::Network;
use redemption::address::ReceivingAddress;
use redemption::amount::NativeCurrencyAmount;
use redemption::amount::MAX_NAU;
use redemption::digest::Digest;
use redemption::report::RedemptionReport;
use redemption::report::RedemptionReportDisplayFormat;
use redemption::report::RedemptionReportEntry;
use redemption::timestamp::Timestamp;

fn address_from_words(words: [u64; 5]) -> ReceivingAddress {
    ReceivingAddress::new(Digest::new(words))
}

#[test]
fn can_render_random_report() {
    let mut rng = rand::rng();
    let num_rows: u32 = rng.random_range(0..25);
    let mut report = RedemptionReport::new();
    for _ in 0..num_rows {
        let amount = NativeCurrencyAmount::from_nau(rng.random_range(0..MAX_NAU) >> 5);
        let earliest_release_date = if rng.random_bool(0.5_f64) {
            None
        } else {
            Some(Timestamp::new(rng.random_range(0_u64..(1000 * 60 * 60 * 24 * 365))))
        };
        let address = address_from_words(rng.random());
        report.add_row(amount, earliest_release_date, address);
    }
    let format = match rng.random_range(0..4) {
        0 => RedemptionReportDisplayFormat::Readable,
        1 => RedemptionReportDisplayFormat::Detailed,
        2 => RedemptionReportDisplayFormat::ColonSeparated,
        3 => RedemptionReportDisplayFormat::ColonSeparatedTestnet,
        _ => panic!("rng error"),
    };
    println!("{}", report.render(format)); // no crash
}

#[test]
fn compress_merges_same_address_same_presence() {
    // Two dateless entries for one address merge into one summed entry.
    let address = address_from_words([1, 2, 3, 4, 5]);
    let mut report = RedemptionReport::new();
    report.add_row(NativeCurrencyAmount::coins(3), None, address);
    report.add_row(NativeCurrencyAmount::coins(4), None, address);
    let compressed = report.compressed();
    let rows = compressed.rows();
    assert_eq!(rows.len(), 1);
    assert_eq!(rows[0].amount, NativeCurrencyAmount::coins(7));
    assert_eq!(rows[0].earliest_release_date, None);
    assert!(rows[0].address == address);
}

#[test]
fn compress_never_merges_across_presence() {
    let address = address_from_words([1, 2, 3, 4, 5]);
    let mut report = RedemptionReport::new();
    report.add_row(NativeCurrencyAmount::coins(3), None, address);
    report.add_row(NativeCurrencyAmount::coins(4), Some(Timestamp::new(1000)), address);
    let compressed = report.compressed();
    assert_eq!(compressed.rows().len(), 2);
}

#[test]
fn compress_keeps_earlier_date_and_is_idempotent() {
    let address = address_from_words([9, 9, 9, 9, 9]);
    let other = address_from_words([7, 7, 7, 7, 7]);
    let mut report = RedemptionReport::new();
    report.add_row(NativeCurrencyAmount::coins(1), Some(Timestamp::new(5000)), address);
    report.add_row(NativeCurrencyAmount::coins(2), Some(Timestamp::new(2000)), address);
    report.add_row(NativeCurrencyAmount::coins(8), None, other);
    let once = report.compressed();
    assert_eq!(once.rows().len(), 2);
    assert_eq!(once.rows()[0].amount, NativeCurrencyAmount::coins(3));
    assert_eq!(once.rows()[0].earliest_release_date, Some(Timestamp::new(2000)));
    let total_once: u128 = once.rows().iter().map(|e| e.amount.to_nau()).sum();
    assert_eq!(total_once, NativeCurrencyAmount::coins(11).to_nau());
    let twice = once.compressed();
    assert_eq!(twice.rows().len(), 2);
    assert_eq!(twice.rows()[0].amount, NativeCurrencyAmount::coins(3));
    assert_eq!(twice.rows()[0].earliest_release_date, Some(Timestamp::new(2000)));
    let total_twice: u128 = twice.rows().iter().map(|e| e.amount.to_nau()).sum();
    assert_eq!(total_twice, total_once);
}

#[test]
fn rendering_twice_is_byte_identical() {
    let address = address_from_words([3, 1, 4, 1, 5]);
    let mut report = RedemptionReport::new();
    report.add_row(NativeCurrencyAmount::coins(12), None, address);
    report.add_row(NativeCurrencyAmount::coins(5), Some(Timestamp::new(34560000000)), address);
    for format in [
        RedemptionReportDisplayFormat::Readable,
        RedemptionReportDisplayFormat::Detailed,
        RedemptionReportDisplayFormat::ColonSeparated,
        RedemptionReportDisplayFormat::ColonSeparatedTestnet,
    ] {
        let first = report.render(format);
        let second = report.render(format);
        assert_eq!(first.as_bytes(), second.as_bytes());
    }
}

#[test]
fn colon_separated_lines_have_expected_shape() {
    let address = address_from_words([3, 1, 4, 1, 5]);
    let mut report = RedemptionReport::new();
    report.add_row(NativeCurrencyAmount::coins(12), None, address);
    report.add_row(NativeCurrencyAmount::coins(5), Some(Timestamp::new(34560000000)), address);
    let rendered = report.render(RedemptionReportDisplayFormat::ColonSeparated);
    let expected = format!(
        "{}:12\n{}:5:34560000000\n\n",
        address.encode(Network::Main),
        address.encode(Network::Main),
    );
    assert_eq!(rendered, expected);
    let testnet = report.render(RedemptionReportDisplayFormat::ColonSeparatedTestnet);
    let expected_testnet = format!(
        "{}:12\n{}:5:34560000000\n\n",
        address.encode(Network::Testnet),
        address.encode(Network::Testnet),
    );
    assert_eq!(testnet, expected_testnet);
}

#[test]
fn readable_render_has_headings_and_total() {
    let address = address_from_words([3, 1, 4, 1, 5]);
    let mut report = RedemptionReport::new();
    report.add_row(NativeCurrencyAmount::coins(12), None, address);
    report.add_row(NativeCurrencyAmount::coins(30), None, address);
    let rendered = report.render(RedemptionReportDisplayFormat::Readable);
    let lines: Vec<&str> = rendered.lines().collect();
    assert!(lines[0].chars().all(|c| c == '-'));
    assert!(lines[1].starts_with("| amount"));
    assert!(lines[1].contains("| earliest release date"));
    assert!(lines[1].contains("| address"));
    assert!(lines[2].chars().all(|c| c == '-'));
    assert!(lines[3].contains("| -"));
    assert!(lines[5].chars().all(|c| c == '-'));
    assert_eq!(lines[6], "| total: 42");
}

#[test]
fn headings_are_stable() {
    let headings = RedemptionReportEntry::headings();
    assert_eq!(headings[0], "amount");
    assert_eq!(headings[1], "earliest release date");
    assert_eq!(headings[2], "address");
}

#[test]
fn amount_display_is_lossless() {
    assert_eq!(NativeCurrencyAmount::coins(74).display_lossless(), "74");
    assert_eq!(
        NativeCurrencyAmount::from_nau(500000000000000000000000000000).display_lossless(),
        "0.5"
    );
    assert_eq!(
        NativeCurrencyAmount::from_nau(1).display_lossless(),
        "0.000000000000000000000000000001"
    );
    assert_eq!(NativeCurrencyAmount::from_nau(0).display_lossless(), "0");
    assert_eq!(NativeCurrencyAmount::max_amount().display_lossless(), "42000000");
}

#[test]
fn standard_format_is_calendar_utc() {
    assert_eq!(Timestamp::new(0).standard_format(), "1970-01-01 00:00:00 UTC");
    assert_eq!(Timestamp::new(86400000).standard_format(), "1970-01-02 00:00:00 UTC");
    assert_eq!(Timestamp::new(3661000).standard_format(), "1970-01-01 01:01:01 UTC");
    // Day 400 after the epoch falls in February of the following year.
    assert_eq!(Timestamp::new(34560000000).standard_format(), "1971-02-05 00:00:00 UTC");
}

#[test]
fn address_encodings_have_constant_length() {
    let a = address_from_words([0, 0, 0, 0, 0]);
    let b = address_from_words([u64::MAX, 1, 2, 3, u64::MAX]);
    assert_eq!(
        a.encode(Network::Main).len(),
        b.encode(Network::Main).len()
    );
    assert_eq!(
        a.encode_abbreviated(Network::Main).len(),
        b.encode_abbreviated(Network::Main).len()
    );
    assert_ne!(a.encode(Network::Main), b.encode(Network::Main));
    assert!(a.encode(Network::Main).starts_with("addr1"));
    assert!(a.encode(Network::Testnet).starts_with("taddr1"));
    assert!(a.encode_abbreviated(Network::Main).contains("..."));
}

#[test]
fn empty_report_renders_in_every_format() {
    let report = RedemptionReport::new();
    let readable = report.render(RedemptionReportDisplayFormat::Readable);
    assert!(readable.contains("| amount"));
    assert!(readable.contains("| total: 0"));
    let detailed = report.render(RedemptionReportDisplayFormat::Detailed);
    assert!(detailed.starts_with("amount"));
    assert_eq!(report.render(RedemptionReportDisplayFormat::ColonSeparated), "\n");
    assert_eq!(report.render(RedemptionReportDisplayFormat::ColonSeparatedTestnet), "\n");
}

#[test]
fn compress_of_empty_report_is_empty() {
    let report = RedemptionReport::new();
    assert_eq!(report.compressed().rows().len(), 0);
}

#[test]
fn largest_amount_fits_its_column() {
    let address = address_from_words([0, 0, 0, 0, 0]);
    let mut report = RedemptionReport::new();
    report.add_row(NativeCurrencyAmount::max_amount(), None, address);
    let rendered = report.render(RedemptionReportDisplayFormat::Detailed);
    // The worst-case amount in atomic units: 42 million coins of 10^30
    // atomic units each.
    assert!(rendered.contains("42000000000000000000000000000000000000"));
}
