//! History archives.

use flate2::write::GzEncoder;
use flate2::Compression;
use grat_core::archive::client::{
    accept_decompressed, accept_reply, fetch_and_decompress, is_success_status, select_header,
    ArchiveCheckpoint, ArchiveClient, FetchProgress, HttpReply,
};
use grat_core::archive::header::decode_history_entry;
use grat_core::archive::path::{
    format_archive_path, get_checkpoint_seq, join_url, ArchiveCategory,
};
use grat_core::archive::stream::{
    assemble_entries, parse_ledger_header_stream, split_records, FrameFault,
};
use grat_core::error::{ArchiveErrorKind, GratError, GratResult};
use grat_core::network::NetworkConfig;
use std::io::Write;
use stellar_xdr::curr::{
    LedgerCloseValueSignature, LedgerHeader, LedgerHeaderExt, LedgerHeaderExtensionV1,
    LedgerHeaderExtensionV1Ext, LedgerHeaderHistoryEntry, LedgerHeaderHistoryEntryExt, Limits,
    NodeId, PublicKey, Signature, StellarValue, StellarValueExt, TimePoint, Uint256, UpgradeType,
    WriteXdr,
};

fn hash(byte: u8) -> stellar_xdr::curr::Hash {
    stellar_xdr::curr::Hash([byte; 32])
}

fn make_test_entry(ledger_seq: u32) -> LedgerHeaderHistoryEntry {
    LedgerHeaderHistoryEntry {
        hash: hash(0),
        header: LedgerHeader {
            ledger_version: 0,
            previous_ledger_hash: hash(0),
            scp_value: StellarValue {
                tx_set_hash: hash(0),
                close_time: TimePoint(0),
                upgrades: vec![].try_into().unwrap(),
                ext: StellarValueExt::Basic,
            },
            tx_set_result_hash: hash(0),
            bucket_list_hash: hash(0),
            ledger_seq,
            total_coins: 0,
            fee_pool: 0,
            inflation_seq: 0,
            id_pool: 0,
            base_fee: 100,
            base_reserve: 100,
            max_tx_set_size: 100,
            skip_list: [hash(0), hash(0), hash(0), hash(0)],
            ext: LedgerHeaderExt::V0,
        },
        ext: LedgerHeaderHistoryEntryExt::V0,
    }
}

fn frame_record(payload: &[u8], is_last: bool) -> Vec<u8> {
    let mut header_val = payload.len() as u32 & 0x7FFF_FFFF;
    if is_last {
        header_val |= 0x8000_0000;
    }
    let mut out = header_val.to_be_bytes().to_vec();
    out.extend_from_slice(payload);
    out
}

fn gzip_compress(data: &[u8]) -> Vec<u8> {
    let mut encoder = GzEncoder::new(Vec::new(), Compression::default());
    encoder.write_all(data).unwrap();
    encoder.finish().unwrap()
}

fn answered(status: u16, status_text: &str, body: Vec<u8>) -> HttpReply {
    HttpReply::Answered {
        status,
        status_text: status_text.to_string(),
        body: Ok(body),
    }
}

fn ok(body: Vec<u8>) -> HttpReply {
    answered(200, "200 OK", body)
}

fn client(urls: &[&str]) -> ArchiveClient {
    ArchiveClient::new(&NetworkConfig {
        archive_urls: urls.iter().map(|url| url.to_string()).collect(),
        request_timeout_secs: 30,
    })
}

/// Fetches a checkpoint from a server that answers each URL by `serve`.
fn fetch<F: FnMut(&str) -> HttpReply>(
    client: &ArchiveClient,
    ledger_sequence: u32,
    mut serve: F,
) -> GratResult<ArchiveCheckpoint> {
    let mut progress = client.fetch_checkpoint(ledger_sequence);
    loop {
        match progress {
            FetchProgress::Request { url, file, pending } => {
                let outcome = fetch_and_decompress(serve(&url), &file);
                progress = pending.resume(outcome);
            }
            FetchProgress::Finished(result) => return result,
        }
    }
}

fn by_kind(url: &str, ledger: &[u8], transactions: &[u8], results: &[u8]) -> HttpReply {
    if url.contains("ledger-") {
        ok(ledger.to_vec())
    } else if url.contains("transactions-") {
        ok(transactions.to_vec())
    } else if url.contains("results-") {
        ok(results.to_vec())
    } else {
        answered(404, "404 Not Found", Vec::new())
    }
}

#[test]
fn test_checkpoint_calculation() {
    assert_eq!(get_checkpoint_seq(0), 63);
    assert_eq!(get_checkpoint_seq(1), 63);
    assert_eq!(get_checkpoint_seq(62), 63);
    assert_eq!(get_checkpoint_seq(63), 63);
    assert_eq!(get_checkpoint_seq(64), 127);
    assert_eq!(get_checkpoint_seq(127), 127);
    assert_eq!(get_checkpoint_seq(128), 191);
}

#[test]
fn checkpoint_of_the_last_ledger_fits() {
    assert_eq!(get_checkpoint_seq(u32::MAX), u32::MAX);
    assert_eq!(get_checkpoint_seq(u32::MAX - 63), u32::MAX);
    assert_eq!(get_checkpoint_seq(u32::MAX - 64), u32::MAX - 64);
}

#[test]
fn test_archive_path_formatting() {
    // Test Category: Ledger
    assert_eq!(
        format_archive_path(ArchiveCategory::Ledger, 63),
        "ledger/00/00/00/ledger-0000003f.xdr.gz"
    );
    assert_eq!(
        format_archive_path(ArchiveCategory::Ledger, 0),
        "ledger/00/00/00/ledger-00000000.xdr.gz"
    );
    assert_eq!(
        format_archive_path(ArchiveCategory::Ledger, 64),
        "ledger/00/00/00/ledger-00000040.xdr.gz"
    );
    assert_eq!(
        format_archive_path(ArchiveCategory::Ledger, 127),
        "ledger/00/00/00/ledger-0000007f.xdr.gz"
    );
    // Test a larger sequence
    assert_eq!(
        format_archive_path(ArchiveCategory::Ledger, 65535),
        "ledger/00/00/ff/ledger-0000ffff.xdr.gz"
    );

    // Test other categories
    assert_eq!(
        format_archive_path(ArchiveCategory::Transactions, 63),
        "transactions/00/00/00/transactions-0000003f.xdr.gz"
    );
    assert_eq!(
        format_archive_path(ArchiveCategory::Results, 63),
        "results/00/00/00/results-0000003f.xdr.gz"
    );
}

#[test]
fn directories_are_the_first_three_bytes() {
    assert_eq!(
        format_archive_path(ArchiveCategory::Results, 0x12ab34cd),
        "results/12/ab/34/results-12ab34cd.xdr.gz"
    );
    assert_eq!(ArchiveCategory::Ledger.as_str(), "ledger");
    assert_eq!(ArchiveCategory::Transactions.as_str(), "transactions");
    assert_eq!(ArchiveCategory::Results.as_str(), "results");
}

#[test]
fn no_two_files_share_a_path() {
    let mut paths = Vec::new();
    for checkpoint_seq in [0, 63, 127, 0x3f00, u32::MAX] {
        for category in [
            ArchiveCategory::Ledger,
            ArchiveCategory::Transactions,
            ArchiveCategory::Results,
        ] {
            let path = format_archive_path(category, checkpoint_seq);
            assert!(!paths.contains(&path));
            paths.push(path);
        }
    }
}

#[test]
fn urls_are_joined_with_one_slash() {
    assert_eq!(join_url("http://a", "b/c"), "http://a/b/c");
    assert_eq!(join_url("http://a///", "//b/c"), "http://a/b/c");
    assert_eq!(join_url("", ""), "/");
    assert_eq!(join_url("//", "//"), "/");
    assert_eq!(join_url("http://a/é/", "/ü/"), "http://a/é/ü/");
}

#[test]
fn test_url_joining_normalization() {
    let ledger = gzip_compress(b"ledger");
    let tx = gzip_compress(b"tx");
    let results = gzip_compress(b"results");
    let mut recorded = Vec::new();
    for url in ["http://archive.test/", "http://archive.test"] {
        let checkpoint = fetch(&client(&[url]), 64, |url| {
            recorded.push(url.to_string());
            by_kind(url, &ledger, &tx, &results)
        })
        .unwrap();
        assert_eq!(checkpoint.ledger_header, b"ledger");
    }
    assert_eq!(recorded.len(), 6);
    for url in recorded.iter() {
        let path = url.strip_prefix("http://archive.test").unwrap();
        assert!(!path.contains("//"), "Path contains double slash: {}", path);
    }
}

#[test]
fn test_fetch_checkpoint_success() {
    let ledger_gz = gzip_compress(b"my_ledger_payload");
    let tx_gz = gzip_compress(b"my_tx_payload");
    let res_gz = gzip_compress(b"my_res_payload");
    let mut asked = Vec::new();
    let checkpoint = fetch(&client(&["http://one"]), 64, |url| {
        asked.push(url.to_string());
        by_kind(url, &ledger_gz, &tx_gz, &res_gz)
    })
    .unwrap();
    assert_eq!(checkpoint.ledger_sequence, 127);
    assert_eq!(checkpoint.ledger_header, b"my_ledger_payload");
    assert_eq!(checkpoint.transaction_set, b"my_tx_payload");
    assert_eq!(checkpoint.transaction_results, b"my_res_payload");
    assert_eq!(
        asked,
        vec![
            "http://one/ledger/00/00/00/ledger-0000007f.xdr.gz",
            "http://one/transactions/00/00/00/transactions-0000007f.xdr.gz",
            "http://one/results/00/00/00/results-0000007f.xdr.gz",
        ]
    );
}

#[test]
fn test_fetch_checkpoint_failover_non_2xx() {
    let checkpoint = fetch(&client(&["http://one", "http://two"]), 64, |url| {
        if url.starts_with("http://one") {
            if url.contains("results-") {
                answered(404, "404 Not Found", Vec::new())
            } else {
                by_kind(url, &gzip_compress(b"l1"), &gzip_compress(b"tx1"), &[])
            }
        } else {
            by_kind(
                url,
                &gzip_compress(b"l2"),
                &gzip_compress(b"tx2"),
                &gzip_compress(b"res2"),
            )
        }
    })
    .unwrap();
    assert_eq!(checkpoint.ledger_header, b"l2");
    assert_eq!(checkpoint.transaction_set, b"tx2");
    assert_eq!(checkpoint.transaction_results, b"res2");
}

#[test]
fn test_fetch_checkpoint_failover_network_failure() {
    let checkpoint = fetch(&client(&["http://127.0.0.1:1", "http://two"]), 64, |url| {
        if url.starts_with("http://127.0.0.1:1") {
            HttpReply::Unsent {
                reason: "connection refused".to_string(),
            }
        } else {
            by_kind(
                url,
                &gzip_compress(b"l"),
                &gzip_compress(b"tx"),
                &gzip_compress(b"res"),
            )
        }
    })
    .unwrap();
    assert_eq!(checkpoint.ledger_header, b"l");
}

#[test]
fn test_fetch_checkpoint_failover_invalid_gzip() {
    let checkpoint = fetch(&client(&["http://one", "http://two"]), 64, |url| {
        if url.starts_with("http://one") {
            by_kind(
                url,
                b"not_gzip_at_all",
                &gzip_compress(b"tx1"),
                &gzip_compress(b"res1"),
            )
        } else {
            by_kind(
                url,
                &gzip_compress(b"l2"),
                &gzip_compress(b"tx2"),
                &gzip_compress(b"res2"),
            )
        }
    })
    .unwrap();
    assert_eq!(checkpoint.ledger_header, b"l2");
}

fn neither_is_complete(url: &str) -> HttpReply {
    if url.starts_with("http://one") {
        by_kind(
            url,
            &gzip_compress(b"l1"),
            &gzip_compress(b"tx1"),
            b"invalid",
        )
    } else {
        by_kind(
            url,
            b"invalid",
            &gzip_compress(b"tx2"),
            &gzip_compress(b"res2"),
        )
    }
}

#[test]
fn test_fetch_checkpoint_all_archives_fail() {
    let err = fetch(
        &client(&["http://one", "http://two"]),
        64,
        neither_is_complete,
    )
    .unwrap_err();
    if let GratError::ArchiveError(ArchiveErrorKind::FetchFailed { reason, .. }) = err {
        assert!(
            reason.contains("DecompressionFailed")
                || reason.contains("decompression failed")
                || reason.contains("HTTP status")
                || reason.contains("failed to fetch")
        );
    } else {
        panic!("Expected FetchFailed archive error, got: {:?}", err);
    }
}

#[test]
fn test_fetch_checkpoint_no_partial() {
    let err = fetch(
        &client(&["http://one", "http://two"]),
        64,
        neither_is_complete,
    )
    .unwrap_err();
    assert!(matches!(
        err,
        GratError::ArchiveError(ArchiveErrorKind::FetchFailed { .. })
    ));
}

#[test]
fn failed_archive_is_asked_for_nothing_more() {
    let mut asked = Vec::new();
    let err = fetch(&client(&["http://one", "http://two"]), 63, |url| {
        asked.push(url.to_string());
        answered(500, "500 Internal Server Error", Vec::new())
    })
    .unwrap_err();
    assert_eq!(
        asked,
        vec![
            "http://one/ledger/00/00/00/ledger-0000003f.xdr.gz",
            "http://two/ledger/00/00/00/ledger-0000003f.xdr.gz",
        ]
    );
    let file = "ledger/00/00/00/ledger-0000003f.xdr.gz";
    assert_eq!(
        err,
        GratError::ArchiveError(ArchiveErrorKind::FetchFailed {
            file: "checkpoint-63".to_string(),
            reason: format!("failed to fetch {file}: HTTP status 500 Internal Server Error"),
        })
    );
}

#[test]
fn without_archives_nothing_can_be_fetched() {
    let err = fetch(&client(&[]), 64, |_| panic!("nothing is to be asked")).unwrap_err();
    assert_eq!(
        err,
        GratError::ArchiveError(ArchiveErrorKind::FetchFailed {
            file: "checkpoint-127".to_string(),
            reason: "no archive URLs configured".to_string(),
        })
    );
}

#[test]
fn replies_that_bring_no_file() {
    let failed = |reason: &str| {
        Err(ArchiveErrorKind::FetchFailed {
            file: "f".to_string(),
            reason: reason.to_string(),
        })
    };
    let unsent = HttpReply::Unsent {
        reason: "timed out".to_string(),
    };
    assert_eq!(accept_reply(unsent, "f"), failed("timed out"));
    assert_eq!(
        accept_reply(answered(404, "404 Not Found", vec![1]), "f"),
        failed("HTTP status 404 Not Found")
    );
    let cut = HttpReply::Answered {
        status: 200,
        status_text: "200 OK".to_string(),
        body: Err("closed".to_string()),
    };
    assert_eq!(
        accept_reply(cut, "f"),
        failed("failed to read response bytes: closed")
    );
    assert_eq!(accept_reply(ok(vec![1, 2]), "f"), Ok(vec![1, 2]));
}

#[test]
fn statuses_from_200_to_299_are_successes() {
    assert!(!is_success_status(199));
    assert!(is_success_status(200));
    assert!(is_success_status(299));
    assert!(!is_success_status(300));
}

#[test]
fn files_are_decompressed() {
    let file = fetch_and_decompress(ok(gzip_compress(b"hello")), "f").unwrap();
    assert_eq!(file, b"hello");
    let err = fetch_and_decompress(ok(b"hello".to_vec()), "f").unwrap_err();
    assert!(matches!(
        err,
        ArchiveErrorKind::DecompressionFailed { ref file, .. } if file == "f"
    ));
    let err = fetch_and_decompress(ok(Vec::new()), "f").unwrap_err();
    assert!(matches!(err, ArchiveErrorKind::DecompressionFailed { .. }));
    assert_eq!(
        accept_decompressed(Err("corrupt".to_string()), "f"),
        Err(ArchiveErrorKind::DecompressionFailed {
            file: "f".to_string(),
            reason: "corrupt".to_string(),
        })
    );
    assert_eq!(accept_decompressed(Ok(vec![7]), "f"), Ok(vec![7]));
}

#[test]
fn archive_errors_as_text() {
    let file = "f".to_string();
    let reason = "r".to_string();
    let decompression = ArchiveErrorKind::DecompressionFailed {
        file: file.clone(),
        reason: reason.clone(),
    };
    assert_eq!(decompression.message(), "decompression failed for f: r");
    let malformed = ArchiveErrorKind::MalformedXdr { file, reason };
    assert_eq!(malformed.message(), "malformed XDR in f: r");
}

#[test]
fn ledger_entries_cannot_be_fetched() {
    let err = client(&["http://one"])
        .fetch_ledger_entry(7, "key")
        .unwrap_err();
    assert_eq!(
        err,
        GratError::ArchiveError(ArchiveErrorKind::FetchFailed {
            file: "ledger-entry-7-key".to_string(),
            reason: "Ledger entry fetch not yet implemented".to_string(),
        })
    );
}

#[test]
fn test_single_record() {
    let entry = make_test_entry(100);
    let xdr_bytes = entry.to_xdr(Limits::none()).unwrap();
    let framed = frame_record(&xdr_bytes, true);

    let parsed = parse_ledger_header_stream(&framed, "test.xdr").unwrap();
    assert_eq!(parsed.len(), 1);
    assert_eq!(parsed[0].header.ledger_seq, 100);
}

#[test]
fn test_multiple_records_and_boundaries() {
    let seqs = vec![64, 65, 66, 67, 127];
    let mut stream = Vec::new();
    for &seq in &seqs {
        let entry = make_test_entry(seq);
        let xdr_bytes = entry.to_xdr(Limits::none()).unwrap();
        stream.extend(frame_record(&xdr_bytes, true));
    }

    let parsed = parse_ledger_header_stream(&stream, "test.xdr").unwrap();
    assert_eq!(parsed.len(), 5);

    // First boundary
    assert_eq!(parsed.first().unwrap().header.ledger_seq, 64);
    // Middle entry
    assert_eq!(parsed[2].header.ledger_seq, 66);
    // Last boundary
    assert_eq!(parsed.last().unwrap().header.ledger_seq, 127);
}

#[test]
fn test_multi_fragment_record() {
    let entry = make_test_entry(200);
    let xdr_bytes = entry.to_xdr(Limits::none()).unwrap();
    assert!(xdr_bytes.len() > 4);

    let mid = xdr_bytes.len() / 2;
    let mut stream = Vec::new();
    stream.extend(frame_record(&xdr_bytes[..mid], false));
    stream.extend(frame_record(&xdr_bytes[mid..], true));

    let parsed = parse_ledger_header_stream(&stream, "test.xdr").unwrap();
    assert_eq!(parsed.len(), 1);
    assert_eq!(parsed[0].header.ledger_seq, 200);
}

#[test]
fn test_ledger_not_found_in_stream() {
    let entry = make_test_entry(100);
    let xdr_bytes = entry.to_xdr(Limits::none()).unwrap();
    let framed = frame_record(&xdr_bytes, true);

    let parsed = parse_ledger_header_stream(&framed, "test.xdr").unwrap();
    let found = parsed.iter().find(|e| e.header.ledger_seq == 101);
    assert!(found.is_none());
}

#[test]
fn test_truncated_frame_header() {
    let bytes = vec![0x80, 0x00, 0x00]; // 3 bytes instead of 4
    let err = parse_ledger_header_stream(&bytes, "test.xdr").unwrap_err();

    if let GratError::ArchiveError(ArchiveErrorKind::MalformedXdr { reason, .. }) = err {
        assert!(reason.contains("truncated record header"));
    } else {
        panic!("expected MalformedXdr error, got {:?}", err);
    }
}

#[test]
fn test_truncated_frame_payload() {
    let payload = vec![1, 2, 3];
    // Frame header declares length 10, but only 3 payload bytes provided
    let mut framed = 10u32.to_be_bytes().to_vec();
    framed[0] |= 0x80; // mark as last
    framed.extend_from_slice(&payload);

    let err = parse_ledger_header_stream(&framed, "test.xdr").unwrap_err();
    if let GratError::ArchiveError(ArchiveErrorKind::MalformedXdr { reason, .. }) = err {
        assert!(reason.contains("truncated fragment payload"));
    } else {
        panic!("expected MalformedXdr error, got {:?}", err);
    }
}

#[test]
fn test_unterminated_fragment_stream() {
    let payload = vec![1, 2, 3, 4];
    // Frame header declares length 4, but is_last = false
    let framed = frame_record(&payload, false);

    let err = parse_ledger_header_stream(&framed, "test.xdr").unwrap_err();
    if let GratError::ArchiveError(ArchiveErrorKind::MalformedXdr { reason, .. }) = err {
        assert!(reason.contains("unterminated record fragment stream"));
    } else {
        panic!("expected MalformedXdr error, got {:?}", err);
    }
}

#[test]
fn test_invalid_xdr_payload() {
    let invalid_xdr = vec![0xFF; 20];
    let framed = frame_record(&invalid_xdr, true);

    let err = parse_ledger_header_stream(&framed, "test.xdr").unwrap_err();
    if let GratError::ArchiveError(ArchiveErrorKind::MalformedXdr { reason, .. }) = err {
        assert!(reason.contains("failed to decode LedgerHeaderHistoryEntry"));
    } else {
        panic!("expected MalformedXdr error, got {:?}", err);
    }
}

#[test]
fn faults_of_a_stream_are_described() {
    let malformed = |reason: &str| {
        GratError::ArchiveError(ArchiveErrorKind::MalformedXdr {
            file: "test.xdr".to_string(),
            reason: reason.to_string(),
        })
    };
    assert_eq!(
        parse_ledger_header_stream(&[0x80, 0, 0], "test.xdr").unwrap_err(),
        malformed("truncated record header: expected 4 bytes, found 3")
    );
    assert_eq!(
        parse_ledger_header_stream(&[0x80, 0, 0, 10, 1, 2, 3], "test.xdr").unwrap_err(),
        malformed("truncated fragment payload: expected 10 bytes, found 3")
    );
    assert_eq!(
        parse_ledger_header_stream(&[0, 0, 0, 1, 9], "test.xdr").unwrap_err(),
        malformed("unterminated record fragment stream")
    );
}

#[test]
fn a_record_that_cannot_be_decoded_comes_before_a_later_fault() {
    let mut stream = frame_record(&[1, 2, 3], true);
    stream.extend_from_slice(&[0x80, 0]);
    let err = parse_ledger_header_stream(&stream, "test.xdr").unwrap_err();
    if let GratError::ArchiveError(ArchiveErrorKind::MalformedXdr { reason, .. }) = err {
        assert!(reason.starts_with("failed to decode LedgerHeaderHistoryEntry: "));
    } else {
        panic!("expected MalformedXdr error, got {:?}", err);
    }
    let (records, fault) = split_records(&stream);
    assert_eq!(records, vec![vec![1, 2, 3]]);
    assert_eq!(fault, Some(FrameFault::TruncatedHeader { found: 2 }));
}

#[test]
fn records_are_split_and_put_together() {
    assert_eq!(split_records(&[]), (Vec::new(), None));
    let mut stream = frame_record(&[1], true);
    stream.extend(frame_record(&[], true));
    stream.extend(frame_record(&[2, 3], false));
    stream.extend(frame_record(&[], false));
    stream.extend(frame_record(&[4], true));
    assert_eq!(
        split_records(&stream),
        (vec![vec![1], vec![], vec![2, 3, 4]], None)
    );
    // Without any payload, an open record leaves nothing behind.
    assert_eq!(
        split_records(&frame_record(&[], false)),
        (Vec::new(), None)
    );
    assert_eq!(
        split_records(&[0x7f, 0xff, 0xff, 0xff]),
        (
            Vec::new(),
            Some(FrameFault::TruncatedPayload {
                expected: 0x7fff_ffff,
                found: 0
            })
        )
    );
    assert!(parse_ledger_header_stream(&[], "test.xdr").unwrap().is_empty());
}

#[test]
fn decoded_records_decide_in_order() {
    let good = || decode_history_entry(&make_test_entry(5).to_xdr(Limits::none()).unwrap());
    let entries = assemble_entries(vec![good(), good()], None, "f").unwrap();
    assert_eq!(entries.len(), 2);
    let err = assemble_entries(
        vec![good(), Err("bad".to_string()), Err("worse".to_string())],
        Some(FrameFault::Unterminated),
        "f",
    )
    .unwrap_err();
    assert_eq!(
        err,
        GratError::ArchiveError(ArchiveErrorKind::MalformedXdr {
            file: "f".to_string(),
            reason: "failed to decode LedgerHeaderHistoryEntry: bad".to_string(),
        })
    );
}

#[test]
fn every_field_of_a_header_is_kept() {
    let mut entry = make_test_entry(9);
    entry.hash = hash(1);
    entry.header.ledger_version = 22;
    entry.header.previous_ledger_hash = hash(2);
    entry.header.scp_value = StellarValue {
        tx_set_hash: hash(3),
        close_time: TimePoint(1234),
        upgrades: vec![UpgradeType(vec![8, 9].try_into().unwrap())]
            .try_into()
            .unwrap(),
        ext: StellarValueExt::Signed(LedgerCloseValueSignature {
            node_id: NodeId(PublicKey::PublicKeyTypeEd25519(Uint256([4; 32]))),
            signature: Signature(vec![5, 6, 7].try_into().unwrap()),
        }),
    };
    entry.header.tx_set_result_hash = hash(10);
    entry.header.bucket_list_hash = hash(11);
    entry.header.total_coins = -12;
    entry.header.fee_pool = 13;
    entry.header.inflation_seq = 14;
    entry.header.id_pool = u64::MAX;
    entry.header.base_fee = 15;
    entry.header.base_reserve = 16;
    entry.header.max_tx_set_size = 17;
    entry.header.skip_list = [hash(18), hash(19), hash(20), hash(21)];
    entry.header.ext = LedgerHeaderExt::V1(LedgerHeaderExtensionV1 {
        flags: 3,
        ext: LedgerHeaderExtensionV1Ext::V0,
    });
    let own = decode_history_entry(&entry.to_xdr(Limits::none()).unwrap()).unwrap();
    assert_eq!(own.hash, [1; 32]);
    let header = own.header;
    assert_eq!(header.ledger_version, 22);
    assert_eq!(header.previous_ledger_hash, [2; 32]);
    assert_eq!(header.scp_value.tx_set_hash, [3; 32]);
    assert_eq!(header.scp_value.close_time, 1234);
    assert_eq!(header.scp_value.upgrades, vec![vec![8, 9]]);
    let signature = header.scp_value.signature.unwrap();
    assert_eq!(signature.node_id, [4; 32]);
    assert_eq!(signature.signature, vec![5, 6, 7]);
    assert_eq!(header.tx_set_result_hash, [10; 32]);
    assert_eq!(header.bucket_list_hash, [11; 32]);
    assert_eq!(header.ledger_seq, 9);
    assert_eq!(header.total_coins, -12);
    assert_eq!(header.fee_pool, 13);
    assert_eq!(header.inflation_seq, 14);
    assert_eq!(header.id_pool, u64::MAX);
    assert_eq!(header.base_fee, 15);
    assert_eq!(header.base_reserve, 16);
    assert_eq!(header.max_tx_set_size, 17);
    assert_eq!(
        header.skip_list,
        [[18; 32], [19; 32], [20; 32], [21; 32]]
    );
    assert_eq!(header.flags, Some(3));
    let plain = decode_history_entry(&make_test_entry(9).to_xdr(Limits::none()).unwrap());
    assert_eq!(plain.unwrap().header.flags, None);
    assert!(decode_history_entry(&[]).is_err());
}

#[test]
fn test_get_ledger_header_integration() {
    let entry = make_test_entry(64);
    let xdr_bytes = entry.to_xdr(Limits::none()).unwrap();
    let framed = frame_record(&xdr_bytes, true);

    let ledger_gz = gzip_compress(&framed);
    let dummy_gz = gzip_compress(&[0; 4]);
    let client = client(&["http://one"]);
    let fetched = fetch(&client, 64, |url| {
        by_kind(url, &ledger_gz, &dummy_gz, &dummy_gz)
    });
    let header = client.get_ledger_header(fetched, 64).unwrap();
    assert_eq!(header.ledger_seq, 64);
}

#[test]
fn missing_ledgers_and_failed_checkpoints_are_reported() {
    let client = client(&["http://one"]);
    let stream = frame_record(&make_test_entry(64).to_xdr(Limits::none()).unwrap(), true);
    let checkpoint = |ledger_header: Vec<u8>| {
        Ok(ArchiveCheckpoint {
            ledger_sequence: 127,
            ledger_header,
            transaction_set: Vec::new(),
            transaction_results: Vec::new(),
        })
    };
    assert_eq!(
        client
            .get_ledger_header(checkpoint(stream), 65)
            .unwrap_err(),
        GratError::ArchiveError(ArchiveErrorKind::FetchFailed {
            file: "checkpoint-127".to_string(),
            reason: "ledger sequence 65 not found in checkpoint stream".to_string(),
        })
    );
    assert_eq!(
        client
            .get_ledger_header(checkpoint(vec![1]), 65)
            .unwrap_err(),
        GratError::ArchiveError(ArchiveErrorKind::MalformedXdr {
            file: "checkpoint-127".to_string(),
            reason: "truncated record header: expected 4 bytes, found 1".to_string(),
        })
    );
    let failed = Err(GratError::Internal("down".to_string()));
    assert_eq!(
        client.get_ledger_header(failed, 65).unwrap_err(),
        GratError::Internal("down".to_string())
    );
}

#[test]
fn first_header_of_the_ledger_is_selected() {
    let entry = |ledger_seq: u32, base_fee: u32| {
        let mut entry = make_test_entry(ledger_seq);
        entry.header.base_fee = base_fee;
        decode_history_entry(&entry.to_xdr(Limits::none()).unwrap()).unwrap()
    };
    let entries = vec![entry(1, 1), entry(2, 2), entry(2, 3)];
    assert_eq!(select_header(entries, 2).unwrap().base_fee, 2);
    assert!(select_header(Vec::new(), 2).is_err());
}
