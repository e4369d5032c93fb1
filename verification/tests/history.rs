//! The list of decoded transactions.

use grat_core::history::{
    append_to_history, home_source, list_history, relative_time, HistoryEntry, HomeSource,
    HISTORY_DIR, HISTORY_FILE, MAX_ENTRIES,
};

fn entry(tx_hash: &str, timestamp: u64) -> HistoryEntry {
    HistoryEntry {
        tx_hash: tx_hash.to_string(),
        timestamp,
    }
}

#[test]
fn a_new_transaction_comes_first() {
    let mut entries = vec![entry("a", 1)];
    append_to_history(&mut entries, "b", 2);
    assert_eq!(entries, vec![entry("b", 2), entry("a", 1)]);
}

#[test]
fn a_known_transaction_moves_to_the_head() {
    let mut entries = vec![entry("a", 3), entry("b", 2), entry("c", 1)];
    append_to_history(&mut entries, "b", 4);
    assert_eq!(entries, vec![entry("b", 4), entry("a", 3), entry("c", 1)]);
    // Entries of the same transaction that stand twice are both removed.
    let mut twice = vec![entry("a", 2), entry("a", 1)];
    append_to_history(&mut twice, "a", 3);
    assert_eq!(twice, vec![entry("a", 3)]);
}

#[test]
fn the_list_holds_no_more_than_its_limit() {
    let mut entries = Vec::new();
    for i in 0..15u64 {
        append_to_history(&mut entries, &format!("hash-{i}"), i);
    }
    assert_eq!(entries.len(), MAX_ENTRIES);
    assert_eq!(MAX_ENTRIES, 10);
    assert_eq!(entries[0], entry("hash-14", 14));
    assert_eq!(entries[9], entry("hash-5", 5));
    for pair in entries.windows(2) {
        assert!(pair[0].timestamp > pair[1].timestamp);
        assert_ne!(pair[0].tx_hash, pair[1].tx_hash);
    }
}

#[test]
fn elapsed_time_in_words() {
    let cases = vec![
        (0, "0 seconds ago"),
        (1, "1 seconds ago"),
        (59, "59 seconds ago"),
        (60, "1 minutes ago"),
        (3599, "59 minutes ago"),
        (3600, "1 hours ago"),
        (86399, "23 hours ago"),
        (86400, "1 days ago"),
        (864000, "10 days ago"),
    ];
    for (seconds, text) in cases {
        assert_eq!(relative_time(1000, 1000 + seconds), text);
    }
    assert_eq!(relative_time(5, 3), "0 seconds ago");
    assert_eq!(relative_time(0, u64::MAX), "213503982334601 days ago");
}

#[test]
fn an_empty_list_says_so() {
    assert_eq!(
        list_history(&Vec::new(), 0),
        vec!["No transaction history found."]
    );
}

#[test]
fn lines_are_aligned_in_columns() {
    let long = "f".repeat(70);
    let entries = vec![entry("abc", 100), entry(&long, 40)];
    let lines = list_history(&entries, 100);
    assert_eq!(lines.len(), 4);
    assert_eq!(
        lines[0],
        format!("{:<4} {:<66} {}", "#", "Transaction Hash", "Decoded")
    );
    assert_eq!(lines[1], "-".repeat(100));
    assert_eq!(
        lines[2],
        format!("{:<4} {:<66} {}", 1, "abc", "0 seconds ago")
    );
    assert_eq!(lines[3], format!("{:<4} {:<66} {}", 2, long, "1 minutes ago"));
}

#[test]
fn home_is_looked_for_in_order() {
    assert_eq!(home_source(true, true), HomeSource::Home);
    assert_eq!(home_source(true, false), HomeSource::Home);
    assert_eq!(home_source(false, true), HomeSource::UserProfile);
    assert_eq!(home_source(false, false), HomeSource::CurrentDirectory);
    assert_eq!(HISTORY_DIR, ".grat");
    assert_eq!(HISTORY_FILE, "history.json");
}
