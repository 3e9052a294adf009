use procwatch::pattern::name_contains;
use procwatch::snapshot::{build_snapshot, ProcessRecord, Snapshot};

fn detects(s: &Snapshot, pattern: &str) -> bool {
    procwatch::pattern::matches(s, pattern)
}

fn snap(names: &[&str]) -> Snapshot {
    let records = names
        .iter()
        .enumerate()
        .map(|(i, n)| ProcessRecord { pid: i as u32, name: n.to_string() })
        .collect();
    Snapshot { records }
}

#[test]
fn case_insensitive_substring() {
    let s = snap(&["explorer.exe", "Game.EXE", "svchost.exe"]);
    assert!(detects(&s, "game"));
}

#[test]
fn pattern_case_is_folded_too() {
    let s = snap(&["game.exe"]);
    assert!(detects(&s, "GAME"));
    assert!(detects(&s, "gAmE.eXe"));
}

#[test]
fn empty_snapshot_never_matches() {
    let s = snap(&[]);
    assert!(!detects(&s, "game"));
    assert!(!detects(&s, ""));
}

#[test]
fn absent_name_does_not_match() {
    let s = snap(&["explorer.exe", "svchost.exe"]);
    assert!(!detects(&s, "game"));
}

#[test]
fn substring_not_equality() {
    let s = snap(&["mygame2.exe"]);
    assert!(detects(&s, "game"));
    assert!(!detects(&s, "game.exe"));
}

#[test]
fn empty_pattern_matches_any_record() {
    let s = snap(&["anything"]);
    assert!(detects(&s, ""));
}

#[test]
fn fold_is_ascii_only() {
    assert!(name_contains("A[B", "a[b"));
    assert!(!name_contains("\u{c9}", "\u{e9}"));
}

#[test]
fn fold_boundaries() {
    assert!(name_contains("AZ", "az"));
    assert!(!name_contains("@", "`"));
    assert!(!name_contains("[", "{"));
}

#[test]
fn skipped_lookup_does_not_abort_enumeration() {
    let mut entries: Vec<(u32, Option<String>)> = Vec::new();
    for pid in 0..10u32 {
        if pid == 3 {
            entries.push((pid, None));
        } else {
            entries.push((pid, Some(format!("proc{}.exe", pid))));
        }
    }
    let s = build_snapshot(&entries);
    assert_eq!(s.records.len(), 9);
    assert!(s.records.iter().all(|r| r.pid != 3));
    assert_eq!(s.records[3].pid, 4);
    assert_eq!(s.records[3].name, "proc4.exe");
}

#[test]
fn snapshot_keeps_enumeration_order() {
    let entries: Vec<(u32, Option<String>)> = vec![
        (7, Some("b.exe".to_string())),
        (2, None),
        (5, Some("a.exe".to_string())),
    ];
    let s = build_snapshot(&entries);
    assert_eq!(s.records.len(), 2);
    assert_eq!(s.records[0].pid, 7);
    assert_eq!(s.records[0].name, "b.exe");
    assert_eq!(s.records[1].pid, 5);
    assert_eq!(s.records[1].name, "a.exe");
}
