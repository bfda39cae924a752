//! Path normalization and extraction-plan safety.

use transfer_client::errors::TransferError;
use transfer_client::extract::{plan_extraction, ArchiveEntry, WriteAction};
use transfer_client::pathsafe::normalize_entry_path;

fn segs(v: &[&str]) -> Vec<String> {
    v.iter().map(|s| s.to_string()).collect()
}

#[test]
fn normalize_keeps_clean_paths() {
    assert_eq!(normalize_entry_path("a/b/c.txt").unwrap(), segs(&["a", "b", "c.txt"]));
    assert_eq!(normalize_entry_path("file.bin").unwrap(), segs(&["file.bin"]));
}

#[test]
fn normalize_drops_dot_and_empty_segments() {
    assert_eq!(normalize_entry_path("a/./b//c/").unwrap(), segs(&["a", "b", "c"]));
    assert_eq!(normalize_entry_path("./a").unwrap(), segs(&["a"]));
}

#[test]
fn normalize_resolves_inner_parent_segments() {
    assert_eq!(normalize_entry_path("a/x/../b").unwrap(), segs(&["a", "b"]));
}

#[test]
fn normalize_rejects_escapes() {
    assert!(matches!(normalize_entry_path("../x"), Err(TransferError::PathSafety)));
    assert!(matches!(normalize_entry_path("a/../../b"), Err(TransferError::PathSafety)));
    assert!(matches!(normalize_entry_path("a/../.."), Err(TransferError::PathSafety)));
}

#[test]
fn normalize_rejects_absolute_and_empty() {
    assert!(matches!(normalize_entry_path(""), Err(TransferError::PathSafety)));
    assert!(matches!(normalize_entry_path("/etc/passwd"), Err(TransferError::PathSafety)));
    assert!(matches!(normalize_entry_path("\\windows"), Err(TransferError::PathSafety)));
    assert!(matches!(normalize_entry_path("a/.."), Err(TransferError::PathSafety)));
    assert!(matches!(normalize_entry_path("."), Err(TransferError::PathSafety)));
}

#[test]
fn normalize_rejects_colon_segments() {
    assert!(matches!(normalize_entry_path("C:\\evil"), Err(TransferError::PathSafety)));
    assert!(matches!(normalize_entry_path("a:b"), Err(TransferError::PathSafety)));
    assert!(matches!(normalize_entry_path("dir/na:me.txt"), Err(TransferError::PathSafety)));
}

#[test]
fn normalize_treats_backslash_as_separator() {
    assert_eq!(normalize_entry_path("a\\b").unwrap(), segs(&["a", "b"]));
    assert!(matches!(normalize_entry_path("a\\..\\..\\b"), Err(TransferError::PathSafety)));
}

#[test]
fn plan_rejects_whole_extraction_on_one_bad_entry() {
    let entries = vec![
        ArchiveEntry { name: "good.txt".to_string(), is_dir: false, data: vec![1, 2] },
        ArchiveEntry { name: "../../evil.txt".to_string(), is_dir: false, data: vec![3] },
    ];
    assert!(matches!(plan_extraction(&entries), Err(TransferError::PathSafety)));
}

#[test]
fn plan_maps_entries_to_actions() {
    let entries = vec![
        ArchiveEntry { name: "sub".to_string(), is_dir: true, data: vec![] },
        ArchiveEntry { name: "sub/f.txt".to_string(), is_dir: false, data: vec![9, 8, 7] },
    ];
    let actions = plan_extraction(&entries).unwrap();
    assert_eq!(actions.len(), 2);
    match &actions[0] {
        WriteAction::MakeDir { segments } => assert_eq!(segments.clone(), segs(&["sub"])),
        _ => panic!("expected a directory action"),
    }
    match &actions[1] {
        WriteAction::WriteFile { segments, contents } => {
            assert_eq!(segments.clone(), segs(&["sub", "f.txt"]));
            assert_eq!(contents.clone(), vec![9, 8, 7]);
        },
        _ => panic!("expected a file action"),
    }
}
