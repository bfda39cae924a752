//! Round trips through the real archive codecs: staging with the library,
//! extracting with the library, the zip/tar/gzip crates in between.

use std::io::Write;

use transfer_client::extract::{extract_archive, WriteAction};
use transfer_client::staging::{stage_file_zip, stage_tree_zip, WalkedEntry};
use transfer_client::ArchiveType;

fn find_file<'a>(actions: &'a [WriteAction], path: &[&str]) -> &'a Vec<u8> {
    for a in actions {
        if let WriteAction::WriteFile { segments, contents } = a {
            if segments.len() == path.len()
                && segments.iter().zip(path.iter()).all(|(s, p)| s == p)
            {
                return contents;
            }
        }
    }
    panic!("no file action at the expected path");
}

fn has_dir(actions: &[WriteAction], path: &[&str]) -> bool {
    actions.iter().any(|a| {
        if let WriteAction::MakeDir { segments } = a {
            segments.len() == path.len() && segments.iter().zip(path.iter()).all(|(s, p)| s == p)
        } else {
            false
        }
    })
}

#[test]
fn zip_single_file_round_trip() {
    let payload = b"byte-identical contents \x00\x01\x02".to_vec();
    let bytes = stage_file_zip("report.txt", &payload).unwrap();
    let actions = extract_archive(&bytes, &ArchiveType::Zip).unwrap();
    assert_eq!(actions.len(), 1);
    assert_eq!(find_file(&actions, &["report.txt"]), &payload);
}

#[test]
fn zip_tree_round_trip_keeps_empty_directory() {
    let walked = vec![
        WalkedEntry { path: "/srv/data".to_string(), is_dir: true, data: vec![] },
        WalkedEntry { path: "/srv/data/sub".to_string(), is_dir: true, data: vec![] },
        WalkedEntry {
            path: "/srv/data/sub/inner.txt".to_string(),
            is_dir: false,
            data: b"inner".to_vec(),
        },
        WalkedEntry { path: "/srv/data/empty".to_string(), is_dir: true, data: vec![] },
        WalkedEntry { path: "/srv/data/top.bin".to_string(), is_dir: false, data: vec![7u8; 300] },
    ];
    let bytes = stage_tree_zip("/srv/data", &walked).unwrap();
    let actions = extract_archive(&bytes, &ArchiveType::Zip).unwrap();
    assert_eq!(actions.len(), 4);
    assert!(has_dir(&actions, &["sub"]));
    assert!(has_dir(&actions, &["empty"]));
    assert_eq!(find_file(&actions, &["sub", "inner.txt"]), &b"inner".to_vec());
    assert_eq!(find_file(&actions, &["top.bin"]), &vec![7u8; 300]);
}

#[test]
fn stage_tree_rejects_entry_outside_root() {
    let walked = vec![
        WalkedEntry { path: "/srv/data".to_string(), is_dir: true, data: vec![] },
        WalkedEntry { path: "/srv/other/f".to_string(), is_dir: false, data: vec![1] },
    ];
    assert!(matches!(
        stage_tree_zip("/srv/data", &walked),
        Err(transfer_client::errors::TransferError::Filesystem(_))
    ));
}

fn build_tar(entries: &[(&str, Option<&[u8]>)]) -> Vec<u8> {
    let mut builder = tar::Builder::new(Vec::new());
    for (name, data) in entries {
        match data {
            Some(data) => {
                let mut header = tar::Header::new_gnu();
                header.set_size(data.len() as u64);
                header.set_mode(0o644);
                header.set_cksum();
                builder.append_data(&mut header, name, *data).unwrap();
            },
            None => {
                let mut header = tar::Header::new_gnu();
                header.set_size(0);
                header.set_mode(0o755);
                header.set_entry_type(tar::EntryType::Directory);
                header.set_cksum();
                builder.append_data(&mut header, name, &b""[..]).unwrap();
            },
        }
    }
    builder.into_inner().unwrap()
}

#[test]
fn tar_extraction_reproduces_entries() {
    let bytes = build_tar(&[
        ("tree", None),
        ("tree/a.txt", Some(b"alpha")),
        ("tree/b/c.txt", Some(b"gamma")),
    ]);
    let actions = extract_archive(&bytes, &ArchiveType::Tar).unwrap();
    assert_eq!(actions.len(), 3);
    assert!(has_dir(&actions, &["tree"]));
    assert_eq!(find_file(&actions, &["tree", "a.txt"]), &b"alpha".to_vec());
    assert_eq!(find_file(&actions, &["tree", "b", "c.txt"]), &b"gamma".to_vec());
}

#[test]
fn tar_with_escaping_entry_fails_path_safety() {
    // The tar builder itself refuses `..` in paths, so write the raw header
    // name directly, as a hostile archive would.
    let mut builder = tar::Builder::new(Vec::new());
    let mut header = tar::Header::new_gnu();
    let name = b"../evil.txt";
    header.as_old_mut().name[..name.len()].copy_from_slice(name);
    header.set_size(4);
    header.set_mode(0o644);
    header.set_cksum();
    builder.append(&header, &b"boom"[..]).unwrap();
    let bytes = builder.into_inner().unwrap();
    let r = extract_archive(&bytes, &ArchiveType::Tar);
    assert!(matches!(r, Err(transfer_client::errors::TransferError::PathSafety)));
}

#[test]
fn tar_regular_entry_with_trailing_separator_is_a_directory() {
    // The old pre-POSIX convention: a regular entry whose name ends in a
    // separator marks a directory.
    let mut builder = tar::Builder::new(Vec::new());
    let mut header = tar::Header::new_gnu();
    header.set_path("olddir/").unwrap();
    header.set_size(0);
    header.set_mode(0o755);
    header.set_entry_type(tar::EntryType::Regular);
    header.set_cksum();
    builder.append(&header, &b""[..]).unwrap();
    let bytes = builder.into_inner().unwrap();
    let actions = extract_archive(&bytes, &ArchiveType::Tar).unwrap();
    assert_eq!(actions.len(), 1);
    assert!(has_dir(&actions, &["olddir"]));
}

#[test]
fn gzip_tar_round_trip() {
    let tar_bytes = build_tar(&[("only.txt", Some(b"compressed payload"))]);
    let mut encoder = flate2::write::GzEncoder::new(Vec::new(), flate2::Compression::default());
    encoder.write_all(&tar_bytes).unwrap();
    let gz_bytes = encoder.finish().unwrap();
    let actions = extract_archive(&gz_bytes, &ArchiveType::Gzip).unwrap();
    assert_eq!(actions.len(), 1);
    assert_eq!(find_file(&actions, &["only.txt"]), &b"compressed payload".to_vec());
}

#[test]
fn malformed_archives_fail_decode() {
    let garbage = b"not an archive at all".to_vec();
    assert!(matches!(
        extract_archive(&garbage, &ArchiveType::Zip),
        Err(transfer_client::errors::TransferError::Decode)
    ));
    assert!(matches!(
        extract_archive(&garbage, &ArchiveType::Gzip),
        Err(transfer_client::errors::TransferError::Decode)
    ));
}

#[test]
fn archive_type_tags() {
    assert_eq!(ArchiveType::Zip.as_str(), "zip");
    assert_eq!(ArchiveType::Gzip.as_str(), "gzip");
    assert_eq!(ArchiveType::Tar.as_str(), "tar");
}
