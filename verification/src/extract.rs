//! Extraction planning.
//!
//! A decoded archive is a sequence of entries, each with a declared name, a
//! directory flag, and decoded contents. Planning validates every entry's
//! path before anything would be written: if any entry's path is unsafe the
//! whole extraction is rejected and no write action is produced at all.
//! On success each entry becomes exactly one write action whose path is the
//! normalized, provably clean segment sequence.

use vstd::prelude::*;

use crate::errors::TransferError;
use crate::pathsafe::{
    is_clean_segment, lemma_normalized_path_clean, normalize_entry_path, normalized_path,
};
use crate::tarcodec::{gunzip_of, gzip_decode, tar_decodes, tar_entries_of, tar_entry_at};
use crate::zipcodec::{zip_decodes, zip_entries_of, zip_entry_at, zip_entry_count};
use crate::ArchiveType;

verus! {

/// One decoded archive entry. The name is the path declared inside the
/// archive; for a directory entry the contents are empty.
pub struct ArchiveEntry {
    pub name: String,
    pub is_dir: bool,
    pub data: Vec<u8>,
}

impl View for ArchiveEntry {
    type V = (Seq<char>, bool, Seq<u8>);

    open spec fn view(&self) -> (Seq<char>, bool, Seq<u8>) {
        (self.name@, self.is_dir, self.data@)
    }
}

impl DeepView for ArchiveEntry {
    type V = (Seq<char>, bool, Seq<u8>);

    open spec fn deep_view(&self) -> (Seq<char>, bool, Seq<u8>) {
        self.view()
    }
}

/// One filesystem effect of an extraction: create a directory, or write a
/// file's full decoded contents, truncating whatever was there. Paths are
/// carried as normalized segments, to be joined in order under the
/// destination directory.
pub enum WriteAction {
    MakeDir { segments: Vec<String> },
    WriteFile { segments: Vec<String>, contents: Vec<u8> },
}

/// The path segments an action writes under the destination.
pub open spec fn action_path(a: WriteAction) -> Seq<Seq<char>> {
    match a {
        WriteAction::MakeDir { segments } => segments.deep_view(),
        WriteAction::WriteFile { segments, contents } => segments.deep_view(),
    }
}

/// A safe action names at least one segment and every segment is clean, so
/// joining the segments in order under the destination cannot leave it.
pub open spec fn action_is_safe(a: WriteAction) -> bool {
    &&& action_path(a).len() > 0
    &&& forall|k: int| 0 <= k < action_path(a).len() ==> is_clean_segment(#[trigger] action_path(a)[k])
}

/// The action `a` is exactly what extracting the entry `e` must do: same
/// kind, the normalized form of the entry's declared name, and for a file
/// the entry's decoded contents, byte for byte.
pub open spec fn action_matches(a: WriteAction, e: (Seq<char>, bool, Seq<u8>)) -> bool {
    match a {
        WriteAction::MakeDir { segments } => {
            &&& e.1
            &&& normalized_path(e.0) == Some(segments.deep_view())
        },
        WriteAction::WriteFile { segments, contents } => {
            &&& !e.1
            &&& normalized_path(e.0) == Some(segments.deep_view())
            &&& contents@ == e.2
        },
    }
}

/// The contents an action writes: `None` for a directory.
pub open spec fn action_contents(a: WriteAction) -> Option<Seq<u8>> {
    match a {
        WriteAction::MakeDir { segments } => None,
        WriteAction::WriteFile { segments, contents } => Some(contents@),
    }
}

/// An action that matches an entry is safe: its path is the entry's
/// normalized path, and normalization yields only clean segments.
pub proof fn lemma_matched_action_safe(a: WriteAction, e: (Seq<char>, bool, Seq<u8>))
    requires
        action_matches(a, e),
    ensures
        action_is_safe(a),
{
    lemma_normalized_path_clean(e.0);
}

/// Copy a byte buffer; the copy holds exactly the same bytes.
pub(crate) fn clone_bytes(v: &Vec<u8>) -> (r: Vec<u8>)
    ensures
        r@ == v@,
{
    let r = v.clone();
    proof {
        assert(r@ =~= v@);
    }
    r
}

/// Turn decoded entries into write actions, validating every entry's path
/// first. Succeeds if and only if every declared path normalizes to a safe
/// relative path; otherwise the whole extraction is rejected with
/// `PathSafety` and no action is produced.
pub fn plan_extraction(entries: &Vec<ArchiveEntry>) -> (r: Result<
    Vec<WriteAction>,
    TransferError,
>)
    ensures
        match r {
            Ok(actions) => {
                &&& actions@.len() == entries@.len()
                &&& forall|k: int|
                    0 <= k < entries@.len() ==> action_matches(
                        #[trigger] actions@[k],
                        entries@[k]@,
                    )
                &&& forall|k: int|
                    0 <= k < actions@.len() ==> action_is_safe(#[trigger] actions@[k])
            },
            Err(e) => {
                &&& e is PathSafety
                &&& exists|k: int|
                    0 <= k < entries@.len() && normalized_path(#[trigger] entries@[k]@.0) is None
            },
        },
{
    let mut actions: Vec<WriteAction> = Vec::new();
    let mut i: usize = 0;
    while i < entries.len()
        invariant
            i <= entries@.len(),
            actions@.len() == i,
            forall|k: int|
                0 <= k < actions@.len() ==> action_matches(#[trigger] actions@[k], entries@[k]@),
            forall|k: int|
                0 <= k < actions@.len() ==> action_is_safe(#[trigger] actions@[k]),
        decreases entries@.len() - i,
    {
        let e = &entries[i];
        let segments = match normalize_entry_path(e.name.as_str()) {
            Ok(segments) => segments,
            Err(err) => {
                proof {
                    assert(0 <= i < entries@.len() && normalized_path(
                        entries@[i as int]@.0,
                    ) is None);
                }
                return Err(err);
            },
        };
        let action = if e.is_dir {
            WriteAction::MakeDir { segments }
        } else {
            WriteAction::WriteFile { segments, contents: clone_bytes(&e.data) }
        };
        proof {
            assert(action_matches(action, entries@[i as int]@));
            lemma_matched_action_safe(action, entries@[i as int]@);
        }
        actions.push(action);
        i = i + 1;
    }
    Ok(actions)
}

/// The round trip of staging and extraction, at the entry level. Staging a
/// file or a directory tree records each staged item as an archive entry
/// under its relative name; extraction plans one write action per decoded
/// entry. This law says the two mirror each other exactly: for entries whose
/// names are clean relative paths — which is what staging a well-formed tree
/// produces — every matching extraction plan recreates, for the k-th entry,
/// a directory or file at exactly the entry's own path, a file's contents
/// byte-identical. The archive codec in between is exercised by tests.
pub proof fn lemma_stage_extract_round_trip(
    entries: Seq<(Seq<char>, bool, Seq<u8>)>,
    actions: Seq<WriteAction>,
)
    requires
        actions.len() == entries.len(),
        forall|k: int|
            0 <= k < entries.len() ==> action_matches(#[trigger] actions[k], entries[k]),
        forall|k: int|
            0 <= k < entries.len() ==> crate::pathsafe::is_clean_rel_path(
                (#[trigger] entries[k]).0,
            ),
    ensures
        forall|k: int|
            0 <= k < entries.len() ==> action_path(#[trigger] actions[k])
                == crate::pathsafe::path_segments(entries[k].0),
        forall|k: int|
            0 <= k < entries.len() ==> ((#[trigger] actions[k]) is MakeDir <==> entries[k].1),
        forall|k: int|
            0 <= k < entries.len() ==> action_contents(#[trigger] actions[k]) == (
            if entries[k].1 {
                None::<Seq<u8>>
            } else {
                Some(entries[k].2)
            }),
{
    assert forall|k: int| 0 <= k < entries.len() implies action_path(#[trigger] actions[k])
        == crate::pathsafe::path_segments(entries[k].0) && ((actions[k]) is MakeDir
        <==> entries[k].1) && action_contents(actions[k]) == (
    if entries[k].1 {
        None::<Seq<u8>>
    } else {
        Some(entries[k].2)
    }) by {
        crate::pathsafe::lemma_clean_path_normalizes_to_self(entries[k].0);
    }
}

/// The tar entry kinds the extractor handles: every entry is a directory or
/// a regular file.
pub open spec fn tar_all_supported(es: Seq<(Seq<char>, bool, bool, Seq<u8>)>) -> bool {
    forall|k: int| 0 <= k < es.len() ==> (#[trigger] es[k]).1 || es[k].2
}

/// Whether a tar entry is taken as a directory: its header marks one, or it
/// is a regular entry whose name ends in a separator — the old pre-POSIX
/// directory convention.
pub open spec fn tar_entry_is_dir(e: (Seq<char>, bool, bool, Seq<u8>)) -> bool {
    e.1 || (e.2 && e.0.len() > 0 && crate::pathsafe::is_sep(e.0.last()))
}

/// Forget the regular-file flag of tar entries, keeping name, directory
/// flag (trailing-separator convention honoured), and contents.
pub open spec fn tar_to_entries(es: Seq<(Seq<char>, bool, bool, Seq<u8>)>) -> Seq<
    (Seq<char>, bool, Seq<u8>),
> {
    es.map_values(|e: (Seq<char>, bool, bool, Seq<u8>)| (e.0, tar_entry_is_dir(e), e.3))
}

/// The entries an archive of the given format decodes to.
pub open spec fn spec_archive_entries(bytes: Seq<u8>, format: ArchiveType) -> Seq<
    (Seq<char>, bool, Seq<u8>),
> {
    match format {
        ArchiveType::Zip => zip_entries_of(bytes),
        ArchiveType::Tar => tar_to_entries(tar_entries_of(bytes)),
        ArchiveType::Gzip => match gunzip_of(bytes) {
            Some(payload) => tar_to_entries(tar_entries_of(payload)),
            None => Seq::empty(),
        },
    }
}

/// Whether the bytes decode fully for the given format: the stream is well
/// formed and, for tar, every entry is of a handled kind.
pub open spec fn spec_archive_decodes(bytes: Seq<u8>, format: ArchiveType) -> bool {
    match format {
        ArchiveType::Zip => zip_decodes(bytes),
        ArchiveType::Tar => tar_decodes(bytes) && tar_all_supported(tar_entries_of(bytes)),
        ArchiveType::Gzip => match gunzip_of(bytes) {
            Some(payload) => tar_decodes(payload) && tar_all_supported(tar_entries_of(payload)),
            None => false,
        },
    }
}

/// Decode every entry of an in-memory zip archive, in central-directory
/// order. Succeeds on every fully decodable archive; a decode error is
/// returned only for bytes that do not fully decode.
pub fn decode_zip_entries(bytes: &Vec<u8>) -> (r: Result<Vec<ArchiveEntry>, TransferError>)
    ensures
        match r {
            Ok(es) => es.deep_view() == zip_entries_of(bytes@),
            Err(e) => e is Decode && !zip_decodes(bytes@),
        },
        zip_decodes(bytes@) ==> r is Ok,
{
    let count = match zip_entry_count(bytes) {
        Ok(c) => c,
        Err(_) => {
            return Err(TransferError::Decode);
        },
    };
    let mut out: Vec<ArchiveEntry> = Vec::new();
    let mut i: usize = 0;
    while i < count
        invariant
            i <= count,
            count == zip_entries_of(bytes@).len(),
            out.deep_view() =~= zip_entries_of(bytes@).take(i as int),
        decreases count - i,
    {
        let e = match zip_entry_at(bytes, i) {
            Ok(e) => e,
            Err(_) => {
                return Err(TransferError::Decode);
            },
        };
        let ghost old_view = out.deep_view();
        out.push(e);
        proof {
            assert(out.deep_view() =~= old_view.push(zip_entries_of(bytes@)[i as int]));
            assert(old_view.push(zip_entries_of(bytes@)[i as int]) =~= zip_entries_of(
                bytes@,
            ).take(i as int + 1));
        }
        i = i + 1;
    }
    proof {
        assert(zip_entries_of(bytes@).take(count as int) =~= zip_entries_of(bytes@));
    }
    Ok(out)
}

/// Decode every entry of an in-memory tar stream, in stream order. A regular
/// entry whose name ends in a separator is taken as a directory (the old
/// pre-POSIX convention). Entry kinds other than directories and regular
/// files (links, for example) are outside the extractor's data model and
/// fail the whole decode — a deliberate narrowing that keeps the containment
/// guarantee. Succeeds on every fully decodable, fully supported stream.
pub fn decode_tar_entries(bytes: &Vec<u8>) -> (r: Result<Vec<ArchiveEntry>, TransferError>)
    ensures
        match r {
            Ok(es) => {
                &&& es.deep_view() == tar_to_entries(tar_entries_of(bytes@))
                &&& tar_all_supported(tar_entries_of(bytes@))
            },
            Err(e) => e is Decode && (!tar_decodes(bytes@) || !tar_all_supported(
                tar_entries_of(bytes@),
            )),
        },
        tar_decodes(bytes@) && tar_all_supported(tar_entries_of(bytes@)) ==> r is Ok,
{
    let cap = bytes.len();
    let mut out: Vec<ArchiveEntry> = Vec::new();
    let mut i: usize = 0;
    loop
        invariant_except_break
            cap == bytes@.len(),
            i as int <= tar_entries_of(bytes@).len(),
            i as int == out.deep_view().len(),
            out.deep_view() =~= tar_to_entries(tar_entries_of(bytes@)).take(i as int),
            forall|k: int|
                0 <= k < i ==> (#[trigger] tar_entries_of(bytes@)[k]).1 || tar_entries_of(
                    bytes@,
                )[k].2,
        ensures
            out.deep_view() == tar_to_entries(tar_entries_of(bytes@)),
            tar_all_supported(tar_entries_of(bytes@)),
        decreases tar_entries_of(bytes@).len() - i,
    {
        let item = match tar_entry_at(bytes, i) {
            Ok(Some(item)) => item,
            Ok(None) => {
                proof {
                    assert(tar_to_entries(tar_entries_of(bytes@)).take(i as int)
                        =~= tar_to_entries(tar_entries_of(bytes@)));
                }
                break;
            },
            Err(_) => {
                return Err(TransferError::Decode);
            },
        };
        if !item.is_dir && !item.is_file {
            proof {
                assert(!((tar_entries_of(bytes@)[i as int]).1 || tar_entries_of(
                    bytes@,
                )[i as int].2));
            }
            return Err(TransferError::Decode);
        }
        let name_len = item.name.as_str().unicode_len();
        let trailing_sep = name_len > 0 && {
            let c = item.name.as_str().get_char(name_len - 1);
            c == '/' || c == '\\'
        };
        let entry_is_dir = item.is_dir || (item.is_file && trailing_sep);
        proof {
            assert(entry_is_dir == tar_entry_is_dir(tar_entries_of(bytes@)[i as int]));
        }
        let ghost old_view = out.deep_view();
        out.push(ArchiveEntry { name: item.name, is_dir: entry_is_dir, data: item.data });
        proof {
            assert(out.deep_view() =~= old_view.push(
                (
                    tar_entries_of(bytes@)[i as int].0,
                    tar_entry_is_dir(tar_entries_of(bytes@)[i as int]),
                    tar_entries_of(bytes@)[i as int].3,
                ),
            ));
            assert(out.deep_view() =~= tar_to_entries(tar_entries_of(bytes@)).take(i as int + 1));
            // The yielded entry consumed at least a header block, so the
            // index stays within the address range.
            assert(i < tar_entries_of(bytes@).len() <= bytes@.len());
        }
        i = i + 1;
    }
    Ok(out)
}

/// Decode an archive of the given format and plan its extraction. Succeeds
/// exactly when the bytes decode fully for the format and every declared
/// entry path is safe: a decode error is returned only for bytes that do not
/// fully decode, and a single unsafe path rejects the whole extraction with
/// `PathSafety` before any write action is produced.
pub fn extract_archive(bytes: &Vec<u8>, format: &ArchiveType) -> (r: Result<
    Vec<WriteAction>,
    TransferError,
>)
    ensures
        match r {
            Ok(actions) => {
                &&& actions@.len() == spec_archive_entries(bytes@, *format).len()
                &&& forall|k: int|
                    0 <= k < actions@.len() ==> action_matches(
                        #[trigger] actions@[k],
                        spec_archive_entries(bytes@, *format)[k],
                    )
                &&& forall|k: int|
                    0 <= k < actions@.len() ==> action_is_safe(#[trigger] actions@[k])
            },
            Err(e) => match e {
                TransferError::PathSafety => exists|k: int|
                    0 <= k < spec_archive_entries(bytes@, *format).len() && normalized_path(
                        (#[trigger] spec_archive_entries(bytes@, *format)[k]).0,
                    ) is None,
                TransferError::Decode => !spec_archive_decodes(bytes@, *format),
                _ => false,
            },
        },
        spec_archive_decodes(bytes@, *format) && (forall|k: int|
            0 <= k < spec_archive_entries(bytes@, *format).len() ==> normalized_path(
                (#[trigger] spec_archive_entries(bytes@, *format)[k]).0,
            ) is Some) ==> r is Ok,
{
    let entries = match format {
        ArchiveType::Zip => match decode_zip_entries(bytes) {
            Ok(entries) => entries,
            Err(e) => {
                return Err(e);
            },
        },
        ArchiveType::Tar => match decode_tar_entries(bytes) {
            Ok(entries) => entries,
            Err(e) => {
                return Err(e);
            },
        },
        ArchiveType::Gzip => {
            let inflated = match gzip_decode(bytes) {
                Ok(inflated) => inflated,
                Err(_) => {
                    return Err(TransferError::Decode);
                },
            };
            match decode_tar_entries(&inflated) {
                Ok(entries) => entries,
                Err(e) => {
                    return Err(e);
                },
            }
        },
    };
    proof {
        assert(entries.deep_view() == spec_archive_entries(bytes@, *format));
    }
    match plan_extraction(&entries) {
        Ok(actions) => {
            proof {
                assert(forall|k: int|
                    0 <= k < entries@.len() ==> (#[trigger] entries@[k])@
                        == entries.deep_view()[k]);
            }
            Ok(actions)
        },
        Err(e) => {
            proof {
                let k0 = choose|k: int|
                    0 <= k < entries@.len() && normalized_path(
                        (#[trigger] entries@[k])@.0,
                    ) is None;
                assert(entries@[k0]@ == entries.deep_view()[k0]);
                assert(0 <= k0 < spec_archive_entries(bytes@, *format).len()
                    && normalized_path(spec_archive_entries(bytes@, *format)[k0].0) is None);
            }
            Err(e)
        },
    }
}

} // verus!
