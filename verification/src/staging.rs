//! Archive staging: building a store-only zip archive prior to upload.
//!
//! A single file is staged under its own name; a walked directory tree is
//! staged with each entry's path taken relative to the tree's root, keeping
//! directory entries (including empty directories) and file contents. The
//! walk itself and all filesystem reads happen outside the library; staging
//! consumes plain values and produces the archive bytes in memory, so the
//! staging area lives exactly as long as one upload call.

use vstd::prelude::*;

use crate::errors::TransferError;
use crate::zipcodec::{entry_names, zip_bytes_of, zip_stager_entries, zip_staging_ok, ZipStager};

verus! {

pub open spec fn stage_is_sep(c: char) -> bool {
    c == '/' || c == '\\'
}

/// `full` names the walk root itself: it equals `root`, with at most a
/// trailing separator.
pub open spec fn names_root(root: Seq<char>, full: Seq<char>) -> bool {
    ||| full == root
    ||| (full.len() == root.len() + 1 && full.take(root.len() as int) == root && stage_is_sep(
        full.last(),
    ))
}

/// `full` names something strictly under `root`: `root`, a separator, and a
/// non-empty remainder.
pub open spec fn is_under_root(root: Seq<char>, full: Seq<char>) -> bool {
    &&& full.len() > root.len() + 1
    &&& full.take(root.len() as int) == root
    &&& stage_is_sep(full[root.len() as int])
}

/// The path of `full` relative to `root`, when `is_under_root` holds.
pub open spec fn rel_of(root: Seq<char>, full: Seq<char>) -> Seq<char> {
    full.skip(root.len() as int + 1)
}

/// How one walked path relates to the walk root.
pub enum RelOutcome {
    /// The walk root itself; it maps to the destination and stages nothing.
    TheRoot,
    /// Strictly under the root; the payload is the relative path.
    Under(String),
    /// Not under the root at all.
    Outside,
}

/// Compute the path of `full` relative to `root`.
pub fn relative_entry_name(root: &str, full: &str) -> (r: RelOutcome)
    ensures
        match r {
            RelOutcome::TheRoot => names_root(root@, full@),
            RelOutcome::Under(name) => is_under_root(root@, full@) && name@ == rel_of(
                root@,
                full@,
            ),
            RelOutcome::Outside => !names_root(root@, full@) && !is_under_root(root@, full@),
        },
{
    let rl = root.unicode_len();
    let fl = full.unicode_len();
    if fl < rl {
        proof {
            assert(full@.take(rl as int) == root@ ==> full@.take(rl as int).len() == rl as int);
        }
        return RelOutcome::Outside;
    }
    let mut i: usize = 0;
    while i < rl
        invariant
            i <= rl,
            rl == root@.len(),
            fl == full@.len(),
            rl <= fl,
            forall|k: int| 0 <= k < i ==> full@[k] == root@[k],
        decreases rl - i,
    {
        if full.get_char(i) != root.get_char(i) {
            proof {
                assert(full@.take(rl as int) == root@ ==> full@.take(rl as int)[i as int]
                    == root@[i as int]);
            }
            return RelOutcome::Outside;
        }
        i = i + 1;
    }
    proof {
        assert(full@.take(rl as int) =~= root@);
    }
    if fl == rl {
        proof {
            assert(full@ =~= root@);
        }
        return RelOutcome::TheRoot;
    }
    let c = full.get_char(rl);
    if !(c == '/' || c == '\\') {
        return RelOutcome::Outside;
    }
    if fl == rl + 1 {
        proof {
            assert(full@.last() == full@[rl as int]);
        }
        return RelOutcome::TheRoot;
    }
    let rest = full.substring_char(rl + 1, fl).to_owned();
    proof {
        assert(rest@ =~= rel_of(root@, full@));
    }
    RelOutcome::Under(rest)
}

/// One entry of a directory walk, as handed in from outside: the walked
/// path, whether it is a directory, and for a file its full contents.
pub struct WalkedEntry {
    pub path: String,
    pub is_dir: bool,
    pub data: Vec<u8>,
}

impl View for WalkedEntry {
    type V = (Seq<char>, bool, Seq<u8>);

    open spec fn view(&self) -> (Seq<char>, bool, Seq<u8>) {
        (self.path@, self.is_dir, self.data@)
    }
}

impl DeepView for WalkedEntry {
    type V = (Seq<char>, bool, Seq<u8>);

    open spec fn deep_view(&self) -> (Seq<char>, bool, Seq<u8>) {
        self.view()
    }
}

/// The archive entries a walked tree stages to: every walked path strictly
/// under the root becomes one entry under its relative path, in walk order;
/// the root itself stages nothing.
pub open spec fn staged_tree_spec(
    root: Seq<char>,
    walked: Seq<(Seq<char>, bool, Seq<u8>)>,
) -> Seq<(Seq<char>, bool, Seq<u8>)>
    decreases walked.len(),
{
    if walked.len() == 0 {
        Seq::empty()
    } else {
        let prior = staged_tree_spec(root, walked.drop_last());
        let e = walked.last();
        if is_under_root(root, e.0) {
            prior.push((rel_of(root, e.0), e.1, if e.1 { Seq::empty() } else { e.2 }))
        } else {
            prior
        }
    }
}

/// Entry names distribute over concatenation.
proof fn lemma_entry_names_add(a: Seq<(Seq<char>, bool, Seq<u8>)>, b: Seq<(Seq<char>, bool, Seq<u8>)>)
    ensures
        entry_names(a + b) == entry_names(a) + entry_names(b),
{
    assert(entry_names(a + b) =~= entry_names(a) + entry_names(b));
}

/// The staged entries of a walk split at any point: each walked entry
/// contributes independently, in order.
proof fn lemma_staged_split(root: Seq<char>, w: Seq<(Seq<char>, bool, Seq<u8>)>, i: int)
    requires
        0 <= i <= w.len(),
    ensures
        staged_tree_spec(root, w) == staged_tree_spec(root, w.take(i)) + staged_tree_spec(
            root,
            w.skip(i),
        ),
    decreases w.len() - i,
{
    if i == w.len() {
        assert(w.take(i) =~= w);
        assert(w.skip(i) =~= Seq::<(Seq<char>, bool, Seq<u8>)>::empty());
        assert(staged_tree_spec(root, w) + staged_tree_spec(root, w.skip(i))
            =~= staged_tree_spec(root, w));
    } else {
        lemma_staged_split(root, w.drop_last(), i);
        assert(w.drop_last().take(i) =~= w.take(i));
        assert(w.drop_last().skip(i) =~= w.skip(i).drop_last());
        assert(w.skip(i).last() == w.last());
        assert(w.skip(i).len() > 0);
        let prefix = staged_tree_spec(root, w.take(i));
        let mid = staged_tree_spec(root, w.skip(i).drop_last());
        let e = w.last();
        if is_under_root(root, e.0) {
            let item = (rel_of(root, e.0), e.1, if e.1 { Seq::<u8>::empty() } else { e.2 });
            assert(staged_tree_spec(root, w) == (prefix + mid).push(item));
            assert(staged_tree_spec(root, w.skip(i)) == mid.push(item));
            assert((prefix + mid).push(item) =~= prefix + mid.push(item));
        } else {
            assert(staged_tree_spec(root, w) == prefix + mid);
            assert(staged_tree_spec(root, w.skip(i)) == mid);
        }
    }
}

/// Stage a walked directory tree as a store-only zip archive. Each walked
/// entry must be the root itself or lie under it; directory entries
/// (including empty directories) and file contents are kept under their
/// relative paths. On success the result is exactly the zip encoding of the
/// staged entries; staging is owed to succeed whenever every walked entry is
/// the root or under it and the builder accepts the staged names, and it
/// fails only when one of those two conditions fails.
pub fn stage_tree_zip(root: &str, walked: &Vec<WalkedEntry>) -> (r: Result<
    Vec<u8>,
    TransferError,
>)
    ensures
        match r {
            Ok(bytes) => {
                &&& forall|k: int|
                    0 <= k < walked@.len() ==> names_root(root@, (#[trigger] walked@[k])@.0)
                        || is_under_root(root@, walked@[k]@.0)
                &&& bytes@ == zip_bytes_of(staged_tree_spec(root@, walked.deep_view()))
            },
            Err(e) => {
                &&& e is Filesystem
                &&& {
                    ||| exists|k: int|
                        0 <= k < walked@.len() && !names_root(root@, (#[trigger] walked@[k])@.0)
                            && !is_under_root(root@, walked@[k]@.0)
                    ||| !zip_staging_ok(entry_names(staged_tree_spec(root@, walked.deep_view())))
                }
            },
        },
        (forall|k: int|
            0 <= k < walked@.len() ==> names_root(root@, (#[trigger] walked@[k])@.0)
                || is_under_root(root@, walked@[k]@.0)) && zip_staging_ok(
            entry_names(staged_tree_spec(root@, walked.deep_view())),
        ) ==> r is Ok,
{
    let ghost full = staged_tree_spec(root@, walked.deep_view());
    let ghost full_names = entry_names(full);
    let mut stager = ZipStager::new();
    let mut i: usize = 0;
    proof {
        assert(walked.deep_view().take(0) =~= Seq::<(Seq<char>, bool, Seq<u8>)>::empty());
    }
    while i < walked.len()
        invariant
            i <= walked@.len(),
            full == staged_tree_spec(root@, walked.deep_view()),
            full_names == entry_names(full),
            zip_stager_entries(stager) == staged_tree_spec(
                root@,
                walked.deep_view().take(i as int),
            ),
            forall|k: int|
                0 <= k < i ==> names_root(root@, (#[trigger] walked@[k])@.0) || is_under_root(
                    root@,
                    walked@[k]@.0,
                ),
        decreases walked@.len() - i,
    {
        let e = &walked[i];
        let ghost staged_prefix = staged_tree_spec(root@, walked.deep_view().take(i as int));
        proof {
            assert(walked.deep_view()[i as int] == walked@[i as int]@);
            assert(walked.deep_view().take(i as int + 1).drop_last() =~= walked.deep_view().take(
                i as int,
            ));
            assert(walked.deep_view().take(i as int + 1).last() == walked.deep_view()[i as int]);
        }
        match relative_entry_name(root, e.path.as_str()) {
            RelOutcome::TheRoot => {},
            RelOutcome::Outside => {
                proof {
                    assert(0 <= i < walked@.len() && !names_root(root@, walked@[i as int]@.0)
                        && !is_under_root(root@, walked@[i as int]@.0));
                }
                return Err(TransferError::Filesystem(String::from_str(
                    "staged entry lies outside the walk root",
                )));
            },
            RelOutcome::Under(name) => {
                let ghost staged_next = staged_tree_spec(
                    root@,
                    walked.deep_view().take(i as int + 1),
                );
                let ghost rest_names = entry_names(
                    staged_tree_spec(root@, walked.deep_view().skip(i as int + 1)),
                );
                proof {
                    lemma_staged_split(root@, walked.deep_view(), i as int + 1);
                    lemma_entry_names_add(
                        staged_next,
                        staged_tree_spec(root@, walked.deep_view().skip(i as int + 1)),
                    );
                    assert(entry_names(staged_next) + rest_names == full_names);
                }
                if e.is_dir {
                    proof {
                        assert(staged_next == staged_prefix.push(
                            (name@, true, Seq::<u8>::empty()),
                        ));
                        assert(entry_names(staged_next) =~= entry_names(staged_prefix).push(
                            (name@, true),
                        ));
                    }
                    match stager.add_directory_entry(name.as_str()) {
                        Ok(()) => {},
                        Err(_) => {
                            proof {
                                assert(!zip_staging_ok(
                                    entry_names(staged_prefix).push((name@, true)) + rest_names,
                                ));
                                assert(!zip_staging_ok(full_names));
                            }
                            return Err(TransferError::Filesystem(String::from_str(
                                "archive staging failed",
                            )));
                        },
                    }
                } else {
                    proof {
                        assert(staged_next == staged_prefix.push((name@, false, e.data@)));
                        assert(entry_names(staged_next) =~= entry_names(staged_prefix).push(
                            (name@, false),
                        ));
                    }
                    match stager.start_file_entry(name.as_str()) {
                        Ok(()) => {},
                        Err(_) => {
                            proof {
                                assert(!zip_staging_ok(
                                    entry_names(staged_prefix).push((name@, false)) + rest_names,
                                ));
                                assert(!zip_staging_ok(full_names));
                            }
                            return Err(TransferError::Filesystem(String::from_str(
                                "archive staging failed",
                            )));
                        },
                    }
                    let ghost mid = zip_stager_entries(stager);
                    proof {
                        assert(entry_names(mid) =~= entry_names(staged_prefix).push(
                            (name@, false),
                        ));
                    }
                    match stager.write_file_data(&e.data) {
                        Ok(()) => {},
                        Err(_) => {
                            proof {
                                assert(!zip_staging_ok(entry_names(mid) + rest_names));
                                assert(!zip_staging_ok(full_names));
                            }
                            return Err(TransferError::Filesystem(String::from_str(
                                "archive staging failed",
                            )));
                        },
                    }
                    proof {
                        assert(mid.update(mid.len() - 1, (name@, false, e.data@)) =~= mid.drop_last().push((name@, false, e.data@)));
                        assert(mid.drop_last() =~= staged_prefix);
                    }
                }
            },
        }
        i = i + 1;
    }
    proof {
        assert(walked.deep_view().take(walked@.len() as int) =~= walked.deep_view());
    }
    match stager.finish() {
        Ok(bytes) => Ok(bytes),
        Err(_) => {
            proof {
                assert(!zip_staging_ok(full_names));
            }
            Err(TransferError::Filesystem(String::from_str("archive staging failed")))
        },
    }
}

/// Stage one file as a single-entry, store-only zip archive: the entry is
/// the file's contents under the given name. On success the result is
/// exactly the zip encoding of that one entry; staging is owed to succeed
/// whenever the builder accepts that single name, and fails only when it
/// does not.
pub fn stage_file_zip(file_name: &str, contents: &Vec<u8>) -> (r: Result<Vec<u8>, TransferError>)
    ensures
        match r {
            Ok(bytes) => bytes@ == zip_bytes_of(
                seq![(file_name@, false, contents@)],
            ),
            Err(e) => e is Filesystem && !zip_staging_ok(seq![(file_name@, false)]),
        },
        zip_staging_ok(seq![(file_name@, false)]) ==> r is Ok,
{
    let ghost target_names: Seq<(Seq<char>, bool)> = seq![(file_name@, false)];
    let mut stager = ZipStager::new();
    proof {
        assert(entry_names(zip_stager_entries(stager))
            =~= Seq::<(Seq<char>, bool)>::empty());
    }
    match stager.start_file_entry(file_name) {
        Ok(()) => {},
        Err(_) => {
            proof {
                assert(Seq::<(Seq<char>, bool)>::empty().push((file_name@, false))
                    + Seq::<(Seq<char>, bool)>::empty() =~= target_names);
                assert(!zip_staging_ok(
                    Seq::<(Seq<char>, bool)>::empty().push((file_name@, false))
                        + Seq::<(Seq<char>, bool)>::empty(),
                ));
            }
            return Err(TransferError::Filesystem(String::from_str("archive staging failed")));
        },
    }
    let ghost mid = zip_stager_entries(stager);
    proof {
        assert(entry_names(mid) =~= target_names);
    }
    match stager.write_file_data(contents) {
        Ok(()) => {},
        Err(_) => {
            proof {
                assert(entry_names(mid) + Seq::<(Seq<char>, bool)>::empty() =~= target_names);
                assert(!zip_staging_ok(entry_names(mid) + Seq::<(Seq<char>, bool)>::empty()));
            }
            return Err(TransferError::Filesystem(String::from_str("archive staging failed")));
        },
    }
    proof {
        assert(zip_stager_entries(stager) =~= seq![(file_name@, false, contents@)]);
        assert(entry_names(zip_stager_entries(stager)) =~= target_names);
    }
    match stager.finish() {
        Ok(bytes) => Ok(bytes),
        Err(_) => Err(TransferError::Filesystem(String::from_str("archive staging failed"))),
    }
}

} // verus!
