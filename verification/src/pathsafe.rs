//! Path safety for archive extraction.
//!
//! Every archive entry declares a relative path. Before anything is written,
//! that path is normalized: separators split it into segments, empty and `.`
//! segments are dropped, and `..` removes the segment before it. A path is
//! rejected when it is empty, absolute, or when a `..` would climb above the
//! destination directory. The result of a successful normalization is a
//! sequence of clean segments — none empty, none `.` or `..`, none containing
//! a separator — so joining them under the destination directory cannot
//! escape it.

use vstd::prelude::*;

use crate::errors::TransferError;

verus! {

/// Both the forward and the backward slash separate path segments; treating
/// the backslash as a separator keeps a hostile entry from hiding `..\` from
/// the check on systems that split on it.
pub open spec fn is_sep(c: char) -> bool {
    c == '/' || c == '\\'
}

/// Split `s` into segments, `cur` being the partial segment read so far.
pub open spec fn split_acc(s: Seq<char>, cur: Seq<char>) -> Seq<Seq<char>>
    decreases s.len(),
{
    if s.len() == 0 {
        seq![cur]
    } else if is_sep(s[0]) {
        seq![cur] + split_acc(s.drop_first(), Seq::empty())
    } else {
        split_acc(s.drop_first(), cur.push(s[0]))
    }
}

/// The segments of a path, in order; separators themselves are dropped.
pub open spec fn path_segments(s: Seq<char>) -> Seq<Seq<char>> {
    split_acc(s, Seq::empty())
}

pub open spec fn is_dot(seg: Seq<char>) -> bool {
    seg.len() == 1 && seg[0] == '.'
}

pub open spec fn is_dot_dot(seg: Seq<char>) -> bool {
    seg.len() == 2 && seg[0] == '.' && seg[1] == '.'
}

/// Empty segments (from `a//b` or a trailing separator) and `.` segments
/// change nothing and are dropped.
pub open spec fn is_skipped_segment(seg: Seq<char>) -> bool {
    seg.len() == 0 || is_dot(seg)
}

pub open spec fn seg_has_no_sep(seg: Seq<char>) -> bool {
    forall|i: int| 0 <= i < seg.len() ==> !is_sep(#[trigger] seg[i])
}

/// A segment containing a colon is rejected outright: on systems that give
/// the colon meaning (a drive letter, an alternate stream), joining such a
/// segment could leave the destination, so the containment guarantee stays
/// platform-independent by refusing it everywhere.
pub open spec fn seg_has_colon(seg: Seq<char>) -> bool {
    exists|i: int| 0 <= i < seg.len() && #[trigger] seg[i] == ':'
}

/// A segment that may be joined verbatim under a destination directory.
pub open spec fn is_clean_segment(seg: Seq<char>) -> bool {
    &&& seg.len() > 0
    &&& !is_dot(seg)
    &&& !is_dot_dot(seg)
    &&& seg_has_no_sep(seg)
    &&& !seg_has_colon(seg)
}

/// Normalize the remaining segments `segs` against the stack `acc` of
/// segments already accepted. `None` means the path is unsafe: a `..`
/// appeared with nothing left to remove, or a kept segment holds a colon.
pub open spec fn norm_from(segs: Seq<Seq<char>>, acc: Seq<Seq<char>>) -> Option<Seq<Seq<char>>>
    decreases segs.len(),
{
    if segs.len() == 0 {
        Some(acc)
    } else {
        let seg = segs[0];
        let rest = segs.drop_first();
        if is_skipped_segment(seg) {
            norm_from(rest, acc)
        } else if is_dot_dot(seg) {
            if acc.len() == 0 {
                None
            } else {
                norm_from(rest, acc.drop_last())
            }
        } else if seg_has_colon(seg) {
            None
        } else {
            norm_from(rest, acc.push(seg))
        }
    }
}

/// The normalized form of a declared entry path: `None` when the path is
/// empty, absolute, escapes upward, or normalizes to nothing.
pub open spec fn normalized_path(s: Seq<char>) -> Option<Seq<Seq<char>>> {
    if s.len() == 0 {
        None
    } else if is_sep(s[0]) {
        None
    } else {
        match norm_from(path_segments(s), Seq::empty()) {
            Some(segs) => if segs.len() == 0 {
                None
            } else {
                Some(segs)
            },
            None => None,
        }
    }
}

/// Splitting never produces a segment containing a separator.
proof fn lemma_split_acc_no_sep(s: Seq<char>, cur: Seq<char>)
    requires
        seg_has_no_sep(cur),
    ensures
        forall|k: int|
            0 <= k < split_acc(s, cur).len() ==> seg_has_no_sep(#[trigger] split_acc(s, cur)[k]),
    decreases s.len(),
{
    if s.len() == 0 {
        assert(split_acc(s, cur) == seq![cur]);
        assert(split_acc(s, cur)[0] == cur);
    } else if is_sep(s[0]) {
        lemma_split_acc_no_sep(s.drop_first(), Seq::empty());
        let tail = split_acc(s.drop_first(), Seq::empty());
        assert(split_acc(s, cur) == seq![cur] + tail);
        assert(split_acc(s, cur)[0] == cur);
        assert(forall|k: int|
            1 <= k < split_acc(s, cur).len() ==> #[trigger] split_acc(s, cur)[k] == tail[k - 1]);
    } else {
        assert(seg_has_no_sep(cur.push(s[0]))) by {
            assert(forall|i: int|
                0 <= i < cur.len() ==> cur.push(s[0])[i] == #[trigger] cur[i]);
            assert(cur.push(s[0])[cur.len() as int] == s[0]);
        }
        lemma_split_acc_no_sep(s.drop_first(), cur.push(s[0]));
        assert(split_acc(s, cur) == split_acc(s.drop_first(), cur.push(s[0])));
    }
}

/// Normalization only keeps segments that splitting produced and that were
/// neither skipped nor `..`; with the previous lemma, everything it keeps is
/// clean.
proof fn lemma_norm_from_clean(segs: Seq<Seq<char>>, acc: Seq<Seq<char>>)
    requires
        forall|k: int| 0 <= k < segs.len() ==> seg_has_no_sep(#[trigger] segs[k]),
        forall|k: int| 0 <= k < acc.len() ==> is_clean_segment(#[trigger] acc[k]),
        norm_from(segs, acc) is Some,
    ensures
        forall|k: int|
            0 <= k < norm_from(segs, acc).unwrap().len() ==> is_clean_segment(
                #[trigger] norm_from(segs, acc).unwrap()[k],
            ),
    decreases segs.len(),
{
    if segs.len() == 0 {
    } else {
        let seg = segs[0];
        let rest = segs.drop_first();
        assert(forall|k: int| 0 <= k < rest.len() ==> seg_has_no_sep(#[trigger] rest[k]));
        if is_skipped_segment(seg) {
            lemma_norm_from_clean(rest, acc);
        } else if is_dot_dot(seg) {
            assert(forall|k: int|
                0 <= k < acc.drop_last().len() ==> is_clean_segment(
                    #[trigger] acc.drop_last()[k],
                ));
            lemma_norm_from_clean(rest, acc.drop_last());
        } else {
            assert(is_clean_segment(seg));
            assert(forall|k: int|
                0 <= k < acc.push(seg).len() ==> is_clean_segment(#[trigger] acc.push(seg)[k]));
            lemma_norm_from_clean(rest, acc.push(seg));
        }
    }
}

/// Whatever a successful normalization returns is a non-empty sequence of
/// clean segments: joining them in order under a destination directory stays
/// inside it.
pub proof fn lemma_normalized_path_clean(s: Seq<char>)
    requires
        normalized_path(s) is Some,
    ensures
        normalized_path(s).unwrap().len() > 0,
        forall|k: int|
            0 <= k < normalized_path(s).unwrap().len() ==> is_clean_segment(
                #[trigger] normalized_path(s).unwrap()[k],
            ),
{
    lemma_split_acc_no_sep(s, Seq::empty());
    lemma_norm_from_clean(path_segments(s), Seq::empty());
}

/// A clean relative path: every segment it splits into is clean. Such a
/// path is neither empty nor absolute, holds no `.` or `..` and no empty
/// segment, and therefore normalizes to exactly its own segments. The entry
/// names this library's own staging produces from a well-formed file tree
/// are of this form.
pub open spec fn is_clean_rel_path(s: Seq<char>) -> bool {
    forall|k: int|
        0 <= k < path_segments(s).len() ==> is_clean_segment(#[trigger] path_segments(s)[k])
}

proof fn lemma_split_acc_len(s: Seq<char>, cur: Seq<char>)
    ensures
        split_acc(s, cur).len() >= 1,
    decreases s.len(),
{
    if s.len() == 0 {
    } else if is_sep(s[0]) {
    } else {
        lemma_split_acc_len(s.drop_first(), cur.push(s[0]));
    }
}

/// An empty or absolute path begins with an empty segment.
proof fn lemma_first_segment_empty(s: Seq<char>)
    ensures
        path_segments(s).len() >= 1,
        s.len() == 0 ==> path_segments(s)[0].len() == 0,
        s.len() > 0 && is_sep(s[0]) ==> path_segments(s)[0].len() == 0,
{
    lemma_split_acc_len(s, Seq::empty());
}

/// Normalizing leaves clean segments untouched: with nothing to skip and
/// nothing to pop, the stack ends as the accepted prefix followed by all the
/// segments.
proof fn lemma_norm_from_all_clean(segs: Seq<Seq<char>>, acc: Seq<Seq<char>>)
    requires
        forall|k: int| 0 <= k < segs.len() ==> is_clean_segment(#[trigger] segs[k]),
    ensures
        norm_from(segs, acc) == Some(acc + segs),
    decreases segs.len(),
{
    if segs.len() == 0 {
        assert(acc + segs =~= acc);
    } else {
        let seg = segs[0];
        let rest = segs.drop_first();
        assert(is_clean_segment(seg));
        assert(forall|k: int| 0 <= k < rest.len() ==> is_clean_segment(#[trigger] rest[k]));
        lemma_norm_from_all_clean(rest, acc.push(seg));
        assert(acc.push(seg) + rest =~= acc + segs);
    }
}

/// A clean relative path normalizes to exactly its own segments: nothing is
/// dropped, renamed, or reordered.
pub proof fn lemma_clean_path_normalizes_to_self(s: Seq<char>)
    requires
        is_clean_rel_path(s),
    ensures
        normalized_path(s) == Some(path_segments(s)),
{
    lemma_first_segment_empty(s);
    assert(s.len() > 0);
    assert(!is_sep(s[0]));
    lemma_norm_from_all_clean(path_segments(s), Seq::empty());
    assert(Seq::<Seq<char>>::empty() + path_segments(s) =~= path_segments(s));
}

/// Split a path into its segments, in order, dropping the separators; there
/// is always at least one segment (possibly empty).
pub fn split_path_segments(name: &str) -> (r: Vec<String>)
    ensures
        r.deep_view() == path_segments(name@),
        r@.len() > 0,
{
    let n = name.unicode_len();
    let mut segs: Vec<String> = Vec::new();
    let mut start: usize = 0;
    let mut i: usize = 0;
    proof {
        assert(name@.skip(0) =~= name@);
        assert(name@.subrange(0, 0) =~= Seq::<char>::empty());
    }
    while i < n
        invariant
            start <= i <= n,
            n == name@.len(),
            forall|k: int| start <= k < i ==> !is_sep(#[trigger] name@[k]),
            path_segments(name@) == segs.deep_view() + split_acc(
                name@.skip(i as int),
                name@.subrange(start as int, i as int),
            ),
        decreases n - i,
    {
        let c = name.get_char(i);
        proof {
            assert(name@.skip(i as int)[0] == name@[i as int]);
            assert(name@.skip(i as int).drop_first() =~= name@.skip(i as int + 1));
        }
        if c == '/' || c == '\\' {
            let seg = name.substring_char(start, i).to_owned();
            proof {
                assert(seg@ == name@.subrange(start as int, i as int));
                assert(split_acc(name@.skip(i as int), name@.subrange(start as int, i as int))
                    == seq![name@.subrange(start as int, i as int)] + split_acc(
                    name@.skip(i as int + 1),
                    Seq::empty(),
                ));
            }
            let ghost old_segs = segs.deep_view();
            segs.push(seg);
            proof {
                assert(segs.deep_view() =~= old_segs.push(seg@));
                assert(old_segs.push(seg@) + split_acc(name@.skip(i as int + 1), Seq::empty())
                    =~= old_segs + (seq![seg@] + split_acc(
                    name@.skip(i as int + 1),
                    Seq::empty(),
                )));
                assert(name@.subrange(i as int + 1, i as int + 1) =~= Seq::<char>::empty());
            }
            start = i + 1;
        } else {
            proof {
                assert(name@.subrange(start as int, i as int + 1) =~= name@.subrange(
                    start as int,
                    i as int,
                ).push(name@[i as int]));
            }
        }
        i = i + 1;
    }
    let last = name.substring_char(start, n).to_owned();
    proof {
        assert(name@.skip(n as int) =~= Seq::<char>::empty());
        assert(split_acc(Seq::<char>::empty(), name@.subrange(start as int, n as int))
            == seq![name@.subrange(start as int, n as int)]);
    }
    let ghost before_last = segs.deep_view();
    segs.push(last);
    proof {
        assert(segs.deep_view() =~= before_last.push(last@));
        assert(before_last.push(last@) =~= before_last + seq![last@]);
        assert(segs.deep_view() == path_segments(name@));
    }
    segs
}

/// Normalize a declared entry path, or report that it is unsafe.
pub fn normalize_entry_path(name: &str) -> (r: Result<Vec<String>, TransferError>)
    ensures
        match r {
            Ok(segs) => normalized_path(name@) == Some(segs.deep_view()),
            Err(e) => normalized_path(name@) is None && e is PathSafety,
        },
{
    let n = name.unicode_len();
    if n == 0 {
        return Err(TransferError::PathSafety);
    }
    let c0 = name.get_char(0);
    if c0 == '/' || c0 == '\\' {
        return Err(TransferError::PathSafety);
    }
    let segs = split_path_segments(name);

    let ghost all_segs = segs.deep_view();
    let mut stack: Vec<String> = Vec::new();
    let mut j: usize = 0;
    proof {
        assert(all_segs.skip(0) =~= all_segs);
        assert(stack.deep_view() =~= Seq::<Seq<char>>::empty());
    }
    while j < segs.len()
        invariant
            j <= segs.len(),
            segs.deep_view() == all_segs,
            all_segs == path_segments(name@),
            n == name@.len(),
            n > 0,
            !is_sep(name@[0]),
            norm_from(all_segs, Seq::empty()) == norm_from(
                all_segs.skip(j as int),
                stack.deep_view(),
            ),
        decreases segs.len() - j,
    {
        let seg = &segs[j];
        let m = seg.unicode_len();
        proof {
            assert(all_segs.skip(j as int)[0] == all_segs[j as int]);
            assert(all_segs[j as int] == seg@);
            assert(all_segs.skip(j as int).drop_first() =~= all_segs.skip(j as int + 1));
        }
        if m == 0 || (m == 1 && seg.get_char(0) == '.') {
            proof {
                assert(is_skipped_segment(seg@));
            }
        } else if m == 2 && seg.get_char(0) == '.' && seg.get_char(1) == '.' {
            proof {
                assert(is_dot_dot(seg@));
                assert(!is_skipped_segment(seg@));
            }
            if stack.len() == 0 {
                proof {
                    assert(stack.deep_view().len() == 0);
                    assert(norm_from(all_segs.skip(j as int), stack.deep_view()) is None);
                }
                return Err(TransferError::PathSafety);
            }
            let ghost old_stack = stack.deep_view();
            let _ = stack.pop();
            proof {
                assert(stack.deep_view() =~= old_stack.drop_last());
            }
        } else {
            proof {
                assert(!is_skipped_segment(seg@));
                assert(!is_dot_dot(seg@));
            }
            let mut k: usize = 0;
            while k < m
                invariant
                    k <= m,
                    m == seg@.len(),
                    forall|t: int| 0 <= t < k ==> seg@[t] != ':',
                    n == name@.len(),
                    n > 0,
                    !is_sep(name@[0]),
                    all_segs == path_segments(name@),
                    all_segs.skip(j as int).len() > 0,
                    all_segs.skip(j as int)[0] == seg@,
                    !is_skipped_segment(seg@),
                    !is_dot_dot(seg@),
                    norm_from(all_segs, Seq::empty()) == norm_from(
                        all_segs.skip(j as int),
                        stack.deep_view(),
                    ),
                decreases m - k,
            {
                if seg.get_char(k) == ':' {
                    proof {
                        assert(seg_has_colon(seg@));
                        assert(norm_from(all_segs.skip(j as int), stack.deep_view()) is None);
                    }
                    return Err(TransferError::PathSafety);
                }
                k = k + 1;
            }
            proof {
                assert(!seg_has_colon(seg@));
            }
            let ghost old_stack = stack.deep_view();
            stack.push(seg.clone());
            proof {
                assert(stack.deep_view() =~= old_stack.push(seg@));
            }
        }
        j = j + 1;
    }
    proof {
        assert(all_segs.skip(j as int) =~= Seq::<Seq<char>>::empty());
        assert(norm_from(all_segs, Seq::empty()) == Some(stack.deep_view()));
    }
    if stack.len() == 0 {
        proof {
            assert(stack.deep_view().len() == 0);
        }
        return Err(TransferError::PathSafety);
    }
    Ok(stack)
}

} // verus!
