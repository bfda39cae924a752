//! Upload planning.
//!
//! Every upload reduces to one multipart POST with a single part: a field
//! name (defaulting to `file`), a file name, the fixed content type
//! `application/octet-stream`, and the payload bytes, owned by the plan.

use vstd::prelude::*;

use crate::pathsafe::{path_segments, split_path_segments};

verus! {

/// The single multipart part an upload sends.
pub struct MultipartPlan {
    pub field_name: String,
    pub file_name: String,
    pub content_type: String,
    pub bytes: Vec<u8>,
}

/// The field name an upload uses: the caller's, or `file` by default.
pub open spec fn spec_field_name(field_name: Option<Seq<char>>) -> Seq<char> {
    match field_name {
        Some(f) => f,
        None => "file"@,
    }
}

/// Build the one multipart part of an upload: the given payload under the
/// given file name, the caller's field name or the default, and the fixed
/// content type.
pub fn plan_file_upload(file_name: String, bytes: Vec<u8>, field_name: Option<String>) -> (r:
    MultipartPlan)
    ensures
        r.field_name@ == spec_field_name(
            match field_name {
                Some(f) => Some(f@),
                None => None,
            },
        ),
        r.file_name@ == file_name@,
        r.content_type@ == "application/octet-stream"@,
        r.bytes@ == bytes@,
{
    let field = match field_name {
        Some(f) => f,
        None => String::from_str("file"),
    };
    MultipartPlan {
        field_name: field,
        file_name,
        content_type: String::from_str("application/octet-stream"),
        bytes,
    }
}

/// The base name of a path: its last segment, or nothing when the path ends
/// in a separator (or is empty).
pub open spec fn spec_base_name(path: Seq<char>) -> Option<Seq<char>> {
    if path_segments(path).last().len() > 0 {
        Some(path_segments(path).last())
    } else {
        None
    }
}

/// The file name a path uploads under: everything after its last separator.
pub fn file_base_name(path: &str) -> (r: Option<String>)
    ensures
        match r {
            Some(name) => spec_base_name(path@) == Some(name@),
            None => spec_base_name(path@) is None,
        },
{
    let mut segs = split_path_segments(path);
    let last = match segs.pop() {
        Some(last) => last,
        None => {
            return None;
        },
    };
    proof {
        assert(last@ == path_segments(path@).last());
    }
    if last.unicode_len() > 0 {
        Some(last)
    } else {
        None
    }
}

} // verus!
