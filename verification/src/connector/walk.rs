//! Looking through directories for session files.

use vstd::prelude::*;

use crate::model::{SessionRef, SessionRefView};
use crate::paths::{extension_of, file_name, has_extension, name_of};
use crate::text::same;

verus! {

/// What to do with an entry of a directory.
#[derive(Clone, Copy, Debug, PartialEq, Eq, Structural)]
pub enum Visit {
    /// Look into the directory.
    Descend,
    /// Look at the first line of the file.
    Probe,
    /// Pass it by.
    Pass,
}

/// Directories are looked into, but for those of subagents; files are looked at if they
/// are JSONL.
pub open spec fn visit_of(path: Seq<char>, is_dir: bool) -> Visit {
    if is_dir {
        if name_of(path) == Some("subagents"@) {
            Visit::Pass
        } else {
            Visit::Descend
        }
    } else if extension_of(path) == Some("jsonl"@) {
        Visit::Probe
    } else {
        Visit::Pass
    }
}

/// What to do with an entry of a directory.
pub fn visit(path: &str, is_dir: bool) -> (r: Visit)
    ensures
        r == visit_of(path@, is_dir),
{
    if is_dir {
        match file_name(path) {
            Some(name) => if same(name.as_str(), "subagents") {
                Visit::Pass
            } else {
                Visit::Descend
            },
            None => Visit::Descend,
        }
    } else if has_extension(path, "jsonl") {
        Visit::Probe
    } else {
        Visit::Pass
    }
}

/// The session that a file below `root` holds.
pub open spec fn found_ref(
    source: Seq<char>,
    native_id: Seq<char>,
    path: Seq<char>,
    root: Seq<char>,
) -> SessionRefView {
    SessionRef { source, native_id, path, project_path: Some(root) }
}

/// The session that a file below `root` holds.
pub fn found(source: &str, native_id: String, path: String, root: &str) -> (r: SessionRef)
    ensures
        r.deep_view() == found_ref(source@, native_id@, path@, root@),
{
    SessionRef { source: source.to_owned(), native_id, path, project_path: Some(root.to_owned()) }
}

}
