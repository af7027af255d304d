//! Finding the database of a source that keeps its sessions in SQLite.

use vstd::prelude::*;

use crate::error::{outcome, OslError};
use crate::model::{SessionRef, SessionRefView};
use crate::paths::{extension_of, has_extension, join_path, path_join};
use crate::text::{cat2, cat3, cat4};

verus! {

/// What stands at a path.
#[derive(Debug)]
pub enum Target {
    File,
    /// A directory: whether it holds the file that is asked for, and its entries, each
    /// with whether it is a file.
    Directory { has_default: bool, entries: Vec<(String, bool)> },
    Missing,
}

pub enum TargetView {
    File,
    Directory { has_default: bool, entries: Seq<(Seq<char>, bool)> },
    Missing,
}

impl DeepView for Target {
    type V = TargetView;

    open spec fn deep_view(&self) -> TargetView {
        match self {
            Target::File => TargetView::File,
            Target::Directory { has_default, entries } => TargetView::Directory {
                has_default: *has_default,
                entries: entries.deep_view(),
            },
            Target::Missing => TargetView::Missing,
        }
    }
}

/// Whether the path looks like a SQLite database.
pub open spec fn is_db_path(path: Seq<char>) -> bool {
    extension_of(path) == Some("db"@) || extension_of(path) == Some("sqlite"@)
}

/// Whether the path looks like a SQLite database.
pub fn is_db_file(path: &str) -> (r: bool)
    ensures
        r == is_db_path(path@),
{
    has_extension(path, "db") || has_extension(path, "sqlite")
}

/// The first file among the entries that looks like a database.
pub open spec fn first_db(entries: Seq<(Seq<char>, bool)>) -> Option<Seq<char>>
    decreases entries.len(),
{
    if entries.len() == 0 {
        None
    } else if entries[0].1 && is_db_path(entries[0].0) {
        Some(entries[0].0)
    } else {
        first_db(entries.drop_first())
    }
}

/// The database at `target`: the file itself, or in a directory the file of the default
/// name, or else any that looks like a database. `wanted` says what is missing otherwise.
pub open spec fn db_path_of(
    target: Seq<char>,
    default_name: Seq<char>,
    wanted: Seq<char>,
    what: TargetView,
) -> Result<Seq<char>, OslError<Seq<char>>> {
    match what {
        TargetView::File => Ok(target),
        TargetView::Directory { has_default, entries } => if has_default {
            Ok(path_join(target, default_name))
        } else {
            match first_db(entries) {
                Some(path) => Ok(path),
                None => Err(
                    OslError::Connector("no "@ + wanted + " found in directory "@ + target),
                ),
            }
        },
        TargetView::Missing => Err(OslError::Connector("path does not exist: "@ + target)),
    }
}

/// The database at `target`.
pub fn resolve_db_path(target: &str, default_name: &str, wanted: &str, what: &Target) -> (r: Result<
    String,
    OslError,
>)
    ensures
        outcome(r) == db_path_of(target@, default_name@, wanted@, what.deep_view()),
{
    match what {
        Target::File => Ok(target.to_owned()),
        Target::Missing => Err(OslError::Connector(cat2("path does not exist: ", target))),
        Target::Directory { has_default, entries } => {
            if *has_default {
                return Ok(join_path(target, default_name));
            }
            let ghost all = entries.deep_view();
            let mut i: usize = 0;
            proof {
                assert(all.skip(0) =~= all);
            }
            while i < entries.len()
                invariant
                    i <= entries@.len(),
                    all == entries.deep_view(),
                    what.deep_view() == (TargetView::Directory { has_default: false, entries: all }),
                    first_db(all) == first_db(all.skip(i as int)),
                decreases entries@.len() - i,
            {
                proof {
                    assert(all.skip(i as int)[0] == entries@[i as int].deep_view());
                    assert(all.skip(i as int).drop_first() =~= all.skip(i as int + 1));
                }
                if entries[i].1 && is_db_file(entries[i].0.as_str()) {
                    return Ok(entries[i].0.clone());
                }
                i = i + 1;
            }
            Err(OslError::Connector(cat4("no ", wanted, " found in directory ", target)))
        },
    }
}

/// The error of a session whose row could not be read.
pub open spec fn missing_session(id: Seq<char>, path: Seq<char>, message: Seq<char>) -> OslError<
    Seq<char>,
> {
    OslError::Connector("session "@ + id + " not found in "@ + path + ": "@ + message)
}

/// The error of a session whose row could not be read.
pub fn session_not_found(id: &str, path: &str, message: &str) -> (r: OslError)
    ensures
        r.deep_view() == missing_session(id@, path@, message@),
{
    let mut text = cat4("session ", id, " not found in ", path);
    text.append(": ");
    text.append(message);
    OslError::Connector(text)
}

/// A query for sessions, with the cutoff that is its parameter, if it has one.
#[derive(Clone, Copy, Debug)]
pub struct SessionQuery {
    pub sql: &'static str,
    pub cutoff: Option<i64>,
}

/// The sessions that a query found; none at all is an error.
pub open spec fn listed(
    source: Seq<char>,
    db_path: Seq<char>,
    ids: Seq<Seq<char>>,
    filtered: bool,
) -> Result<Seq<SessionRefView>, OslError<Seq<char>>> {
    if ids.len() == 0 {
        Err(
            OslError::Connector(
                "no sessions found in "@ + db_path + if filtered {
                    " matching the recency filter"@
                } else {
                    ""@
                },
            ),
        )
    } else {
        Ok(
            ids.map_values(
                |id: Seq<char>|
                    SessionRef { source, native_id: id, path: db_path, project_path: None },
            ),
        )
    }
}

/// Makes references of the session identifiers that a query found.
pub fn discover_sessions(source: &str, db_path: &str, ids: Vec<String>, filtered: bool) -> (r:
    Result<Vec<SessionRef>, OslError>)
    ensures
        outcome(r) == listed(source@, db_path@, ids.deep_view(), filtered),
{
    assert(ids.deep_view().len() == ids@.len());
    if ids.len() == 0 {
        let suffix = if filtered {
            " matching the recency filter"
        } else {
            ""
        };
        return Err(OslError::Connector(cat3("no sessions found in ", db_path, suffix)));
    }
    let ghost wanted = listed(source@, db_path@, ids.deep_view(), filtered)->Ok_0;
    let mut out: Vec<SessionRef> = Vec::new();
    for id in it: ids
        invariant
            it.seq() == ids@,
            wanted == ids.deep_view().map_values(
                |id: Seq<char>|
                    SessionRef {
                        source: source@,
                        native_id: id,
                        path: db_path@,
                        project_path: None,
                    },
            ),
            out@.len() == it.index(),
            forall|i: int| 0 <= i < out@.len() ==> (#[trigger] out@[i]).deep_view() == wanted[i],
    {
        out.push(
            SessionRef {
                source: source.to_owned(),
                native_id: id,
                path: db_path.to_owned(),
                project_path: None,
            },
        );
    }
    proof {
        assert(out.deep_view() =~= wanted);
    }
    Ok(out)
}

}
