//! What is done to a vault.

use vstd::prelude::*;

use super::{
    default_path, embedding_query, made_at, pending_migrations, source_rows, TablesView, ADD_SUMMARY_EMBEDDING,
    REPORT_TABLES,
};
use crate::connector::{source_name, Source};
use crate::error::OslError;
use crate::paths::path_join;
use crate::recency::Cutoff;

verus! {

/// A vault is made unless something is there and is not to be overwritten.
pub proof fn law_when_a_vault_is_made(path: Seq<char>, canonical: Seq<char>, force: bool)
    ensures
        made_at(path, canonical, false, force) == Ok::<Seq<char>, OslError<Seq<char>>>(canonical),
        made_at(path, canonical, true, true) == Ok::<Seq<char>, OslError<Seq<char>>>(canonical),
        made_at(path, canonical, true, false) == Err::<Seq<char>, OslError<Seq<char>>>(
            OslError::AlreadyExists("vault already exists at "@ + path),
        ),
{
}

/// A vault that has sessions without a column for their vector gets it; one that lacks either
/// table of the reports gets them; and no other statement is run.
pub proof fn law_what_is_brought_up_to_date(t: TablesView)
    ensures
        ({
            let column = t.sessions is Some && !t.sessions->0.contains("summary_embedding"@);
            let tables = !t.reports || !t.usage_summary;
            let m = pending_migrations(t);
            &&& m.len() == (if column {
                1int
            } else {
                0int
            }) + (if tables {
                1int
            } else {
                0int
            })
            &&& column ==> m.first() == ADD_SUMMARY_EMBEDDING@
            &&& tables ==> m.last() == REPORT_TABLES@
        }),
{
}

/// A new vault knows all five sources, each once.
pub proof fn law_new_vaults_know_the_sources()
    ensures
        source_rows() == "INSERT OR IGNORE INTO sources(name,is_active) VALUES "@ + ("('"@
            + source_name(Source::Claude) + "',1)"@) + ","@ + ("('"@ + source_name(Source::Codex)
            + "',1)"@) + ","@ + ("('"@ + source_name(Source::Copilot) + "',1)"@) + ","@ + ("('"@
            + source_name(Source::OpenCode) + "',1)"@) + ","@ + ("('"@ + source_name(
            Source::Hermes,
        ) + "',1)"@) + ";"@,
{
}

/// Messages are embedded in their order: those without a vector, or all of them where that is
/// forced; with a cutoff, only those from its date on.
pub proof fn law_which_messages_are_asked_for(c: Cutoff)
    ensures
        ({
            let all = "SELECT uuid, session_id, role, content, thinking FROM messages"@;
            &&& embedding_query(None, false).0 == all + " WHERE embedding IS NULL"@
                + " ORDER BY id"@
            &&& embedding_query(None, true).0 == all + " ORDER BY id"@
            &&& embedding_query(Some(c), false).0 == all
                + " WHERE embedding IS NULL AND created_at >= ?1"@ + " ORDER BY id"@
            &&& embedding_query(Some(c), true).0 == all + " WHERE created_at >= ?1"@
                + " ORDER BY id"@
            &&& embedding_query(None, false).1.len() == 0
            &&& embedding_query(None, true).1.len() == 0
            &&& embedding_query(Some(c), false).1 == seq![c.date]
            &&& embedding_query(Some(c), true).1 == seq![c.date]
        }),
{
    reveal_strlit("");
    let all = "SELECT uuid, session_id, role, content, thinking FROM messages"@;
    assert(all + ""@ =~= all);
}

/// The vault is where the environment says, whatever the home directory; otherwise it is a file
/// of its own directory in the home.
pub proof fn law_where_the_vault_is(path: Seq<char>, home: Option<Seq<char>>, dir: Seq<char>)
    ensures
        default_path(Some(path), home) == path,
        default_path(None, Some(dir)) == path_join(
            path_join(dir, ".opensessionlog"@),
            "data.sqlite"@,
        ),
{
}

}
