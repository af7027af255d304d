//! The vault: where it is, what it is made of, and how an older one is brought up to date.

use vstd::prelude::*;

use crate::connector::{source_name, Source};
use crate::error::{outcome, OslError};
use crate::paths::{join_path, path_join};
use crate::recency::{Cutoff, RecencyFilter};
use crate::text::{cat2, cat3, same};

pub mod laws;

verus! {

/// The settings of every connection.
pub const PRAGMAS: &'static str = "PRAGMA journal_mode=WAL;
PRAGMA foreign_keys=ON;
PRAGMA synchronous=NORMAL;
PRAGMA busy_timeout=5000;";

/// The tables of a new vault, with their indexes, and the triggers that keep the text
/// index of the messages up to date.
pub const SCHEMA_SQL: &'static str = "CREATE TABLE IF NOT EXISTS vault_config (
    key TEXT PRIMARY KEY,
    value TEXT,
    description TEXT,
    updated_at TEXT NOT NULL DEFAULT (strftime('%Y-%m-%dT%H:%M:%SZ','now'))
);
CREATE TABLE IF NOT EXISTS sources (
    id INTEGER PRIMARY KEY AUTOINCREMENT,
    name TEXT NOT NULL UNIQUE,
    is_active INTEGER NOT NULL DEFAULT 1
);
CREATE TABLE IF NOT EXISTS projects (
    id INTEGER PRIMARY KEY AUTOINCREMENT,
    root_path TEXT NOT NULL UNIQUE,
    git_remote TEXT,
    git_owner TEXT,
    git_repo TEXT,
    slug TEXT NOT NULL
);
CREATE TABLE IF NOT EXISTS sessions (
    id TEXT PRIMARY KEY,
    source_id INTEGER NOT NULL REFERENCES sources(id),
    project_id INTEGER REFERENCES projects(id),
    parent_session_id TEXT REFERENCES sessions(id),
    title TEXT,
    started_at TEXT,
    ended_at TEXT,
    duration_seconds INTEGER,
    model TEXT,
    tool_call_count INTEGER NOT NULL DEFAULT 0,
    input_tokens INTEGER NOT NULL DEFAULT 0,
    output_tokens INTEGER NOT NULL DEFAULT 0,
    cache_read_tokens INTEGER NOT NULL DEFAULT 0,
    cache_write_tokens INTEGER NOT NULL DEFAULT 0,
    total_tokens INTEGER GENERATED ALWAYS AS \
(input_tokens + output_tokens + cache_read_tokens + cache_write_tokens) STORED,
    estimated_cost_usd REAL,
    git_branch TEXT,
    git_sha TEXT,
    raw_path TEXT,
    error_count INTEGER NOT NULL DEFAULT 0,
    summary_embedding BLOB,
    created_at TEXT NOT NULL DEFAULT (strftime('%Y-%m-%dT%H:%M:%SZ','now'))
);
CREATE INDEX IF NOT EXISTS idx_sessions_project ON sessions(project_id);
CREATE INDEX IF NOT EXISTS idx_sessions_source ON sessions(source_id);
CREATE INDEX IF NOT EXISTS idx_sessions_started ON sessions(started_at);
CREATE TABLE IF NOT EXISTS messages (
    id INTEGER PRIMARY KEY AUTOINCREMENT,
    uuid TEXT NOT NULL,
    session_id TEXT NOT NULL REFERENCES sessions(id),
    role TEXT NOT NULL,
    content TEXT,
    thinking TEXT,
    parent_uuid TEXT,
    source_seq INTEGER,
    turn_number INTEGER,
    sequence INTEGER NOT NULL DEFAULT 0,
    input_tokens INTEGER,
    output_tokens INTEGER,
    embedding BLOB,
    created_at TEXT NOT NULL DEFAULT (strftime('%Y-%m-%dT%H:%M:%SZ','now'))
);
CREATE INDEX IF NOT EXISTS idx_messages_session ON messages(session_id);
CREATE INDEX IF NOT EXISTS idx_messages_uuid ON messages(uuid);
CREATE VIRTUAL TABLE IF NOT EXISTS messages_fts USING fts5(
    content, thinking, content='messages', content_rowid='id'
);
CREATE TRIGGER IF NOT EXISTS messages_ai AFTER INSERT ON messages BEGIN
    INSERT INTO messages_fts(rowid, content, thinking)
    VALUES (new.id, new.content, new.thinking);
END;
CREATE TRIGGER IF NOT EXISTS messages_ad AFTER DELETE ON messages BEGIN
    INSERT INTO messages_fts(messages_fts, rowid, content, thinking)
    VALUES ('delete', old.id, old.content, old.thinking);
END;
CREATE TRIGGER IF NOT EXISTS messages_au AFTER UPDATE OF content, thinking ON messages BEGIN
    INSERT INTO messages_fts(messages_fts, rowid, content, thinking)
    VALUES ('delete', old.id, old.content, old.thinking);
    INSERT INTO messages_fts(rowid, content, thinking)
    VALUES (new.id, new.content, new.thinking);
END;
CREATE TABLE IF NOT EXISTS tool_calls (
    id INTEGER PRIMARY KEY AUTOINCREMENT,
    uuid TEXT NOT NULL,
    session_id TEXT NOT NULL REFERENCES sessions(id),
    request_message_id INTEGER REFERENCES messages(id),
    response_message_id INTEGER REFERENCES messages(id),
    call_id TEXT,
    tool_name TEXT NOT NULL,
    tool_input TEXT,
    tool_output TEXT,
    tool_output_raw TEXT,
    is_error INTEGER,
    started_at TEXT,
    completed_at TEXT
);
CREATE INDEX IF NOT EXISTS idx_tool_calls_session ON tool_calls(session_id);
CREATE INDEX IF NOT EXISTS idx_tool_calls_call_id ON tool_calls(call_id);
CREATE TABLE IF NOT EXISTS errata (
    id INTEGER PRIMARY KEY AUTOINCREMENT,
    session_id TEXT REFERENCES sessions(id),
    source_id INTEGER REFERENCES sources(id),
    issue_type TEXT NOT NULL,
    field_path TEXT,
    detail TEXT NOT NULL,
    raw_snippet TEXT,
    created_at TEXT NOT NULL DEFAULT (strftime('%Y-%m-%dT%H:%M:%SZ','now'))
);
CREATE INDEX IF NOT EXISTS idx_errata_session ON errata(session_id);";

/// Adds the vector of a session to a vault that was made without it.
pub const ADD_SUMMARY_EMBEDDING: &'static str =
    "ALTER TABLE sessions ADD COLUMN summary_embedding BLOB";

/// Makes the tables of the reports, where they are missing.
pub const REPORT_TABLES: &'static str = "CREATE TABLE IF NOT EXISTS reports (
    id INTEGER PRIMARY KEY AUTOINCREMENT,
    scope TEXT NOT NULL,
    period_start TEXT NOT NULL,
    period_end TEXT NOT NULL,
    generated_at TEXT NOT NULL DEFAULT (strftime('%Y-%m-%dT%H:%M:%SZ','now')),
    data_json TEXT NOT NULL,
    markdown TEXT,
    previous_report_id INTEGER REFERENCES reports(id),
    token_budget_used INTEGER,
    created_at TEXT NOT NULL DEFAULT (strftime('%Y-%m-%dT%H:%M:%SZ','now'))
);
CREATE INDEX IF NOT EXISTS idx_reports_scope ON reports(scope);
CREATE INDEX IF NOT EXISTS idx_reports_period ON reports(period_start, period_end);
CREATE INDEX IF NOT EXISTS idx_reports_previous ON reports(previous_report_id);

CREATE TABLE IF NOT EXISTS usage_summary (
    id INTEGER PRIMARY KEY AUTOINCREMENT,
    date TEXT NOT NULL,
    source_id INTEGER NOT NULL REFERENCES sources(id),
    project_id INTEGER REFERENCES projects(id),
    session_count INTEGER NOT NULL DEFAULT 0,
    message_count INTEGER NOT NULL DEFAULT 0,
    input_tokens INTEGER NOT NULL DEFAULT 0,
    output_tokens INTEGER NOT NULL DEFAULT 0,
    cache_read_tokens INTEGER NOT NULL DEFAULT 0,
    cache_write_tokens INTEGER NOT NULL DEFAULT 0,
    total_tokens INTEGER GENERATED ALWAYS AS \
(input_tokens + output_tokens + cache_read_tokens + cache_write_tokens) STORED,
    estimated_cost_usd REAL NOT NULL DEFAULT 0,
    tool_call_count INTEGER NOT NULL DEFAULT 0,
    error_count INTEGER NOT NULL DEFAULT 0,
    created_at TEXT NOT NULL DEFAULT (strftime('%Y-%m-%dT%H:%M:%SZ','now')),
    UNIQUE(date, source_id, project_id)
);
CREATE INDEX IF NOT EXISTS idx_usage_date ON usage_summary(date);
CREATE INDEX IF NOT EXISTS idx_usage_source ON usage_summary(source_id);
CREATE INDEX IF NOT EXISTS idx_usage_project ON usage_summary(project_id);";

/// The first rows of the configuration of a new vault.
pub const CONFIG_ROWS: &'static str =
    "INSERT OR IGNORE INTO vault_config(key,value,description) VALUES
('schema_version','1','OpenSessionLog schema version'),
('embedding_model',NULL,'User-supplied embedder model name (set in Phase 2)'),
('embedding_dimensions',NULL,'Embedding vector dimension (set in Phase 2)'),
('embedding_endpoint',NULL,'Remote embedding endpoint if any (set in Phase 2)'),
('embedder_path',NULL,'Absolute path to the user-supplied embedder script (set by osl embed)'),
('default_distance_metric','cosine','sqlite-vec distance metric for semantic search');";

/// The row of a source in a table of sources.
pub open spec fn source_row(source: Source) -> Seq<char> {
    "('"@ + source_name(source) + "',1)"@
}

/// The statement that adds the sources to a new vault.
pub open spec fn source_rows() -> Seq<char> {
    "INSERT OR IGNORE INTO sources(name,is_active) VALUES "@ + source_row(Source::Claude) + ","@
        + source_row(Source::Codex) + ","@ + source_row(Source::Copilot) + ","@ + source_row(
        Source::OpenCode,
    ) + ","@ + source_row(Source::Hermes) + ";"@
}

fn write_source_row(source: Source) -> (r: String)
    ensures
        r@ == source_row(source),
{
    cat3("('", source.name(), "',1)")
}

/// The statement that adds the sources to a new vault.
pub fn seed_sources() -> (r: String)
    ensures
        r@ == source_rows(),
{
    let mut sql = cat2(
        "INSERT OR IGNORE INTO sources(name,is_active) VALUES ",
        write_source_row(Source::Claude).as_str(),
    );
    sql.append(",");
    sql.append(write_source_row(Source::Codex).as_str());
    sql.append(",");
    sql.append(write_source_row(Source::Copilot).as_str());
    sql.append(",");
    sql.append(write_source_row(Source::OpenCode).as_str());
    sql.append(",");
    sql.append(write_source_row(Source::Hermes).as_str());
    sql.append(";");
    sql
}

/// Adds the sources that vaults were once made without.
pub const ADD_SOURCES: &'static str = "INSERT OR IGNORE INTO sources(name,is_active)
SELECT 'claudecode', 1
WHERE EXISTS (SELECT 1 FROM sqlite_master WHERE type='table' AND name='sources');
INSERT OR IGNORE INTO sources(name,is_active)
SELECT 'opencode', 1
WHERE EXISTS (SELECT 1 FROM sqlite_master WHERE type='table' AND name='sources');
INSERT OR IGNORE INTO sources(name,is_active)
SELECT 'hermes', 1
WHERE EXISTS (SELECT 1 FROM sqlite_master WHERE type='table' AND name='sources');";

/// Where a vault is made that is asked for at `path`: at its canonical path, but what is
/// there already is not overwritten, unless that is asked for.
pub open spec fn made_at(
    path: Seq<char>,
    canonical: Seq<char>,
    exists: bool,
    force: bool,
) -> Result<Seq<char>, OslError<Seq<char>>> {
    if exists && !force {
        Err(OslError::AlreadyExists("vault already exists at "@ + path))
    } else {
        Ok(canonical)
    }
}

/// The canonical path at which a vault is made that is asked for at `path`; `exists` says
/// whether something is there already.
pub fn init(path: &str, canonical: String, exists: bool, force: bool) -> (r: Result<
    String,
    OslError,
>)
    ensures
        outcome(r) == made_at(path@, canonical@, exists, force),
{
    if exists && !force {
        Err(OslError::AlreadyExists(cat2("vault already exists at ", path)))
    } else {
        Ok(canonical)
    }
}

/// The path of the vault where none is given: what the environment says, or else a file
/// below the home directory.
pub open spec fn default_path(vault: Option<Seq<char>>, home: Option<Seq<char>>) -> Seq<char> {
    match vault {
        Some(path) => path,
        None => path_join(path_join(home->0, ".opensessionlog"@), "data.sqlite"@),
    }
}

/// The path of the vault where none is given: what the environment says, or else a file
/// below the home directory.
pub fn default_vault_path(osl_vault: Option<String>, home: Option<String>) -> (r: String)
    requires
        osl_vault is Some || home is Some,
    ensures
        r@ == match osl_vault {
            Some(path) => path@,
            None => path_join(path_join(home->0@, ".opensessionlog"@), "data.sqlite"@),
        },
        r@ == default_path(osl_vault.deep_view(), home.deep_view()),
{
    match (osl_vault, home) {
        (Some(path), _) => path,
        (None, Some(home)) => join_path(
            join_path(home.as_str(), ".opensessionlog").as_str(),
            "data.sqlite",
        ),
        (None, None) => "".to_owned(),
    }
}

/// Whether `column` is among the columns of a table.
pub fn column_exists(columns: &Vec<String>, column: &str) -> (r: bool)
    ensures
        r == columns.deep_view().contains(column@),
{
    let mut i: usize = 0;
    while i < columns.len()
        invariant
            i <= columns@.len(),
            forall|j: int| 0 <= j < i ==> (#[trigger] columns@[j])@ != column@,
        decreases columns@.len() - i,
    {
        if same(columns[i].as_str(), column) {
            assert(columns.deep_view()[i as int] == column@);
            return true;
        }
        i = i + 1;
    }
    proof {
        if columns.deep_view().contains(column@) {
            let j = choose|j: int|
                0 <= j < columns.deep_view().len() && columns.deep_view()[j] == column@;
            assert(columns@[j]@ == column@);
        }
    }
    false
}

/// What an opened vault holds.
#[derive(Clone, Debug)]
pub struct Tables<C = Vec<String>> {
    /// The columns of the sessions, if there is a table of them.
    pub sessions: Option<C>,
    pub reports: bool,
    pub usage_summary: bool,
}

pub type TablesView = Tables<Seq<Seq<char>>>;

impl DeepView for Tables {
    type V = TablesView;

    open spec fn deep_view(&self) -> TablesView {
        Tables {
            sessions: self.sessions.deep_view(),
            reports: self.reports,
            usage_summary: self.usage_summary,
        }
    }
}

/// Whether the sessions of a vault have no column for their vector.
pub open spec fn lacks_summary(t: TablesView) -> bool {
    t.sessions is Some && !t.sessions->0.contains("summary_embedding"@)
}

/// The statements that bring a vault up to date.
pub open spec fn pending_migrations(t: TablesView) -> Seq<Seq<char>> {
    let column = if lacks_summary(t) {
        seq![ADD_SUMMARY_EMBEDDING@]
    } else {
        Seq::empty()
    };
    let tables = if t.reports && t.usage_summary {
        Seq::empty()
    } else {
        seq![REPORT_TABLES@]
    };
    column + tables
}

/// The statements that bring a vault up to date.
pub fn migrations(t: &Tables) -> (r: Vec<&'static str>)
    ensures
        r.deep_view() == pending_migrations(t.deep_view()),
{
    let mut out: Vec<&'static str> = Vec::new();
    if let Some(columns) = &t.sessions {
        if !column_exists(columns, "summary_embedding") {
            out.push(ADD_SUMMARY_EMBEDDING);
        }
    }
    if !(t.reports && t.usage_summary) {
        out.push(REPORT_TABLES);
    }
    proof {
        assert(out.deep_view() =~= pending_migrations(t.deep_view()));
    }
    out
}

/// The tables after the migrations.
pub open spec fn migrated(t: TablesView) -> TablesView {
    Tables {
        sessions: if lacks_summary(t) {
            Some(t.sessions->0.push("summary_embedding"@))
        } else {
            t.sessions
        },
        reports: true,
        usage_summary: true,
    }
}

/// A vault that was brought up to date needs nothing more, however often it is opened.
pub proof fn law_migration_is_done_once(t: TablesView)
    ensures
        pending_migrations(migrated(t)) == Seq::<Seq<char>>::empty(),
        migrated(migrated(t)) == migrated(t),
{
    if lacks_summary(t) {
        let columns = t.sessions->0.push("summary_embedding"@);
        assert(columns[columns.len() - 1] == "summary_embedding"@);
    }
    assert(pending_migrations(migrated(t)) =~= Seq::empty());
}

/// The messages that are to be embedded: those without a vector, or all of them where
/// `force` says so, and of these the ones from the cutoff on.
pub open spec fn embedding_query(cutoff: Option<Cutoff>, force: bool) -> (
    Seq<char>,
    Seq<Seq<char>>,
) {
    let head = "SELECT uuid, session_id, role, content, thinking FROM messages"@;
    let tail = " ORDER BY id"@;
    match (cutoff, force) {
        (None, false) => (head + " WHERE embedding IS NULL"@ + tail, Seq::empty()),
        (None, true) => (head + ""@ + tail, Seq::empty()),
        (Some(c), false) => (
            head + " WHERE embedding IS NULL AND created_at >= ?1"@ + tail,
            seq![c.date],
        ),
        (Some(c), true) => (head + " WHERE created_at >= ?1"@ + tail, seq![c.date]),
    }
}

/// The query for the messages that are to be embedded, and its parameters.
pub fn messages_for_embedding_query(filter: &RecencyFilter, force: bool) -> (r: (
    String,
    Vec<String>,
))
    ensures
        r.deep_view() == embedding_query(filter.deep_view(), force),
{
    let mut params: Vec<String> = Vec::new();
    let wanted = match filter.since_date() {
        None => if force {
            ""
        } else {
            " WHERE embedding IS NULL"
        },
        Some(date) => {
            params.push(date.to_owned());
            if force {
                " WHERE created_at >= ?1"
            } else {
                " WHERE embedding IS NULL AND created_at >= ?1"
            }
        },
    };
    proof {
        assert(params.deep_view() =~= embedding_query(filter.deep_view(), force).1);
    }
    (
        cat3(
            "SELECT uuid, session_id, role, content, thinking FROM messages",
            wanted,
            " ORDER BY id",
        ),
        params,
    )
}

}
