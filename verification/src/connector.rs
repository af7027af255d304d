//! Connectors: one for each program whose history can be read.

use vstd::prelude::*;

use crate::ids::{session_uuid, Uuid};
use crate::model::SessionRef;
use crate::text::same;

pub mod claude;
pub mod codex;
pub mod copilot;
pub mod finding;
pub mod hermes;
pub mod laws;
pub mod opencode;
pub mod parts;
pub mod probe;
pub mod reader;
pub mod sqlite;
pub mod walk;

pub use crate::connector::claude::ClaudeCodeConnector;
pub use crate::connector::codex::CodexCliConnector;
pub use crate::connector::copilot::CopilotChatConnector;
pub use crate::connector::hermes::HermesSessionParser;
pub use crate::connector::opencode::OpenCodeConnector;

verus! {

/// A program whose history can be read.
#[derive(Clone, Copy, Debug, PartialEq, Eq, Structural)]
pub enum Source {
    Claude,
    Codex,
    OpenCode,
    Hermes,
    Copilot,
}

impl DeepView for Source {
    type V = Source;

    open spec fn deep_view(&self) -> Source {
        *self
    }
}

/// The name that a source is stored under.
pub open spec fn source_name(source: Source) -> Seq<char> {
    match source {
        Source::Claude => "claudecode"@,
        Source::Codex => "codex"@,
        Source::OpenCode => "opencode"@,
        Source::Hermes => "hermes"@,
        Source::Copilot => "copilot"@,
    }
}

/// The source that is stored under `name`.
pub open spec fn source_named(name: Seq<char>) -> Option<Source> {
    if name == source_name(Source::Claude) {
        Some(Source::Claude)
    } else if name == source_name(Source::Codex) {
        Some(Source::Codex)
    } else if name == source_name(Source::OpenCode) {
        Some(Source::OpenCode)
    } else if name == source_name(Source::Hermes) {
        Some(Source::Hermes)
    } else if name == source_name(Source::Copilot) {
        Some(Source::Copilot)
    } else {
        None
    }
}

impl Source {
    /// The name that this source is stored under.
    pub fn name(self) -> (r: &'static str)
        ensures
            r@ == source_name(self),
    {
        match self {
            Source::Claude => "claudecode",
            Source::Codex => "codex",
            Source::OpenCode => "opencode",
            Source::Hermes => "hermes",
            Source::Copilot => "copilot",
        }
    }

    /// The identifier of a session of this source.
    pub fn session_id(self, session_ref: &SessionRef) -> (r: Uuid)
        ensures
            r == session_uuid(source_name(self), session_ref.native_id@),
    {
        crate::ids::session_id(self.name(), session_ref.native_id.as_str())
    }
}

/// Finds a source by its name.
pub fn for_source(name: &str) -> (r: Option<Source>)
    ensures
        r == source_named(name@),
{
    if same(name, "claudecode") {
        Some(Source::Claude)
    } else if same(name, "codex") {
        Some(Source::Codex)
    } else if same(name, "opencode") {
        Some(Source::OpenCode)
    } else if same(name, "hermes") {
        Some(Source::Hermes)
    } else if same(name, "copilot") {
        Some(Source::Copilot)
    } else {
        None
    }
}

/// Every source is found by its own name.
pub proof fn law_source_names(source: Source)
    ensures
        source_named(source_name(source)) == Some(source),
{
    reveal_strlit("claudecode");
    reveal_strlit("codex");
    reveal_strlit("opencode");
    reveal_strlit("hermes");
    reveal_strlit("copilot");
    assert("claudecode"@.len() == 10);
    assert("codex"@.len() == 5);
    assert("opencode"@.len() == 8);
    assert("hermes"@.len() == 6);
    assert("copilot"@.len() == 7);
}

}
