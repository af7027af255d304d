//! The shape that every source is brought into.
//!
//! The types are generic in how they hold text: a program holds it in strings,
//! and a contract speaks of the same value with its texts as sequences of
//! characters (the deep view).

use vstd::prelude::*;

use crate::ids::Uuid;

pub use crate::report::{
    DailyBreakdown, ReportDocument, ReportMetrics, ReportPeriodKind, RoleBreakdown,
    SourceBreakdown, TopProject, TopTool,
};
pub use crate::search::{GrepHit, SemanticHit, SimilarSession};

verus! {

/// Where one session can be read from.
#[derive(Clone, Debug, PartialEq)]
pub struct SessionRef<S = String> {
    pub source: S,
    pub native_id: S,
    pub path: S,
    pub project_path: Option<S>,
}

/// One session with all that was read of it.
#[derive(Clone, Debug, PartialEq)]
pub struct NormalizedSession {
    pub id: Uuid,
    pub source: String,
    pub native_id: String,
    pub title: Option<String>,
    pub started_at: Option<String>,
    pub ended_at: Option<String>,
    pub model: Option<String>,
    pub git_branch: Option<String>,
    pub git_sha: Option<String>,
    pub raw_path: String,
    pub project_root: Option<String>,
    pub parent_session_id: Option<Uuid>,
    pub input_tokens: i64,
    pub output_tokens: i64,
    pub cache_read_tokens: i64,
    pub cache_write_tokens: i64,
    pub tool_call_count: i64,
    pub error_count: i64,
    pub messages: Vec<NormalizedMessage>,
    pub tool_calls: Vec<NormalizedToolCall>,
    pub errata: Vec<Erratum>,
}

/// One message of a session.
#[derive(Clone, Debug, PartialEq)]
pub struct NormalizedMessage<S = String> {
    pub uuid: Uuid,
    pub role: S,
    pub content: Option<S>,
    pub thinking: Option<S>,
    pub parent_uuid: Option<S>,
    pub source_seq: i64,
    pub turn_number: i64,
    pub sequence: i64,
    pub input_tokens: Option<i64>,
    pub output_tokens: Option<i64>,
}

/// One call of a tool, with its result where there is one.
#[derive(Clone, Debug, PartialEq)]
pub struct NormalizedToolCall<S = String> {
    pub uuid: Uuid,
    pub call_id: S,
    pub tool_name: S,
    pub tool_input: Option<S>,
    pub tool_output: Option<S>,
    pub tool_output_raw: Option<S>,
    pub is_error: Option<bool>,
    pub started_at: Option<S>,
    pub completed_at: Option<S>,
    pub request_message_uuid: Uuid,
    pub response_message_uuid: Option<Uuid>,
}

/// Something in the source that could not be brought over as it stood.
#[derive(Clone, Debug, PartialEq)]
pub struct Erratum<S = String> {
    pub issue_type: S,
    pub field_path: Option<S>,
    pub detail: S,
    pub raw_snippet: Option<S>,
}

pub type SessionRefView = SessionRef<Seq<char>>;

pub type MessageView = NormalizedMessage<Seq<char>>;

pub type ToolCallView = NormalizedToolCall<Seq<char>>;

pub type ErratumView = Erratum<Seq<char>>;

/// A session as a mathematical value.
pub struct SessionView {
    pub id: Uuid,
    pub source: Seq<char>,
    pub native_id: Seq<char>,
    pub title: Option<Seq<char>>,
    pub started_at: Option<Seq<char>>,
    pub ended_at: Option<Seq<char>>,
    pub model: Option<Seq<char>>,
    pub git_branch: Option<Seq<char>>,
    pub git_sha: Option<Seq<char>>,
    pub raw_path: Seq<char>,
    pub project_root: Option<Seq<char>>,
    pub parent_session_id: Option<Uuid>,
    pub input_tokens: i64,
    pub output_tokens: i64,
    pub cache_read_tokens: i64,
    pub cache_write_tokens: i64,
    pub tool_call_count: i64,
    pub error_count: i64,
    pub messages: Seq<MessageView>,
    pub tool_calls: Seq<ToolCallView>,
    pub errata: Seq<ErratumView>,
}

impl DeepView for SessionRef {
    type V = SessionRefView;

    open spec fn deep_view(&self) -> SessionRefView {
        SessionRef {
            source: self.source.deep_view(),
            native_id: self.native_id.deep_view(),
            path: self.path.deep_view(),
            project_path: self.project_path.deep_view(),
        }
    }
}

impl DeepView for NormalizedSession {
    type V = SessionView;

    open spec fn deep_view(&self) -> SessionView {
        SessionView {
            id: self.id.deep_view(),
            source: self.source.deep_view(),
            native_id: self.native_id.deep_view(),
            title: self.title.deep_view(),
            started_at: self.started_at.deep_view(),
            ended_at: self.ended_at.deep_view(),
            model: self.model.deep_view(),
            git_branch: self.git_branch.deep_view(),
            git_sha: self.git_sha.deep_view(),
            raw_path: self.raw_path.deep_view(),
            project_root: self.project_root.deep_view(),
            parent_session_id: self.parent_session_id.deep_view(),
            input_tokens: self.input_tokens.deep_view(),
            output_tokens: self.output_tokens.deep_view(),
            cache_read_tokens: self.cache_read_tokens.deep_view(),
            cache_write_tokens: self.cache_write_tokens.deep_view(),
            tool_call_count: self.tool_call_count.deep_view(),
            error_count: self.error_count.deep_view(),
            messages: self.messages.deep_view(),
            tool_calls: self.tool_calls.deep_view(),
            errata: self.errata.deep_view(),
        }
    }
}

impl DeepView for NormalizedMessage {
    type V = MessageView;

    open spec fn deep_view(&self) -> MessageView {
        NormalizedMessage {
            uuid: self.uuid.deep_view(),
            role: self.role.deep_view(),
            content: self.content.deep_view(),
            thinking: self.thinking.deep_view(),
            parent_uuid: self.parent_uuid.deep_view(),
            source_seq: self.source_seq.deep_view(),
            turn_number: self.turn_number.deep_view(),
            sequence: self.sequence.deep_view(),
            input_tokens: self.input_tokens.deep_view(),
            output_tokens: self.output_tokens.deep_view(),
        }
    }
}

impl DeepView for NormalizedToolCall {
    type V = ToolCallView;

    open spec fn deep_view(&self) -> ToolCallView {
        NormalizedToolCall {
            uuid: self.uuid.deep_view(),
            call_id: self.call_id.deep_view(),
            tool_name: self.tool_name.deep_view(),
            tool_input: self.tool_input.deep_view(),
            tool_output: self.tool_output.deep_view(),
            tool_output_raw: self.tool_output_raw.deep_view(),
            is_error: self.is_error.deep_view(),
            started_at: self.started_at.deep_view(),
            completed_at: self.completed_at.deep_view(),
            request_message_uuid: self.request_message_uuid.deep_view(),
            response_message_uuid: self.response_message_uuid.deep_view(),
        }
    }
}

impl DeepView for Erratum {
    type V = ErratumView;

    open spec fn deep_view(&self) -> ErratumView {
        Erratum {
            issue_type: self.issue_type.deep_view(),
            field_path: self.field_path.deep_view(),
            detail: self.detail.deep_view(),
            raw_snippet: self.raw_snippet.deep_view(),
        }
    }
}


/// What ingesting a path brought in.
#[derive(Clone, Debug, PartialEq)]
pub struct IngestReport {
    pub sessions: Vec<IngestReportSession>,
}

/// What ingesting one session brought in.
#[derive(Clone, Debug, PartialEq)]
pub struct IngestReportSession<S = String> {
    pub session_id: Uuid,
    pub title: Option<S>,
    pub message_count: usize,
    pub tool_call_count: usize,
    pub total_tokens: i64,
}

pub type IngestReportSessionView = IngestReportSession<Seq<char>>;

impl DeepView for IngestReportSession {
    type V = IngestReportSessionView;

    open spec fn deep_view(&self) -> IngestReportSessionView {
        IngestReportSession {
            session_id: self.session_id,
            title: self.title.deep_view(),
            message_count: self.message_count,
            tool_call_count: self.tool_call_count,
            total_tokens: self.total_tokens,
        }
    }
}

}
