//! Telling from the first line of a file which source wrote it.

use vstd::prelude::*;

use crate::connector::parts::{or_else, own_text};
use crate::connector::Source;
use crate::json::{json_parsed, Json, Tree};
use crate::text::same;

verus! {

/// The session identifier in the first value of a Copilot file: that of a seed, or that
/// of a start event.
pub open spec fn copilot_id(v: Tree) -> Option<Seq<char>> {
    let seed = if v.get_i64("kind"@) == Some(0i64) {
        nested_id(v, "v"@)
    } else {
        None
    };
    let start = if v.get_str("type"@) == Some("session.start"@) {
        or_else(v.get_str("sessionId"@), nested_id(v, "payload"@))
    } else {
        None
    };
    or_else(seed, start)
}

/// The session identifier of the value under `key`.
pub open spec fn nested_id(v: Tree, key: Seq<char>) -> Option<Seq<char>> {
    match v.get(key) {
        Some(inner) => inner.get_str("sessionId"@),
        None => None,
    }
}

fn read_nested_id<'a>(v: &'a Json, key: &str) -> (r: Option<&'a str>)
    ensures
        r.deep_view() == nested_id(v.tree(), key@),
{
    match v.get(key) {
        Some(inner) => inner.get_str("sessionId"),
        None => None,
    }
}

/// The session identifier in the first value of a Copilot file.
pub fn read_copilot_id(v: &Json) -> (r: Option<String>)
    ensures
        r.deep_view() == copilot_id(v.tree()),
{
    if let Some(kind) = v.get_i64("kind") {
        if kind == 0 {
            if let Some(id) = read_nested_id(v, "v") {
                return Some(id.to_owned());
            }
        }
    }
    if let Some(t) = v.get_str("type") {
        if same(t, "session.start") {
            return match v.get_str("sessionId") {
                Some(id) => Some(id.to_owned()),
                None => own_text(read_nested_id(v, "payload")),
            };
        }
    }
    None
}

/// The session identifier in a line of text, if the line begins a Copilot file.
pub open spec fn classified(line: Seq<char>) -> Option<Seq<char>> {
    match json_parsed(line) {
        Ok(v) => copilot_id(v),
        Err(_) => None,
    }
}

/// The session identifier in a line of text, if the line begins a Copilot file.
pub fn classify_copilot_line(line: &str) -> (r: Option<String>)
    ensures
        r.deep_view() == classified(line@),
{
    match Json::parse(line) {
        Ok(v) => read_copilot_id(&v),
        Err(_) => None,
    }
}

/// What the first line of a file says at its top level.
#[derive(Debug)]
pub struct FirstEvent<S = String, J = Json> {
    pub session_id: Option<S>,
    pub kind: Option<S>,
    pub payload: Option<J>,
}

pub type FirstEventView = FirstEvent<Seq<char>, Tree>;

impl DeepView for FirstEvent {
    type V = FirstEventView;

    open spec fn deep_view(&self) -> FirstEventView {
        FirstEvent {
            session_id: self.session_id.deep_view(),
            kind: self.kind.deep_view(),
            payload: self.payload.deep_view(),
        }
    }
}

/// The source of a file: a Copilot identifier decides first, then a session identifier
/// at the top level, then a description of a session that has an identifier.
pub open spec fn kind_of(copilot: Option<Seq<char>>, event: Option<FirstEventView>) -> Option<
    Source,
> {
    if copilot is Some {
        Some(Source::Copilot)
    } else {
        match event {
            Some(e) => if e.session_id is Some {
                Some(Source::Claude)
            } else if e.kind == Some("session_meta"@) && has_id(e.payload) {
                Some(Source::Codex)
            } else {
                None
            },
            None => None,
        }
    }
}

pub open spec fn has_id(payload: Option<Tree>) -> bool {
    match payload {
        Some(p) => match p.get_str("id"@) {
            Some(id) => id.len() > 0,
            None => false,
        },
        None => false,
    }
}

/// Decides the source of a file whose first line has been read.
pub fn kind_of_event(copilot: &Option<String>, event: &Option<FirstEvent>) -> (r: Option<Source>)
    ensures
        r == kind_of(copilot.deep_view(), event.deep_view()),
{
    if copilot.is_some() {
        return Some(Source::Copilot);
    }
    if let Some(e) = event {
        if e.session_id.is_some() {
            return Some(Source::Claude);
        }
        if let Some(kind) = &e.kind {
            if same(kind.as_str(), "session_meta") {
                if let Some(payload) = &e.payload {
                    if let Some(id) = payload.get_str("id") {
                        if !id.is_empty() {
                            return Some(Source::Codex);
                        }
                    }
                }
            }
        }
    }
    None
}

/// Tells from the first line of a file which source wrote it; `event` is the line as an
/// event, if it could be read as one.
pub fn detect_jsonl_kind(first_line: &str, event: &Option<FirstEvent>) -> (r: Option<Source>)
    ensures
        r == kind_of(classified(first_line@), event.deep_view()),
{
    let copilot = classify_copilot_line(first_line);
    kind_of_event(&copilot, event)
}

}
