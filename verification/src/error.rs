//! The errors of the library.

use vstd::prelude::*;

use crate::text::cat2;

verus! {

/// What can go wrong. Each kind carries its own message.
#[derive(Clone, Debug)]
pub enum OslError<S = String> {
    Io(S),
    Sqlite(S),
    Json(S),
    Uuid(S),
    Connector(S),
    Embed(S),
    NotFound(S),
    AlreadyExists(S),
    Usage(S),
}

impl DeepView for OslError {
    type V = OslError<Seq<char>>;

    open spec fn deep_view(&self) -> OslError<Seq<char>> {
        match self {
            OslError::Io(m) => OslError::Io(m@),
            OslError::Sqlite(m) => OslError::Sqlite(m@),
            OslError::Json(m) => OslError::Json(m@),
            OslError::Uuid(m) => OslError::Uuid(m@),
            OslError::Connector(m) => OslError::Connector(m@),
            OslError::Embed(m) => OslError::Embed(m@),
            OslError::NotFound(m) => OslError::NotFound(m@),
            OslError::AlreadyExists(m) => OslError::AlreadyExists(m@),
            OslError::Usage(m) => OslError::Usage(m@),
        }
    }
}

/// A result as mathematical values.
pub open spec fn outcome<T: DeepView>(r: Result<T, OslError>) -> Result<T::V, OslError<Seq<char>>> {
    match r {
        Ok(value) => Ok(value.deep_view()),
        Err(e) => Err(e.deep_view()),
    }
}

/// The error as it is shown to the user.
pub open spec fn error_text(e: OslError<Seq<char>>) -> Seq<char> {
    match e {
        OslError::Io(m) => "I/O error: "@ + m,
        OslError::Sqlite(m) => "SQLite error: "@ + m,
        OslError::Json(m) => "JSON error: "@ + m,
        OslError::Uuid(m) => "UUID error: "@ + m,
        OslError::Connector(m) => "connector error: "@ + m,
        OslError::Embed(m) => "embed error: "@ + m,
        OslError::NotFound(m) => "not found: "@ + m,
        OslError::AlreadyExists(m) => "already exists: "@ + m,
        OslError::Usage(m) => "usage error: "@ + m,
    }
}

impl OslError {
    /// The error as it is shown to the user.
    pub fn to_string(&self) -> (r: String)
        ensures
            r@ == error_text(self.deep_view()),
    {
        match self {
            OslError::Io(m) => cat2("I/O error: ", m.as_str()),
            OslError::Sqlite(m) => cat2("SQLite error: ", m.as_str()),
            OslError::Json(m) => cat2("JSON error: ", m.as_str()),
            OslError::Uuid(m) => cat2("UUID error: ", m.as_str()),
            OslError::Connector(m) => cat2("connector error: ", m.as_str()),
            OslError::Embed(m) => cat2("embed error: ", m.as_str()),
            OslError::NotFound(m) => cat2("not found: ", m.as_str()),
            OslError::AlreadyExists(m) => cat2("already exists: ", m.as_str()),
            OslError::Usage(m) => cat2("usage error: ", m.as_str()),
        }
    }
}

}
