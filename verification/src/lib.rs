//! A searchable vault of the sessions of coding assistants.

pub mod calendar;
pub mod cli;
pub mod connector;
pub mod db;
pub mod discover;
pub mod embed;
pub mod error;
pub mod export;
pub mod ids;
pub mod ingest;
pub mod json;
pub mod model;
pub mod paths;
pub mod project;
pub mod recency;
pub mod report;
pub mod search;
pub mod setup;
pub mod text;
pub mod watch;
