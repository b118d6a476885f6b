//! Git-backed vault operations: the decisions, parsers and path mappings
//! behind commit, status, history, pulse, conflict, remote and file-URL flows.

pub mod text;
pub mod workspace;
pub mod command;
pub mod commit;
pub mod remote;
pub mod file_url;
pub mod dates;
pub mod pulse;
pub mod status;
pub mod conflict;
pub mod history;
pub mod remote_status;
