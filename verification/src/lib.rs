//! Exports a user's starred repositories as one Nix record per repository.
//!
//! The crate holds the rules of the export and nothing that touches the
//! network or the disk: it builds the two GraphQL requests, reads the
//! responses, renders each starred repository as a record file, and decides
//! what the run does next. The caller performs each action and hands back
//! what happened.

pub mod decode;
pub mod edge;
pub mod error;
pub mod escape;
pub mod files;
pub mod json;
pub mod literal;
pub mod parse;
pub mod reading;
pub mod record;
pub mod request;
pub mod run;
pub mod text;
