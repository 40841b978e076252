//! Account and credential store for the unix login utilities: the binary
//! password record, the salted iterated hash, the record transitions, and the
//! path arithmetic of the symlink-based account directories.
pub mod digest;
pub mod dirs;
pub mod error;
pub mod groups;
pub mod idlist;
pub mod password;
pub mod record;
pub mod transaction;
pub mod users;
