//! Who wrote which lines: transcripts of AI sessions, authorship logs, and what is counted and
//! rebuilt from them.
pub mod authorship_log;
pub mod carrying;
pub mod counting;
pub mod effects;
pub mod hanging;
pub mod matching;
pub mod range_authorship;
pub mod ranging;
pub mod rebase_authorship;
pub mod reconstruction;
pub mod speech;
pub mod squashing;
pub mod stats;
pub mod transcript;
pub mod working_log;
