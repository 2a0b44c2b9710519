//! Who wrote which line: AI authorship across a git history.
//!
//! An authorship log says which lines of a commit an AI session wrote. This library carries such
//! logs over amended, squashed, rebased, cherry-picked and reset commits, counts what they say of
//! a commit or a range of commits, and is the logic of the commands around that.
//!
//! Nothing here runs git or touches a file. A function that needs something done asks for it
//! through a [`session::Session`]; its contract is a function of the answers.
pub mod answers;
pub mod assoc;
pub mod authorship;
pub mod binary64;
pub mod changes;
pub mod clock;
pub mod commands;
pub mod digest;
pub mod error;
pub mod git;
pub mod json;
pub mod session;
pub mod text;
