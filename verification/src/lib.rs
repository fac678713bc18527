//! Interpretation of IMAP server responses.
//!
//! After a command has been sent, the server answers with a stream of responses, in which the
//! data of the command, its completion and responses that nobody asked for are mixed. For each
//! command there is a function here that takes the state of the command and the next item of the
//! stream and says how the command goes on: see [`command`] and, for commands whose answer is a
//! stream itself, [`listing`]. What a command makes no use of goes through [`unsolicited`].

pub mod capabilities;
pub mod capability_laws;
pub mod channel;
pub mod command;
pub mod error;
pub mod listing;
pub mod listing_laws;
pub mod mailbox;
pub mod mailbox_laws;
pub mod metadata;
pub mod noop;
pub mod refusal;
pub mod response;
pub mod search;
pub mod search_laws;
pub mod text;
pub mod text_laws;
pub mod unsolicited;
