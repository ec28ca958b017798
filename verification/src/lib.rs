//! Verified protocol engine for an IMAP (RFC 3501) client: a byte-level
//! decoder for server responses and a tag-correlating multiplexer model.

pub mod body;
pub mod connection;
pub mod error;
pub mod grammar;
pub mod lex;
pub mod mailbox;
pub mod message;
pub mod parser;
pub mod response;
pub mod types;
pub mod tag;
