//! Client-side logic for a chat-completion HTTP API: request construction,
//! JSON framing of the request and response bodies, credential checking,
//! and extraction of the completion text from a response.

pub mod chat;
pub mod credentials;
pub mod de;
pub mod error;
pub mod headers;
pub mod image;
pub mod jsonfmt;
pub mod jsonparse;
pub mod laws;
pub mod ser;
pub mod strutil;
pub mod types;
