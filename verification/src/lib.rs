//! Resolves a song query or page URL into structured track and lyrics data.

pub mod cli;
pub mod config;
pub mod irc;
pub mod json;
pub mod mxm;
pub mod retry;
pub mod search;
pub mod text;
pub mod track;
pub mod url;
