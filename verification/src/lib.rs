//! Redaction of e-mail addresses and phone numbers in the lines of a database dump.

pub mod engine;
pub mod mock;
pub mod pattern;
pub mod redact;
pub mod splice;
