//! An in-memory key/value server core speaking a RESP-style protocol.
//!
//! Requests arrive as framed byte strings, are split into an argument vector,
//! dispatched to a typed store (strings or lists) or to the key index itself,
//! and answered with RESP reply bytes. Every step is specified over a
//! mathematical model of the server state and proved against it.

pub mod command;
pub mod commands;
pub mod controller;
pub mod index;
pub mod laws;
pub mod list_executor;
pub mod protocol;
pub mod resp;
pub mod string_executor;
pub mod string_storage;
pub mod table;
pub mod text;
pub mod tokenizer;
pub mod value;
pub mod verb;
