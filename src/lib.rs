//! A chat bot's response pipeline: conversation context assembly,
//! retrieval of archived messages by tenant, prompt composition, and the
//! defer / compute / deliver lifecycle of a command's reply.

pub mod commands;
pub mod context;
pub mod delivery;
pub mod environment;
pub mod handler;
pub mod llm;
pub mod text;
pub mod vec_db;
