//! Decision logic of a conversational relay bot: who may talk to it, what
//! history goes to the language model, how replies are delivered, and how
//! the "working" presence signal is kept alive and stopped.

pub mod cli;
pub mod command;
pub mod exchange;
pub mod heartbeat;
pub mod history;
pub mod kv;
pub mod persona;
pub mod reply;
pub mod router;
pub mod text;
pub mod user;
