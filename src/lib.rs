//! Conversation session store, streaming-response aggregator and command
//! interpreter of a chat relay between a messaging transport and a remote
//! completion engine.
pub mod command;
pub mod session;
pub mod store;
pub mod stream;
pub mod turn;
