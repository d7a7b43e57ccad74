//! Subscription continuity engine.
//!
//! Users pre-sign a sequence of renewal transactions for a community
//! subscription. The engine stores them, decides from the last activity seen on
//! the ledger whether a user is currently subscribed, picks the pre-signed
//! renewal that is due, and prepares the two-part batch that submits it.
//!
//! Every function here is pure or works on a store value handed to it; talking
//! to the ledger network and to HTTP clients is left to the caller.

pub mod time;
pub mod zksync;
pub mod resolver;
pub mod database;
pub mod model;
pub mod memory_db;
pub mod coordinator;
pub mod requests;
