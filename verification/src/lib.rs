//! Session coordination: a session registry with heartbeat expiry, advisory
//! resource locks and a broadcast inbox, with every rule proved.

pub mod cli;
pub mod clock;
pub mod config;
pub mod db;
pub mod error;
pub mod identity;
pub mod laws;
pub mod order;
pub mod server;
pub mod text;
pub mod tools;
pub mod ttl;
pub mod util;
