//! Read-through caching core of a market-board service: bounded caches with
//! age-based expiry, single-flight loading, invalidation after commit, a
//! registry of named caches and a retention sweeper, together with the pure
//! request and game-data helpers the service handlers use.
pub mod gamedata;
mod table;
pub mod store;
pub mod flight;
pub mod registry;
pub mod sweeper;
pub mod utc;
pub mod upload;
pub mod entities;
pub mod item;
pub mod service;
pub mod stats;
