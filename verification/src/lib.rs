//! A deadline-tracking library: a domain model for homework/deadline items
//! (calendar moments, signed durations, persisted records with partial
//! updates) and interchangeable storage backends (volatile, flat-file text,
//! embedded SQL) that all satisfy one repository contract.

pub mod clock;
pub mod codec;
pub mod datetime;
pub mod digits;
pub mod ids;
pub mod jsonfile;
pub mod laws;
pub mod memory;
pub mod record;
pub mod repo;
pub mod collection;
pub mod sqlite;
pub mod store;
pub mod text;
