//! Verified core of a small web site: page listings, flash messages, the
//! users-online list, user and group records, and the mapping of server
//! errors to responses.

pub mod datetime;
pub mod extensions;
pub mod forms;
pub mod inits;
pub mod models;
pub mod text;
