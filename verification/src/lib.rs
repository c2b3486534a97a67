//! A WebDAV, CalDAV and CardDAV server core: request vocabulary, header and
//! URN parsing, configuration management, caches, rate limiting, routing
//! and request scheduling, with their behaviour stated as contracts.
use vstd::prelude::*;

pub mod access;
pub mod acl;
pub mod async_pool;
pub mod cache;
pub mod clock;
pub mod concurrency;
pub mod config;
pub mod connection_pool;
pub mod copy_move;
pub mod counter;
pub mod data_access;
pub mod delete;
pub mod error;
pub mod file_resource;
pub mod freebusy;
pub mod high_performance;
pub mod lru;
pub mod method;
pub mod monitoring;
pub mod names;
pub mod path;
pub mod performance;
pub mod propstat;
pub mod request;
pub mod resource_uri;
pub mod router;
pub mod security;
pub mod server;
pub mod table;
pub mod text;
pub mod uri;

verus! {
} // verus!
