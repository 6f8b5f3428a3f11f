//! Storage engine and session-recovery logic for a multi-tenant
//! document-session backend.

use vstd::prelude::*;

pub mod browse;
pub mod cas;
pub mod chunks;
pub mod config;
pub mod codec;
pub mod error;
pub mod flow;
pub mod forward;
pub mod index;
pub mod layout;
pub mod proxy_error;
pub mod registry;
pub mod retry;
pub mod service;
pub mod sync;
pub mod token;
pub mod text;
pub mod wal;
pub mod watch;
