//! Record and counter store of a URL shortener: short identifiers are
//! allocated for submitted URLs, visitors are redirected from an identifier
//! to its URL, redirects are counted per identifier, and the counts are
//! readable behind an optional password.
//!
//! The modules, from the leaves up:
//! - `error`: the typed failures and their HTTP status;
//! - `count`: the decimal text of a stored count;
//! - `digest`: salted password digests and their comparison;
//! - `ident`: short identifiers and their allocation;
//! - `record`: target records, statistics, and URL validation;
//! - `table`, `store`: the in-process namespaces of records and counts;
//! - `gate`: who may read the statistics of a record;
//! - `model`: the store as a pair of maps, the effect of each request on
//!   it, and the laws that hold of every history of requests;
//! - `service`: creation, redirect and statistics over the in-process store;
//! - `form`, `page`, `route`: the HTTP surface in plain values.
//!
//! A server with a remote key-value backend keeps its own reads and writes
//! and takes every decision from the functions here that work on fetched
//! values: `form::get_target`, `record::validate_target`,
//! `ident::Attempts`, `store::count_of_text`, `store::counted_text`,
//! `service::resolve_redirect`, `service::resolve_access` and the replies
//! of `route`.

pub mod count;
pub mod digest;
pub mod error;
pub mod form;
pub mod gate;
pub mod ident;
pub mod model;
pub mod page;
pub mod record;
pub mod route;
pub mod service;
pub mod store;
pub mod table;
pub mod text;
