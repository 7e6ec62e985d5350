//! A verified client core for a schemaless, cloud-hosted document store.
//!
//! Application values are addressed by a two-part primary key (a *kind*
//! derived from the type, a *name* derived from the instance) and stored as
//! property bags: maps from field names to values of the store's closed,
//! recursively-typed property union.  The library provides
//!
//! * a bidirectional codec between structured application values and the
//!   property union, proved to round-trip ([`codec`]),
//! * the six CRUD primitives (insert, upsert, update, delete, get, list) as
//!   pure request builders and response interpreters ([`client`]), and
//! * a specification of the remote store's documented behaviour, with
//!   proofs of the end-to-end laws a caller gets against a store behaving
//!   that way ([`store`]).
//!
//! Network transport and credential acquisition are collaborators outside
//! this crate: a caller builds a request here, executes it with whatever
//! transport it owns, and hands the response back for interpretation.

pub mod client;
pub mod codec;
pub mod model;
pub mod store;
pub mod wire;
