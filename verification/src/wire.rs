//! The store's typed request and response records, modelled as plain data.
//!
//! A caller of the library builds one of these requests, has its transport
//! execute it, and hands the typed response back to the interpreters in
//! [`crate::client`].  Every mutation is issued non-transactionally: each
//! request commits independently, with no cross-document atomicity; the
//! policy is the explicit [`CommitMode`] constant carried by every commit
//! request.

use vstd::prelude::*;

use crate::codec::PropValue;

verus! {

/// The two-part primary key of a document: the *kind* names the document's
/// type, the *name* identifies the instance within the kind.  Keys here are
/// always single-element paths; ancestor hierarchies are not used.
#[derive(Debug, PartialEq)]
pub struct Key {
    pub kind: String,
    pub name: String,
}

/// A document as the store holds it: a key and a property bag.
#[derive(Debug)]
pub struct Entity {
    pub key: Key,
    pub properties: Vec<(String, PropValue)>,
}

/// One remote write: exactly one of create, replace-only, create-or-replace
/// or remove, for one entity.
#[derive(Debug)]
pub enum Mutation {
    Insert(Entity),
    Update(Entity),
    Upsert(Entity),
    Delete(Key),
}

/// The consistency policy of a commit.  Only the non-transactional mode is
/// used: every mutation commits independently.
#[derive(Clone, Copy, Debug, PartialEq, Eq, Structural)]
pub enum CommitMode {
    NonTransactional,
}

/// A commit-mutation request envelope.
pub struct CommitRequest {
    pub project: String,
    pub mode: CommitMode,
    pub mutations: Vec<Mutation>,
}

/// A lookup-by-key request envelope.
pub struct LookupRequest {
    pub project: String,
    pub keys: Vec<Key>,
}

/// A query request envelope: all documents of one kind, single page.
pub struct QueryRequest {
    pub project: String,
    pub kind: String,
}

/// A lookup response: the entities found, or nothing where the store
/// returned no usable result.
pub struct LookupResponse {
    pub found: Option<Vec<Entity>>,
}

/// A query response: one page of entities, or nothing where the store
/// returned no batch at all.
pub struct QueryResponse {
    pub batch: Option<Vec<Entity>>,
}

/// A request-level failure reported by the store or the transport: a
/// create of a key that exists, a replace of a key that does not, or any
/// other failure, passed through verbatim as text.
#[derive(Debug, PartialEq)]
pub enum StoreFault {
    AlreadyExists,
    NotFound,
    Other(String),
}

} // verus!
