//! The CRUD protocol: request builders and response interpreters.
//!
//! Each primitive of the store client is split at the transport boundary.
//! The builder derives the document key, encodes the value where the
//! operation mutates, and assembles the request envelope; the interpreter
//! translates the transport's typed response into this layer's result and
//! error taxonomy, decoding payloads on the read paths.  A caller executes
//! the envelope with its own transport in between; nothing here performs
//! network work.

use vstd::prelude::*;

use crate::codec::{
    PropValue, Shape, Value, abs_prop_fields, abs_shape, abs_value, encode,
};
use crate::model::{PropView, ValueView, dec, enc_fields, encodable};
use crate::wire::{
    CommitMode, CommitRequest, Entity, Key, LookupRequest, LookupResponse, Mutation, QueryRequest,
    QueryResponse, StoreFault,
};

verus! {

/// The capability a storable type implements: derive the document's *kind*
/// from the type and its *name* from the instance.  Both must be
/// deterministic, side-effect free functions of the type and the value.
pub trait EntityKey {
    fn entity_kind_key() -> String;

    fn entity_name_key(&self) -> String;
}

/// A storable type: key derivation plus the structural mapping into and
/// out of the document value.  Implementations live with the application;
/// the protocol functions below take whatever they produce and are
/// verified for every value of it.
pub trait Storable: EntityKey + Sized {
    fn to_doc(&self) -> Value;

    fn document_shape() -> Shape;

    fn from_doc(doc: Value) -> Option<Self>;
}

/// The client's error taxonomy.  Local shape errors (`Serialization`,
/// `Deserialization`) are deterministic and retry-proof; `DatabaseResponse`
/// wraps a remote-origin failure verbatim; `NoPayload` is a success
/// response carrying no usable entity where one was expected.  Every
/// variant is plain data and moves freely across threads.
#[derive(Debug, PartialEq)]
pub enum Error {
    Serialization { msg: String },
    Deserialization { msg: String },
    DatabaseResponse(StoreFault),
    NoPayload,
}

/// The request carries exactly the mutation `m` for the given project,
/// committed non-transactionally.
pub open spec fn is_single_mutation_request(
    req: CommitRequest,
    project: Seq<char>,
    m: Mutation,
) -> bool {
    &&& req.project@ == project
    &&& req.mode == CommitMode::NonTransactional
    &&& req.mutations@.len() == 1
    &&& req.mutations@[0] == m
}

/// The entity `(kind, name)` carrying the encoding of `v`'s fields.
pub open spec fn is_encoded_entity(ent: Entity, kind: Seq<char>, name: Seq<char>, v: ValueView) -> bool {
    &&& ent.key.kind@ == kind
    &&& ent.key.name@ == name
    &&& abs_prop_fields(ent.properties@) == enc_fields(v->Record_0)
}

/// A value the codec accepts as a document: record-shaped at the root,
/// every node with an image in the property union.
pub open spec fn document_value(v: ValueView) -> bool {
    v is Record && encodable(v)
}

/// The verified core of the store client: it plans every request and
/// interprets every response, and holds no transport.  Construct it with
/// the project identifier the credentials resolve to; callers own the
/// transport and credentials.  A client value is immutable after
/// construction and safely shared.
#[derive(Debug, Clone)]
pub struct DatastoreClient {
    pub project_id: String,
}

impl DatastoreClient {
    /// A client for the given project.
    pub fn new(project_id: String) -> (c: Self)
        ensures
            c.project_id == project_id,
    {
        DatastoreClient { project_id }
    }

    fn encoded_entity(&self, kind: &String, name: &String, value: &Value) -> (r: Result<
        Entity,
        Error,
    >)
        ensures
            match r {
                Ok(ent) => document_value(abs_value(*value)) && is_encoded_entity(
                    ent,
                    kind@,
                    name@,
                    abs_value(*value),
                ),
                Err(e) => !document_value(abs_value(*value)) && e matches Error::Serialization {
                    ..
                },
            },
    {
        match encode(value) {
            Ok(bag) => Ok(
                Entity {
                    key: Key { kind: kind.clone(), name: name.clone() },
                    properties: bag,
                },
            ),
            Err(_) => Err(
                Error::Serialization { msg: expecting_record_msg() },
            ),
        }
    }

    /// Build the request of `insert`: create the document, failing remotely
    /// if the key already exists.  Fails locally, with `Serialization`,
    /// exactly when the value is not a document the codec accepts.
    pub fn insert_request(&self, kind: &String, name: &String, value: &Value) -> (r: Result<
        CommitRequest,
        Error,
    >)
        ensures
            match r {
                Ok(req) => document_value(abs_value(*value)) && req.project@
                    == self.project_id@ && req.mode == CommitMode::NonTransactional
                    && req.mutations@.len() == 1 && (req.mutations@[0] matches Mutation::Insert(ent)
                    && is_encoded_entity(ent, kind@, name@, abs_value(*value))),
                Err(e) => !document_value(abs_value(*value)) && e matches Error::Serialization {
                    ..
                },
            },
    {
        match self.encoded_entity(kind, name, value) {
            Ok(ent) => Ok(self.single_mutation(Mutation::Insert(ent))),
            Err(e) => Err(e),
        }
    }

    /// Build the request of `upsert`: create the document or replace it if
    /// it exists.  Fails locally exactly as `insert_request` does.
    pub fn upsert_request(&self, kind: &String, name: &String, value: &Value) -> (r: Result<
        CommitRequest,
        Error,
    >)
        ensures
            match r {
                Ok(req) => document_value(abs_value(*value)) && req.project@
                    == self.project_id@ && req.mode == CommitMode::NonTransactional
                    && req.mutations@.len() == 1 && (req.mutations@[0] matches Mutation::Upsert(ent)
                    && is_encoded_entity(ent, kind@, name@, abs_value(*value))),
                Err(e) => !document_value(abs_value(*value)) && e matches Error::Serialization {
                    ..
                },
            },
    {
        match self.encoded_entity(kind, name, value) {
            Ok(ent) => Ok(self.single_mutation(Mutation::Upsert(ent))),
            Err(e) => Err(e),
        }
    }

    /// Build the request of `update`: replace the document, failing
    /// remotely if the key does not exist.  Fails locally exactly as
    /// `insert_request` does.
    pub fn update_request(&self, kind: &String, name: &String, value: &Value) -> (r: Result<
        CommitRequest,
        Error,
    >)
        ensures
            match r {
                Ok(req) => document_value(abs_value(*value)) && req.project@
                    == self.project_id@ && req.mode == CommitMode::NonTransactional
                    && req.mutations@.len() == 1 && (req.mutations@[0] matches Mutation::Update(ent)
                    && is_encoded_entity(ent, kind@, name@, abs_value(*value))),
                Err(e) => !document_value(abs_value(*value)) && e matches Error::Serialization {
                    ..
                },
            },
    {
        match self.encoded_entity(kind, name, value) {
            Ok(ent) => Ok(self.single_mutation(Mutation::Update(ent))),
            Err(e) => Err(e),
        }
    }

    /// Build the request of `delete`: remove the document by key.  Never
    /// fails locally; deleting a key that does not exist is not an error.
    pub fn delete_request(&self, kind: &String, name: &String) -> (req: CommitRequest)
        ensures
            req.project@ == self.project_id@,
            req.mode == CommitMode::NonTransactional,
            req.mutations@.len() == 1,
            req.mutations@[0] matches Mutation::Delete(k) && k.kind@ == kind@ && k.name@ == name@,
    {
        let k = Key { kind: kind.clone(), name: name.clone() };
        self.single_mutation(Mutation::Delete(k))
    }

    /// Build the request of `get`: look one document up by key.
    pub fn get_request(&self, kind: &String, name: &String) -> (req: LookupRequest)
        ensures
            req.project@ == self.project_id@,
            req.keys@.len() == 1,
            req.keys@[0].kind@ == kind@,
            req.keys@[0].name@ == name@,
    {
        let mut keys: Vec<Key> = Vec::new();
        keys.push(Key { kind: kind.clone(), name: name.clone() });
        LookupRequest { project: self.project_id.clone(), keys }
    }

    /// Build the request of `list`: all documents of one kind, one page.
    pub fn list_request(&self, kind: &String) -> (req: QueryRequest)
        ensures
            req.project@ == self.project_id@,
            req.kind@ == kind@,
    {
        QueryRequest { project: self.project_id.clone(), kind: kind.clone() }
    }

    /// Build the request of `insert` for a storable value, deriving the
    /// key from the type and the instance.
    pub fn insert_request_for<T: Storable>(&self, value: &T) -> (r: Result<CommitRequest, Error>)
        ensures
            match r {
                Ok(req) => req.project@ == self.project_id@ && req.mode
                    == CommitMode::NonTransactional && req.mutations@.len() == 1
                    && req.mutations@[0] is Insert,
                Err(e) => e matches Error::Serialization { .. },
            },
    {
        let kind = T::entity_kind_key();
        let name = value.entity_name_key();
        let doc = value.to_doc();
        self.insert_request(&kind, &name, &doc)
    }

    /// Build the request of `upsert` for a storable value.
    pub fn upsert_request_for<T: Storable>(&self, value: &T) -> (r: Result<CommitRequest, Error>)
        ensures
            match r {
                Ok(req) => req.project@ == self.project_id@ && req.mode
                    == CommitMode::NonTransactional && req.mutations@.len() == 1
                    && req.mutations@[0] is Upsert,
                Err(e) => e matches Error::Serialization { .. },
            },
    {
        let kind = T::entity_kind_key();
        let name = value.entity_name_key();
        let doc = value.to_doc();
        self.upsert_request(&kind, &name, &doc)
    }

    /// Build the request of `update` for a storable value.
    pub fn update_request_for<T: Storable>(&self, value: &T) -> (r: Result<CommitRequest, Error>)
        ensures
            match r {
                Ok(req) => req.project@ == self.project_id@ && req.mode
                    == CommitMode::NonTransactional && req.mutations@.len() == 1
                    && req.mutations@[0] is Update,
                Err(e) => e matches Error::Serialization { .. },
            },
    {
        let kind = T::entity_kind_key();
        let name = value.entity_name_key();
        let doc = value.to_doc();
        self.update_request(&kind, &name, &doc)
    }

    fn single_mutation(&self, m: Mutation) -> (req: CommitRequest)
        ensures
            is_single_mutation_request(req, self.project_id@, m),
    {
        let mut mutations: Vec<Mutation> = Vec::new();
        mutations.push(m);
        CommitRequest {
            project: self.project_id.clone(),
            mode: CommitMode::NonTransactional,
            mutations,
        }
    }
}

fn expecting_record_msg() -> (s: String)
{
    String::from_str("expecting struct/map like input")
}

/// Interpret the outcome of a commit: success passes through, a store
/// fault is wrapped verbatim as `DatabaseResponse`.
pub fn commit_outcome(r: Result<(), StoreFault>) -> (out: Result<(), Error>)
    ensures
        r is Ok <==> out is Ok,
        r matches Err(f) ==> out == Err::<(), Error>(Error::DatabaseResponse(f)),
{
    match r {
        Ok(()) => Ok(()),
        Err(f) => Err(Error::DatabaseResponse(f)),
    }
}

/// Interpret a lookup response for `get`: the first entity found is
/// decoded at the given shape; a response without one is `NoPayload`; a
/// payload the shape refuses is `Deserialization`.  A store fault `f`
/// passed in arrives verbatim as `DatabaseResponse(f)`.
pub fn get_response(shape: &Shape, r: Result<LookupResponse, StoreFault>) -> (out: Result<
    Value,
    Error,
>)
    ensures
        match r {
            Ok(resp) => match resp.found {
                Some(ents) => if ents@.len() == 0 {
                    out == Err::<Value, Error>(Error::NoPayload)
                } else {
                    match dec(
                        abs_shape(*shape),
                        PropView::Entity(abs_prop_fields(ents@[0].properties@)),
                    ) {
                        Ok(vv) => out matches Ok(v) && abs_value(v) == vv,
                        Err(_) => out matches Err(Error::Deserialization { .. }),
                    }
                },
                None => out == Err::<Value, Error>(Error::NoPayload),
            },
            Err(f) => out == Err::<Value, Error>(Error::DatabaseResponse(f)),
        },
{
    match r {
        Ok(resp) => match resp.found {
            Some(ents) => {
                if ents.len() == 0 {
                    Err(Error::NoPayload)
                } else {
                    match crate::codec::decode(shape, &ents[0].properties) {
                        Ok(v) => Ok(v),
                        Err(_) => Err(
                            Error::Deserialization { msg: conversion_msg() },
                        ),
                    }
                }
            },
            None => Err(Error::NoPayload),
        },
        Err(f) => Err(Error::DatabaseResponse(f)),
    }
}

fn conversion_msg() -> (s: String)
{
    String::from_str("conversion or parser error")
}

/// Interpret a query response for `list`: every entity of the page is
/// decoded at the given shape, in order.  A response without a batch is
/// `NoPayload`.  The first entity the shape refuses fails the whole call
/// with `Deserialization`: a page is never silently thinned.
pub fn list_response(shape: &Shape, r: Result<QueryResponse, StoreFault>) -> (out: Result<
    Vec<Value>,
    Error,
>)
    ensures
        match r {
            Ok(resp) => match resp.batch {
                Some(ents) => match out {
                    Ok(vs) => vs@.len() == ents@.len() && forall|i: int|
                        0 <= i < ents@.len() ==> dec(
                            abs_shape(*shape),
                            PropView::Entity(abs_prop_fields((#[trigger] ents@[i]).properties@)),
                        ) == Ok::<ValueView, crate::model::DecodeError>(abs_value(vs@[i])),
                    Err(e) => (e matches Error::Deserialization { .. }) && exists|i: int|
                        0 <= i < ents@.len() && dec(
                            abs_shape(*shape),
                            PropView::Entity(abs_prop_fields((#[trigger] ents@[i]).properties@)),
                        ) is Err,
                },
                None => out == Err::<Vec<Value>, Error>(Error::NoPayload),
            },
            Err(f) => out == Err::<Vec<Value>, Error>(Error::DatabaseResponse(f)),
        },
{
    match r {
        Ok(resp) => match resp.batch {
            Some(ents) => decode_entities(shape, &ents),
            None => Err(Error::NoPayload),
        },
        Err(f) => Err(Error::DatabaseResponse(f)),
    }
}

/// Interpret a lookup response for `get` of a storable type: the document
/// is decoded at the type's shape and handed to the type's own structural
/// mapping; a document the mapping refuses is `Deserialization`.  Faults
/// and missing payloads are classified exactly as [`get_response`]
/// classifies them.
pub fn get_response_for<T: Storable>(r: Result<LookupResponse, StoreFault>) -> (out: Result<
    T,
    Error,
>)
    ensures
        r matches Err(f) ==> out == Err::<T, Error>(Error::DatabaseResponse(f)),
        (r matches Ok(resp) && resp.found is None) ==> out == Err::<T, Error>(Error::NoPayload),
        (r matches Ok(resp) && resp.found matches Some(ents) && ents@.len() == 0) ==> out
            == Err::<T, Error>(Error::NoPayload),
        (r matches Ok(resp) && resp.found matches Some(ents) && ents@.len() > 0) ==> (out is Ok
            || out matches Err(Error::Deserialization { .. })),
{
    let shape = T::document_shape();
    match get_response(&shape, r) {
        Ok(doc) => match T::from_doc(doc) {
            Some(v) => Ok(v),
            None => Err(Error::Deserialization { msg: conversion_msg() }),
        },
        Err(e) => Err(e),
    }
}

/// Interpret a query response for `list` of a storable type: every
/// document of the page is decoded and mapped, in order, and the first
/// refused document fails the whole call with `Deserialization`.
pub fn list_response_for<T: Storable>(r: Result<QueryResponse, StoreFault>) -> (out: Result<
    Vec<T>,
    Error,
>)
    ensures
        r matches Err(f) ==> out == Err::<Vec<T>, Error>(Error::DatabaseResponse(f)),
        (r matches Ok(resp) && resp.batch is None) ==> out == Err::<Vec<T>, Error>(
            Error::NoPayload,
        ),
        (r matches Ok(resp) && resp.batch is Some) ==> (out is Ok || out matches Err(
            Error::Deserialization { .. },
        )),
        r matches Ok(resp) ==> (resp.batch matches Some(ents) ==> (out matches Ok(vs) ==> vs@.len()
            == ents@.len())),
{
    let shape = T::document_shape();
    match list_response(&shape, r) {
        Ok(docs) => map_docs::<T>(docs),
        Err(e) => Err(e),
    }
}

/// Hand each document of a page to the type's structural mapping, in
/// order; the first refused document fails the whole call.
fn map_docs<T: Storable>(docs: Vec<Value>) -> (out: Result<Vec<T>, Error>)
    ensures
        out matches Ok(vs) ==> vs@.len() == docs@.len(),
        out matches Err(e) ==> e matches Error::Deserialization { .. },
{
    let ghost n0 = docs@.len();
    let mut rest = docs;
    let mut vs: Vec<T> = Vec::new();
    while rest.len() > 0
        invariant
            vs@.len() + rest@.len() == n0,
        decreases rest.len(),
    {
        let doc = rest.remove(0);
        match T::from_doc(doc) {
            Some(v) => {
                vs.push(v);
            },
            None => {
                return Err(Error::Deserialization { msg: conversion_msg() });
            },
        }
    }
    Ok(vs)
}

/// Decode a page of entities, in order, failing on the first entity the
/// shape refuses.
fn decode_entities(shape: &Shape, ents: &Vec<Entity>) -> (out: Result<Vec<Value>, Error>)
    ensures
        match out {
            Ok(vs) => vs@.len() == ents@.len() && forall|i: int|
                0 <= i < ents@.len() ==> dec(
                    abs_shape(*shape),
                    PropView::Entity(abs_prop_fields((#[trigger] ents@[i]).properties@)),
                ) == Ok::<ValueView, crate::model::DecodeError>(abs_value(vs@[i])),
            Err(e) => (e matches Error::Deserialization { .. }) && exists|i: int|
                0 <= i < ents@.len() && dec(
                    abs_shape(*shape),
                    PropView::Entity(abs_prop_fields((#[trigger] ents@[i]).properties@)),
                ) is Err,
        },
{
    let mut vs: Vec<Value> = Vec::new();
    let mut i: usize = 0;
    while i < ents.len()
        invariant
            i <= ents.len(),
            vs@.len() == i,
            forall|k: int|
                0 <= k < i ==> dec(
                    abs_shape(*shape),
                    PropView::Entity(abs_prop_fields((#[trigger] ents@[k]).properties@)),
                ) == Ok::<ValueView, crate::model::DecodeError>(abs_value(vs@[k])),
        decreases ents.len() - i,
    {
        match crate::codec::decode(shape, &ents[i].properties) {
            Ok(v) => {
                vs.push(v);
            },
            Err(_) => {
                return Err(Error::Deserialization { msg: conversion_msg() });
            },
        }
        i = i + 1;
    }
    Ok(vs)
}

} // verus!
