use docstore::client::{
    commit_outcome, get_response, get_response_for, list_response, list_response_for,
    DatastoreClient, EntityKey, Error, Storable,
};
use docstore::codec::{decode, encode, value_eq, PropValue, Shape, Value};
use docstore::model::{DecodeError, EncodeError};
use docstore::wire::{
    CommitMode, CommitRequest, Entity, LookupResponse, Mutation, QueryResponse, StoreFault,
};

struct Widget {
    name: String,
    count: i64,
}

impl EntityKey for Widget {
    fn entity_kind_key() -> String {
        String::from("Widget")
    }
    fn entity_name_key(&self) -> String {
        self.name.clone()
    }
}

impl Storable for Widget {
    fn to_doc(&self) -> Value {
        widget_value(&self.name, self.count)
    }
    fn document_shape() -> Shape {
        widget_shape()
    }
    fn from_doc(doc: Value) -> Option<Widget> {
        match doc {
            Value::Record(fields) => {
                let mut name = None;
                let mut count = None;
                for (n, v) in fields {
                    match (n.as_str(), v) {
                        ("name", Value::Text(t)) => name = Some(t),
                        ("count", Value::Int(i)) => count = Some(i),
                        _ => return None,
                    }
                }
                Some(Widget { name: name?, count: count? })
            }
            _ => None,
        }
    }
}

fn widget_value(name: &str, count: i64) -> Value {
    Value::Record(vec![
        (String::from("name"), Value::Text(String::from(name))),
        (String::from("count"), Value::Int(count)),
    ])
}

fn widget_shape() -> Shape {
    Shape::Record(vec![
        (String::from("name"), Shape::Text),
        (String::from("count"), Shape::Int),
    ])
}

fn client() -> DatastoreClient {
    DatastoreClient::new(String::from("test-project"))
}

/// A stand-in for the remote store, following its documented semantics:
/// one bag per (kind, name) key, single-mutation commits.
struct FakeStore {
    entries: Vec<Entity>,
}

impl FakeStore {
    fn new() -> FakeStore {
        FakeStore { entries: Vec::new() }
    }
    fn position(&self, kind: &str, name: &str) -> Option<usize> {
        self.entries
            .iter()
            .position(|e| e.key.kind == kind && e.key.name == name)
    }
    fn commit(&mut self, req: CommitRequest) -> Result<(), StoreFault> {
        assert_eq!(req.mutations.len(), 1);
        assert_eq!(req.mode, CommitMode::NonTransactional);
        let m = req.mutations.into_iter().next().unwrap();
        match m {
            Mutation::Insert(ent) => match self.position(&ent.key.kind, &ent.key.name) {
                Some(_) => Err(StoreFault::AlreadyExists),
                None => {
                    self.entries.push(ent);
                    Ok(())
                }
            },
            Mutation::Update(ent) => match self.position(&ent.key.kind, &ent.key.name) {
                Some(i) => {
                    self.entries[i] = ent;
                    Ok(())
                }
                None => Err(StoreFault::NotFound),
            },
            Mutation::Upsert(ent) => match self.position(&ent.key.kind, &ent.key.name) {
                Some(i) => {
                    self.entries[i] = ent;
                    Ok(())
                }
                None => {
                    self.entries.push(ent);
                    Ok(())
                }
            },
            Mutation::Delete(k) => {
                if let Some(i) = self.position(&k.kind, &k.name) {
                    self.entries.remove(i);
                }
                Ok(())
            }
        }
    }
    fn lookup(&self, kind: &str, name: &str) -> Result<LookupResponse, StoreFault> {
        match self.position(kind, name) {
            Some(i) => {
                let e = &self.entries[i];
                let props: Vec<(String, PropValue)> = bag_clone(&e.properties);
                Ok(LookupResponse {
                    found: Some(vec![Entity {
                        key: docstore::wire::Key {
                            kind: e.key.kind.clone(),
                            name: e.key.name.clone(),
                        },
                        properties: props,
                    }]),
                })
            }
            None => Ok(LookupResponse { found: Some(Vec::new()) }),
        }
    }
    fn run_query(&self, kind: &str) -> Result<QueryResponse, StoreFault> {
        let ents: Vec<Entity> = self
            .entries
            .iter()
            .filter(|e| e.key.kind == kind)
            .map(|e| Entity {
                key: docstore::wire::Key {
                    kind: e.key.kind.clone(),
                    name: e.key.name.clone(),
                },
                properties: bag_clone(&e.properties),
            })
            .collect();
        Ok(QueryResponse { batch: Some(ents) })
    }
}

/// Deep copy of a property bag (the wire types carry no `Clone`).
fn bag_clone(props: &[(String, PropValue)]) -> Vec<(String, PropValue)> {
    props
        .iter()
        .map(|(n, p)| (n.clone(), prop_clone(p)))
        .collect()
}

fn prop_clone(p: &PropValue) -> PropValue {
    match p {
        PropValue::Null => PropValue::Null,
        PropValue::Boolean(b) => PropValue::Boolean(*b),
        PropValue::Integer(i) => PropValue::Integer(*i),
        PropValue::Double(d) => PropValue::Double(*d),
        PropValue::Text(t) => PropValue::Text(t.clone()),
        PropValue::Timestamp(t) => PropValue::Timestamp(t.clone()),
        PropValue::Array(xs) => PropValue::Array(xs.iter().map(prop_clone).collect()),
        PropValue::Entity(fs) => PropValue::Entity(bag_clone(fs)),
    }
}

#[test]
fn round_trip_widget() {
    let v = widget_value("a", 3);
    let bag = encode(&v).unwrap();
    let back = decode(&widget_shape(), &bag).unwrap();
    assert!(value_eq(&v, &back));
}

#[test]
fn round_trip_nested() {
    let v = Value::Record(vec![
        (String::from("flag"), Value::Bool(true)),
        (String::from("big"), Value::Uint(9007199254740993)),
        (String::from("ratio"), Value::Float(0x3FF0000000000000)),
        (String::from("none"), Value::Absent),
        (
            String::from("tag"),
            Value::Text(String::from("hello")),
        ),
        (
            String::from("seen"),
            Value::Timestamp(String::from("2020-01-01T00:00:00Z")),
        ),
        (
            String::from("scores"),
            Value::List(vec![Value::Int(-1), Value::Int(7)]),
        ),
        (
            String::from("inner"),
            Value::Record(vec![(String::from("x"), Value::Int(1))]),
        ),
    ]);
    let shape = Shape::Record(vec![
        (String::from("flag"), Shape::Bool),
        (String::from("big"), Shape::Uint),
        (String::from("ratio"), Shape::Float),
        (String::from("none"), Shape::Optional(Box::new(Shape::Int))),
        (String::from("tag"), Shape::Optional(Box::new(Shape::Text))),
        (String::from("seen"), Shape::Timestamp),
        (String::from("scores"), Shape::List(Box::new(Shape::Int))),
        (
            String::from("inner"),
            Shape::Record(vec![(String::from("x"), Shape::Int)]),
        ),
    ]);
    let bag = encode(&v).unwrap();
    let back = decode(&shape, &bag).unwrap();
    assert!(value_eq(&v, &back));
}

#[test]
fn encode_scalar_root_fails() {
    assert!(matches!(
        encode(&Value::Int(42)),
        Err(EncodeError::UnsupportedShape)
    ));
    assert!(matches!(
        encode(&Value::Text(String::from("x"))),
        Err(EncodeError::UnsupportedShape)
    ));
}

#[test]
fn insert_scalar_root_is_serialization_error() {
    let c = client();
    let r = c.insert_request(
        &String::from("Widget"),
        &String::from("a"),
        &Value::Int(42),
    );
    assert!(matches!(r, Err(Error::Serialization { .. })));
}

#[test]
fn encode_huge_uint_fails() {
    let v = Value::Record(vec![(String::from("n"), Value::Uint(u64::MAX))]);
    assert!(matches!(encode(&v), Err(EncodeError::UnsupportedType)));
}

#[test]
fn decode_missing_field() {
    let v = Value::Record(vec![(String::from("name"), Value::Text(String::from("a")))]);
    let bag = encode(&v).unwrap();
    let r = decode(&widget_shape(), &bag);
    assert_eq!(r.unwrap_err(), DecodeError::MissingField);
}

#[test]
fn decode_type_mismatch() {
    let v = Value::Record(vec![
        (String::from("name"), Value::Text(String::from("a"))),
        (String::from("count"), Value::Text(String::from("three"))),
    ]);
    let bag = encode(&v).unwrap();
    let r = decode(&widget_shape(), &bag);
    assert_eq!(r.unwrap_err(), DecodeError::TypeMismatch);
}

#[test]
fn decode_negative_into_unsigned_is_malformed() {
    let shape = Shape::Record(vec![(String::from("n"), Shape::Uint)]);
    let v = Value::Record(vec![(String::from("n"), Value::Int(-5))]);
    let bag = encode(&v).unwrap();
    let r = decode(&shape, &bag);
    assert_eq!(r.unwrap_err(), DecodeError::Malformed);
}

#[test]
fn decode_missing_optional_is_absent() {
    let shape = Shape::Record(vec![
        (String::from("name"), Shape::Text),
        (String::from("note"), Shape::Optional(Box::new(Shape::Text))),
    ]);
    let v = Value::Record(vec![(String::from("name"), Value::Text(String::from("a")))]);
    let bag = encode(&v).unwrap();
    let back = decode(&shape, &bag).unwrap();
    let expected = Value::Record(vec![
        (String::from("name"), Value::Text(String::from("a"))),
        (String::from("note"), Value::Absent),
    ]);
    assert!(value_eq(&back, &expected));
}

#[test]
fn key_stability() {
    let w1 = Widget { name: String::from("a"), count: 3 };
    let w2 = Widget { name: String::from("b"), count: 9 };
    assert_eq!(Widget::entity_kind_key(), Widget::entity_kind_key());
    assert_eq!(Widget::entity_kind_key(), "Widget");
    assert_eq!(w1.entity_name_key(), w1.entity_name_key());
    assert_eq!(w1.entity_name_key(), "a");
    assert_eq!(w2.entity_name_key(), "b");
}

#[test]
fn insert_request_structure() {
    let c = client();
    let req = c
        .insert_request(&String::from("Widget"), &String::from("a"), &widget_value("a", 3))
        .unwrap();
    assert_eq!(req.project, "test-project");
    assert_eq!(req.mode, CommitMode::NonTransactional);
    assert_eq!(req.mutations.len(), 1);
    match &req.mutations[0] {
        Mutation::Insert(ent) => {
            assert_eq!(ent.key.kind, "Widget");
            assert_eq!(ent.key.name, "a");
            assert_eq!(ent.properties.len(), 2);
            assert_eq!(ent.properties[0].0, "name");
            assert!(matches!(&ent.properties[0].1, PropValue::Text(t) if t == "a"));
            assert_eq!(ent.properties[1].0, "count");
            assert!(matches!(&ent.properties[1].1, PropValue::Integer(3)));
        }
        other => panic!("expected an insert mutation, got {:?}", other),
    }
}

#[test]
fn delete_request_structure() {
    let c = client();
    let req = c.delete_request(&String::from("Widget"), &String::from("a"));
    assert_eq!(req.mutations.len(), 1);
    match &req.mutations[0] {
        Mutation::Delete(k) => {
            assert_eq!(k.kind, "Widget");
            assert_eq!(k.name, "a");
        }
        other => panic!("expected a delete mutation, got {:?}", other),
    }
}

#[test]
fn insert_then_get() {
    let c = client();
    let mut store = FakeStore::new();
    let w = Widget { name: String::from("a"), count: 3 };
    let kind = Widget::entity_kind_key();
    let name = w.entity_name_key();
    let v = widget_value(&w.name, w.count);
    let req = c.insert_request(&kind, &name, &v).unwrap();
    commit_outcome(store.commit(req)).unwrap();
    let got = get_response(&widget_shape(), store.lookup(&kind, &name)).unwrap();
    assert!(value_eq(&got, &v));
}

#[test]
fn insert_existing_key_conflicts() {
    let c = client();
    let mut store = FakeStore::new();
    let kind = String::from("Widget");
    let name = String::from("a");
    let v = widget_value("a", 3);
    commit_outcome(store.commit(c.insert_request(&kind, &name, &v).unwrap())).unwrap();
    let again = commit_outcome(store.commit(c.insert_request(&kind, &name, &v).unwrap()));
    assert_eq!(
        again.unwrap_err(),
        Error::DatabaseResponse(StoreFault::AlreadyExists)
    );
}

#[test]
fn update_without_prior_insert_is_not_found() {
    let c = client();
    let mut store = FakeStore::new();
    let req = c
        .update_request(&String::from("Widget"), &String::from("ghost"), &widget_value("ghost", 1))
        .unwrap();
    let out = commit_outcome(store.commit(req));
    assert_eq!(out.unwrap_err(), Error::DatabaseResponse(StoreFault::NotFound));
}

#[test]
fn upsert_then_update_replaces() {
    let c = client();
    let mut store = FakeStore::new();
    let kind = String::from("Widget");
    let name = String::from("a");
    commit_outcome(store.commit(c.upsert_request(&kind, &name, &widget_value("a", 3)).unwrap()))
        .unwrap();
    commit_outcome(store.commit(c.update_request(&kind, &name, &widget_value("a", 4)).unwrap()))
        .unwrap();
    let got = get_response(&widget_shape(), store.lookup(&kind, &name)).unwrap();
    assert!(value_eq(&got, &widget_value("a", 4)));
}

#[test]
fn delete_is_idempotent() {
    let c = client();
    let mut store = FakeStore::new();
    let kind = String::from("Widget");
    let name = String::from("never-there");
    let out1 = commit_outcome(store.commit(c.delete_request(&kind, &name)));
    assert!(out1.is_ok());
    let out2 = commit_outcome(store.commit(c.delete_request(&kind, &name)));
    assert!(out2.is_ok());
}

#[test]
fn list_completeness() {
    let c = client();
    let mut store = FakeStore::new();
    let kind = String::from("Widget");
    let inserted = vec![
        widget_value("a", 1),
        widget_value("b", 2),
        widget_value("c", 3),
    ];
    let names = ["a", "b", "c"];
    for (name, v) in names.iter().zip(inserted.iter()) {
        commit_outcome(store.commit(c.insert_request(&kind, &String::from(*name), v).unwrap()))
            .unwrap();
    }
    // A document of another kind must not show up.
    commit_outcome(
        store.commit(
            c.insert_request(&String::from("Gadget"), &String::from("a"), &widget_value("a", 9))
                .unwrap(),
        ),
    )
    .unwrap();
    let listed = list_response(&widget_shape(), store.run_query(&kind)).unwrap();
    assert_eq!(listed.len(), inserted.len());
    for v in &inserted {
        assert!(listed.iter().any(|got| value_eq(got, v)));
    }
}

#[test]
fn list_fails_whole_call_on_bad_entity() {
    let c = client();
    let mut store = FakeStore::new();
    let kind = String::from("Widget");
    commit_outcome(store.commit(c.insert_request(&kind, &String::from("a"), &widget_value("a", 1)).unwrap()))
        .unwrap();
    // A document of the same kind whose field has the wrong type.
    let bad = Value::Record(vec![
        (String::from("name"), Value::Text(String::from("b"))),
        (String::from("count"), Value::Bool(true)),
    ]);
    commit_outcome(store.commit(c.insert_request(&kind, &String::from("b"), &bad).unwrap()))
        .unwrap();
    let out = list_response(&widget_shape(), store.run_query(&kind));
    assert!(matches!(out, Err(Error::Deserialization { .. })));
}

#[test]
fn get_without_payload() {
    let shape = widget_shape();
    let none = get_response(&shape, Ok(LookupResponse { found: None }));
    assert_eq!(none.unwrap_err(), Error::NoPayload);
    let empty = get_response(&shape, Ok(LookupResponse { found: Some(Vec::new()) }));
    assert_eq!(empty.unwrap_err(), Error::NoPayload);
}

#[test]
fn list_without_batch_is_no_payload() {
    let out = list_response(&widget_shape(), Ok(QueryResponse { batch: None }));
    assert_eq!(out.unwrap_err(), Error::NoPayload);
}

#[test]
fn transport_fault_passes_through() {
    let fault = StoreFault::Other(String::from("quota exceeded"));
    let out = get_response(&widget_shape(), Err(fault));
    assert_eq!(
        out.unwrap_err(),
        Error::DatabaseResponse(StoreFault::Other(String::from("quota exceeded")))
    );
}

#[test]
fn widget_scenario() {
    let c = client();
    let mut store = FakeStore::new();
    let w = Widget { name: String::from("a"), count: 3 };
    let kind = Widget::entity_kind_key();
    let name = w.entity_name_key();
    let v = widget_value(&w.name, w.count);

    commit_outcome(store.commit(c.insert_request(&kind, &name, &v).unwrap())).unwrap();
    let got = get_response(&widget_shape(), store.lookup(&kind, &name)).unwrap();
    assert!(value_eq(&got, &v));

    commit_outcome(store.commit(c.delete_request(&kind, &name))).unwrap();
    let after = get_response(&widget_shape(), store.lookup(&kind, &name));
    assert_eq!(after.unwrap_err(), Error::NoPayload);
}

#[test]
fn generic_insert_then_get() {
    let c = client();
    let mut store = FakeStore::new();
    let w = Widget { name: String::from("a"), count: 3 };
    let req = c.insert_request_for(&w).unwrap();
    commit_outcome(store.commit(req)).unwrap();
    let got: Widget = get_response_for(store.lookup("Widget", "a")).unwrap();
    assert_eq!(got.name, "a");
    assert_eq!(got.count, 3);
}

#[test]
fn generic_list() {
    let c = client();
    let mut store = FakeStore::new();
    for (name, count) in [("a", 1), ("b", 2)] {
        let w = Widget { name: String::from(name), count };
        commit_outcome(store.commit(c.upsert_request_for(&w).unwrap())).unwrap();
    }
    let got: Vec<Widget> = list_response_for(store.run_query("Widget")).unwrap();
    assert_eq!(got.len(), 2);
    assert!(got.iter().any(|w| w.name == "a" && w.count == 1));
    assert!(got.iter().any(|w| w.name == "b" && w.count == 2));
}

#[test]
fn generic_update_without_insert() {
    let c = client();
    let mut store = FakeStore::new();
    let w = Widget { name: String::from("ghost"), count: 1 };
    let out = commit_outcome(store.commit(c.update_request_for(&w).unwrap()));
    assert_eq!(out.unwrap_err(), Error::DatabaseResponse(StoreFault::NotFound));
}

#[test]
fn get_decode_failure_is_deserialization() {
    let c = client();
    let mut store = FakeStore::new();
    let kind = String::from("Widget");
    let name = String::from("a");
    let bad = Value::Record(vec![
        (String::from("name"), Value::Text(String::from("a"))),
        (String::from("count"), Value::Text(String::from("three"))),
    ]);
    commit_outcome(store.commit(c.insert_request(&kind, &name, &bad).unwrap())).unwrap();
    let out = get_response(&widget_shape(), store.lookup(&kind, &name));
    assert!(matches!(out, Err(Error::Deserialization { .. })));
}

#[test]
fn value_eq_distinguishes() {
    let a = widget_value("a", 3);
    assert!(value_eq(&a, &widget_value("a", 3)));
    assert!(!value_eq(&a, &widget_value("a", 4)));
    assert!(!value_eq(&a, &widget_value("b", 3)));
    assert!(!value_eq(&a, &Value::Int(3)));
    assert!(!value_eq(&Value::Uint(1), &Value::Int(1)));
    assert!(!value_eq(
        &Value::List(vec![Value::Int(1)]),
        &Value::List(vec![Value::Int(1), Value::Int(2)])
    ));
}

#[test]
fn generic_get_refused_payload_is_deserialization() {
    let bad = Value::Record(vec![
        (String::from("name"), Value::Text(String::from("a"))),
        (String::from("count"), Value::Text(String::from("three"))),
    ]);
    let ent = Entity {
        key: docstore::wire::Key {
            kind: String::from("Widget"),
            name: String::from("a"),
        },
        properties: encode(&bad).unwrap(),
    };
    let out: Result<Widget, Error> =
        get_response_for(Ok(LookupResponse { found: Some(vec![ent]) }));
    assert!(matches!(out, Err(Error::Deserialization { .. })));
}
