//! The remote store's documented behaviour, as mathematics, and the laws
//! of the protocol against it.
//!
//! The store is a durable map from document keys to property bags.  Each
//! function here states what one request does to that map and what the
//! store reports back: a create fails on a key that exists, a replace
//! fails on a key that does not, a create-or-replace and a remove always
//! succeed, a lookup returns the bag under the key if any.  The proofs
//! below state the end-to-end guarantees a caller gets when its transport
//! talks to a store behaving this way.

use vstd::prelude::*;

use crate::model::{
    DecodeError, PropView, ShapeView, ValueView, conforms, dec, enc, enc_fields, lemma_round_trip,
    shape_ok,
};

verus! {

/// A document key at the specification level: the kind, then the name.
pub type DocKeyView = (Seq<char>, Seq<char>);

/// A property bag at the specification level.
pub type BagView = Seq<(Seq<char>, PropView)>;

/// The remote store's durable state: one property bag per document key.
pub type StoreView = Map<DocKeyView, BagView>;

/// A request-level failure, at the specification level.
pub enum FaultView {
    AlreadyExists,
    NotFound,
    Other(Seq<char>),
}

/// What a create mutation does: fails on a key that exists, otherwise
/// stores the bag under the key.
pub open spec fn apply_insert(store: StoreView, key: DocKeyView, bag: BagView) -> (
    StoreView,
    Result<(), FaultView>,
) {
    if store.dom().contains(key) {
        (store, Err(FaultView::AlreadyExists))
    } else {
        (store.insert(key, bag), Ok(()))
    }
}

/// What a replace-only mutation does: fails on a key that does not exist,
/// otherwise replaces the bag under the key.
pub open spec fn apply_update(store: StoreView, key: DocKeyView, bag: BagView) -> (
    StoreView,
    Result<(), FaultView>,
) {
    if !store.dom().contains(key) {
        (store, Err(FaultView::NotFound))
    } else {
        (store.insert(key, bag), Ok(()))
    }
}

/// What a create-or-replace mutation does: stores the bag under the key,
/// whether or not the key exists.
pub open spec fn apply_upsert(store: StoreView, key: DocKeyView, bag: BagView) -> (
    StoreView,
    Result<(), FaultView>,
) {
    (store.insert(key, bag), Ok(()))
}

/// What a remove mutation does: removes the key if present.  Removing a
/// key that does not exist succeeds and changes nothing.
pub open spec fn apply_delete(store: StoreView, key: DocKeyView) -> (
    StoreView,
    Result<(), FaultView>,
) {
    (store.remove(key), Ok(()))
}

/// What a lookup returns: the bag under the key, if any.
pub open spec fn lookup_bag(store: StoreView, key: DocKeyView) -> Option<BagView> {
    if store.dom().contains(key) {
        Some(store[key])
    } else {
        None
    }
}

/// What a query for one kind returns: the store restricted to keys of
/// that kind, in no particular order.
pub open spec fn kind_restriction(store: StoreView, kind: Seq<char>) -> StoreView {
    Map::new(|k: DocKeyView| store.dom().contains(k) && k.0 == kind, |k: DocKeyView| store[k])
}

/// Insert-then-get: inserting a conforming document value under a fresh
/// key succeeds, and a lookup of the same key then returns a bag that
/// decodes, at the value's shape, to the value inserted.
pub proof fn lemma_insert_then_get(
    store: StoreView,
    s: ShapeView,
    kind: Seq<char>,
    name: Seq<char>,
    v: ValueView,
)
    requires
        shape_ok(s),
        conforms(v, s),
        v is Record,
        !store.dom().contains((kind, name)),
    ensures
        ({
            let bag = enc_fields(v->Record_0);
            let r = apply_insert(store, (kind, name), bag);
            &&& r.1 == Ok::<(), FaultView>(())
            &&& lookup_bag(r.0, (kind, name)) == Some(bag)
            &&& dec(s, PropView::Entity(bag)) == Ok::<ValueView, DecodeError>(v)
        }),
{
    lemma_round_trip(s, v);
    assert(enc(v) == PropView::Entity(enc_fields(v->Record_0)));
}

/// Update-without-prior-insert: a replace-only mutation on a key that was
/// never stored reports the missing document and leaves the store as it
/// was; it never succeeds.
pub proof fn lemma_update_without_insert(store: StoreView, key: DocKeyView, bag: BagView)
    requires
        !store.dom().contains(key),
    ensures
        apply_update(store, key, bag) == (store, Err::<(), FaultView>(FaultView::NotFound)),
{
}

/// Delete-is-idempotent: a remove always succeeds, afterwards the key is
/// gone, and removing it again succeeds and changes nothing.
pub proof fn lemma_delete_idempotent(store: StoreView, key: DocKeyView)
    ensures
        apply_delete(store, key).1 == Ok::<(), FaultView>(()),
        !apply_delete(store, key).0.dom().contains(key),
        apply_delete(apply_delete(store, key).0, key) == apply_delete(store, key),
{
    assert(store.remove(key).remove(key) =~= store.remove(key));
}

/// The store after inserting each of `docs`, in order, as a document of
/// `kind` named by the pair's first component and holding the pair's bag.
pub open spec fn insert_all(
    store: StoreView,
    kind: Seq<char>,
    docs: Seq<(Seq<char>, BagView)>,
) -> StoreView
    decreases docs.len(),
{
    if docs.len() == 0 {
        store
    } else {
        insert_all(store.insert((kind, docs[0].0), docs[0].1), kind, docs.drop_first())
    }
}

/// Each step of [`insert_all`] is a create mutation that succeeds.
pub open spec fn insert_all_ok(
    store: StoreView,
    kind: Seq<char>,
    docs: Seq<(Seq<char>, BagView)>,
) -> bool
    decreases docs.len(),
{
    docs.len() == 0 || (!store.dom().contains((kind, docs[0].0)) && insert_all_ok(
        store.insert((kind, docs[0].0), docs[0].1),
        kind,
        docs.drop_first(),
    ))
}

/// The keys of the documents of [`insert_all`].
pub open spec fn doc_keys(kind: Seq<char>, docs: Seq<(Seq<char>, BagView)>) -> Set<DocKeyView>
    decreases docs.len(),
{
    if docs.len() == 0 {
        Set::empty()
    } else {
        doc_keys(kind, docs.drop_first()).insert((kind, docs[0].0))
    }
}

/// Inserting documents with distinct fresh names: every create succeeds,
/// old entries are untouched, and the new entries are exactly `docs`.
pub proof fn lemma_insert_all(store: StoreView, kind: Seq<char>, docs: Seq<(Seq<char>, BagView)>)
    requires
        store.dom().finite(),
        forall|i: int, j: int| 0 <= i < j < docs.len() ==> docs[i].0 != docs[j].0,
        forall|i: int| 0 <= i < docs.len() ==> !store.dom().contains((kind, (#[trigger] docs[i]).0)),
    ensures
        ({
            let store2 = insert_all(store, kind, docs);
            &&& insert_all_ok(store, kind, docs)
            &&& store2.dom().finite()
            &&& store2.dom().len() == store.dom().len() + docs.len()
            &&& forall|i: int|
                0 <= i < docs.len() ==> store2.dom().contains((kind, (#[trigger] docs[i]).0))
                    && store2[(kind, docs[i].0)] == docs[i].1
            &&& forall|k: DocKeyView| #[trigger]
                store2.dom().contains(k) ==> store.dom().contains(k) || doc_keys(
                    kind,
                    docs,
                ).contains(k)
            &&& forall|k: DocKeyView| #[trigger]
                store.dom().contains(k) ==> store2.dom().contains(k) && store2[k] == store[k]
        }),
    decreases docs.len(),
{
    if docs.len() > 0 {
        let key0 = (kind, docs[0].0);
        let store1 = store.insert(key0, docs[0].1);
        let tail = docs.drop_first();
        assert(forall|i: int| 0 <= i < tail.len() ==> #[trigger] tail[i] == docs[i + 1]);
        assert forall|i: int| 0 <= i < tail.len() implies !store1.dom().contains(
            (kind, (#[trigger] tail[i]).0),
        ) by {
            assert(tail[i].0 != docs[0].0);
            assert(!store.dom().contains((kind, docs[i + 1].0)));
        }
        lemma_insert_all(store1, kind, tail);
        assert(doc_keys(kind, docs) == doc_keys(kind, tail).insert(key0));
        let store2 = insert_all(store, kind, docs);
        assert(store2 == insert_all(store1, kind, tail));
        assert(store1.dom() =~= store.dom().insert(key0));
        assert(store1.dom().len() == store.dom().len() + 1);
        assert forall|i: int| 0 <= i < docs.len() implies store2.dom().contains(
            (kind, (#[trigger] docs[i]).0),
        ) && store2[(kind, docs[i].0)] == docs[i].1 by {
            if i == 0 {
                assert(store1.dom().contains(key0) && store1[key0] == docs[0].1);
            } else {
                assert(tail[i - 1] == docs[i]);
            }
        }
        assert forall|k: DocKeyView| #[trigger] store2.dom().contains(k) implies store.dom()
            .contains(k) || doc_keys(kind, docs).contains(k) by {
            if !store.dom().contains(k) {
                if !store1.dom().contains(k) {
                    assert(doc_keys(kind, tail).contains(k));
                } else {
                    assert(k == key0);
                }
                assert(doc_keys(kind, docs).contains(k));
            }
        }
        assert forall|k: DocKeyView| #[trigger] store.dom().contains(k) implies store2.dom()
            .contains(k) && store2[k] == store[k] by {
            assert(k != key0);
            assert(store1.dom().contains(k) && store1[k] == store[k]);
        }
    }
}

/// The keys of `docs` are as many as the documents, when names are
/// distinct.
pub proof fn lemma_doc_keys_len(kind: Seq<char>, docs: Seq<(Seq<char>, BagView)>)
    requires
        forall|i: int, j: int| 0 <= i < j < docs.len() ==> docs[i].0 != docs[j].0,
    ensures
        doc_keys(kind, docs).finite(),
        doc_keys(kind, docs).len() == docs.len(),
        forall|k: DocKeyView| #[trigger]
            doc_keys(kind, docs).contains(k) <==> exists|i: int|
                0 <= i < docs.len() && k == (kind, (#[trigger] docs[i]).0),
    decreases docs.len(),
{
    if docs.len() > 0 {
        let tail = docs.drop_first();
        assert(forall|i: int| 0 <= i < tail.len() ==> #[trigger] tail[i] == docs[i + 1]);
        lemma_doc_keys_len(kind, tail);
        assert(!doc_keys(kind, tail).contains((kind, docs[0].0))) by {
            if doc_keys(kind, tail).contains((kind, docs[0].0)) {
                let i = choose|i: int|
                    0 <= i < tail.len() && (kind, docs[0].0) == (kind, (#[trigger] tail[i]).0);
                assert(docs[0].0 == docs[i + 1].0);
            }
        }
        assert forall|k: DocKeyView| #[trigger]
            doc_keys(kind, docs).contains(k) implies exists|i: int|
            0 <= i < docs.len() && k == (kind, (#[trigger] docs[i]).0) by {
            if k == (kind, docs[0].0) {
                assert(k == (kind, docs[0].0));
            } else {
                let i = choose|i: int|
                    0 <= i < tail.len() && k == (kind, (#[trigger] tail[i]).0);
                assert(k == (kind, docs[i + 1].0));
            }
        }
        assert forall|k: DocKeyView|
            exists|i: int|
                0 <= i < docs.len() && k == (kind, (#[trigger] docs[i]).0) implies #[trigger]
            doc_keys(kind, docs).contains(k) by {
            let i = choose|i: int| 0 <= i < docs.len() && k == (kind, (#[trigger] docs[i]).0);
            if i == 0 {
            } else {
                assert(tail[i - 1] == docs[i]);
                assert(doc_keys(kind, tail).contains(k));
            }
        }
    }
}

/// List-completeness: after inserting documents of one kind with distinct
/// names into a store holding nothing of that kind, every create has
/// succeeded, and a query for the kind returns exactly those documents:
/// as many entries as documents, each name bound to the bag inserted
/// under it, and nothing else.
pub proof fn lemma_list_completeness(
    store: StoreView,
    kind: Seq<char>,
    docs: Seq<(Seq<char>, BagView)>,
)
    requires
        store.dom().finite(),
        forall|k: DocKeyView| #[trigger] store.dom().contains(k) ==> k.0 != kind,
        forall|i: int, j: int| 0 <= i < j < docs.len() ==> docs[i].0 != docs[j].0,
    ensures
        ({
            let listed = kind_restriction(insert_all(store, kind, docs), kind);
            &&& insert_all_ok(store, kind, docs)
            &&& listed.dom().finite()
            &&& listed.dom().len() == docs.len()
            &&& forall|i: int|
                0 <= i < docs.len() ==> listed.dom().contains((kind, (#[trigger] docs[i]).0))
                    && listed[(kind, docs[i].0)] == docs[i].1
            &&& forall|k: DocKeyView| #[trigger] listed.dom().contains(k) ==> exists|i: int|
                0 <= i < docs.len() && k == (kind, (#[trigger] docs[i]).0)
        }),
{
    lemma_insert_all(store, kind, docs);
    lemma_doc_keys_len(kind, docs);
    let store2 = insert_all(store, kind, docs);
    let listed = kind_restriction(store2, kind);
    assert forall|k: DocKeyView| #[trigger] listed.dom().contains(k) implies doc_keys(
        kind,
        docs,
    ).contains(k) by {
        assert(store2.dom().contains(k) && k.0 == kind);
        if store.dom().contains(k) {
            assert(k.0 != kind);
        }
    }
    assert forall|k: DocKeyView| #[trigger] doc_keys(kind, docs).contains(k) implies listed.dom()
        .contains(k) by {
        let i = choose|i: int| 0 <= i < docs.len() && k == (kind, (#[trigger] docs[i]).0);
        assert(store2.dom().contains((kind, docs[i].0)));
    }
    assert(listed.dom() =~= doc_keys(kind, docs));
}

} // verus!
