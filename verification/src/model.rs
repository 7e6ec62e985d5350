//! Specification-level models of the codec's two worlds.
//!
//! [`ValueView`] is the mathematical form of a structured application value;
//! [`PropView`] is the mathematical form of the store's closed property
//! union; [`ShapeView`] describes the shape of an application type, and
//! guides decoding the way the target type guides a deserializer.
//!
//! The codec itself is specified here as well: [`enc`] maps a value into the
//! property union, [`dec`] maps a property back, guided by a shape.  The
//! executable codec is proved against these functions, and the round-trip
//! law is proved about them.

use vstd::prelude::*;

verus! {

/// An application value, as mathematics: the open world of values the codec
/// accepts.  Records carry their fields in order; a field that holds
/// `Absent` is an optional field without a value.  Floating-point numbers
/// travel as their 64-bit IEEE-754 bit pattern and are never interpreted.
#[verifier::ext_equal]
pub enum ValueView {
    Absent,
    Bool(bool),
    Int(i64),
    Uint(u64),
    Float(u64),
    Text(Seq<char>),
    Timestamp(Seq<char>),
    List(Seq<ValueView>),
    Record(Seq<(Seq<char>, ValueView)>),
}

/// The store's property union, as mathematics: the closed world every value
/// must be mapped into.  `Entity` is a property bag embedded as a property;
/// the bag keeps its fields in insertion order.
#[verifier::ext_equal]
pub enum PropView {
    Null,
    Boolean(bool),
    Integer(i64),
    Double(u64),
    Text(Seq<char>),
    Timestamp(Seq<char>),
    Array(Seq<PropView>),
    Entity(Seq<(Seq<char>, PropView)>),
}

/// The shape of an application type: what a decoder knows statically about
/// the value it is asked to reconstruct.
#[verifier::ext_equal]
pub enum ShapeView {
    Bool,
    Int,
    Uint,
    Float,
    Text,
    Timestamp,
    Optional(Box<ShapeView>),
    List(Box<ShapeView>),
    Record(Seq<(Seq<char>, ShapeView)>),
}

/// Field names in a record or bag are pairwise distinct.
pub open spec fn distinct_names<T>(fields: Seq<(Seq<char>, T)>) -> bool {
    forall|i: int, j: int| 0 <= i < j < fields.len() ==> fields[i].0 != fields[j].0
}

/// A shape the codec can decode unambiguously: record field names are
/// distinct (a bag is looked up by name), and an optional never directly
/// wraps an optional (both would claim the null property value).
pub open spec fn shape_ok(s: ShapeView) -> bool
    decreases s,
{
    match s {
        ShapeView::Optional(inner) => !(*inner is Optional) && shape_ok(*inner),
        ShapeView::List(inner) => shape_ok(*inner),
        ShapeView::Record(fields) => distinct_names(fields) && forall|i: int|
            0 <= i < fields.len() ==> shape_ok((#[trigger] fields[i]).1),
        _ => true,
    }
}

/// The value `v` has shape `s`: the precondition of the round-trip law.
/// In particular an unsigned value above `i64::MAX` has no faithful image
/// in the property union and does not conform.
pub open spec fn conforms(v: ValueView, s: ShapeView) -> bool
    decreases s,
{
    match s {
        ShapeView::Bool => v is Bool,
        ShapeView::Int => v is Int,
        ShapeView::Uint => v matches ValueView::Uint(n) && n <= i64::MAX as u64,
        ShapeView::Float => v is Float,
        ShapeView::Text => v is Text,
        ShapeView::Timestamp => v is Timestamp,
        ShapeView::Optional(inner) => v is Absent || conforms(v, *inner),
        ShapeView::List(inner) => v matches ValueView::List(elems) && forall|i: int|
            0 <= i < elems.len() ==> conforms(#[trigger] elems[i], *inner),
        ShapeView::Record(sfields) => v matches ValueView::Record(vfields)
            && vfields.len() == sfields.len()
            && forall|i: int|
                0 <= i < sfields.len() ==> (#[trigger] vfields[i]).0 == sfields[i].0
                    && conforms(vfields[i].1, sfields[i].1),
    }
}

/// Every node of `v` has an image in the property union.  Encoding fails
/// exactly on values where this is false (beyond the root-shape check).
pub open spec fn encodable(v: ValueView) -> bool
    decreases v,
{
    match v {
        ValueView::Uint(n) => n <= i64::MAX as u64,
        ValueView::List(elems) => forall|i: int|
            0 <= i < elems.len() ==> encodable(#[trigger] elems[i]),
        ValueView::Record(fields) => forall|i: int|
            0 <= i < fields.len() ==> encodable((#[trigger] fields[i]).1),
        _ => true,
    }
}

/// Unfolds [`encodable`] at a list: every element of an encodable list is
/// encodable.
pub proof fn lemma_use_encodable_list(v: ValueView, k: int)
    requires
        v is List,
        0 <= k < v->List_0.len(),
        encodable(v),
    ensures
        encodable(v->List_0[k]),
{
}

/// Unfolds [`encodable`] at a record: every field value of an encodable
/// record is encodable.
pub proof fn lemma_use_encodable_record(v: ValueView, k: int)
    requires
        v is Record,
        0 <= k < v->Record_0.len(),
        encodable(v),
    ensures
        encodable(v->Record_0[k].1),
{
}

/// The encoding of a value into the property union.  An absent optional
/// encodes as the null property value (the field stays present); this is
/// the one policy applied uniformly.  Meaningful only where [`encodable`]
/// holds.
pub open spec fn enc(v: ValueView) -> PropView
    decreases v,
{
    match v {
        ValueView::Absent => PropView::Null,
        ValueView::Bool(b) => PropView::Boolean(b),
        ValueView::Int(i) => PropView::Integer(i),
        ValueView::Uint(n) => PropView::Integer(#[verifier::truncate] (n as i64)),
        ValueView::Float(bits) => PropView::Double(bits),
        ValueView::Text(t) => PropView::Text(t),
        ValueView::Timestamp(t) => PropView::Timestamp(t),
        ValueView::List(elems) => PropView::Array(enc_seq(elems)),
        ValueView::Record(fields) => PropView::Entity(enc_fields(fields)),
    }
}

/// The encoding of a list's elements, element for element, in order.
pub open spec fn enc_seq(elems: Seq<ValueView>) -> Seq<PropView>
    decreases elems,
{
    if elems.len() == 0 {
        Seq::empty()
    } else {
        seq![enc(elems[0])] + enc_seq(elems.drop_first())
    }
}

/// The encoding of a record's fields into a property bag, name for name,
/// in order.
pub open spec fn enc_fields(fields: Seq<(Seq<char>, ValueView)>) -> Seq<(Seq<char>, PropView)>
    decreases fields,
{
    if fields.len() == 0 {
        Seq::empty()
    } else {
        seq![(fields[0].0, enc(fields[0].1))] + enc_fields(fields.drop_first())
    }
}

/// `enc_seq` maps `enc` over the elements.
pub proof fn lemma_enc_seq(elems: Seq<ValueView>)
    ensures
        enc_seq(elems).len() == elems.len(),
        forall|i: int| 0 <= i < elems.len() ==> enc_seq(elems)[i] == enc(elems[i]),
    decreases elems.len(),
{
    if elems.len() > 0 {
        lemma_enc_seq(elems.drop_first());
    }
}

/// `enc_fields` keeps every name and maps `enc` over every field value.
pub proof fn lemma_enc_fields(fields: Seq<(Seq<char>, ValueView)>)
    ensures
        enc_fields(fields).len() == fields.len(),
        forall|i: int| 0 <= i < fields.len() ==> #[trigger] enc_fields(fields)[i]
            == (fields[i].0, enc(fields[i].1)),
    decreases fields.len(),
{
    if fields.len() > 0 {
        lemma_enc_fields(fields.drop_first());
    }
}

/// Lookup in a property bag: the first field of the given name, if any.
pub open spec fn bag_get(bag: Seq<(Seq<char>, PropView)>, name: Seq<char>) -> Option<PropView>
    decreases bag.len(),
{
    if bag.len() == 0 {
        Option::None
    } else if bag[0].0 == name {
        Option::Some(bag[0].1)
    } else {
        bag_get(bag.drop_first(), name)
    }
}

/// Why a decode is refused: a required field is missing from the bag, a
/// property's kind differs from what the shape expects at that position, or
/// the kind matches but the content cannot form the target (a negative
/// integer where an unsigned value is expected).
#[derive(Clone, Copy, Debug, PartialEq, Eq, Structural)]
pub enum DecodeError {
    MissingField,
    TypeMismatch,
    Malformed,
}

/// Why an encode is refused: the root of the document is not record-shaped
/// (the store requires a field bag at the document root), or a nested value
/// has no image in the property union.
#[derive(Clone, Copy, Debug, PartialEq, Eq, Structural)]
pub enum EncodeError {
    UnsupportedShape,
    UnsupportedType,
}

/// The decoding of a property back into a value of shape `s`.  A decoder
/// stops at the first offending node, in field order, elements before the
/// rest of a list.
pub open spec fn dec(s: ShapeView, p: PropView) -> Result<ValueView, DecodeError>
    decreases s, 0int,
{
    match s {
        ShapeView::Bool => match p {
            PropView::Boolean(b) => Ok(ValueView::Bool(b)),
            _ => Err(DecodeError::TypeMismatch),
        },
        ShapeView::Int => match p {
            PropView::Integer(i) => Ok(ValueView::Int(i)),
            _ => Err(DecodeError::TypeMismatch),
        },
        ShapeView::Uint => match p {
            PropView::Integer(i) => if i >= 0 {
                Ok(ValueView::Uint(i as u64))
            } else {
                Err(DecodeError::Malformed)
            },
            _ => Err(DecodeError::TypeMismatch),
        },
        ShapeView::Float => match p {
            PropView::Double(bits) => Ok(ValueView::Float(bits)),
            _ => Err(DecodeError::TypeMismatch),
        },
        ShapeView::Text => match p {
            PropView::Text(t) => Ok(ValueView::Text(t)),
            _ => Err(DecodeError::TypeMismatch),
        },
        ShapeView::Timestamp => match p {
            PropView::Timestamp(t) => Ok(ValueView::Timestamp(t)),
            _ => Err(DecodeError::TypeMismatch),
        },
        ShapeView::Optional(inner) => if p is Null {
            Ok(ValueView::Absent)
        } else {
            dec(*inner, p)
        },
        ShapeView::List(inner) => match p {
            PropView::Array(ps) => match dec_seq(*inner, ps) {
                Ok(vs) => Ok(ValueView::List(vs)),
                Err(e) => Err(e),
            },
            _ => Err(DecodeError::TypeMismatch),
        },
        ShapeView::Record(sfields) => match p {
            PropView::Entity(bag) => match dec_fields(sfields, bag) {
                Ok(fs) => Ok(ValueView::Record(fs)),
                Err(e) => Err(e),
            },
            _ => Err(DecodeError::TypeMismatch),
        },
    }
}

/// The decoding of the elements of a property list, each against the same
/// element shape.
pub open spec fn dec_seq(inner: ShapeView, ps: Seq<PropView>) -> Result<Seq<ValueView>, DecodeError>
    decreases inner, ps.len(),
{
    if ps.len() == 0 {
        Ok(Seq::empty())
    } else {
        match dec(inner, ps[0]) {
            Err(e) => Err(e),
            Ok(v) => match dec_seq(inner, ps.drop_first()) {
                Err(e) => Err(e),
                Ok(vs) => Ok(seq![v] + vs),
            },
        }
    }
}

/// The decoding of one record field from a property bag: the field is
/// looked up by name.  A missing field is an absent optional where the
/// field's shape allows it, and a [`DecodeError::MissingField`] otherwise.
pub open spec fn dec_field(
    sf: (Seq<char>, ShapeView),
    bag: Seq<(Seq<char>, PropView)>,
) -> Result<ValueView, DecodeError>
    decreases sf.1, 1int,
{
    match bag_get(bag, sf.0) {
        Option::None => if sf.1 is Optional {
            Ok(ValueView::Absent)
        } else {
            Err(DecodeError::MissingField)
        },
        Option::Some(p) => dec(sf.1, p),
    }
}

/// The decoding of a record from a property bag, field by field in shape
/// order.
pub open spec fn dec_fields(
    sfields: Seq<(Seq<char>, ShapeView)>,
    bag: Seq<(Seq<char>, PropView)>,
) -> Result<Seq<(Seq<char>, ValueView)>, DecodeError>
    decreases sfields, 0int,
{
    if sfields.len() == 0 {
        Ok(Seq::empty())
    } else {
        match dec_field(sfields[0], bag) {
            Err(e) => Err(e),
            Ok(v) => match dec_fields(sfields.drop_first(), bag) {
                Err(e) => Err(e),
                Ok(rest) => Ok(seq![(sfields[0].0, v)] + rest),
            },
        }
    }
}

/// A lookup that fails on every field of a prefix of the bag is a lookup
/// in the rest of the bag.
pub proof fn lemma_bag_get_skip(bag: Seq<(Seq<char>, PropView)>, name: Seq<char>, i: int)
    requires
        0 <= i <= bag.len(),
        forall|k: int| 0 <= k < i ==> (#[trigger] bag[k]).0 != name,
    ensures
        bag_get(bag, name) == bag_get(bag.skip(i), name),
    decreases i,
{
    if i > 0 {
        assert(bag.skip(i - 1)[0] == bag[i - 1]);
        assert(bag.skip(i - 1).drop_first() =~= bag.skip(i));
        lemma_bag_get_skip(bag, name, i - 1);
    } else {
        assert(bag.skip(0) =~= bag);
    }
}

/// Elementwise decoding determines the decoding of a whole list.
pub proof fn lemma_dec_seq_all_ok(inner: ShapeView, ps: Seq<PropView>, vs: Seq<ValueView>)
    requires
        ps.len() == vs.len(),
        forall|k: int| 0 <= k < ps.len() ==> dec(inner, #[trigger] ps[k]) == Ok::<
            ValueView,
            DecodeError,
        >(vs[k]),
    ensures
        dec_seq(inner, ps) == Ok::<Seq<ValueView>, DecodeError>(vs),
    decreases ps.len(),
{
    if ps.len() == 0 {
        assert(vs =~= Seq::<ValueView>::empty());
    } else {
        let pt = ps.drop_first();
        let vt = vs.drop_first();
        assert(forall|k: int| 0 <= k < pt.len() ==> #[trigger] pt[k] == ps[k + 1]);
        assert(forall|k: int| 0 <= k < vt.len() ==> #[trigger] vt[k] == vs[k + 1]);
        lemma_dec_seq_all_ok(inner, pt, vt);
        assert(seq![vs[0]] + vt =~= vs);
    }
}

/// A list's decoding fails with the error of its first offending element.
pub proof fn lemma_dec_seq_err(inner: ShapeView, ps: Seq<PropView>, i: int, e: DecodeError)
    requires
        0 <= i < ps.len(),
        forall|k: int| 0 <= k < i ==> dec(inner, #[trigger] ps[k]) is Ok,
        dec(inner, ps[i]) == Err::<ValueView, DecodeError>(e),
    ensures
        dec_seq(inner, ps) == Err::<Seq<ValueView>, DecodeError>(e),
    decreases i,
{
    let pt = ps.drop_first();
    assert(forall|k: int| 0 <= k < pt.len() ==> #[trigger] pt[k] == ps[k + 1]);
    if i > 0 {
        lemma_dec_seq_err(inner, pt, i - 1, e);
    }
}

/// Fieldwise decoding determines the decoding of a whole record.
pub proof fn lemma_dec_fields_all_ok(
    sfields: Seq<(Seq<char>, ShapeView)>,
    bag: Seq<(Seq<char>, PropView)>,
    out: Seq<(Seq<char>, ValueView)>,
)
    requires
        out.len() == sfields.len(),
        forall|k: int|
            0 <= k < sfields.len() ==> (#[trigger] out[k]).0 == sfields[k].0 && dec_field(
                sfields[k],
                bag,
            ) == Ok::<ValueView, DecodeError>(out[k].1),
    ensures
        dec_fields(sfields, bag) == Ok::<Seq<(Seq<char>, ValueView)>, DecodeError>(out),
    decreases sfields.len(),
{
    if sfields.len() == 0 {
        assert(out =~= Seq::<(Seq<char>, ValueView)>::empty());
    } else {
        let st = sfields.drop_first();
        let ot = out.drop_first();
        assert(forall|k: int| 0 <= k < st.len() ==> #[trigger] st[k] == sfields[k + 1]);
        assert(forall|k: int| 0 <= k < ot.len() ==> #[trigger] ot[k] == out[k + 1]);
        lemma_dec_fields_all_ok(st, bag, ot);
        assert((sfields[0].0, out[0].1) == out[0]);
        assert(seq![out[0]] + ot =~= out);
    }
}

/// A record's decoding fails with the error of its first offending field,
/// in shape order.
pub proof fn lemma_dec_fields_err(
    sfields: Seq<(Seq<char>, ShapeView)>,
    bag: Seq<(Seq<char>, PropView)>,
    i: int,
    e: DecodeError,
)
    requires
        0 <= i < sfields.len(),
        forall|k: int| 0 <= k < i ==> dec_field(#[trigger] sfields[k], bag) is Ok,
        dec_field(sfields[i], bag) == Err::<ValueView, DecodeError>(e),
    ensures
        dec_fields(sfields, bag) == Err::<Seq<(Seq<char>, ValueView)>, DecodeError>(e),
    decreases i,
{
    let st = sfields.drop_first();
    assert(forall|k: int| 0 <= k < st.len() ==> #[trigger] st[k] == sfields[k + 1]);
    if i > 0 {
        lemma_dec_fields_err(st, bag, i - 1, e);
    }
}

/// In a bag with distinct field names, lookup by the name of field `i`
/// finds exactly field `i`.
proof fn lemma_bag_get_distinct(bag: Seq<(Seq<char>, PropView)>, i: int)
    requires
        distinct_names(bag),
        0 <= i < bag.len(),
    ensures
        bag_get(bag, bag[i].0) == Option::Some(bag[i].1),
    decreases bag.len(),
{
    if i > 0 {
        assert(bag[0].0 != bag[i].0);
        let rest = bag.drop_first();
        assert forall|m: int, n: int| 0 <= m < n < rest.len() implies rest[m].0 != rest[n].0 by {
            assert(rest[m] == bag[m + 1] && rest[n] == bag[n + 1]);
        }
        lemma_bag_get_distinct(rest, i - 1);
        assert(rest[i - 1] == bag[i]);
    }
}

/// Round-trip law: decoding an encoded value, guided by the shape the
/// value conforms to, yields the value back unchanged.
pub proof fn lemma_round_trip(s: ShapeView, v: ValueView)
    requires
        shape_ok(s),
        conforms(v, s),
    ensures
        dec(s, enc(v)) == Ok::<ValueView, DecodeError>(v),
    decreases s, 0int,
{
    match s {
        ShapeView::Optional(inner) => {
            if !(v is Absent) {
                assert(!(enc(v) is Null));
                lemma_round_trip(*inner, v);
            }
        },
        ShapeView::List(inner) => {
            let elems = v->List_0;
            lemma_round_trip_seq(*inner, elems);
        },
        ShapeView::Record(sfields) => {
            let vfields = v->Record_0;
            let bag = enc_fields(vfields);
            lemma_enc_fields(vfields);
            assert forall|m: int, n: int| 0 <= m < n < bag.len() implies bag[m].0 != bag[n].0 by {
                assert(bag[m].0 == sfields[m].0 && bag[n].0 == sfields[n].0);
            }
            assert forall|i: int| 0 <= i < sfields.len() implies #[trigger] bag_get(
                bag,
                sfields[i].0,
            ) == Option::Some(enc(vfields[i].1)) by {
                lemma_bag_get_distinct(bag, i);
            }
            lemma_round_trip_fields(sfields, vfields, bag);
        },
        _ => {},
    }
}

/// Round-trip law for the elements of a list.
proof fn lemma_round_trip_seq(inner: ShapeView, elems: Seq<ValueView>)
    requires
        shape_ok(inner),
        forall|i: int| 0 <= i < elems.len() ==> conforms(#[trigger] elems[i], inner),
    ensures
        dec_seq(inner, enc_seq(elems)) == Ok::<Seq<ValueView>, DecodeError>(elems),
    decreases inner, elems.len(),
{
    let ps = enc_seq(elems);
    if elems.len() == 0 {
        assert(elems =~= Seq::<ValueView>::empty());
    } else {
        assert(ps[0] == enc(elems[0]));
        lemma_round_trip(inner, elems[0]);
        assert(ps.drop_first() =~= enc_seq(elems.drop_first()));
        let tail = elems.drop_first();
        assert(forall|i: int| 0 <= i < tail.len() ==> #[trigger] tail[i] == elems[i + 1]);
        lemma_round_trip_seq(inner, tail);
        assert(seq![elems[0]] + tail =~= elems);
    }
}

/// Round-trip law for the fields of a record, against a bag in which each
/// field's name already finds that field's encoded value.
proof fn lemma_round_trip_fields(
    sfields: Seq<(Seq<char>, ShapeView)>,
    vfields: Seq<(Seq<char>, ValueView)>,
    bag: Seq<(Seq<char>, PropView)>,
)
    requires
        vfields.len() == sfields.len(),
        forall|i: int| 0 <= i < sfields.len() ==> shape_ok((#[trigger] sfields[i]).1),
        forall|i: int|
            0 <= i < sfields.len() ==> (#[trigger] vfields[i]).0 == sfields[i].0 && conforms(
                vfields[i].1,
                sfields[i].1,
            ),
        forall|i: int|
            0 <= i < sfields.len() ==> #[trigger] bag_get(bag, sfields[i].0) == Option::Some(
                enc(vfields[i].1),
            ),
    ensures
        dec_fields(sfields, bag) == Ok::<Seq<(Seq<char>, ValueView)>, DecodeError>(vfields),
    decreases sfields, 0int,
{
    if sfields.len() == 0 {
        assert(vfields =~= Seq::<(Seq<char>, ValueView)>::empty());
    } else {
        lemma_round_trip(sfields[0].1, vfields[0].1);
        assert(bag_get(bag, sfields[0].0) == Option::Some(enc(vfields[0].1)));
        assert(dec_field(sfields[0], bag) == Ok::<ValueView, DecodeError>(vfields[0].1));
        let stail = sfields.drop_first();
        let vtail = vfields.drop_first();
        assert(forall|i: int| 0 <= i < stail.len() ==> #[trigger] stail[i] == sfields[i + 1]);
        assert(forall|i: int| 0 <= i < vtail.len() ==> #[trigger] vtail[i] == vfields[i + 1]);
        lemma_round_trip_fields(stail, vtail, bag);
        assert((sfields[0].0, vfields[0].1) == vfields[0]);
        assert(seq![vfields[0]] + vtail =~= vfields);
    }
}

} // verus!
