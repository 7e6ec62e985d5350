//! The executable codec: structured application values, the store's
//! property union, shapes, and the verified bridge between them.
//!
//! [`encode`] turns a record-shaped [`Value`] into a property bag;
//! [`decode`] reconstructs a [`Value`] from a property bag, guided by a
//! [`Shape`].  Both are proved against the specification functions of
//! [`crate::model`], so the round-trip law of the model carries over to the
//! executable pair.

use vstd::prelude::*;

use crate::model::{
    DecodeError, EncodeError, PropView, ShapeView, ValueView, bag_get, dec, dec_field, dec_fields,
    dec_seq, enc, enc_fields, enc_seq, encodable, lemma_bag_get_skip, lemma_dec_fields_all_ok,
    lemma_dec_fields_err, lemma_dec_seq_all_ok, lemma_dec_seq_err, lemma_enc_fields,
    lemma_enc_seq, lemma_use_encodable_list, lemma_use_encodable_record,
};

verus! {

broadcast use vstd::std_specs::vec::group_vec_axioms;

/// A structured application value.  `Absent` is an optional value without
/// content; records carry `(field name, field value)` pairs in order.
/// Floating-point content travels as its 64-bit IEEE-754 bit pattern; the
/// codec never interprets it.
#[derive(Debug)]
pub enum Value {
    Absent,
    Bool(bool),
    Int(i64),
    Uint(u64),
    Float(u64),
    Text(String),
    Timestamp(String),
    List(Vec<Value>),
    Record(Vec<(String, Value)>),
}

/// The shape of an application type, guiding [`decode`] the way the target
/// type guides a deserializer.
#[derive(Debug)]
pub enum Shape {
    Bool,
    Int,
    Uint,
    Float,
    Text,
    Timestamp,
    Optional(Box<Shape>),
    List(Box<Shape>),
    Record(Vec<(String, Shape)>),
}

/// A value of the store's property union: the closed wire representation
/// every stored field is mapped into.
#[derive(Debug)]
pub enum PropValue {
    Null,
    Boolean(bool),
    Integer(i64),
    Double(u64),
    Text(String),
    Timestamp(String),
    Array(Vec<PropValue>),
    Entity(Vec<(String, PropValue)>),
}

/// The mathematical form of a [`Value`].
pub open spec fn abs_value(v: Value) -> ValueView
    decreases v,
{
    match v {
        Value::Absent => ValueView::Absent,
        Value::Bool(b) => ValueView::Bool(b),
        Value::Int(i) => ValueView::Int(i),
        Value::Uint(n) => ValueView::Uint(n),
        Value::Float(bits) => ValueView::Float(bits),
        Value::Text(t) => ValueView::Text(t@),
        Value::Timestamp(t) => ValueView::Timestamp(t@),
        Value::List(elems) => ValueView::List(abs_value_seq(elems@)),
        Value::Record(fields) => ValueView::Record(abs_value_fields(fields@)),
    }
}

/// The mathematical form of a sequence of values, element for element.
pub open spec fn abs_value_seq(elems: Seq<Value>) -> Seq<ValueView>
    decreases elems,
{
    if elems.len() == 0 {
        Seq::empty()
    } else {
        seq![abs_value(elems[0])] + abs_value_seq(elems.drop_first())
    }
}

/// The mathematical form of a record's fields, name for name.
pub open spec fn abs_value_fields(fields: Seq<(String, Value)>) -> Seq<(Seq<char>, ValueView)>
    decreases fields,
{
    if fields.len() == 0 {
        Seq::empty()
    } else {
        seq![(fields[0].0@, abs_value(fields[0].1))] + abs_value_fields(fields.drop_first())
    }
}

/// The mathematical form of a [`Shape`].
pub open spec fn abs_shape(s: Shape) -> ShapeView
    decreases s,
{
    match s {
        Shape::Bool => ShapeView::Bool,
        Shape::Int => ShapeView::Int,
        Shape::Uint => ShapeView::Uint,
        Shape::Float => ShapeView::Float,
        Shape::Text => ShapeView::Text,
        Shape::Timestamp => ShapeView::Timestamp,
        Shape::Optional(inner) => ShapeView::Optional(Box::new(abs_shape(*inner))),
        Shape::List(inner) => ShapeView::List(Box::new(abs_shape(*inner))),
        Shape::Record(fields) => ShapeView::Record(abs_shape_fields(fields@)),
    }
}

/// The mathematical form of a shape's record fields, name for name.
pub open spec fn abs_shape_fields(fields: Seq<(String, Shape)>) -> Seq<(Seq<char>, ShapeView)>
    decreases fields,
{
    if fields.len() == 0 {
        Seq::empty()
    } else {
        seq![(fields[0].0@, abs_shape(fields[0].1))] + abs_shape_fields(fields.drop_first())
    }
}

/// The mathematical form of a [`PropValue`].
pub open spec fn abs_prop(p: PropValue) -> PropView
    decreases p,
{
    match p {
        PropValue::Null => PropView::Null,
        PropValue::Boolean(b) => PropView::Boolean(b),
        PropValue::Integer(i) => PropView::Integer(i),
        PropValue::Double(bits) => PropView::Double(bits),
        PropValue::Text(t) => PropView::Text(t@),
        PropValue::Timestamp(t) => PropView::Timestamp(t@),
        PropValue::Array(elems) => PropView::Array(abs_prop_seq(elems@)),
        PropValue::Entity(fields) => PropView::Entity(abs_prop_fields(fields@)),
    }
}

/// The mathematical form of a sequence of property values.
pub open spec fn abs_prop_seq(elems: Seq<PropValue>) -> Seq<PropView>
    decreases elems,
{
    if elems.len() == 0 {
        Seq::empty()
    } else {
        seq![abs_prop(elems[0])] + abs_prop_seq(elems.drop_first())
    }
}

/// The mathematical form of a property bag, name for name.
pub open spec fn abs_prop_fields(fields: Seq<(String, PropValue)>) -> Seq<(Seq<char>, PropView)>
    decreases fields,
{
    if fields.len() == 0 {
        Seq::empty()
    } else {
        seq![(fields[0].0@, abs_prop(fields[0].1))] + abs_prop_fields(fields.drop_first())
    }
}

/// `abs_value_seq` acts pointwise.
pub proof fn lemma_abs_value_seq(elems: Seq<Value>)
    ensures
        abs_value_seq(elems).len() == elems.len(),
        forall|i: int| 0 <= i < elems.len() ==> #[trigger] abs_value_seq(elems)[i] == abs_value(
            elems[i],
        ),
    decreases elems.len(),
{
    if elems.len() > 0 {
        lemma_abs_value_seq(elems.drop_first());
    }
}

/// `abs_value_fields` acts pointwise.
pub proof fn lemma_abs_value_fields(fields: Seq<(String, Value)>)
    ensures
        abs_value_fields(fields).len() == fields.len(),
        forall|i: int| 0 <= i < fields.len() ==> #[trigger] abs_value_fields(fields)[i] == (
            fields[i].0@,
            abs_value(fields[i].1),
        ),
    decreases fields.len(),
{
    if fields.len() > 0 {
        lemma_abs_value_fields(fields.drop_first());
    }
}

/// `abs_shape_fields` acts pointwise.
pub proof fn lemma_abs_shape_fields(fields: Seq<(String, Shape)>)
    ensures
        abs_shape_fields(fields).len() == fields.len(),
        forall|i: int| 0 <= i < fields.len() ==> #[trigger] abs_shape_fields(fields)[i] == (
            fields[i].0@,
            abs_shape(fields[i].1),
        ),
    decreases fields.len(),
{
    if fields.len() > 0 {
        lemma_abs_shape_fields(fields.drop_first());
    }
}

/// `abs_prop_seq` acts pointwise.
pub proof fn lemma_abs_prop_seq(elems: Seq<PropValue>)
    ensures
        abs_prop_seq(elems).len() == elems.len(),
        forall|i: int| 0 <= i < elems.len() ==> #[trigger] abs_prop_seq(elems)[i] == abs_prop(
            elems[i],
        ),
    decreases elems.len(),
{
    if elems.len() > 0 {
        lemma_abs_prop_seq(elems.drop_first());
    }
}

/// `abs_prop_fields` acts pointwise.
pub proof fn lemma_abs_prop_fields(fields: Seq<(String, PropValue)>)
    ensures
        abs_prop_fields(fields).len() == fields.len(),
        forall|i: int| 0 <= i < fields.len() ==> #[trigger] abs_prop_fields(fields)[i] == (
            fields[i].0@,
            abs_prop(fields[i].1),
        ),
    decreases fields.len(),
{
    if fields.len() > 0 {
        lemma_abs_prop_fields(fields.drop_first());
    }
}

/// A record whose field values are all encodable is encodable.
proof fn lemma_record_encodable(fields: Seq<(String, Value)>)
    requires
        forall|k: int| 0 <= k < fields.len() ==> encodable(abs_value((#[trigger] fields[k]).1)),
    ensures
        encodable(ValueView::Record(abs_value_fields(fields))),
{
    lemma_abs_value_fields(fields);
    assert forall|k: int| 0 <= k < abs_value_fields(fields).len() implies encodable(
        (#[trigger] abs_value_fields(fields)[k]).1,
    ) by {
        assert(encodable(abs_value(fields[k].1)));
    }
}

/// A record one of whose field values is not encodable is not encodable.
proof fn lemma_record_not_encodable(fields: Seq<(String, Value)>)
    requires
        exists|k: int| 0 <= k < fields.len() && !encodable(abs_value((#[trigger] fields[k]).1)),
    ensures
        !encodable(ValueView::Record(abs_value_fields(fields))),
{
    lemma_abs_value_fields(fields);
    let k = choose|k: int|
        0 <= k < fields.len() && !encodable(abs_value((#[trigger] fields[k]).1));
    assert(!encodable((abs_value_fields(fields)[k]).1));
    if encodable(ValueView::Record(abs_value_fields(fields))) {
        lemma_use_encodable_record(ValueView::Record(abs_value_fields(fields)), k);
        assert(false);
    }
}

/// Encode one value into the property union.  Returns the encoding exactly
/// when every node of the value has an image in the union; the only value
/// without one is an unsigned integer above `i64::MAX`.
pub fn encode_value(v: &Value) -> (r: Result<PropValue, EncodeError>)
    ensures
        match r {
            Ok(p) => encodable(abs_value(*v)) && abs_prop(p) == enc(abs_value(*v)),
            Err(e) => !encodable(abs_value(*v)) && e == EncodeError::UnsupportedType,
        },
    decreases v,
{
    match v {
        Value::Absent => Ok(PropValue::Null),
        Value::Bool(b) => Ok(PropValue::Boolean(*b)),
        Value::Int(i) => Ok(PropValue::Integer(*i)),
        Value::Uint(n) => {
            if *n <= i64::MAX as u64 {
                Ok(PropValue::Integer(*n as i64))
            } else {
                Err(EncodeError::UnsupportedType)
            }
        },
        Value::Float(bits) => Ok(PropValue::Double(*bits)),
        Value::Text(t) => Ok(PropValue::Text(t.clone())),
        Value::Timestamp(t) => Ok(PropValue::Timestamp(t.clone())),
        Value::List(elems) => {
            let mut out: Vec<PropValue> = Vec::new();
            let mut i: usize = 0;
            while i < elems.len()
                invariant
                    *v == Value::List(*elems),
                    i <= elems.len(),
                    out@.len() == i,
                    forall|k: int| 0 <= k < i ==> encodable(abs_value(#[trigger] elems@[k])),
                    forall|k: int|
                        0 <= k < i ==> abs_prop(#[trigger] out@[k]) == enc(abs_value(elems@[k])),
                decreases elems.len() - i,
            {
                proof {
                    assert(decreases_to!(*v => *elems));
                    assert(decreases_to!(*elems => elems@));
                    assert(decreases_to!(elems@ => elems@[i as int]));
                }
                match encode_value(&elems[i]) {
                    Ok(p) => {
                        out.push(p);
                    },
                    Err(e) => {
                        proof {
                            lemma_abs_value_seq(elems@);
                            assert(!encodable(abs_value_seq(elems@)[i as int]));
                            if encodable(abs_value(*v)) {
                                lemma_use_encodable_list(abs_value(*v), i as int);
                                assert(false);
                            }
                        }
                        return Err(e);
                    },
                }
                i = i + 1;
            }
            proof {
                lemma_abs_value_seq(elems@);
                lemma_abs_prop_seq(out@);
                lemma_enc_seq(abs_value_seq(elems@));
                assert(abs_prop_seq(out@) =~= enc_seq(abs_value_seq(elems@)));
                assert forall|k: int| 0 <= k < abs_value_seq(elems@).len() implies encodable(
                    #[trigger] abs_value_seq(elems@)[k],
                ) by {
                    assert(encodable(abs_value(elems@[k])));
                }
                assert(encodable(abs_value(*v)));
            }
            Ok(PropValue::Array(out))
        },
        Value::Record(fields) => {
            match encode_fields(fields) {
                Ok(bag) => {
                    proof {
                        lemma_record_encodable(fields@);
                    }
                    Ok(PropValue::Entity(bag))
                },
                Err(e) => {
                    proof {
                        lemma_record_not_encodable(fields@);
                    }
                    Err(e)
                },
            }
        },
    }
}

/// Encode the fields of a record into a property bag, name for name, in
/// order.  Fails exactly where some field's value is not encodable.
pub fn encode_fields(fields: &Vec<(String, Value)>) -> (r: Result<
    Vec<(String, PropValue)>,
    EncodeError,
>)
    ensures
        match r {
            Ok(bag) => abs_prop_fields(bag@) == enc_fields(abs_value_fields(fields@)) && forall|
                k: int,
            | 0 <= k < fields@.len() ==> encodable(abs_value((#[trigger] fields@[k]).1)),
            Err(e) => e == EncodeError::UnsupportedType && exists|k: int|
                0 <= k < fields@.len() && !encodable(abs_value((#[trigger] fields@[k]).1)),
        },
    decreases fields,
{
    let mut bag: Vec<(String, PropValue)> = Vec::new();
    let mut i: usize = 0;
    while i < fields.len()
        invariant
            i <= fields.len(),
            bag@.len() == i,
            forall|k: int| 0 <= k < i ==> encodable(abs_value((#[trigger] fields@[k]).1)),
            forall|k: int|
                0 <= k < i ==> (#[trigger] bag@[k]).0@ == fields@[k].0@ && abs_prop(bag@[k].1)
                    == enc(abs_value(fields@[k].1)),
        decreases fields.len() - i,
    {
        match encode_value(&fields[i].1) {
            Ok(p) => {
                let name = fields[i].0.clone();
                bag.push((name, p));
            },
            Err(e) => {
                return Err(e);
            },
        }
        i = i + 1;
    }
    proof {
        lemma_abs_value_fields(fields@);
        lemma_abs_prop_fields(bag@);
        lemma_enc_fields(abs_value_fields(fields@));
        assert(abs_prop_fields(bag@) =~= enc_fields(abs_value_fields(fields@)));
    }
    Ok(bag)
}

/// Encode a document: the value at the root must be record-shaped, since
/// the store requires a field bag at the document root.  Returns the bag,
/// [`EncodeError::UnsupportedShape`] for a non-record root, and
/// [`EncodeError::UnsupportedType`] for a record some node of which has no
/// image in the property union.
pub fn encode(v: &Value) -> (r: Result<Vec<(String, PropValue)>, EncodeError>)
    ensures
        match r {
            Ok(bag) => abs_value(*v) is Record && encodable(abs_value(*v)) && abs_prop_fields(bag@)
                == enc_fields(abs_value(*v)->Record_0),
            Err(e) => (e == EncodeError::UnsupportedShape && !(abs_value(*v) is Record)) || (e
                == EncodeError::UnsupportedType && abs_value(*v) is Record && !encodable(
                abs_value(*v),
            )),
        },
{
    match v {
        Value::Record(fields) => {
            match encode_fields(fields) {
                Ok(bag) => {
                    proof {
                        lemma_record_encodable(fields@);
                    }
                    Ok(bag)
                },
                Err(e) => {
                    proof {
                        lemma_record_not_encodable(fields@);
                    }
                    Err(e)
                },
            }
        },
        _ => Err(EncodeError::UnsupportedShape),
    }
}

/// Structural equality of two values: exactly when their mathematical
/// forms coincide.  (`Value` carries no derived equality, since the
/// verifier could claim nothing about one.)
pub fn value_eq(a: &Value, b: &Value) -> (r: bool)
    ensures
        r == (abs_value(*a) == abs_value(*b)),
    decreases a,
{
    match (a, b) {
        (Value::Absent, Value::Absent) => true,
        (Value::Bool(x), Value::Bool(y)) => *x == *y,
        (Value::Int(x), Value::Int(y)) => *x == *y,
        (Value::Uint(x), Value::Uint(y)) => *x == *y,
        (Value::Float(x), Value::Float(y)) => *x == *y,
        (Value::Text(x), Value::Text(y)) => *x == *y,
        (Value::Timestamp(x), Value::Timestamp(y)) => *x == *y,
        (Value::List(xs), Value::List(ys)) => value_seq_eq(xs, ys),
        (Value::Record(xs), Value::Record(ys)) => value_fields_eq(xs, ys),
        _ => false,
    }
}

/// Structural equality of two value sequences, element for element.
fn value_seq_eq(xs: &Vec<Value>, ys: &Vec<Value>) -> (r: bool)
    ensures
        r == (abs_value_seq(xs@) == abs_value_seq(ys@)),
    decreases xs,
{
    proof {
        lemma_abs_value_seq(xs@);
        lemma_abs_value_seq(ys@);
    }
    if xs.len() != ys.len() {
        return false;
    }
    let mut i: usize = 0;
    while i < xs.len()
        invariant
            xs@.len() == ys@.len(),
            i <= xs@.len(),
            abs_value_seq(xs@).len() == xs@.len(),
            abs_value_seq(ys@).len() == ys@.len(),
            forall|k: int|
                0 <= k < xs@.len() ==> #[trigger] abs_value_seq(xs@)[k] == abs_value(xs@[k]),
            forall|k: int|
                0 <= k < ys@.len() ==> #[trigger] abs_value_seq(ys@)[k] == abs_value(ys@[k]),
            forall|k: int| 0 <= k < i ==> abs_value(#[trigger] xs@[k]) == abs_value(ys@[k]),
        decreases xs@.len() - i,
    {
        if !value_eq(&xs[i], &ys[i]) {
            proof {
                assert(abs_value_seq(xs@)[i as int] != abs_value_seq(ys@)[i as int]);
            }
            return false;
        }
        i = i + 1;
    }
    proof {
        assert(abs_value_seq(xs@) =~= abs_value_seq(ys@));
    }
    true
}

/// Structural equality of two field lists: names and values, in order.
fn value_fields_eq(xs: &Vec<(String, Value)>, ys: &Vec<(String, Value)>) -> (r: bool)
    ensures
        r == (abs_value_fields(xs@) == abs_value_fields(ys@)),
    decreases xs,
{
    proof {
        lemma_abs_value_fields(xs@);
        lemma_abs_value_fields(ys@);
    }
    if xs.len() != ys.len() {
        return false;
    }
    let mut i: usize = 0;
    while i < xs.len()
        invariant
            xs@.len() == ys@.len(),
            i <= xs@.len(),
            abs_value_fields(xs@).len() == xs@.len(),
            abs_value_fields(ys@).len() == ys@.len(),
            forall|k: int|
                0 <= k < xs@.len() ==> #[trigger] abs_value_fields(xs@)[k] == (
                    xs@[k].0@,
                    abs_value(xs@[k].1),
                ),
            forall|k: int|
                0 <= k < ys@.len() ==> #[trigger] abs_value_fields(ys@)[k] == (
                    ys@[k].0@,
                    abs_value(ys@[k].1),
                ),
            forall|k: int|
                0 <= k < i ==> (#[trigger] xs@[k]).0@ == ys@[k].0@ && abs_value(xs@[k].1)
                    == abs_value(ys@[k].1),
        decreases xs@.len() - i,
    {
        if !(xs[i].0 == ys[i].0) {
            proof {
                assert(abs_value_fields(xs@)[i as int] != abs_value_fields(ys@)[i as int]);
            }
            return false;
        }
        if !value_eq(&xs[i].1, &ys[i].1) {
            proof {
                assert(abs_value_fields(xs@)[i as int] != abs_value_fields(ys@)[i as int]);
            }
            return false;
        }
        i = i + 1;
    }
    proof {
        assert(abs_value_fields(xs@) =~= abs_value_fields(ys@));
    }
    true
}

/// Find a property in a bag by field name: the first field of that name,
/// as [`bag_get`] of the model.
fn bag_find<'a>(bag: &'a Vec<(String, PropValue)>, name: &String) -> (r: Option<&'a PropValue>)
    ensures
        match r {
            Some(p) => bag_get(abs_prop_fields(bag@), name@) == Option::Some(abs_prop(*p)),
            None => bag_get(abs_prop_fields(bag@), name@) is None,
        },
{
    let mut i: usize = 0;
    while i < bag.len()
        invariant
            i <= bag.len(),
            forall|k: int| 0 <= k < i ==> (#[trigger] bag@[k]).0@ != name@,
        decreases bag.len() - i,
    {
        let entry = &bag[i];
        if entry.0 == *name {
            proof {
                lemma_abs_prop_fields(bag@);
                let bagv = abs_prop_fields(bag@);
                assert forall|k: int| 0 <= k < i implies (#[trigger] bagv[k]).0 != name@ by {
                    assert(bagv[k] == (bag@[k].0@, abs_prop(bag@[k].1)));
                }
                lemma_bag_get_skip(bagv, name@, i as int);
                assert(bagv.skip(i as int)[0] == bagv[i as int]);
            }
            return Some(&entry.1);
        }
        i = i + 1;
    }
    proof {
        lemma_abs_prop_fields(bag@);
        let bagv = abs_prop_fields(bag@);
        assert forall|k: int| 0 <= k < bagv.len() implies (#[trigger] bagv[k]).0 != name@ by {
            assert(bagv[k] == (bag@[k].0@, abs_prop(bag@[k].1)));
        }
        lemma_bag_get_skip(bagv, name@, bagv.len() as int);
        assert(bagv.skip(bagv.len() as int) =~= Seq::<(Seq<char>, PropView)>::empty());
    }
    None
}

/// Decode the fields of a record shape from a property bag, field by field
/// in shape order, each field looked up by name.
fn decode_record_fields(sfields: &Vec<(String, Shape)>, bag: &Vec<(String, PropValue)>) -> (r:
    Result<Vec<(String, Value)>, DecodeError>)
    ensures
        match r {
            Ok(out) => dec_fields(abs_shape_fields(sfields@), abs_prop_fields(bag@)) == Ok::<
                Seq<(Seq<char>, ValueView)>,
                DecodeError,
            >(abs_value_fields(out@)),
            Err(e) => dec_fields(abs_shape_fields(sfields@), abs_prop_fields(bag@)) == Err::<
                Seq<(Seq<char>, ValueView)>,
                DecodeError,
            >(e),
        },
    decreases sfields,
{
    let ghost sfv = abs_shape_fields(sfields@);
    let ghost bagv = abs_prop_fields(bag@);
    proof {
        lemma_abs_shape_fields(sfields@);
    }
    let mut out: Vec<(String, Value)> = Vec::new();
    let mut i: usize = 0;
    while i < sfields.len()
        invariant
            sfv == abs_shape_fields(sfields@),
            bagv == abs_prop_fields(bag@),
            sfv.len() == sfields@.len(),
            forall|k: int|
                0 <= k < sfields@.len() ==> #[trigger] sfv[k] == (
                    sfields@[k].0@,
                    abs_shape(sfields@[k].1),
                ),
            i <= sfields.len(),
            out@.len() == i,
            forall|k: int|
                0 <= k < i ==> (#[trigger] out@[k]).0@ == sfields@[k].0@ && dec_field(sfv[k], bagv)
                    == Ok::<ValueView, DecodeError>(abs_value(out@[k].1)),
        decreases sfields.len() - i,
    {
        let sf = &sfields[i];
        match bag_find(bag, &sf.0) {
            None => {
                if matches!(&sf.1, Shape::Optional(_)) {
                    let name = sf.0.clone();
                    out.push((name, Value::Absent));
                    proof {
                        assert(dec_field(sfv[i as int], bagv) == Ok::<ValueView, DecodeError>(
                            ValueView::Absent,
                        ));
                    }
                } else {
                    proof {
                        assert(dec_field(sfv[i as int], bagv) == Err::<ValueView, DecodeError>(
                            DecodeError::MissingField,
                        ));
                        assert forall|k: int| 0 <= k < i implies dec_field(
                            #[trigger] sfv[k],
                            bagv,
                        ) is Ok by {
                            assert((out@[k]).0@ == sfields@[k].0@);
                        }
                        lemma_dec_fields_err(sfv, bagv, i as int, DecodeError::MissingField);
                    }
                    return Err(DecodeError::MissingField);
                }
            },
            Some(p) => {
                match decode_value(&sf.1, p) {
                    Ok(v) => {
                        let name = sf.0.clone();
                        proof {
                            assert(dec_field(sfv[i as int], bagv) == Ok::<
                                ValueView,
                                DecodeError,
                            >(abs_value(v)));
                        }
                        out.push((name, v));
                    },
                    Err(e) => {
                        proof {
                            assert(dec_field(sfv[i as int], bagv) == Err::<
                                ValueView,
                                DecodeError,
                            >(e));
                            assert forall|k: int| 0 <= k < i implies dec_field(
                                #[trigger] sfv[k],
                                bagv,
                            ) is Ok by {
                                assert((out@[k]).0@ == sfields@[k].0@);
                            }
                            lemma_dec_fields_err(sfv, bagv, i as int, e);
                        }
                        return Err(e);
                    },
                }
            },
        }
        i = i + 1;
    }
    proof {
        lemma_abs_value_fields(out@);
        lemma_dec_fields_all_ok(sfv, bagv, abs_value_fields(out@));
    }
    Ok(out)
}

/// Decode one property value, guided by a shape.  The result is exactly
/// the model's [`dec`] of the property at that shape: the decoded value on
/// success, and the first offending node's error otherwise.
pub fn decode_value(s: &Shape, p: &PropValue) -> (r: Result<Value, DecodeError>)
    ensures
        match r {
            Ok(v) => dec(abs_shape(*s), abs_prop(*p)) == Ok::<ValueView, DecodeError>(abs_value(v)),
            Err(e) => dec(abs_shape(*s), abs_prop(*p)) == Err::<ValueView, DecodeError>(e),
        },
    decreases s,
{
    match s {
        Shape::Bool => match p {
            PropValue::Boolean(b) => Ok(Value::Bool(*b)),
            _ => Err(DecodeError::TypeMismatch),
        },
        Shape::Int => match p {
            PropValue::Integer(i) => Ok(Value::Int(*i)),
            _ => Err(DecodeError::TypeMismatch),
        },
        Shape::Uint => match p {
            PropValue::Integer(i) => {
                if *i >= 0 {
                    Ok(Value::Uint(*i as u64))
                } else {
                    Err(DecodeError::Malformed)
                }
            },
            _ => Err(DecodeError::TypeMismatch),
        },
        Shape::Float => match p {
            PropValue::Double(bits) => Ok(Value::Float(*bits)),
            _ => Err(DecodeError::TypeMismatch),
        },
        Shape::Text => match p {
            PropValue::Text(t) => Ok(Value::Text(t.clone())),
            _ => Err(DecodeError::TypeMismatch),
        },
        Shape::Timestamp => match p {
            PropValue::Timestamp(t) => Ok(Value::Timestamp(t.clone())),
            _ => Err(DecodeError::TypeMismatch),
        },
        Shape::Optional(inner) => match p {
            PropValue::Null => Ok(Value::Absent),
            _ => decode_value(inner, p),
        },
        Shape::List(inner) => match p {
            PropValue::Array(ps) => {
                let ghost innerv = abs_shape(**inner);
                let ghost psv = abs_prop_seq(ps@);
                proof {
                    lemma_abs_prop_seq(ps@);
                }
                let mut out: Vec<Value> = Vec::new();
                let mut i: usize = 0;
                while i < ps.len()
                    invariant
                        psv == abs_prop_seq(ps@),
                        psv.len() == ps@.len(),
                        forall|k: int|
                            0 <= k < ps@.len() ==> #[trigger] psv[k] == abs_prop(ps@[k]),
                        *s == Shape::List(*inner),
                        innerv == abs_shape(**inner),
                        *p == PropValue::Array(*ps),
                        i <= ps.len(),
                        out@.len() == i,
                        forall|k: int|
                            0 <= k < i ==> dec(innerv, #[trigger] psv[k]) == Ok::<
                                ValueView,
                                DecodeError,
                            >(abs_value(out@[k])),
                    decreases ps.len() - i,
                {
                    match decode_value(inner, &ps[i]) {
                        Ok(v) => {
                            out.push(v);
                        },
                        Err(e) => {
                            proof {
                                lemma_dec_seq_err(innerv, psv, i as int, e);
                            }
                            return Err(e);
                        },
                    }
                    i = i + 1;
                }
                proof {
                    lemma_abs_value_seq(out@);
                    lemma_dec_seq_all_ok(innerv, psv, abs_value_seq(out@));
                }
                Ok(Value::List(out))
            },
            _ => Err(DecodeError::TypeMismatch),
        },
        Shape::Record(sfields) => match p {
            PropValue::Entity(bag) => {
                match decode_record_fields(sfields, bag) {
                    Ok(out) => Ok(Value::Record(out)),
                    Err(e) => Err(e),
                }
            },
            _ => Err(DecodeError::TypeMismatch),
        },
    }
}

/// Decode a document from a property bag, guided by a shape.  The shape at
/// the root is expected to be record-shaped, as every encoded document is;
/// any other shape reports the mismatch the model's [`dec`] reports for an
/// entity-shaped property at that shape.
pub fn decode(s: &Shape, bag: &Vec<(String, PropValue)>) -> (r: Result<Value, DecodeError>)
    ensures
        match r {
            Ok(v) => dec(abs_shape(*s), PropView::Entity(abs_prop_fields(bag@))) == Ok::<
                ValueView,
                DecodeError,
            >(abs_value(v)),
            Err(e) => dec(abs_shape(*s), PropView::Entity(abs_prop_fields(bag@))) == Err::<
                ValueView,
                DecodeError,
            >(e),
        },
    decreases s,
{
    match s {
        Shape::Record(sfields) => {
            match decode_record_fields(sfields, bag) {
                Ok(out) => Ok(Value::Record(out)),
                Err(e) => Err(e),
            }
        },
        Shape::Optional(inner) => decode(inner, bag),
        _ => Err(DecodeError::TypeMismatch),
    }
}

} // verus!
