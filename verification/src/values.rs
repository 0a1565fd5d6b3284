//! Raw store documents and the generic typed value they convert to. Floating
//! values are carried as their 64-bit patterns and pass through conversion
//! unchanged; integral numbers outside the signed 32-bit range saturate to
//! the nearest representable bound, never wrapping and never failing.

use vstd::prelude::*;

verus! {

/// A numeric document value: a signed or unsigned integral number, or the
/// bit pattern of a 64-bit floating value.
pub enum DocumentNumber {
    IntNum(i64),
    UintNum(u64),
    FloatNum(u64),
}

/// A raw document value as the backing store hands it over.
pub enum DocumentValue {
    Null,
    Bool(bool),
    Number(DocumentNumber),
    Str(String),
    Arr(Vec<DocumentValue>),
    Obj(Vec<(String, DocumentValue)>),
}

/// The generic typed value handed back to API callers, also used for
/// synthesized field shapes.
pub enum Value {
    Null,
    Bool(bool),
    Int(i32),
    Float(u64),
    Str(String),
    List(Vec<Value>),
    Object(Vec<(String, Value)>),
}

/// What a numeric document value converts to: signed integral values clamp
/// into the 32-bit signed range, unsigned ones clamp from above, and a
/// floating bit pattern passes through unchanged.
pub open spec fn spec_convert_number(n: DocumentNumber) -> Value {
    match n {
        DocumentNumber::IntNum(v) => if v > i32::MAX as i64 {
            Value::Int(i32::MAX)
        } else if v < i32::MIN as i64 {
            Value::Int(i32::MIN)
        } else {
            Value::Int(v as i32)
        },
        DocumentNumber::UintNum(v) => if v > i32::MAX as u64 {
            Value::Int(i32::MAX)
        } else {
            Value::Int(v as i32)
        },
        DocumentNumber::FloatNum(bits) => Value::Float(bits),
    }
}

/// The conversion of one document value: null and booleans and strings pass
/// through, numbers saturate by `spec_convert_number`, arrays convert
/// element-wise and objects field-wise in order.
pub open spec fn converts_to(d: DocumentValue, v: Value) -> bool
    decreases d, 1int,
{
    match d {
        DocumentValue::Null => v is Null,
        DocumentValue::Bool(b) => v == Value::Bool(b),
        DocumentValue::Number(n) => v == spec_convert_number(n),
        DocumentValue::Str(s) => v == Value::Str(s),
        DocumentValue::Arr(a) => v is List && arr_converts(a@, v->List_0@),
        DocumentValue::Obj(o) => v is Object && obj_converts(o@, v->Object_0@),
    }
}

/// Element-wise conversion of an array's items, order kept.
pub open spec fn arr_converts(ds: Seq<DocumentValue>, vs: Seq<Value>) -> bool
    decreases ds, 0int,
{
    &&& vs.len() == ds.len()
    &&& forall|i: int| 0 <= i < ds.len() ==> converts_to(ds[i], #[trigger] vs[i])
}

/// Field-wise conversion of an object's entries: names kept, values
/// converted, order kept.
pub open spec fn obj_converts(os: Seq<(String, DocumentValue)>, fs: Seq<(String, Value)>) -> bool
    decreases os, 0int,
{
    &&& fs.len() == os.len()
    &&& forall|i: int| 0 <= i < os.len() ==> (#[trigger] fs[i]).0 == os[i].0 && converts_to(
        os[i].1,
        fs[i].1,
    )
}

/// Converts one numeric document value, saturating integral values into the
/// signed 32-bit range.
pub fn convert_number(n: &DocumentNumber) -> (r: Value)
    ensures
        r == spec_convert_number(*n),
{
    match n {
        DocumentNumber::IntNum(v) => {
            let v = *v;
            if v > i32::MAX as i64 {
                Value::Int(i32::MAX)
            } else if v < i32::MIN as i64 {
                Value::Int(i32::MIN)
            } else {
                Value::Int(v as i32)
            }
        },
        DocumentNumber::UintNum(v) => {
            let v = *v;
            if v > i32::MAX as u64 {
                Value::Int(i32::MAX)
            } else {
                Value::Int(v as i32)
            }
        },
        DocumentNumber::FloatNum(bits) => Value::Float(*bits),
    }
}

/// Converts one document value to its generic typed value. Total: it never
/// fails, whatever the store returned.
pub fn convert_value(d: &DocumentValue) -> (r: Value)
    ensures
        converts_to(*d, r),
    decreases *d,
{
    match d {
        DocumentValue::Null => Value::Null,
        DocumentValue::Bool(b) => Value::Bool(*b),
        DocumentValue::Number(n) => convert_number(n),
        DocumentValue::Str(s) => Value::Str(s.clone()),
        DocumentValue::Arr(a) => {
            let mut out: Vec<Value> = Vec::new();
            let mut i: usize = 0;
            while i < a.len()
                invariant
                    i <= a.len(),
                    out@.len() == i,
                    forall|k: int| 0 <= k < i ==> converts_to(a@[k], #[trigger] out@[k]),
                    *d == DocumentValue::Arr(*a),
                decreases a.len() - i,
            {
                proof {
                    assert(decreases_to!(*d => d->Arr_0));
                    assert(decreases_to!(d->Arr_0 => a[i as int]));
                    assert(decreases_to!(*d => a[i as int]));
                }
                let item = convert_value(&a[i]);
                out.push(item);
                i = i + 1;
            }
            Value::List(out)
        },
        DocumentValue::Obj(o) => {
            let mut out: Vec<(String, Value)> = Vec::new();
            let mut i: usize = 0;
            while i < o.len()
                invariant
                    i <= o.len(),
                    out@.len() == i,
                    forall|k: int|
                        0 <= k < i ==> (#[trigger] out@[k]).0 == o@[k].0 && converts_to(
                            o@[k].1,
                            out@[k].1,
                        ),
                    *d == DocumentValue::Obj(*o),
                decreases o.len() - i,
            {
                proof {
                    assert(decreases_to!(*d => d->Obj_0));
                    assert(decreases_to!(d->Obj_0 => o[i as int]));
                    assert(decreases_to!(o[i as int] => o[i as int].1));
                    assert(decreases_to!(*d => o[i as int].1));
                }
                let name = o[i].0.clone();
                let value = convert_value(&o[i].1);
                out.push((name, value));
                i = i + 1;
            }
            Value::Object(out)
        },
    }
}

/// Converts a whole document — the entries of one store object — to the
/// generic object value, field names and order kept.
pub fn convert_document(fields: &Vec<(String, DocumentValue)>) -> (r: Value)
    ensures
        r is Object,
        obj_converts(fields@, r->Object_0@),
{
    let mut out: Vec<(String, Value)> = Vec::new();
    let mut i: usize = 0;
    while i < fields.len()
        invariant
            i <= fields.len(),
            out@.len() == i,
            forall|k: int|
                0 <= k < i ==> (#[trigger] out@[k]).0 == fields@[k].0 && converts_to(
                    fields@[k].1,
                    out@[k].1,
                ),
        decreases fields.len() - i,
    {
        let name = fields[i].0.clone();
        let value = convert_value(&fields[i].1);
        out.push((name, value));
        i = i + 1;
    }
    Value::Object(out)
}

} // verus!
