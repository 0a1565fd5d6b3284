//! The execution and marshalling pipeline: binds each supplied scalar
//! argument under its namespaced placeholder, compiles the operation's query,
//! and shapes what the store returned — a single converted document or a
//! converted list. Non-scalar argument values are unsupported as binds and
//! are skipped, reported in the plan rather than rejected.

use vstd::prelude::*;

use crate::aql::{
    spec_node_text,
    get_filter_by_indices_attributes, spec_equal_pair, spec_node_binds, spec_query_text, views_of,
    AQLLogicalOperator, AQLNode, AQLQuery, AQLQueryMethod,
};
use crate::errors::{DatabaseError, FieldError, NotFoundError};
use crate::operations::{OperationEntry, OperationKind, OperationRegistry};
use crate::text::spec_bind_key;
use crate::values::{convert_document, obj_converts, DocumentNumber, DocumentValue, Value};

verus! {

/// An argument value as the API layer hands it in.
pub enum InputValue {
    Null,
    Int(i32),
    Float(u64),
    Str(String),
    Boolean(bool),
    List(Vec<InputValue>),
    Object(Vec<(String, InputValue)>),
}

/// A value bound under a placeholder: a scalar, or a whole document payload.
pub enum BindValue {
    Int(i32),
    Float(u64),
    Str(String),
    Document(DocumentValue),
}

/// Whether one operation returns a single document or a list.
#[derive(Clone, Copy, PartialEq, Eq, Structural)]
pub enum QueryReturnType {
    Single,
    Multiple,
}

/// Everything the store boundary needs for one request: the rendered query
/// text, the placeholder binds, the names of arguments that were skipped as
/// unsupported bind values, the target collection, and the result shape.
pub struct QueryPlan {
    pub query: String,
    pub binds: Vec<(String, BindValue)>,
    pub skipped: Vec<String>,
    pub collection: String,
    pub return_type: QueryReturnType,
}

/// A scalar underlying value — integer, float or string — is bindable.
pub open spec fn spec_is_scalar(v: InputValue) -> bool {
    v is Int || v is Float || v is Str
}

/// A structured or null value is unsupported as a bind and is skipped with a
/// diagnostic; a boolean is silently dropped.
pub open spec fn spec_is_skipped(v: InputValue) -> bool {
    v is Null || v is List || v is Object
}

/// The bind a scalar argument value becomes.
pub open spec fn spec_scalar_bind(v: InputValue) -> BindValue
    recommends
        spec_is_scalar(v),
{
    match v {
        InputValue::Int(i) => BindValue::Int(i),
        InputValue::Float(b) => BindValue::Float(b),
        InputValue::Str(s) => BindValue::Str(s),
        _ => BindValue::Int(0),
    }
}

/// The views of a bind list.
pub open spec fn bind_views(s: Seq<(String, BindValue)>) -> Seq<(Seq<char>, BindValue)> {
    s.map_values(|p: (String, BindValue)| (p.0@, p.1))
}

/// The ordered binds of an argument list: each scalar argument under its
/// namespaced placeholder, in argument order.
pub open spec fn spec_binds_of(id: nat, args: Seq<(String, InputValue)>) -> Seq<
    (Seq<char>, BindValue),
>
    decreases args.len(),
{
    if args.len() == 0 {
        Seq::empty()
    } else {
        (if spec_is_scalar(args[0].1) {
            seq![(spec_bind_key(id, args[0].0@), spec_scalar_bind(args[0].1))]
        } else {
            Seq::empty()
        }) + spec_binds_of(id, args.drop_first())
    }
}

/// The names of the arguments an argument list skips: those whose value is
/// null or structured, in argument order.
pub open spec fn spec_skipped_of(args: Seq<(String, InputValue)>) -> Seq<Seq<char>>
    decreases args.len(),
{
    if args.len() == 0 {
        Seq::empty()
    } else {
        (if spec_is_skipped(args[0].1) {
            seq![args[0].0@]
        } else {
            Seq::empty()
        }) + spec_skipped_of(args.drop_first())
    }
}

proof fn lemma_binds_of_push(id: nat, args: Seq<(String, InputValue)>, x: (String, InputValue))
    ensures
        spec_binds_of(id, args.push(x)) == spec_binds_of(id, args) + (if spec_is_scalar(x.1) {
            seq![(spec_bind_key(id, x.0@), spec_scalar_bind(x.1))]
        } else {
            Seq::empty()
        }),
    decreases args.len(),
{
    let pushed = args.push(x);
    let tail = (if spec_is_scalar(x.1) {
        seq![(spec_bind_key(id, x.0@), spec_scalar_bind(x.1))]
    } else {
        Seq::<(Seq<char>, BindValue)>::empty()
    });
    if args.len() == 0 {
        assert(pushed[0] == x);
        assert(pushed.drop_first() =~= Seq::<(String, InputValue)>::empty());
        assert(spec_binds_of(id, pushed.drop_first()) =~= Seq::<(Seq<char>, BindValue)>::empty());
        assert(spec_binds_of(id, pushed) =~= tail);
        assert(spec_binds_of(id, args) + tail =~= tail);
    } else {
        assert(pushed[0] == args[0]);
        assert(pushed.drop_first() =~= args.drop_first().push(x));
        lemma_binds_of_push(id, args.drop_first(), x);
        let head = (if spec_is_scalar(args[0].1) {
            seq![(spec_bind_key(id, args[0].0@), spec_scalar_bind(args[0].1))]
        } else {
            Seq::<(Seq<char>, BindValue)>::empty()
        });
        assert(spec_binds_of(id, args) + tail =~= head + (spec_binds_of(id, args.drop_first())
            + tail));
    }
}

proof fn lemma_skipped_of_push(args: Seq<(String, InputValue)>, x: (String, InputValue))
    ensures
        spec_skipped_of(args.push(x)) == spec_skipped_of(args) + (if spec_is_skipped(x.1) {
            seq![x.0@]
        } else {
            Seq::empty()
        }),
    decreases args.len(),
{
    let pushed = args.push(x);
    let tail = (if spec_is_skipped(x.1) {
        seq![x.0@]
    } else {
        Seq::<Seq<char>>::empty()
    });
    if args.len() == 0 {
        assert(pushed[0] == x);
        assert(pushed.drop_first() =~= Seq::<(String, InputValue)>::empty());
        assert(spec_skipped_of(pushed.drop_first()) =~= Seq::<Seq<char>>::empty());
        assert(spec_skipped_of(pushed) =~= tail);
        assert(spec_skipped_of(args) + tail =~= tail);
    } else {
        assert(pushed[0] == args[0]);
        assert(pushed.drop_first() =~= args.drop_first().push(x));
        lemma_skipped_of_push(args.drop_first(), x);
        let head = (if spec_is_skipped(args[0].1) {
            seq![args[0].0@]
        } else {
            Seq::<Seq<char>>::empty()
        });
        assert(spec_skipped_of(args) + tail =~= head + (spec_skipped_of(args.drop_first())
            + tail));
    }
}

/// Binds every supplied scalar argument under its namespaced placeholder, in
/// order; returns beside the binds the names of the null and structured
/// arguments that were skipped as unsupported. Booleans are dropped silently.
pub fn bind_arguments(id: u64, args: &Vec<(String, InputValue)>) -> (r: (
    Vec<(String, BindValue)>,
    Vec<String>,
))
    ensures
        bind_views(r.0@) == spec_binds_of(id as nat, args@),
        views_of(r.1@) == spec_skipped_of(args@),
{
    let mut binds: Vec<(String, BindValue)> = Vec::new();
    let mut skipped: Vec<String> = Vec::new();
    proof {
        assert(bind_views(binds@) =~= spec_binds_of(id as nat, args@.subrange(0, 0)));
        assert(views_of(skipped@) =~= spec_skipped_of(args@.subrange(0, 0)));
    }
    let mut i: usize = 0;
    while i < args.len()
        invariant
            i <= args.len(),
            bind_views(binds@) == spec_binds_of(id as nat, args@.subrange(0, i as int)),
            views_of(skipped@) == spec_skipped_of(args@.subrange(0, i as int)),
        decreases args.len() - i,
    {
        let ghost old_binds = binds@;
        let ghost old_skipped = skipped@;
        match &args[i].1 {
            InputValue::Int(v) => {
                let key = crate::text::render_bind_key(id, args[i].0.as_str());
                binds.push((key, BindValue::Int(*v)));
            },
            InputValue::Float(b) => {
                let key = crate::text::render_bind_key(id, args[i].0.as_str());
                binds.push((key, BindValue::Float(*b)));
            },
            InputValue::Str(s) => {
                let key = crate::text::render_bind_key(id, args[i].0.as_str());
                binds.push((key, BindValue::Str(s.clone())));
            },
            InputValue::Boolean(_) => {},
            InputValue::Null => {
                skipped.push(args[i].0.clone());
            },
            InputValue::List(_) => {
                skipped.push(args[i].0.clone());
            },
            InputValue::Object(_) => {
                skipped.push(args[i].0.clone());
            },
        }
        proof {
            lemma_binds_of_push(id as nat, args@.subrange(0, i as int), args@[i as int]);
            lemma_skipped_of_push(args@.subrange(0, i as int), args@[i as int]);
            assert(args@.subrange(0, i + 1 as int) =~= args@.subrange(0, i as int).push(
                args@[i as int],
            ));
            assert(bind_views(binds@) =~= spec_binds_of(id as nat, args@.subrange(0, i + 1 as int)));
            assert(views_of(skipped@) =~= spec_skipped_of(args@.subrange(0, i + 1 as int)));
        }
        i = i + 1;
    }
    proof {
        assert(args@.subrange(0, args@.len() as int) =~= args@);
    }
    (binds, skipped)
}

/// The names of an argument list, in order.
pub fn argument_names(args: &Vec<(String, InputValue)>) -> (r: Vec<String>)
    ensures
        r@.len() == args@.len(),
        forall|k: int| 0 <= k < args@.len() ==> #[trigger] r@[k] == args@[k].0,
{
    let mut r: Vec<String> = Vec::new();
    let mut i: usize = 0;
    while i < args.len()
        invariant
            i <= args.len(),
            r@.len() == i,
            forall|k: int| 0 <= k < i ==> #[trigger] r@[k] == args@[k].0,
        decreases args.len() - i,
    {
        r.push(args[i].0.clone());
        i = i + 1;
    }
    r
}

/// The conversion of one argument value into a document value: scalars map
/// one to one — an integer widens, a float keeps its bits — and structured
/// values convert element- and field-wise.
pub open spec fn input_converts(iv: InputValue, dv: DocumentValue) -> bool
    decreases iv, 1int,
{
    match iv {
        InputValue::Null => dv is Null,
        InputValue::Int(i) => dv == DocumentValue::Number(DocumentNumber::IntNum(i as i64)),
        InputValue::Float(b) => dv == DocumentValue::Number(DocumentNumber::FloatNum(b)),
        InputValue::Str(s) => dv == DocumentValue::Str(s),
        InputValue::Boolean(b) => dv == DocumentValue::Bool(b),
        InputValue::List(l) => dv is Arr && input_list_converts(l@, dv->Arr_0@),
        InputValue::Object(o) => dv is Obj && input_obj_converts(o@, dv->Obj_0@),
    }
}

/// Element-wise conversion of a list argument, order kept.
pub open spec fn input_list_converts(ls: Seq<InputValue>, ds: Seq<DocumentValue>) -> bool
    decreases ls, 0int,
{
    &&& ds.len() == ls.len()
    &&& forall|i: int| 0 <= i < ls.len() ==> input_converts(ls[i], #[trigger] ds[i])
}

/// Field-wise conversion of an object argument: names kept, values
/// converted, order kept.
pub open spec fn input_obj_converts(
    os: Seq<(String, InputValue)>,
    ds: Seq<(String, DocumentValue)>,
) -> bool
    decreases os, 0int,
{
    &&& ds.len() == os.len()
    &&& forall|i: int| 0 <= i < os.len() ==> (#[trigger] ds[i]).0 == os[i].0 && input_converts(
        os[i].1,
        ds[i].1,
    )
}

/// Converts one argument value into the document value it is stored as.
pub fn convert_input(iv: &InputValue) -> (d: DocumentValue)
    ensures
        input_converts(*iv, d),
    decreases *iv,
{
    match iv {
        InputValue::Null => DocumentValue::Null,
        InputValue::Int(i) => DocumentValue::Number(DocumentNumber::IntNum(*i as i64)),
        InputValue::Float(b) => DocumentValue::Number(DocumentNumber::FloatNum(*b)),
        InputValue::Str(s) => DocumentValue::Str(s.clone()),
        InputValue::Boolean(b) => DocumentValue::Bool(*b),
        InputValue::List(l) => {
            let mut out: Vec<DocumentValue> = Vec::new();
            let mut i: usize = 0;
            while i < l.len()
                invariant
                    i <= l.len(),
                    out@.len() == i,
                    forall|k: int| 0 <= k < i ==> input_converts(l@[k], #[trigger] out@[k]),
                    *iv == InputValue::List(*l),
                decreases l.len() - i,
            {
                proof {
                    assert(decreases_to!(*iv => iv->List_0));
                    assert(decreases_to!(iv->List_0 => l[i as int]));
                    assert(decreases_to!(*iv => l[i as int]));
                }
                let item = convert_input(&l[i]);
                out.push(item);
                i = i + 1;
            }
            DocumentValue::Arr(out)
        },
        InputValue::Object(o) => {
            let mut out: Vec<(String, DocumentValue)> = Vec::new();
            let mut i: usize = 0;
            while i < o.len()
                invariant
                    i <= o.len(),
                    out@.len() == i,
                    forall|k: int|
                        0 <= k < i ==> (#[trigger] out@[k]).0 == o@[k].0 && input_converts(
                            o@[k].1,
                            out@[k].1,
                        ),
                    *iv == InputValue::Object(*o),
                decreases o.len() - i,
            {
                proof {
                    assert(decreases_to!(*iv => iv->Object_0));
                    assert(decreases_to!(iv->Object_0 => o[i as int]));
                    assert(decreases_to!(o[i as int] => o[i as int].1));
                    assert(decreases_to!(*iv => o[i as int].1));
                }
                let name = o[i].0.clone();
                let value = convert_input(&o[i].1);
                out.push((name, value));
                i = i + 1;
            }
            DocumentValue::Obj(out)
        },
    }
}

/// Builds the document an argument list describes, field names and order
/// kept.
pub fn input_object(args: &Vec<(String, InputValue)>) -> (d: DocumentValue)
    ensures
        d is Obj,
        input_obj_converts(args@, d->Obj_0@),
{
    let mut out: Vec<(String, DocumentValue)> = Vec::new();
    let mut i: usize = 0;
    while i < args.len()
        invariant
            i <= args.len(),
            out@.len() == i,
            forall|k: int|
                0 <= k < i ==> (#[trigger] out@[k]).0 == args@[k].0 && input_converts(
                    args@[k].1,
                    out@[k].1,
                ),
        decreases args.len() - i,
    {
        let name = args[i].0.clone();
        let value = convert_input(&args[i].1);
        out.push((name, value));
        i = i + 1;
    }
    DocumentValue::Obj(out)
}

/// Takes the first returned document if any and converts it; zero documents
/// is a not-found failure for the named entity; a store failure passes its
/// message through verbatim. Documents are store objects.
pub fn get_single_entry(entries: Result<Vec<DocumentValue>, String>, entity_name: String) -> (r:
    Result<Value, FieldError>)
    requires
        entries matches Ok(v) ==> forall|i: int| 0 <= i < v@.len() ==> (#[trigger] v@[i]) is Obj,
    ensures
        match entries {
            Ok(v) => if v@.len() == 0 {
                r matches Err(e) && e.message@ == entity_name@ + " not found"@
            } else {
                r matches Ok(out) && out is Object && obj_converts(v@[0]->Obj_0@, out->Object_0@)
            },
            Err(m) => r matches Err(e) && e.message == m,
        },
{
    match entries {
        Ok(data) => {
            if data.len() == 0 {
                Err(NotFoundError::new(entity_name).into_field_error())
            } else {
                match &data[0] {
                    DocumentValue::Obj(fields) => Ok(convert_document(fields)),
                    _ => Err(NotFoundError::new(entity_name).into_field_error()),
                }
            }
        },
        Err(message) => Err(DatabaseError::new(message).into_field_error()),
    }
}

/// Converts every returned document into a list, in store order; an empty
/// list is a valid result, not an error; a store failure passes its message
/// through verbatim. Documents are store objects.
pub fn get_multiple_entries(entries: Result<Vec<DocumentValue>, String>) -> (r: Result<
    Value,
    FieldError,
>)
    requires
        entries matches Ok(v) ==> forall|i: int| 0 <= i < v@.len() ==> (#[trigger] v@[i]) is Obj,
    ensures
        match entries {
            Ok(v) => r matches Ok(out) && out is List && out->List_0@.len() == v@.len()
                && forall|i: int|
                0 <= i < v@.len() ==> (#[trigger] out->List_0@[i]) is Object && obj_converts(
                    v@[i]->Obj_0@,
                    out->List_0@[i]->Object_0@,
                ),
            Err(m) => r matches Err(e) && e.message == m,
        },
{
    match entries {
        Ok(data) => {
            let mut output: Vec<Value> = Vec::new();
            let mut i: usize = 0;
            while i < data.len()
                invariant
                    i <= data.len(),
                    output@.len() == i,
                    forall|k: int| 0 <= k < data@.len() ==> (#[trigger] data@[k]) is Obj,
                    forall|k: int|
                        0 <= k < i ==> (#[trigger] output@[k]) is Object && obj_converts(
                            data@[k]->Obj_0@,
                            output@[k]->Object_0@,
                        ),
                decreases data.len() - i,
            {
                match &data[i] {
                    DocumentValue::Obj(fields) => {
                        output.push(convert_document(fields));
                    },
                    _ => {
                        proof {
                            assert(false);
                        }
                    },
                }
                i = i + 1;
            }
            Ok(Value::List(output))
        },
        Err(message) => Err(DatabaseError::new(message).into_field_error()),
    }
}

/// The argument that carries an update's payload rather than an identifying
/// value.
pub open spec fn spec_non_patch(p: (String, InputValue)) -> bool {
    p.0@ != "patch"@
}

/// The identifying arguments of an update: all but the payload argument.
pub open spec fn spec_without_patch(args: Seq<(String, InputValue)>) -> Seq<(String, InputValue)> {
    args.filter(|p: (String, InputValue)| spec_non_patch(p))
}

/// The names of an argument list, in order.
pub open spec fn spec_names_of(args: Seq<(String, InputValue)>) -> Seq<String> {
    args.map_values(|p: (String, InputValue)| p.0)
}

/// The value of the first argument with the given name, if any.
pub open spec fn spec_first_named(args: Seq<(String, InputValue)>, name: Seq<char>) -> Option<
    InputValue,
>
    decreases args.len(),
{
    if args.len() == 0 {
        Option::None
    } else if args[0].0@ == name {
        Option::Some(args[0].1)
    } else {
        spec_first_named(args.drop_first(), name)
    }
}

/// The payload document of an update: the converted value of the first
/// argument named "patch", if one was supplied.
pub fn find_patch_value(args: &Vec<(String, InputValue)>) -> (r: Option<DocumentValue>)
    ensures
        match spec_first_named(args@, "patch"@) {
            Option::Some(v) => r matches Option::Some(d) && input_converts(v, d),
            Option::None => r is None,
        },
{
    let patch_name = <String as vstd::string::StringExecFns>::from_str("patch");
    proof {
        assert(args@.skip(0) =~= args@);
    }
    let mut i: usize = 0;
    while i < args.len()
        invariant
            i <= args.len(),
            patch_name@ == "patch"@,
            spec_first_named(args@, "patch"@) == spec_first_named(args@.skip(i as int), "patch"@),
        decreases args.len() - i,
    {
        proof {
            assert(args@.skip(i as int)[0] == args@[i as int]);
        }
        if args[i].0 == patch_name {
            return Some(convert_input(&args[i].1));
        }
        proof {
            assert(args@.skip(i as int).drop_first() =~= args@.skip(i + 1 as int));
        }
        i = i + 1;
    }
    proof {
        assert(args@.skip(args@.len() as int).len() == 0);
    }
    None
}

/// The names of an update's identifying arguments: every argument name but
/// the payload's, in order.
pub fn non_patch_names(args: &Vec<(String, InputValue)>) -> (r: Vec<String>)
    ensures
        r@ == spec_names_of(spec_without_patch(args@)),
{
    let patch_name = <String as vstd::string::StringExecFns>::from_str("patch");
    let mut r: Vec<String> = Vec::new();
    proof {
        reveal(Seq::filter);
        assert(r@ =~= spec_names_of(spec_without_patch(args@.subrange(0, 0))));
    }
    let mut i: usize = 0;
    while i < args.len()
        invariant
            i <= args.len(),
            patch_name@ == "patch"@,
            r@ == spec_names_of(spec_without_patch(args@.subrange(0, i as int))),
        decreases args.len() - i,
    {
        proof {
            reveal(Seq::filter);
            assert(args@.subrange(0, i + 1 as int).drop_last() =~= args@.subrange(0, i as int));
            assert(args@.subrange(0, i + 1 as int).last() == args@[i as int]);
        }
        if !(args[i].0 == patch_name) {
            r.push(args[i].0.clone());
        }
        proof {
            assert(r@ =~= spec_names_of(spec_without_patch(args@.subrange(0, i + 1 as int))));
        }
        i = i + 1;
    }
    proof {
        assert(args@.subrange(0, args@.len() as int) =~= args@);
    }
    r
}

/// Binds an update's identifying scalar arguments, leaving the payload
/// argument out; skipped names are reported as in `bind_arguments`.
pub fn bind_arguments_excluding_patch(id: u64, args: &Vec<(String, InputValue)>) -> (r: (
    Vec<(String, BindValue)>,
    Vec<String>,
))
    ensures
        bind_views(r.0@) == spec_binds_of(id as nat, spec_without_patch(args@)),
        views_of(r.1@) == spec_skipped_of(spec_without_patch(args@)),
{
    let patch_name = <String as vstd::string::StringExecFns>::from_str("patch");
    let mut binds: Vec<(String, BindValue)> = Vec::new();
    let mut skipped: Vec<String> = Vec::new();
    proof {
        reveal(Seq::filter);
        assert(bind_views(binds@) =~= spec_binds_of(
            id as nat,
            spec_without_patch(args@.subrange(0, 0)),
        ));
        assert(views_of(skipped@) =~= spec_skipped_of(spec_without_patch(args@.subrange(0, 0))));
    }
    let mut i: usize = 0;
    while i < args.len()
        invariant
            i <= args.len(),
            patch_name@ == "patch"@,
            bind_views(binds@) == spec_binds_of(
                id as nat,
                spec_without_patch(args@.subrange(0, i as int)),
            ),
            views_of(skipped@) == spec_skipped_of(spec_without_patch(args@.subrange(0, i as int))),
        decreases args.len() - i,
    {
        proof {
            reveal(Seq::filter);
            assert(args@.subrange(0, i + 1 as int).drop_last() =~= args@.subrange(0, i as int));
            assert(args@.subrange(0, i + 1 as int).last() == args@[i as int]);
        }
        let is_patch = args[i].0 == patch_name;
        if !is_patch {
            let ghost before = spec_without_patch(args@.subrange(0, i as int));
            match &args[i].1 {
                InputValue::Int(v) => {
                    let key = crate::text::render_bind_key(id, args[i].0.as_str());
                    binds.push((key, BindValue::Int(*v)));
                },
                InputValue::Float(b) => {
                    let key = crate::text::render_bind_key(id, args[i].0.as_str());
                    binds.push((key, BindValue::Float(*b)));
                },
                InputValue::Str(s) => {
                    let key = crate::text::render_bind_key(id, args[i].0.as_str());
                    binds.push((key, BindValue::Str(s.clone())));
                },
                InputValue::Boolean(_) => {},
                InputValue::Null => {
                    skipped.push(args[i].0.clone());
                },
                InputValue::List(_) => {
                    skipped.push(args[i].0.clone());
                },
                InputValue::Object(_) => {
                    skipped.push(args[i].0.clone());
                },
            }
            proof {
                lemma_binds_of_push(id as nat, before, args@[i as int]);
                lemma_skipped_of_push(before, args@[i as int]);
                assert(spec_without_patch(args@.subrange(0, i + 1 as int)) =~= before.push(
                    args@[i as int],
                ));
                assert(bind_views(binds@) =~= spec_binds_of(
                    id as nat,
                    spec_without_patch(args@.subrange(0, i + 1 as int)),
                ));
                assert(views_of(skipped@) =~= spec_skipped_of(
                    spec_without_patch(args@.subrange(0, i + 1 as int)),
                ));
            }
        } else {
            proof {
                assert(spec_without_patch(args@.subrange(0, i + 1 as int)) =~= spec_without_patch(
                    args@.subrange(0, i as int),
                ));
            }
        }
        i = i + 1;
    }
    proof {
        assert(args@.subrange(0, args@.len() as int) =~= args@);
    }
    (binds, skipped)
}

/// The query method of an operation kind.
pub open spec fn spec_method_of(kind: OperationKind) -> AQLQueryMethod {
    match kind {
        OperationKind::Get => AQLQueryMethod::Get,
        OperationKind::GetAll => AQLQueryMethod::Get,
        OperationKind::Create => AQLQueryMethod::Create,
        OperationKind::Update => AQLQueryMethod::Update,
        OperationKind::Remove => AQLQueryMethod::Remove,
        OperationKind::RemoveAll => AQLQueryMethod::Remove,
    }
}

/// The result shape of an operation kind: single-item operations take one
/// document, list operations a list.
pub open spec fn spec_return_type_of(kind: OperationKind) -> QueryReturnType {
    match kind {
        OperationKind::Get => QueryReturnType::Single,
        OperationKind::GetAll => QueryReturnType::Multiple,
        OperationKind::Create => QueryReturnType::Single,
        OperationKind::Update => QueryReturnType::Single,
        OperationKind::Remove => QueryReturnType::Single,
        OperationKind::RemoveAll => QueryReturnType::Multiple,
    }
}

/// The standard AND-equality filter over the given key names: one Equal node
/// per key under a single AND, one bind per key, in key order.
pub open spec fn spec_equal_filter(f: AQLNode, names: Seq<String>) -> bool {
    &&& f is LogicalFilter
    &&& f->LogicalFilter_0 is And
    &&& f->LogicalFilter_1@.len() == names.len()
    &&& forall|k: int|
        0 <= k < names.len() ==> spec_equal_pair(#[trigger] f->LogicalFilter_1@[k], names[k])
    &&& spec_node_binds(f) == views_of(names)
}

/// What planning one operation yields, as a function of the operation kind,
/// the owning entity's name, the supplied arguments and the query identifier.
pub open spec fn spec_planned(
    q: AQLQuery,
    plan: QueryPlan,
    kind: OperationKind,
    entity_name: Seq<char>,
    args: Seq<(String, InputValue)>,
    id: nat,
) -> bool {
    &&& q.id as nat == id
    &&& q.method == spec_method_of(kind)
    &&& plan.query@ == spec_query_text(q)
    &&& plan.collection@ == entity_name
    &&& plan.return_type == spec_return_type_of(kind)
    &&& (kind is Get || kind is GetAll || kind is Remove || kind is RemoveAll) ==> {
        &&& spec_equal_filter(q.filter, spec_names_of(args))
        &&& bind_views(plan.binds@) == spec_binds_of(id, args)
        &&& views_of(plan.skipped@) == spec_skipped_of(args)
    }
    &&& kind is Create ==> {
        &&& plan.binds@.len() == 1
        &&& plan.binds@[0].0@ == spec_bind_key(id, "doc"@)
        &&& plan.binds@[0].1 is Document
        &&& plan.binds@[0].1->Document_0 is Obj
        &&& input_obj_converts(args, plan.binds@[0].1->Document_0->Obj_0@)
        &&& plan.skipped@.len() == 0
    }
    &&& kind is Update ==> {
        &&& spec_equal_filter(q.filter, spec_names_of(spec_without_patch(args)))
        &&& plan.binds@.len() == spec_binds_of(id, spec_without_patch(args)).len() + 1
        &&& bind_views(plan.binds@.drop_last()) == spec_binds_of(id, spec_without_patch(args))
        &&& plan.binds@.last().0@ == spec_bind_key(id, "patch"@)
        &&& plan.binds@.last().1 is Document
        &&& (match spec_first_named(args, "patch"@) {
            Option::Some(v) => input_converts(v, plan.binds@.last().1->Document_0),
            Option::None => plan.binds@.last().1->Document_0 is Obj
                && plan.binds@.last().1->Document_0->Obj_0@.len() == 0,
        })
        &&& views_of(plan.skipped@) == spec_skipped_of(spec_without_patch(args))
    }
}

/// A listing planned with no arguments is unfiltered: its filter is the
/// empty AND, so the compiled text asks the store for the full set, with no
/// binds and nothing skipped.
pub proof fn lemma_unfiltered_listing(
    q: AQLQuery,
    plan: QueryPlan,
    entity_name: Seq<char>,
    args: Seq<(String, InputValue)>,
    id: nat,
)
    requires
        spec_planned(q, plan, OperationKind::GetAll, entity_name, args, id),
        args.len() == 0,
    ensures
        plan.query@ == "FOR i IN @@collection FILTER "@ + "true"@ + " RETURN i"@,
        plan.binds@.len() == 0,
        plan.skipped@.len() == 0,
        plan.return_type is Multiple,
{
    assert(spec_names_of(args).len() == 0);
    assert(q.filter is LogicalFilter);
    assert(q.filter->LogicalFilter_1@.len() == 0);
    assert(spec_node_text(q.filter, q.id as nat) == "true"@) by {
        assert(q.filter->LogicalFilter_0 is And);
        assert(q.filter == AQLNode::LogicalFilter(
            q.filter->LogicalFilter_0,
            q.filter->LogicalFilter_1,
        ));
    }
    assert(spec_binds_of(id, args).len() == 0);
    assert(spec_skipped_of(args).len() == 0);
    assert(bind_views(plan.binds@).len() == plan.binds@.len());
    assert(views_of(plan.skipped@).len() == plan.skipped@.len());
}

fn plan_filtered(
    entity_name: &String,
    arguments: &Vec<(String, InputValue)>,
    id: u64,
    method: AQLQueryMethod,
    return_type: QueryReturnType,
) -> (r: (AQLQuery, QueryPlan))
    ensures
        r.0.id == id,
        r.0.method == method,
        spec_equal_filter(r.0.filter, spec_names_of(arguments@)),
        r.1.query@ == spec_query_text(r.0),
        r.1.collection@ == entity_name@,
        r.1.return_type == return_type,
        bind_views(r.1.binds@) == spec_binds_of(id as nat, arguments@),
        views_of(r.1.skipped@) == spec_skipped_of(arguments@),
{
    let names = argument_names(arguments);
    proof {
        assert(names@ =~= spec_names_of(arguments@));
    }
    let filter = get_filter_by_indices_attributes(&names);
    let q = AQLQuery::new(id, method, filter);
    let text = q.to_aql();
    let (binds, skipped) = bind_arguments(id, arguments);
    let plan = QueryPlan {
        query: text,
        binds,
        skipped,
        collection: entity_name.clone(),
        return_type,
    };
    (q, plan)
}

/// Compiles one operation into its query and execution plan: the filter is
/// the AND-equality over the supplied argument names — empty means
/// unfiltered — scalar arguments are bound, and a create or update carries
/// its document payload as one more bind.
pub fn plan_operation(entry: &OperationEntry, arguments: &Vec<(String, InputValue)>, id: u64) -> (r:
    (AQLQuery, QueryPlan))
    ensures
        spec_planned(
            r.0,
            r.1,
            entry.operation,
            entry.data.entity.name@,
            arguments@,
            id as nat,
        ),
{
    match entry.operation {
        OperationKind::Get => plan_filtered(
            &entry.data.entity.name,
            arguments,
            id,
            AQLQueryMethod::Get,
            QueryReturnType::Single,
        ),
        OperationKind::GetAll => plan_filtered(
            &entry.data.entity.name,
            arguments,
            id,
            AQLQueryMethod::Get,
            QueryReturnType::Multiple,
        ),
        OperationKind::Remove => plan_filtered(
            &entry.data.entity.name,
            arguments,
            id,
            AQLQueryMethod::Remove,
            QueryReturnType::Single,
        ),
        OperationKind::RemoveAll => plan_filtered(
            &entry.data.entity.name,
            arguments,
            id,
            AQLQueryMethod::Remove,
            QueryReturnType::Multiple,
        ),
        OperationKind::Create => {
            let filter = AQLNode::LogicalFilter(AQLLogicalOperator::And, Vec::new());
            let q = AQLQuery::new(id, AQLQueryMethod::Create, filter);
            let text = q.to_aql();
            let doc = input_object(arguments);
            let mut binds: Vec<(String, BindValue)> = Vec::new();
            binds.push((crate::text::render_bind_key(id, "doc"), BindValue::Document(doc)));
            let plan = QueryPlan {
                query: text,
                binds,
                skipped: Vec::new(),
                collection: entry.data.entity.name.clone(),
                return_type: QueryReturnType::Single,
            };
            (q, plan)
        },
        OperationKind::Update => {
            let names = non_patch_names(arguments);
            let filter = get_filter_by_indices_attributes(&names);
            let q = AQLQuery::new(id, AQLQueryMethod::Update, filter);
            let text = q.to_aql();
            let (mut binds, skipped) = bind_arguments_excluding_patch(id, arguments);
            let patch = match find_patch_value(arguments) {
                Some(d) => d,
                None => DocumentValue::Obj(Vec::new()),
            };
            let ghost scalar_binds = binds@;
            binds.push((crate::text::render_bind_key(id, "patch"), BindValue::Document(patch)));
            proof {
                assert(binds@.drop_last() =~= scalar_binds);
            }
            let plan = QueryPlan {
                query: text,
                binds,
                skipped,
                collection: entry.data.entity.name.clone(),
                return_type: QueryReturnType::Single,
            };
            (q, plan)
        },
    }
}

impl OperationRegistry {
    /// Dispatches an inbound field name: looks the key up and compiles the
    /// operation into its query and plan. An absent key is a request-level
    /// unknown-operation failure, never a process failure.
    pub fn call_by_key(&self, key: &str, arguments: &Vec<(String, InputValue)>, id: u64) -> (r:
        Option<(AQLQuery, QueryPlan)>)
        ensures
            match r {
                Option::Some(pair) => exists|i: int|
                    0 <= i < self.operations@.len() && (#[trigger] self.operations@[i]).0@ == key@
                        && spec_planned(
                        pair.0,
                        pair.1,
                        self.operations@[i].1.operation,
                        self.operations@[i].1.data.entity.name@,
                        arguments@,
                        id as nat,
                    ),
                Option::None => forall|k: int|
                    0 <= k < self.operations@.len() ==> (#[trigger] self.operations@[k]).0@
                        != key@,
            },
    {
        match self.get_operation(key) {
            Some(entry) => Some(plan_operation(entry, arguments, id)),
            None => None,
        }
    }
}

} // verus!
