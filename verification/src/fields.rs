//! Schema-build-time field and type synthesis: each property becomes a field
//! descriptor. Leaf scalar kinds map one to one; an array property wraps the
//! synthesized element descriptor as list-typed. A descriptor is non-null
//! only when the property is required and non-null enforcement is requested
//! at that nesting level; nested levels relax enforcement, mirroring the
//! independent nullability of a list and of its elements. The same synthesis
//! produces the shape of a fetched entity, the optional filter arguments of a
//! listing, and the patch body of an update.

use vstd::prelude::*;

use crate::execution::spec_return_type_of;
use crate::metadata::DbScalarType;
use crate::operations::{
    get_relationship_edge_name, spec_edge_name, OperationData, OperationEntry,
};
use vstd::utf8::is_ascii_chars;

verus! {

/// A synthesized type descriptor: a named leaf type or a list of an inner
/// descriptor, each independently nullable.
pub enum FieldType {
    Named { scalar: DbScalarType, non_null: bool },
    List { element: Box<FieldType>, non_null: bool },
}

/// The descriptor of one property type: an array wraps its element's
/// descriptor — synthesized with enforcement relaxed — as list-typed; a leaf
/// keeps its scalar kind. Either is non-null exactly when the property is
/// required and enforcement is requested at this level.
pub open spec fn spec_field_type(st: DbScalarType, required: bool, enforce: bool) -> FieldType
    decreases st,
{
    match st {
        DbScalarType::Array(inner) => FieldType::List {
            element: Box::new(spec_field_type(*inner, required, false)),
            non_null: required && enforce,
        },
        _ => FieldType::Named { scalar: st, non_null: required && enforce },
    }
}

/// Synthesizes the descriptor of one property type.
pub fn build_field_type(st: &DbScalarType, required: bool, enforce: bool) -> (r: FieldType)
    ensures
        r == spec_field_type(*st, required, enforce),
    decreases *st,
{
    match st {
        DbScalarType::Array(inner) => FieldType::List {
            element: Box::new(build_field_type(inner, required, false)),
            non_null: required && enforce,
        },
        _ => FieldType::Named { scalar: st.clone(), non_null: required && enforce },
    }
}

/// One argument an operation declares: its name and synthesized type.
pub struct ArgumentSpec {
    pub name: String,
    pub field_type: FieldType,
}

/// Declares one argument per property: enforced for a creation body, relaxed
/// — every argument optional — for filter arguments and patch bodies.
pub fn build_arguments(data: &OperationData, enforce: bool) -> (r: Vec<ArgumentSpec>)
    ensures
        r@.len() == data.entity.properties@.len(),
        forall|i: int|
            0 <= i < r@.len() ==> (#[trigger] r@[i]).name == data.entity.properties@[i].name
                && r@[i].field_type == spec_field_type(
                data.entity.properties@[i].scalar_type,
                data.entity.properties@[i].required,
                enforce,
            ),
{
    let mut r: Vec<ArgumentSpec> = Vec::new();
    let mut i: usize = 0;
    while i < data.entity.properties.len()
        invariant
            i <= data.entity.properties@.len(),
            r@.len() == i,
            forall|k: int|
                0 <= k < i ==> (#[trigger] r@[k]).name == data.entity.properties@[k].name
                    && r@[k].field_type == spec_field_type(
                    data.entity.properties@[k].scalar_type,
                    data.entity.properties@[k].required,
                    enforce,
                ),
        decreases data.entity.properties@.len() - i,
    {
        let p = &data.entity.properties[i];
        r.push(
            ArgumentSpec {
                name: p.name.clone(),
                field_type: build_field_type(&p.scalar_type, p.required, enforce),
            },
        );
        i = i + 1;
    }
    r
}

/// One field of an entity's synthesized shape: a typed property field, or a
/// traversal field to the named related entity.
pub enum EntityFieldKind {
    Property(FieldType),
    Traversal(String),
}

pub struct EntityField {
    pub name: String,
    pub kind: EntityFieldKind,
}

/// Builds an entity's shape: one enforced field per property, in property
/// order, then one traversal field per relationship the entity owns, named
/// by the relationship's edge name and pointing at its `to` entity. A
/// traversal field declares the shape only; a request against one resolves
/// as a further lookup on the related entity. Relationship source names are
/// ASCII API identifiers, as the edge-name derivation asks.
pub fn build_entity_fields(data: &OperationData) -> (r: Vec<EntityField>)
    requires
        forall|j: int|
            0 <= j < data.relationships@.len() ==> is_ascii_chars(
                (#[trigger] data.relationships@[j]).from@,
            ),
    ensures
        r@.len() == data.entity.properties@.len() + data.relationships@.len(),
        forall|i: int|
            0 <= i < data.entity.properties@.len() ==> (#[trigger] r@[i]).name
                == data.entity.properties@[i].name && r@[i].kind == EntityFieldKind::Property(
                spec_field_type(
                    data.entity.properties@[i].scalar_type,
                    data.entity.properties@[i].required,
                    true,
                ),
            ),
        forall|j: int|
            0 <= j < data.relationships@.len() ==> {
                let f = #[trigger] r@[data.entity.properties@.len() + j];
                f.name@ == spec_edge_name(data.relationships@[j]) && f.kind
                    == EntityFieldKind::Traversal(data.relationships@[j].to)
            },
{
    let mut r: Vec<EntityField> = Vec::new();
    let mut i: usize = 0;
    while i < data.entity.properties.len()
        invariant
            i <= data.entity.properties@.len(),
            r@.len() == i,
            forall|k: int|
                0 <= k < i ==> (#[trigger] r@[k]).name == data.entity.properties@[k].name
                    && r@[k].kind == EntityFieldKind::Property(
                    spec_field_type(
                        data.entity.properties@[k].scalar_type,
                        data.entity.properties@[k].required,
                        true,
                    ),
                ),
        decreases data.entity.properties@.len() - i,
    {
        let p = &data.entity.properties[i];
        r.push(
            EntityField {
                name: p.name.clone(),
                kind: EntityFieldKind::Property(build_field_type(&p.scalar_type, p.required, true)),
            },
        );
        i = i + 1;
    }
    let ghost props = data.entity.properties@;
    let mut j: usize = 0;
    while j < data.relationships.len()
        invariant
            j <= data.relationships@.len(),
            forall|k: int|
                0 <= k < data.relationships@.len() ==> is_ascii_chars(
                    (#[trigger] data.relationships@[k]).from@,
                ),
            r@.len() == props.len() + j,
            props == data.entity.properties@,
            forall|k: int|
                0 <= k < props.len() ==> (#[trigger] r@[k]).name == data.entity.properties@[k].name
                    && r@[k].kind == EntityFieldKind::Property(
                    spec_field_type(
                        data.entity.properties@[k].scalar_type,
                        data.entity.properties@[k].required,
                        true,
                    ),
                ),
            forall|k: int|
                0 <= k < j ==> {
                    let f = #[trigger] r@[props.len() + k];
                    f.name@ == spec_edge_name(data.relationships@[k]) && f.kind
                        == EntityFieldKind::Traversal(data.relationships@[k].to)
                },
        decreases data.relationships@.len() - j,
    {
        let rel = &data.relationships[j];
        r.push(
            EntityField {
                name: get_relationship_edge_name(rel),
                kind: EntityFieldKind::Traversal(rel.to.clone()),
            },
        );
        j = j + 1;
    }
    r
}

/// The return shape of one root field: a single entity or a list of them.
pub enum FieldShape {
    Entity(String),
    EntityList(String),
}

/// One root field: the operation key it answers to and its return shape.
pub struct FieldSpec {
    pub name: String,
    pub shape: FieldShape,
}

/// The return shape a registered operation declares: a list for list
/// operations, a single entity otherwise.
pub open spec fn spec_root_field(f: FieldSpec, e: (String, OperationEntry)) -> bool {
    &&& f.name == e.0
    &&& if spec_return_type_of(e.1.operation) is Multiple {
        f.shape == FieldShape::EntityList(e.1.data.entity.name)
    } else {
        f.shape == FieldShape::Entity(e.1.data.entity.name)
    }
}

/// Builds the root field of one registered operation.
pub fn build_field(name: &String, entry: &OperationEntry) -> (f: FieldSpec)
    ensures
        spec_root_field(f, (*name, *entry)),
{
    let multiple = matches!(
        entry.operation,
        crate::operations::OperationKind::GetAll | crate::operations::OperationKind::RemoveAll
    );
    let shape = if multiple {
        FieldShape::EntityList(entry.data.entity.name.clone())
    } else {
        FieldShape::Entity(entry.data.entity.name.clone())
    };
    FieldSpec { name: name.clone(), shape }
}

} // verus!
