//! The metadata map: an immutable snapshot of entities, typed properties,
//! named enums and directed relationships. It is the sole input to the
//! operation registry and to field synthesis.

use vstd::prelude::*;

verus! {

/// The recursive scalar type of a property.
pub enum DbScalarType {
    String,
    Int,
    Float,
    Boolean,
    Object,
    Enum(String),
    Array(Box<DbScalarType>),
}

impl Clone for DbScalarType {
    fn clone(&self) -> (r: Self)
        ensures
            r == *self,
        decreases self,
    {
        match self {
            DbScalarType::String => DbScalarType::String,
            DbScalarType::Int => DbScalarType::Int,
            DbScalarType::Float => DbScalarType::Float,
            DbScalarType::Boolean => DbScalarType::Boolean,
            DbScalarType::Object => DbScalarType::Object,
            DbScalarType::Enum(name) => DbScalarType::Enum(name.clone()),
            DbScalarType::Array(inner) => DbScalarType::Array(Box::new((**inner).clone())),
        }
    }
}

/// A named, typed property of an entity; `required` marks non-null values.
pub struct DbProperty {
    pub name: String,
    pub scalar_type: DbScalarType,
    pub required: bool,
}

impl Clone for DbProperty {
    fn clone(&self) -> (r: Self)
        ensures
            r == *self,
    {
        DbProperty { name: self.name.clone(), scalar_type: self.scalar_type.clone(), required: self.required }
    }
}

/// A top-level schema object with an ordered list of properties.
pub struct DbEntity {
    pub name: String,
    pub properties: Vec<DbProperty>,
}

impl Clone for DbEntity {
    fn clone(&self) -> (r: Self)
        ensures
            r.name == self.name,
            r.properties@ == self.properties@,
    {
        let mut properties: Vec<DbProperty> = Vec::new();
        let mut i: usize = 0;
        while i < self.properties.len()
            invariant
                i <= self.properties.len(),
                properties@ =~= self.properties@.subrange(0, i as int),
            decreases self.properties.len() - i,
        {
            properties.push(self.properties[i].clone());
            i = i + 1;
        }
        proof {
            assert(properties@ =~= self.properties@);
        }
        DbEntity { name: self.name.clone(), properties }
    }
}

/// The direction of a relationship, which decides which entity owns it.
#[derive(Clone, Copy, PartialEq, Eq, Structural)]
pub enum DbRelationshipDirection {
    Inbound,
    Outbound,
    Any,
}

/// A named, directed association between two entities.
pub struct DbRelationship {
    pub name: String,
    pub from: String,
    pub to: String,
    pub direction: DbRelationshipDirection,
}

impl Clone for DbRelationship {
    fn clone(&self) -> (r: Self)
        ensures
            r == *self,
    {
        DbRelationship {
            name: self.name.clone(),
            from: self.from.clone(),
            to: self.to.clone(),
            direction: self.direction,
        }
    }
}

/// One primitive of the metadata map: an entity or a named enum.
pub enum DbPrimitive {
    Entity(DbEntity),
    Enum(String),
}

/// The metadata map itself: ordered primitives plus the relationship list.
pub struct DbMap {
    pub primitives: Vec<DbPrimitive>,
    pub relationships: Vec<DbRelationship>,
}

/// The ownership rule for relationship-traversal fields: an `Outbound`
/// relationship is owned by its `from` entity, an `Inbound` one by its `to`
/// entity, and an `Any` one by both ends.
pub open spec fn spec_owns_relationship(entity_name: Seq<char>, r: DbRelationship) -> bool {
    match r.direction {
        DbRelationshipDirection::Outbound => r.from@ == entity_name,
        DbRelationshipDirection::Inbound => r.to@ == entity_name,
        DbRelationshipDirection::Any => r.from@ == entity_name || r.to@ == entity_name,
    }
}

/// Decides whether the named entity owns the relationship, by direction.
pub fn owns_relationship(entity_name: &String, r: &DbRelationship) -> (owned: bool)
    ensures
        owned == spec_owns_relationship(entity_name@, *r),
{
    match r.direction {
        DbRelationshipDirection::Outbound => r.from == *entity_name,
        DbRelationshipDirection::Inbound => r.to == *entity_name,
        DbRelationshipDirection::Any => r.from == *entity_name || r.to == *entity_name,
    }
}

/// The relationships of the map that the named entity owns, in map order.
pub open spec fn spec_owned_relationships(entity_name: Seq<char>, rels: Seq<DbRelationship>) -> Seq<DbRelationship> {
    rels.filter(|r: DbRelationship| spec_owns_relationship(entity_name, r))
}

/// Collects the relationships owned by the named entity, in map order.
pub fn owned_relationships(entity_name: &String, rels: &Vec<DbRelationship>) -> (owned: Vec<DbRelationship>)
    ensures
        owned@ == spec_owned_relationships(entity_name@, rels@),
{
    let mut owned: Vec<DbRelationship> = Vec::new();
    let mut i: usize = 0;
    while i < rels.len()
        invariant
            i <= rels.len(),
            owned@ =~= rels@.subrange(0, i as int).filter(|r: DbRelationship| spec_owns_relationship(entity_name@, r)),
        decreases rels.len() - i,
    {
        proof {
            reveal(Seq::filter);
            assert(rels@.subrange(0, i + 1 as int).drop_last() =~= rels@.subrange(0, i as int));
            assert(rels@.subrange(0, i + 1 as int).last() == rels@[i as int]);
        }
        if owns_relationship(entity_name, &rels[i]) {
            owned.push(rels[i].clone());
        }
        i = i + 1;
    }
    proof {
        assert(rels@.subrange(0, rels@.len() as int) =~= rels@);
    }
    owned
}

/// Relationship ownership: a relationship of the map appears in an entity's
/// owned relationship list exactly by direction — an `Outbound` one in its
/// `from` entity's list only, an `Inbound` one in its `to` entity's only, an
/// `Any` one in both ends'.
pub proof fn lemma_relationship_ownership(
    entity_name: Seq<char>,
    rels: Seq<DbRelationship>,
    r: DbRelationship,
)
    requires
        rels.contains(r),
    ensures
        spec_owned_relationships(entity_name, rels).contains(r) <==> spec_owns_relationship(
            entity_name,
            r,
        ),
        r.direction is Outbound ==> (spec_owned_relationships(entity_name, rels).contains(r)
            <==> r.from@ == entity_name),
        r.direction is Inbound ==> (spec_owned_relationships(entity_name, rels).contains(r)
            <==> r.to@ == entity_name),
        r.direction is Any ==> (spec_owned_relationships(entity_name, rels).contains(r) <==> (
        r.from@ == entity_name || r.to@ == entity_name)),
{
    let pred = |x: DbRelationship| spec_owns_relationship(entity_name, x);
    if spec_owns_relationship(entity_name, r) {
        let i = choose|i: int| 0 <= i < rels.len() && rels[i] == r;
        rels.lemma_filter_contains(pred, i);
    }
    if spec_owned_relationships(entity_name, rels).contains(r) {
        let j = choose|j: int|
            0 <= j < spec_owned_relationships(entity_name, rels).len()
                && spec_owned_relationships(entity_name, rels)[j] == r;
        rels.lemma_filter_pred(pred, j);
    }
}

} // verus!
