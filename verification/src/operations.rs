//! The operation registry: one entry per (entity, kind) pair, built once at
//! boot from the metadata map and read-only afterwards. Operation keys derive
//! deterministically from the entity name and the kind — singular form for
//! single-item operations, plural for list operations — and a duplicate key
//! aborts registration rather than leaving a partially consistent registry.

use vstd::prelude::*;

use crate::metadata::{DbEntity, DbRelationship};
use crate::names::{
    pascal_of, plural_of, singular_of, singularize, snake_of, pluralize_word, to_pascal_case,
    to_snake_case,
};
use vstd::utf8::is_ascii_chars;

verus! {

/// The six generated operation kinds of every entity. The update kind's
/// compiled query patches every document its identifying filter matches, so
/// no separate plural update is generated; the list forms exist for lookup
/// and removal.
#[derive(Clone, Copy, PartialEq, Eq, Structural)]
pub enum OperationKind {
    Get,
    GetAll,
    Create,
    Update,
    Remove,
    RemoveAll,
}

/// The root an operation is exposed under.
#[derive(Clone, Copy, PartialEq, Eq, Structural)]
pub enum SchemaKind {
    Query,
    Mutation,
}

/// The fixed name prefix of an operation kind.
pub open spec fn spec_operation_prefix(kind: OperationKind) -> Seq<char> {
    match kind {
        OperationKind::Get => "get"@,
        OperationKind::GetAll => "get"@,
        OperationKind::Create => "create"@,
        OperationKind::Update => "update"@,
        OperationKind::Remove => "remove"@,
        OperationKind::RemoveAll => "remove"@,
    }
}

/// Whether a kind names the entity in its plural form: list operations do,
/// single-item operations use the singular.
pub open spec fn spec_uses_plural(kind: OperationKind) -> bool {
    kind is GetAll || kind is RemoveAll
}

/// The stable key of one (entity, kind) pair: the kind's prefix, then the
/// Pascal-cased singular or plural of the entity name.
pub open spec fn spec_operation_name(kind: OperationKind, entity_name: Seq<char>) -> Seq<char> {
    if spec_uses_plural(kind) {
        spec_operation_prefix(kind) + pascal_of(plural_of(entity_name))
    } else {
        spec_operation_prefix(kind) + pascal_of(singular_of(entity_name))
    }
}

/// The root a kind belongs under: lookups are queries, everything else a
/// mutation.
pub open spec fn spec_schema_kind(kind: OperationKind) -> SchemaKind {
    match kind {
        OperationKind::Get => SchemaKind::Query,
        OperationKind::GetAll => SchemaKind::Query,
        OperationKind::Create => SchemaKind::Mutation,
        OperationKind::Update => SchemaKind::Mutation,
        OperationKind::Remove => SchemaKind::Mutation,
        OperationKind::RemoveAll => SchemaKind::Mutation,
    }
}

/// The kind registered at position `k` of an entity's six entries.
pub open spec fn spec_kind_at(k: int) -> OperationKind {
    if k == 0 {
        OperationKind::Get
    } else if k == 1 {
        OperationKind::GetAll
    } else if k == 2 {
        OperationKind::Create
    } else if k == 3 {
        OperationKind::Update
    } else if k == 4 {
        OperationKind::Remove
    } else {
        OperationKind::RemoveAll
    }
}

fn operation_prefix(kind: OperationKind) -> (r: &'static str)
    ensures
        r@ == spec_operation_prefix(kind),
{
    match kind {
        OperationKind::Get => "get",
        OperationKind::GetAll => "get",
        OperationKind::Create => "create",
        OperationKind::Update => "update",
        OperationKind::Remove => "remove",
        OperationKind::RemoveAll => "remove",
    }
}

/// The operation key of one (entity, kind) pair. Entity names are ASCII API
/// identifiers: the singular/plural forms are only defined on ASCII input.
pub fn get_operation_name(kind: OperationKind, entity_name: &str) -> (r: String)
    requires
        is_ascii_chars(entity_name@),
    ensures
        r@ == spec_operation_name(kind, entity_name@),
{
    let plural = matches!(kind, OperationKind::GetAll | OperationKind::RemoveAll);
    let base = if plural {
        pluralize_word(entity_name)
    } else {
        singularize(entity_name)
    };
    let cased = to_pascal_case(base.as_str());
    let mut s = <String as vstd::string::StringExecFns>::from_str(operation_prefix(kind));
    s.append(cased.as_str());
    proof {
        assert(s@ =~= spec_operation_name(kind, entity_name@));
    }
    s
}

/// The name of the traversal field a relationship contributes to an entity:
/// the singular snake-cased source entity name, an underscore, and the
/// relationship's own name.
pub open spec fn spec_edge_name(r: DbRelationship) -> Seq<char> {
    singular_of(snake_of(r.from@)) + "_"@ + r.name@
}

/// Builds the traversal field name of one relationship. The source entity's
/// name is an ASCII API identifier: the singular form is only defined on
/// ASCII input, which snake-casing keeps.
pub fn get_relationship_edge_name(r: &DbRelationship) -> (name: String)
    requires
        is_ascii_chars(r.from@),
    ensures
        name@ == spec_edge_name(*r),
{
    let snaked = to_snake_case(r.from.as_str());
    let mut s = singularize(snaked.as_str());
    s.append("_");
    s.append(r.name.as_str());
    proof {
        assert(s@ =~= spec_edge_name(*r));
    }
    s
}

/// The per-entity bundle every operation of that entity shares: the entity
/// and the relationships it owns.
pub struct OperationData {
    pub entity: DbEntity,
    pub relationships: Vec<DbRelationship>,
}

/// Whether two bundles carry the same entity and relationships.
pub open spec fn spec_data_eq(a: OperationData, b: OperationData) -> bool {
    &&& a.entity.name@ == b.entity.name@
    &&& a.entity.properties@ == b.entity.properties@
    &&& a.relationships@ == b.relationships@
}

fn clone_relationships(rels: &Vec<DbRelationship>) -> (r: Vec<DbRelationship>)
    ensures
        r@ == rels@,
{
    let mut r: Vec<DbRelationship> = Vec::new();
    let mut i: usize = 0;
    while i < rels.len()
        invariant
            i <= rels.len(),
            r@ =~= rels@.subrange(0, i as int),
        decreases rels.len() - i,
    {
        r.push(rels[i].clone());
        i = i + 1;
    }
    proof {
        assert(rels@.subrange(0, rels@.len() as int) =~= rels@);
    }
    r
}

fn clone_data(data: &OperationData) -> (r: OperationData)
    ensures
        spec_data_eq(r, *data),
{
    OperationData { entity: data.entity.clone(), relationships: clone_relationships(&data.relationships) }
}

/// One registered operation: its kind, the root it belongs under, and the
/// shared per-entity bundle.
pub struct OperationEntry {
    pub operation: OperationKind,
    pub kind: SchemaKind,
    pub data: OperationData,
}

/// A key collision found while registering: the registry is left untouched
/// and boot must abort.
pub struct DuplicateKeyError {
    pub key: String,
}

/// The registry itself: operation key to entry, and entity name to bundle,
/// both in registration order.
pub struct OperationRegistry {
    pub operation_data: Vec<(String, OperationData)>,
    pub operations: Vec<(String, OperationEntry)>,
}

/// One well-formed registry slot: its key is the derived operation name of
/// its entry, and the entry sits under the root its kind belongs to.
pub open spec fn spec_entry_wf(e: (String, OperationEntry)) -> bool {
    &&& e.0@ == spec_operation_name(e.1.operation, e.1.data.entity.name@)
    &&& e.1.kind == spec_schema_kind(e.1.operation)
}

/// The six entries of one registered entity, in registration order.
pub open spec fn spec_registered_entry(
    e: (String, OperationEntry),
    kind: OperationKind,
    entity: DbEntity,
    rels: Seq<DbRelationship>,
) -> bool {
    &&& e.0@ == spec_operation_name(kind, entity.name@)
    &&& e.1.operation == kind
    &&& e.1.kind == spec_schema_kind(kind)
    &&& e.1.data.entity.name@ == entity.name@
    &&& e.1.data.entity.properties@ == entity.properties@
    &&& e.1.data.relationships@ == rels
}

/// Registration succeeds exactly when the entity's six derived keys are
/// pairwise distinct, none is registered yet, and the entity name itself is
/// new.
pub open spec fn spec_can_register(r: OperationRegistry, entity_name: Seq<char>) -> bool {
    &&& forall|a: int, b: int|
        0 <= a < b < 6 ==> spec_operation_name(spec_kind_at(a), entity_name)
            != spec_operation_name(spec_kind_at(b), entity_name)
    &&& forall|a: int, k: int|
        0 <= a < 6 && 0 <= k < r.operations@.len() ==> (#[trigger] r.operations@[k]).0@
            != #[trigger] spec_operation_name(spec_kind_at(a), entity_name)
    &&& forall|k: int|
        0 <= k < r.operation_data@.len() ==> (#[trigger] r.operation_data@[k]).0@ != entity_name
}

impl OperationRegistry {
    /// Well-formedness: operation keys are pairwise distinct, each entry's
    /// key is the derived name of its (entity, kind) pair, and entity names
    /// are pairwise distinct.
    pub open spec fn wf(self) -> bool {
        &&& forall|i: int, j: int|
            0 <= i < j < self.operations@.len() ==> (#[trigger] self.operations@[i]).0@
                != (#[trigger] self.operations@[j]).0@
        &&& forall|i: int|
            0 <= i < self.operations@.len() ==> spec_entry_wf(#[trigger] self.operations@[i])
        &&& forall|i: int, j: int|
            0 <= i < j < self.operation_data@.len() ==> (#[trigger] self.operation_data@[i]).0@
                != (#[trigger] self.operation_data@[j]).0@
    }

    /// An empty, well-formed registry.
    pub fn new() -> (r: OperationRegistry)
        ensures
            r.wf(),
            r.operations@.len() == 0,
            r.operation_data@.len() == 0,
    {
        OperationRegistry { operation_data: Vec::new(), operations: Vec::new() }
    }

    /// Finds the slot registered under `key`, if any.
    fn find_operation(&self, key: &str) -> (r: Option<usize>)
        ensures
            match r {
                Some(i) => i < self.operations@.len() && self.operations@[i as int].0@ == key@,
                None => forall|k: int|
                    0 <= k < self.operations@.len() ==> (#[trigger] self.operations@[k]).0@
                        != key@,
            },
    {
        let key_string = <String as vstd::string::StringExecFns>::from_str(key);
        let mut i: usize = 0;
        while i < self.operations.len()
            invariant
                i <= self.operations@.len(),
                key_string@ == key@,
                forall|k: int|
                    0 <= k < i ==> (#[trigger] self.operations@[k]).0@ != key@,
            decreases self.operations@.len() - i,
        {
            if self.operations[i].0 == key_string {
                return Some(i);
            }
            i = i + 1;
        }
        None
    }

    /// Finds the bundle registered under the entity name `key`, if any.
    fn find_operation_data(&self, key: &str) -> (r: Option<usize>)
        ensures
            match r {
                Some(i) => i < self.operation_data@.len() && self.operation_data@[i as int].0@
                    == key@,
                None => forall|k: int|
                    0 <= k < self.operation_data@.len() ==> (#[trigger] self.operation_data@[k]).0@
                        != key@,
            },
    {
        let key_string = <String as vstd::string::StringExecFns>::from_str(key);
        let mut i: usize = 0;
        while i < self.operation_data.len()
            invariant
                i <= self.operation_data@.len(),
                key_string@ == key@,
                forall|k: int|
                    0 <= k < i ==> (#[trigger] self.operation_data@[k]).0@ != key@,
            decreases self.operation_data@.len() - i,
        {
            if self.operation_data[i].0 == key_string {
                return Some(i);
            }
            i = i + 1;
        }
        None
    }

    /// Appends one entry under its derived key; the caller has ruled the key
    /// out of the registry already.
    fn register(&mut self, kind: OperationKind, data: OperationData)
        requires
            old(self).wf(),
            is_ascii_chars(data.entity.name@),
            forall|k: int|
                0 <= k < old(self).operations@.len() ==> (#[trigger] old(
                    self,
                ).operations@[k]).0@ != spec_operation_name(kind, data.entity.name@),
        ensures
            final(self).wf(),
            final(self).operation_data@ == old(self).operation_data@,
            final(self).operations@.len() == old(self).operations@.len() + 1,
            forall|i: int|
                0 <= i < old(self).operations@.len() ==> final(self).operations@[i] == old(
                    self,
                ).operations@[i],
            spec_registered_entry(
                final(self).operations@[old(self).operations@.len() as int],
                kind,
                data.entity,
                data.relationships@,
            ),
    {
        let key = get_operation_name(kind, data.entity.name.as_str());
        let schema_kind = match kind {
            OperationKind::Get => SchemaKind::Query,
            OperationKind::GetAll => SchemaKind::Query,
            OperationKind::Create => SchemaKind::Mutation,
            OperationKind::Update => SchemaKind::Mutation,
            OperationKind::Remove => SchemaKind::Mutation,
            OperationKind::RemoveAll => SchemaKind::Mutation,
        };
        let entry = OperationEntry { operation: kind, kind: schema_kind, data };
        self.operations.push((key, entry));
    }

    /// Registers one entity: its shared bundle, then one entry per kind, in
    /// the order Get, GetAll, Create, Update, Remove, RemoveAll. Succeeds
    /// exactly when no derived key and no entity name collides; on a
    /// collision the registry is left untouched and the duplicate key is
    /// returned, so that boot can abort.
    pub fn register_entity(&mut self, entity: DbEntity, relationships: Vec<DbRelationship>) -> (res:
        Result<(), DuplicateKeyError>)
        requires
            old(self).wf(),
            is_ascii_chars(entity.name@),
        ensures
            final(self).wf(),
            res is Ok <==> spec_can_register(*old(self), entity.name@),
            res is Err ==> final(self).operations@ == old(self).operations@ && final(self).operation_data@ == old(self).operation_data@,
            res is Ok ==> {
                &&& final(self).operations@.len() == old(self).operations@.len() + 6
                &&& forall|i: int|
                    0 <= i < old(self).operations@.len() ==> final(self).operations@[i] == old(
                        self,
                    ).operations@[i]
                &&& forall|a: int|
                    0 <= a < 6 ==> spec_registered_entry(
                        #[trigger] final(self).operations@[old(self).operations@.len() + a],
                        spec_kind_at(a),
                        entity,
                        relationships@,
                    )
                &&& final(self).operation_data@.len() == old(self).operation_data@.len() + 1
                &&& forall|i: int|
                    0 <= i < old(self).operation_data@.len() ==> final(self).operation_data@[i]
                        == old(self).operation_data@[i]
                &&& final(self).operation_data@.last().0@ == entity.name@
                &&& final(self).operation_data@.last().1.entity.name@ == entity.name@
                &&& final(self).operation_data@.last().1.entity.properties@ == entity.properties@
                &&& final(self).operation_data@.last().1.relationships@ == relationships@
            },
    {
        let ghost ename = entity.name@;
        let mut names: Vec<String> = Vec::new();
        names.push(get_operation_name(OperationKind::Get, entity.name.as_str()));
        names.push(get_operation_name(OperationKind::GetAll, entity.name.as_str()));
        names.push(get_operation_name(OperationKind::Create, entity.name.as_str()));
        names.push(get_operation_name(OperationKind::Update, entity.name.as_str()));
        names.push(get_operation_name(OperationKind::Remove, entity.name.as_str()));
        names.push(get_operation_name(OperationKind::RemoveAll, entity.name.as_str()));
        proof {
            assert(forall|x: int|
                0 <= x < 6 ==> names@[x]@ == spec_operation_name(spec_kind_at(x), ename));
        }
        if self.find_operation_data(entity.name.as_str()).is_some() {
            return Err(DuplicateKeyError { key: entity.name.clone() });
        }
        let ghost name_absent = forall|k: int|
            0 <= k < self.operation_data@.len() ==> (#[trigger] self.operation_data@[k]).0@
                != ename;
        let mut i: usize = 0;
        while i < 6
            invariant
                i <= 6,
                names@.len() == 6,
                self.wf(),
                self == old(self),
                ename == entity.name@,
                name_absent,
                name_absent == (forall|k: int|
                    0 <= k < self.operation_data@.len() ==> (#[trigger] self.operation_data@[k]).0@
                        != ename),
                forall|x: int|
                    0 <= x < 6 ==> names@[x]@ == spec_operation_name(spec_kind_at(x), ename),
                forall|x: int, k: int|
                    0 <= x < i && 0 <= k < self.operations@.len() ==> (
                    #[trigger] self.operations@[k]).0@ != #[trigger] spec_operation_name(
                        spec_kind_at(x),
                        ename,
                    ),
                forall|x: int, y: int|
                    0 <= x < y < i ==> spec_operation_name(spec_kind_at(x), ename)
                        != spec_operation_name(spec_kind_at(y), ename),
            decreases 6 - i,
        {
            if self.find_operation(names[i].as_str()).is_some() {
                proof {
                    assert(!spec_can_register(*old(self), ename));
                }
                return Err(DuplicateKeyError { key: names[i].clone() });
            }
            let mut j: usize = 0;
            while j < i
                invariant
                    j <= i,
                    i < 6,
                    names@.len() == 6,
                    self.wf(),
                    self == old(self),
                    ename == entity.name@,
                    name_absent,
                    name_absent == (forall|k: int|
                        0 <= k < self.operation_data@.len() ==> (
                        #[trigger] self.operation_data@[k]).0@ != ename),
                    forall|x: int|
                        0 <= x < 6 ==> names@[x]@ == spec_operation_name(spec_kind_at(x), ename),
                    forall|y: int|
                        0 <= y < j ==> spec_operation_name(spec_kind_at(y), ename)
                            != spec_operation_name(spec_kind_at(i as int), ename),
                decreases i - j,
            {
                if names[j] == names[i] {
                    proof {
                        assert(spec_operation_name(spec_kind_at(j as int), ename)
                            == spec_operation_name(spec_kind_at(i as int), ename));
                        assert(!spec_can_register(*old(self), ename));
                    }
                    return Err(DuplicateKeyError { key: names[i].clone() });
                }
                j = j + 1;
            }
            i = i + 1;
        }
        proof {
            assert(spec_operation_name(spec_kind_at(0), ename) == spec_operation_name(
                OperationKind::Get,
                ename,
            ));
            assert(spec_operation_name(spec_kind_at(1), ename) == spec_operation_name(
                OperationKind::GetAll,
                ename,
            ));
            assert(spec_operation_name(spec_kind_at(2), ename) == spec_operation_name(
                OperationKind::Create,
                ename,
            ));
            assert(spec_operation_name(spec_kind_at(3), ename) == spec_operation_name(
                OperationKind::Update,
                ename,
            ));
            assert(spec_operation_name(spec_kind_at(4), ename) == spec_operation_name(
                OperationKind::Remove,
                ename,
            ));
            assert(spec_operation_name(spec_kind_at(5), ename) == spec_operation_name(
                OperationKind::RemoveAll,
                ename,
            ));
            assert(spec_can_register(*old(self), ename));
        }
        let data = OperationData { entity, relationships };
        self.operation_data.push((data.entity.name.clone(), clone_data(&data)));
        self.register(OperationKind::Get, clone_data(&data));
        self.register(OperationKind::GetAll, clone_data(&data));
        self.register(OperationKind::Create, clone_data(&data));
        self.register(OperationKind::Update, clone_data(&data));
        self.register(OperationKind::Remove, clone_data(&data));
        self.register(OperationKind::RemoveAll, data);
        Ok(())
    }

    /// The registered entry under `key`, if any.
    pub fn get_operation(&self, key: &str) -> (r: Option<&OperationEntry>)
        ensures
            match r {
                Some(e) => exists|i: int|
                    0 <= i < self.operations@.len() && (#[trigger] self.operations@[i]).0@ == key@
                        && *e == self.operations@[i].1,
                None => forall|k: int|
                    0 <= k < self.operations@.len() ==> (#[trigger] self.operations@[k]).0@
                        != key@,
            },
    {
        match self.find_operation(key) {
            Some(i) => Some(&self.operations[i].1),
            None => None,
        }
    }

    /// The registered bundle of the entity named `key`, if any.
    pub fn get_operation_data(&self, key: &str) -> (r: Option<&OperationData>)
        ensures
            match r {
                Some(d) => exists|i: int|
                    0 <= i < self.operation_data@.len() && (
                    #[trigger] self.operation_data@[i]).0@ == key@ && *d
                        == self.operation_data@[i].1,
                None => forall|k: int|
                    0 <= k < self.operation_data@.len() ==> (#[trigger] self.operation_data@[k]).0@
                        != key@,
            },
    {
        match self.find_operation_data(key) {
            Some(i) => Some(&self.operation_data[i].1),
            None => None,
        }
    }

    /// The positions of all entries under the given root, ascending: the
    /// fields the root's type synthesis walks.
    pub fn get_operations(&self, kind: SchemaKind) -> (r: Vec<usize>)
        ensures
            forall|a: int, b: int| 0 <= a < b < r@.len() ==> r@[a] < r@[b],
            forall|a: int|
                0 <= a < r@.len() ==> #[trigger] r@[a] < self.operations@.len()
                    && self.operations@[r@[a] as int].1.kind == kind,
            forall|i: int|
                0 <= i < self.operations@.len() && self.operations@[i].1.kind == kind
                    ==> exists|a: int| 0 <= a < r@.len() && #[trigger] r@[a] == i,
    {
        let mut r: Vec<usize> = Vec::new();
        let mut i: usize = 0;
        while i < self.operations.len()
            invariant
                i <= self.operations@.len(),
                forall|a: int, b: int| 0 <= a < b < r@.len() ==> r@[a] < r@[b],
                forall|a: int|
                    0 <= a < r@.len() ==> #[trigger] r@[a] < i
                        && self.operations@[r@[a] as int].1.kind == kind,
                forall|k: int|
                    0 <= k < i && self.operations@[k].1.kind == kind ==> exists|a: int|
                        0 <= a < r@.len() && #[trigger] r@[a] == k,
            decreases self.operations@.len() - i,
        {
            let ghost old_r = r@;
            let matched = self.operations[i].1.kind == kind;
            if matched {
                r.push(i);
            }
            proof {
                assert forall|k: int|
                    0 <= k < i + 1 && self.operations@[k].1.kind == kind implies exists|a: int|
                    0 <= a < r@.len() && #[trigger] r@[a] == k by {
                    if k < i {
                        let a = choose|a: int| 0 <= a < old_r.len() && #[trigger] old_r[a] == k;
                        assert(r@[a] == k);
                    } else {
                        assert(r@[r@.len() - 1] == i);
                    }
                }
            }
            i = i + 1;
        }
        r
    }
}

/// Operation keys are pairwise unique across the whole registered set of a
/// well-formed registry: no two slots — whatever their entities and kinds —
/// share a name.
pub proof fn lemma_operation_names_unique(r: OperationRegistry, i: int, j: int)
    requires
        r.wf(),
        0 <= i < r.operations@.len(),
        0 <= j < r.operations@.len(),
        i != j,
    ensures
        r.operations@[i].0@ != r.operations@[j].0@,
        spec_operation_name(r.operations@[i].1.operation, r.operations@[i].1.data.entity.name@)
            != spec_operation_name(
            r.operations@[j].1.operation,
            r.operations@[j].1.data.entity.name@,
        ),
{
    assert(spec_entry_wf(r.operations@[i]));
    assert(spec_entry_wf(r.operations@[j]));
    if i < j {
        assert(r.operations@[i].0@ != r.operations@[j].0@);
    } else {
        assert(r.operations@[j].0@ != r.operations@[i].0@);
    }
}

} // verus!
