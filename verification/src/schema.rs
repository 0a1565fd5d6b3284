//! Schema construction: walks the metadata map once at boot, registers every
//! entity with the relationships it owns by direction, and exposes the query
//! and mutation roots whose fields are the registered operations. A duplicate
//! derived key or entity name aborts construction rather than leaving a
//! partially consistent registry.

use vstd::prelude::*;

use crate::fields::{spec_root_field, FieldShape, FieldSpec};
use crate::execution::spec_return_type_of;
use crate::metadata::{spec_owned_relationships, owned_relationships, DbEntity, DbMap, DbPrimitive};
use crate::metadata::DbRelationship;
use crate::operations::{
    spec_can_register, spec_kind_at, spec_operation_name, spec_registered_entry, DuplicateKeyError,
    OperationEntry, OperationRegistry, SchemaKind,
};
use vstd::utf8::is_ascii_chars;

verus! {

/// The entities of a primitive list, in order; enums contribute nothing.
pub open spec fn spec_entities(prims: Seq<DbPrimitive>) -> Seq<DbEntity>
    decreases prims.len(),
{
    if prims.len() == 0 {
        Seq::empty()
    } else {
        (match prims[0] {
            DbPrimitive::Entity(e) => seq![e],
            DbPrimitive::Enum(_) => Seq::empty(),
        }) + spec_entities(prims.drop_first())
    }
}

proof fn lemma_entities_push(prims: Seq<DbPrimitive>, x: DbPrimitive)
    ensures
        spec_entities(prims.push(x)) == spec_entities(prims) + (match x {
            DbPrimitive::Entity(e) => seq![e],
            DbPrimitive::Enum(_) => Seq::empty(),
        }),
    decreases prims.len(),
{
    let pushed = prims.push(x);
    let tail = (match x {
        DbPrimitive::Entity(e) => seq![e],
        DbPrimitive::Enum(_) => Seq::<DbEntity>::empty(),
    });
    if prims.len() == 0 {
        assert(pushed[0] == x);
        assert(pushed.drop_first() =~= Seq::<DbPrimitive>::empty());
        assert(spec_entities(pushed.drop_first()) =~= Seq::<DbEntity>::empty());
        assert(spec_entities(pushed) =~= tail);
        assert(spec_entities(prims) + tail =~= tail);
    } else {
        assert(pushed[0] == prims[0]);
        assert(pushed.drop_first() =~= prims.drop_first().push(x));
        lemma_entities_push(prims.drop_first(), x);
        let head = (match prims[0] {
            DbPrimitive::Entity(e) => seq![e],
            DbPrimitive::Enum(_) => Seq::<DbEntity>::empty(),
        });
        assert(spec_entities(prims) + tail =~= head + (spec_entities(prims.drop_first()) + tail));
    }
}

/// A registry that holds exactly the six operations of each entity, block by
/// block in entity order, each entry carrying the relationships its entity
/// owns, and one bundle per entity under its name.
pub open spec fn spec_schema_registry(
    reg: OperationRegistry,
    ents: Seq<DbEntity>,
    rels: Seq<DbRelationship>,
) -> bool {
    &&& reg.operations@.len() == 6 * ents.len()
    &&& forall|e: int, a: int|
        0 <= e < ents.len() && 0 <= a < 6 ==> spec_registered_entry(
            #[trigger] reg.operations@[6 * e + a],
            spec_kind_at(a),
            ents[e],
            spec_owned_relationships(ents[e].name@, rels),
        )
    &&& reg.operation_data@.len() == ents.len()
    &&& forall|e: int|
        0 <= e < ents.len() ==> {
            let slot = #[trigger] reg.operation_data@[e];
            &&& slot.0@ == ents[e].name@
            &&& slot.1.entity.name@ == ents[e].name@
            &&& slot.1.entity.properties@ == ents[e].properties@
            &&& slot.1.relationships@ == spec_owned_relationships(ents[e].name@, rels)
        }
}

/// Construction succeeds exactly when no two of the derived operation keys
/// coincide — over all entities and all six kinds — and no two entities share
/// a name.
pub open spec fn spec_all_names_distinct(ents: Seq<DbEntity>) -> bool {
    &&& forall|e1: int, a1: int, e2: int, a2: int|
        #![trigger spec_operation_name(spec_kind_at(a1), ents[e1].name@), spec_operation_name(spec_kind_at(a2), ents[e2].name@)]
        0 <= e1 < ents.len() && 0 <= a1 < 6 && 0 <= e2 < ents.len() && 0 <= a2 < 6 && (e1 != e2
            || a1 != a2) ==> spec_operation_name(spec_kind_at(a1), ents[e1].name@)
            != spec_operation_name(spec_kind_at(a2), ents[e2].name@)
    &&& forall|e1: int, e2: int|
        0 <= e1 < e2 < ents.len() ==> (#[trigger] ents[e1].name@) != (#[trigger] ents[e2].name@)
}

/// The frozen data every request reads: the operation registry and the
/// relationship list, built once at boot and immutable thereafter.
pub struct SchemaData {
    pub operation_registry: OperationRegistry,
    pub relationships: Vec<DbRelationship>,
}

/// Builds the schema from a metadata map: registers each entity primitive —
/// with the relationships it owns by direction — under its six derived
/// operation keys. Succeeds exactly when all derived keys and entity names
/// are distinct; a collision aborts construction and names the duplicate.
/// Entity names are ASCII API identifiers: the derived singular and plural
/// forms are only defined on ASCII input.
pub fn schema(map: DbMap) -> (res: Result<SchemaData, DuplicateKeyError>)
    requires
        forall|e: int|
            0 <= e < spec_entities(map.primitives@).len() ==> is_ascii_chars(
                (#[trigger] spec_entities(map.primitives@)[e]).name@,
            ),
    ensures
        res is Ok <==> spec_all_names_distinct(spec_entities(map.primitives@)),
        res matches Ok(s) ==> {
            &&& s.operation_registry.wf()
            &&& s.relationships@ == map.relationships@
            &&& spec_schema_registry(
                s.operation_registry,
                spec_entities(map.primitives@),
                map.relationships@,
            )
        },
{
    let DbMap { primitives, relationships } = map;
    let mut registry = OperationRegistry::new();
    proof {
        assert(primitives@.subrange(0, 0) =~= Seq::<DbPrimitive>::empty());
        assert(primitives@.skip(0) =~= primitives@);
    }
    let mut p: usize = 0;
    while p < primitives.len()
        invariant
            p <= primitives@.len(),
            primitives@ == map.primitives@,
            forall|e: int|
                0 <= e < spec_entities(map.primitives@).len() ==> is_ascii_chars(
                    (#[trigger] spec_entities(map.primitives@)[e]).name@,
                ),
            relationships@ == map.relationships@,
            registry.wf(),
            spec_schema_registry(
                registry,
                spec_entities(primitives@.subrange(0, p as int)),
                relationships@,
            ),
            spec_entities(primitives@) == spec_entities(primitives@.subrange(0, p as int))
                + spec_entities(primitives@.skip(p as int)),
        decreases primitives@.len() - p,
    {
        let ghost ents_p = spec_entities(primitives@.subrange(0, p as int));
        let ghost full = spec_entities(primitives@);
        proof {
            assert(primitives@.subrange(0, p + 1 as int) =~= primitives@.subrange(0, p as int).push(
                primitives@[p as int],
            ));
            lemma_entities_push(primitives@.subrange(0, p as int), primitives@[p as int]);
            assert(primitives@.skip(p as int)[0] == primitives@[p as int]);
            assert(primitives@.skip(p as int).drop_first() =~= primitives@.skip(p + 1 as int));
        }
        match &primitives[p] {
            DbPrimitive::Entity(t) => {
                proof {
                    assert(full =~= ents_p + (seq![*t] + spec_entities(
                        primitives@.skip(p + 1 as int),
                    )));
                    assert(full.len() > ents_p.len());
                    assert(full[ents_p.len() as int] == *t);
                    assert(forall|e: int| 0 <= e < ents_p.len() ==> full[e] == ents_p[e]);
                    assert(spec_entities(map.primitives@) == full);
                    assert(is_ascii_chars(
                        (spec_entities(map.primitives@)[ents_p.len() as int]).name@,
                    ));
                    assert(is_ascii_chars(t.name@));
                }
                let owned = owned_relationships(&t.name, &relationships);
                let cloned = t.clone();
                let result = registry.register_entity(cloned, owned);
                match result {
                    Ok(_) => {
                        proof {
                            let ents_next = spec_entities(primitives@.subrange(0, p + 1 as int));
                            assert(ents_next =~= ents_p.push(*t));
                            assert forall|e: int, a: int|
                                0 <= e < ents_next.len() && 0 <= a < 6 implies spec_registered_entry(
                                #[trigger] registry.operations@[6 * e + a],
                                spec_kind_at(a),
                                ents_next[e],
                                spec_owned_relationships(ents_next[e].name@, relationships@),
                            ) by {
                                if e < ents_p.len() {
                                    assert(6 * e + a < 6 * ents_p.len());
                                } else {
                                    assert(e == ents_p.len());
                                    assert(6 * e + a == 6 * ents_p.len() + a);
                                }
                            }
                            assert forall|e: int| 0 <= e < ents_next.len() implies {
                                let slot = #[trigger] registry.operation_data@[e];
                                &&& slot.0@ == ents_next[e].name@
                                &&& slot.1.entity.name@ == ents_next[e].name@
                                &&& slot.1.entity.properties@ == ents_next[e].properties@
                                &&& slot.1.relationships@ == spec_owned_relationships(
                                    ents_next[e].name@,
                                    relationships@,
                                )
                            } by {
                                if e < ents_p.len() {
                                    assert(registry.operation_data@[e].0@ == ents_p[e].name@);
                                } else {
                                    assert(e == ents_p.len());
                                    assert(registry.operation_data@[e]
                                        == registry.operation_data@.last());
                                }
                            }
                        }
                    },
                    Err(dup) => {
                        proof {
                            let ename = t.name@;
                            assert(!spec_can_register(registry, ename));
                            lemma_failed_registration_collides(
                                registry,
                                ents_p,
                                full,
                                *t,
                                relationships@,
                            );
                        }
                        return Err(dup);
                    },
                }
            },
            DbPrimitive::Enum(_) => {
                proof {
                    assert(spec_entities(primitives@.subrange(0, p + 1 as int)) =~= ents_p);
                }
            },
        }
        p = p + 1;
    }
    proof {
        assert(primitives@.subrange(0, primitives@.len() as int) =~= primitives@);
        assert(primitives@.skip(primitives@.len() as int).len() == 0);
        let ents = spec_entities(primitives@);
        lemma_registry_names_distinct(registry, ents, relationships@);
    }
    Ok(SchemaData { operation_registry: registry, relationships })
}

/// When a well-formed registry already holding the blocks of the entities
/// `ents` refuses one more entity, some derived key or entity name collides
/// over the prefix `ents` extended by that entity.
proof fn lemma_failed_registration_collides(
    reg: OperationRegistry,
    ents: Seq<DbEntity>,
    full: Seq<DbEntity>,
    t: DbEntity,
    rels: Seq<DbRelationship>,
)
    requires
        reg.wf(),
        spec_schema_registry(reg, ents, rels),
        !spec_can_register(reg, t.name@),
        full.len() > ents.len(),
        full[ents.len() as int] == t,
        forall|e: int| 0 <= e < ents.len() ==> full[e] == ents[e],
    ensures
        !spec_all_names_distinct(full),
{
    let ename = t.name@;
    let ee = ents.len() as int;
    if !(forall|a: int, b: int|
        0 <= a < b < 6 ==> spec_operation_name(spec_kind_at(a), ename) != spec_operation_name(
            spec_kind_at(b),
            ename,
        )) {
        let (a, b) = choose|a: int, b: int|
            0 <= a < b < 6 && spec_operation_name(spec_kind_at(a), ename) == spec_operation_name(
                spec_kind_at(b),
                ename,
            );
        assert(full[ee].name@ == ename);
        assert(spec_operation_name(spec_kind_at(a), full[ee].name@) == spec_operation_name(
            spec_kind_at(b),
            full[ee].name@,
        ));
        assert(!spec_all_names_distinct(full));
    } else if !(forall|a: int, k: int|
        0 <= a < 6 && 0 <= k < reg.operations@.len() ==> (#[trigger] reg.operations@[k]).0@
            != #[trigger] spec_operation_name(spec_kind_at(a), ename)) {
        let (a, k) = choose|a: int, k: int|
            0 <= a < 6 && 0 <= k < reg.operations@.len() && reg.operations@[k].0@
                == spec_operation_name(spec_kind_at(a), ename);
        let e1 = k / 6;
        let a1 = k % 6;
        vstd::arithmetic::div_mod::lemma_fundamental_div_mod(k, 6);
        assert(0 <= a1 < 6) by {
            vstd::arithmetic::div_mod::lemma_mod_division_less_than_divisor(k, 6);
        }
        assert(0 <= e1 < ents.len()) by {
            assert(k == 6 * e1 + a1);
            assert(k < 6 * ents.len());
        }
        assert(spec_registered_entry(
            reg.operations@[6 * e1 + a1],
            spec_kind_at(a1),
            ents[e1],
            spec_owned_relationships(ents[e1].name@, rels),
        ));
        assert(reg.operations@[k].0@ == spec_operation_name(spec_kind_at(a1), ents[e1].name@));
        assert(spec_operation_name(spec_kind_at(a1), full[e1].name@) == spec_operation_name(
            spec_kind_at(a),
            full[ee].name@,
        ));
        assert(e1 != ee);
        assert(!spec_all_names_distinct(full));
    } else {
        assert(!(forall|k: int|
            0 <= k < reg.operation_data@.len() ==> (#[trigger] reg.operation_data@[k]).0@
                != ename));
        let k = choose|k: int|
            0 <= k < reg.operation_data@.len() && reg.operation_data@[k].0@ == ename;
        assert(full[k].name@ == ents[k].name@);
        assert(full[k].name@ == full[ee].name@);
        assert(!spec_all_names_distinct(full));
    }
}

/// A well-formed registry holding exactly the blocks of `ents` witnesses
/// that all derived keys and entity names of `ents` are distinct.
proof fn lemma_registry_names_distinct(
    reg: OperationRegistry,
    ents: Seq<DbEntity>,
    rels: Seq<DbRelationship>,
)
    requires
        reg.wf(),
        spec_schema_registry(reg, ents, rels),
    ensures
        spec_all_names_distinct(ents),
{
    assert forall|e1: int, a1: int, e2: int, a2: int|
        0 <= e1 < ents.len() && 0 <= a1 < 6 && 0 <= e2 < ents.len() && 0 <= a2 < 6 && (e1 != e2
            || a1 != a2) implies spec_operation_name(spec_kind_at(a1), ents[e1].name@)
        != spec_operation_name(spec_kind_at(a2), ents[e2].name@) by {
        let i1 = 6 * e1 + a1;
        let i2 = 6 * e2 + a2;
        assert(i1 != i2);
        assert(spec_registered_entry(
            reg.operations@[6 * e1 + a1],
            spec_kind_at(a1),
            ents[e1],
            spec_owned_relationships(ents[e1].name@, rels),
        ));
        assert(spec_registered_entry(
            reg.operations@[6 * e2 + a2],
            spec_kind_at(a2),
            ents[e2],
            spec_owned_relationships(ents[e2].name@, rels),
        ));
        if i1 < i2 {
            assert(reg.operations@[i1].0@ != reg.operations@[i2].0@);
        } else {
            assert(reg.operations@[i2].0@ != reg.operations@[i1].0@);
        }
    }
    assert forall|e1: int, e2: int| 0 <= e1 < e2 < ents.len() implies (#[trigger] ents[e1].name@)
        != (#[trigger] ents[e2].name@) by {
        assert(reg.operation_data@[e1].0@ == ents[e1].name@);
        assert(reg.operation_data@[e2].0@ == ents[e2].name@);
    }
}

/// One root field per registered operation of the given root, in
/// registration order.
pub open spec fn spec_root_fields(
    ops: Seq<(String, OperationEntry)>,
    kind: SchemaKind,
) -> Seq<FieldSpec>
    decreases ops.len(),
{
    if ops.len() == 0 {
        Seq::empty()
    } else {
        (if ops[0].1.kind == kind {
            seq![spec_field_of(ops[0])]
        } else {
            Seq::empty()
        }) + spec_root_fields(ops.drop_first(), kind)
    }
}

/// The root field one registered operation declares.
pub open spec fn spec_field_of(e: (String, OperationEntry)) -> FieldSpec {
    FieldSpec {
        name: e.0,
        shape: if spec_return_type_of(e.1.operation) is Multiple {
            FieldShape::EntityList(e.1.data.entity.name)
        } else {
            FieldShape::Entity(e.1.data.entity.name)
        },
    }
}

proof fn lemma_root_fields_push(
    ops: Seq<(String, OperationEntry)>,
    x: (String, OperationEntry),
    kind: SchemaKind,
)
    ensures
        spec_root_fields(ops.push(x), kind) == spec_root_fields(ops, kind) + (if x.1.kind == kind {
            seq![spec_field_of(x)]
        } else {
            Seq::empty()
        }),
    decreases ops.len(),
{
    let pushed = ops.push(x);
    let tail = (if x.1.kind == kind {
        seq![spec_field_of(x)]
    } else {
        Seq::<FieldSpec>::empty()
    });
    if ops.len() == 0 {
        assert(pushed[0] == x);
        assert(pushed.drop_first() =~= Seq::<(String, OperationEntry)>::empty());
        assert(spec_root_fields(pushed.drop_first(), kind) =~= Seq::<FieldSpec>::empty());
        assert(spec_root_fields(pushed, kind) =~= tail);
        assert(spec_root_fields(ops, kind) + tail =~= tail);
    } else {
        assert(pushed[0] == ops[0]);
        assert(pushed.drop_first() =~= ops.drop_first().push(x));
        lemma_root_fields_push(ops.drop_first(), x, kind);
        let head = (if ops[0].1.kind == kind {
            seq![spec_field_of(ops[0])]
        } else {
            Seq::<FieldSpec>::empty()
        });
        assert(spec_root_fields(ops, kind) + tail =~= head + (spec_root_fields(
            ops.drop_first(),
            kind,
        ) + tail));
    }
}

/// Builds one root's field list from the registry.
fn build_root_fields(registry: &OperationRegistry, kind: SchemaKind) -> (r: Vec<FieldSpec>)
    ensures
        r@ == spec_root_fields(registry.operations@, kind),
{
    let mut r: Vec<FieldSpec> = Vec::new();
    proof {
        assert(r@ =~= spec_root_fields(registry.operations@.subrange(0, 0), kind));
    }
    let mut i: usize = 0;
    while i < registry.operations.len()
        invariant
            i <= registry.operations@.len(),
            r@ == spec_root_fields(registry.operations@.subrange(0, i as int), kind),
        decreases registry.operations@.len() - i,
    {
        let entry = &registry.operations[i];
        if entry.1.kind == kind {
            let f = crate::fields::build_field(&entry.0, &entry.1);
            proof {
                assert(spec_root_field(f, registry.operations@[i as int]));
                assert(f == spec_field_of(registry.operations@[i as int]));
            }
            r.push(f);
        }
        proof {
            lemma_root_fields_push(
                registry.operations@.subrange(0, i as int),
                registry.operations@[i as int],
                kind,
            );
            assert(registry.operations@.subrange(0, i + 1 as int) =~= registry.operations@.subrange(
                0,
                i as int,
            ).push(registry.operations@[i as int]));
            assert(r@ =~= spec_root_fields(registry.operations@.subrange(0, i + 1 as int), kind));
        }
        i = i + 1;
    }
    proof {
        assert(registry.operations@.subrange(0, registry.operations@.len() as int)
            =~= registry.operations@);
    }
    r
}

/// The query root: its fields are the registered lookup operations.
pub struct Query;

impl Query {
    /// The root's type name.
    pub fn name() -> (r: &'static str)
        ensures
            r@ == "Query"@,
    {
        "Query"
    }

    /// The root's fields: one per registered query operation, in
    /// registration order.
    pub fn meta(info: &SchemaData) -> (r: Vec<FieldSpec>)
        ensures
            r@ == spec_root_fields(info.operation_registry.operations@, SchemaKind::Query),
    {
        build_root_fields(&info.operation_registry, SchemaKind::Query)
    }
}

/// The mutation root: its fields are the registered mutation operations.
pub struct Mutation;

impl Mutation {
    /// The root's type name.
    pub fn name() -> (r: &'static str)
        ensures
            r@ == "Mutation"@,
    {
        "Mutation"
    }

    /// The root's fields: one per registered mutation operation, in
    /// registration order.
    pub fn meta(info: &SchemaData) -> (r: Vec<FieldSpec>)
        ensures
            r@ == spec_root_fields(info.operation_registry.operations@, SchemaKind::Mutation),
    {
        build_root_fields(&info.operation_registry, SchemaKind::Mutation)
    }
}

} // verus!
