use alchemy::execution::{
    get_multiple_entries, get_single_entry, BindValue, InputValue, QueryReturnType,
};
use alchemy::fields::{
    build_arguments, build_entity_fields, build_field_type, EntityFieldKind, FieldShape, FieldType,
};
use alchemy::metadata::{
    DbEntity, DbMap, DbPrimitive, DbProperty, DbRelationship, DbRelationshipDirection,
    DbScalarType,
};
use alchemy::operations::{
    get_operation_name, get_relationship_edge_name, OperationKind, OperationRegistry,
};
use alchemy::schema::{schema, Mutation, Query};
use alchemy::values::{DocumentNumber, DocumentValue, Value};

fn book_entity() -> DbEntity {
    DbEntity {
        name: "Book".to_string(),
        properties: vec![
            DbProperty {
                name: "title".to_string(),
                scalar_type: DbScalarType::String,
                required: true,
            },
            DbProperty {
                name: "year".to_string(),
                scalar_type: DbScalarType::Int,
                required: false,
            },
        ],
    }
}

fn book_map() -> DbMap {
    DbMap { primitives: vec![DbPrimitive::Entity(book_entity())], relationships: Vec::new() }
}

#[test]
fn operation_names_use_singular_and_plural_forms() {
    assert_eq!(get_operation_name(OperationKind::Get, "books"), "getBook");
    assert_eq!(get_operation_name(OperationKind::GetAll, "book"), "getBooks");
    assert_eq!(get_operation_name(OperationKind::Create, "Book"), "createBook");
    assert_eq!(get_operation_name(OperationKind::Update, "Book"), "updateBook");
    assert_eq!(get_operation_name(OperationKind::Remove, "Book"), "removeBook");
    assert_eq!(get_operation_name(OperationKind::RemoveAll, "Book"), "removeBooks");
}

#[test]
fn edge_names_snake_case_the_source_entity() {
    let rel = DbRelationship {
        name: "authors".to_string(),
        from: "BookAuthor".to_string(),
        to: "Person".to_string(),
        direction: DbRelationshipDirection::Outbound,
    };
    assert_eq!(get_relationship_edge_name(&rel), "book_author_authors");
}

#[test]
fn one_entity_yields_exactly_six_operations() {
    let data = schema(book_map()).ok().unwrap();
    assert_eq!(data.operation_registry.operations.len(), 6);
    let names: Vec<&str> = data
        .operation_registry
        .operations
        .iter()
        .map(|(k, _)| k.as_str())
        .collect();
    assert_eq!(
        names,
        vec!["getBook", "getBooks", "createBook", "updateBook", "removeBook", "removeBooks"]
    );
}

#[test]
fn registering_an_entity_twice_aborts() {
    let mut registry = OperationRegistry::new();
    assert!(registry.register_entity(book_entity(), Vec::new()).is_ok());
    assert!(registry.register_entity(book_entity(), Vec::new()).is_err());
}

#[test]
fn query_and_mutation_roots_split_the_operations() {
    let data = schema(book_map()).ok().unwrap();
    let queries = Query::meta(&data);
    let mutations = Mutation::meta(&data);
    assert_eq!(Query::name(), "Query");
    assert_eq!(Mutation::name(), "Mutation");
    let query_names: Vec<&str> = queries.iter().map(|f| f.name.as_str()).collect();
    let mutation_names: Vec<&str> = mutations.iter().map(|f| f.name.as_str()).collect();
    assert_eq!(query_names, vec!["getBook", "getBooks"]);
    assert_eq!(mutation_names, vec!["createBook", "updateBook", "removeBook", "removeBooks"]);
    assert!(matches!(&queries[0].shape, FieldShape::Entity(e) if e == "Book"));
    assert!(matches!(&queries[1].shape, FieldShape::EntityList(e) if e == "Book"));
    assert!(matches!(&mutations[3].shape, FieldShape::EntityList(e) if e == "Book"));
}

#[test]
fn single_lookup_with_one_match_returns_the_converted_document() {
    let data = schema(book_map()).ok().unwrap();
    let args = vec![("title".to_string(), InputValue::Str("Dune".to_string()))];
    let (query, plan) = data
        .operation_registry
        .call_by_key("getBook", &args, 0)
        .unwrap();
    assert_eq!(plan.query, "FOR i IN @@collection FILTER ((i.title == @0_title)) RETURN i");
    assert_eq!(plan.query, query.to_aql());
    assert_eq!(plan.collection, "Book");
    assert!(matches!(plan.return_type, QueryReturnType::Single));
    assert_eq!(plan.binds.len(), 1);
    assert_eq!(plan.binds[0].0, "0_title");
    assert!(matches!(&plan.binds[0].1, BindValue::Str(s) if s == "Dune"));

    let store_reply = vec![DocumentValue::Obj(vec![
        ("title".to_string(), DocumentValue::Str("Dune".to_string())),
        ("year".to_string(), DocumentValue::Number(DocumentNumber::IntNum(1965))),
    ])];
    match get_single_entry(Ok(store_reply), "Book".to_string()) {
        Ok(Value::Object(fields)) => {
            assert_eq!(fields.len(), 2);
            assert_eq!(fields[0].0, "title");
            assert!(matches!(&fields[0].1, Value::Str(s) if s == "Dune"));
            assert_eq!(fields[1].0, "year");
            assert!(matches!(fields[1].1, Value::Int(1965)));
        }
        _ => panic!("expected a converted object"),
    }
}

#[test]
fn single_lookup_with_zero_matches_is_not_found() {
    match get_single_entry(Ok(Vec::new()), "Book".to_string()) {
        Err(e) => assert_eq!(e.message, "Book not found"),
        Ok(_) => panic!("expected a not-found failure"),
    }
}

#[test]
fn store_failure_passes_through_verbatim() {
    match get_single_entry(Err("socket closed".to_string()), "Book".to_string()) {
        Err(e) => assert_eq!(e.message, "socket closed"),
        Ok(_) => panic!("expected a store failure"),
    }
}

#[test]
fn listing_returns_the_full_set_in_store_order() {
    let data = schema(book_map()).ok().unwrap();
    let (_query, plan) = data
        .operation_registry
        .call_by_key("getBooks", &Vec::new(), 0)
        .unwrap();
    assert_eq!(plan.query, "FOR i IN @@collection FILTER true RETURN i");
    assert!(matches!(plan.return_type, QueryReturnType::Multiple));
    assert!(plan.binds.is_empty());

    let store_reply = vec![
        DocumentValue::Obj(vec![("title".to_string(), DocumentValue::Str("A".to_string()))]),
        DocumentValue::Obj(vec![("title".to_string(), DocumentValue::Str("B".to_string()))]),
    ];
    match get_multiple_entries(Ok(store_reply)) {
        Ok(Value::List(items)) => {
            assert_eq!(items.len(), 2);
            match (&items[0], &items[1]) {
                (Value::Object(a), Value::Object(b)) => {
                    assert!(matches!(&a[0].1, Value::Str(s) if s == "A"));
                    assert!(matches!(&b[0].1, Value::Str(s) if s == "B"));
                }
                _ => panic!("expected objects"),
            }
        }
        _ => panic!("expected a list"),
    }

    match get_multiple_entries(Ok(Vec::new())) {
        Ok(Value::List(items)) => assert!(items.is_empty()),
        _ => panic!("an empty list is a valid result"),
    }
}

#[test]
fn unknown_operation_is_a_request_level_failure() {
    let data = schema(book_map()).ok().unwrap();
    assert!(data.operation_registry.call_by_key("dropBook", &Vec::new(), 0).is_none());
}

#[test]
fn create_plan_carries_the_document_payload() {
    let data = schema(book_map()).ok().unwrap();
    let args = vec![
        ("title".to_string(), InputValue::Str("Dune".to_string())),
        ("year".to_string(), InputValue::Int(1965)),
    ];
    let (_query, plan) = data
        .operation_registry
        .call_by_key("createBook", &args, 0)
        .unwrap();
    assert_eq!(plan.query, "INSERT @0_doc INTO @@collection RETURN NEW");
    assert_eq!(plan.binds.len(), 1);
    assert_eq!(plan.binds[0].0, "0_doc");
    match &plan.binds[0].1 {
        BindValue::Document(DocumentValue::Obj(fields)) => {
            assert_eq!(fields.len(), 2);
            assert_eq!(fields[0].0, "title");
            assert!(matches!(&fields[0].1, DocumentValue::Str(s) if s == "Dune"));
            assert_eq!(fields[1].0, "year");
            assert!(matches!(
                fields[1].1,
                DocumentValue::Number(DocumentNumber::IntNum(1965))
            ));
        }
        _ => panic!("expected a document payload"),
    }
}

#[test]
fn update_plan_filters_identifiers_and_binds_the_patch() {
    let data = schema(book_map()).ok().unwrap();
    let args = vec![
        ("title".to_string(), InputValue::Str("Dune".to_string())),
        (
            "patch".to_string(),
            InputValue::Object(vec![("year".to_string(), InputValue::Int(1966))]),
        ),
    ];
    let (_query, plan) = data
        .operation_registry
        .call_by_key("updateBook", &args, 0)
        .unwrap();
    assert_eq!(
        plan.query,
        "FOR i IN @@collection FILTER ((i.title == @0_title)) UPDATE i WITH @0_patch IN @@collection RETURN NEW"
    );
    assert_eq!(plan.binds.len(), 2);
    assert_eq!(plan.binds[0].0, "0_title");
    assert_eq!(plan.binds[1].0, "0_patch");
    match &plan.binds[1].1 {
        BindValue::Document(DocumentValue::Obj(fields)) => {
            assert_eq!(fields.len(), 1);
            assert_eq!(fields[0].0, "year");
            assert!(matches!(
                fields[0].1,
                DocumentValue::Number(DocumentNumber::IntNum(1966))
            ));
        }
        _ => panic!("expected a patch document"),
    }
}

#[test]
fn remove_plans_return_old_documents() {
    let data = schema(book_map()).ok().unwrap();
    let args = vec![("title".to_string(), InputValue::Str("Dune".to_string()))];
    let (_q1, single) = data
        .operation_registry
        .call_by_key("removeBook", &args, 0)
        .unwrap();
    assert_eq!(
        single.query,
        "FOR i IN @@collection FILTER ((i.title == @0_title)) REMOVE i IN @@collection RETURN OLD"
    );
    assert!(matches!(single.return_type, QueryReturnType::Single));
    let (_q2, all) = data
        .operation_registry
        .call_by_key("removeBooks", &Vec::new(), 0)
        .unwrap();
    assert!(matches!(all.return_type, QueryReturnType::Multiple));
}

#[test]
fn relationship_ownership_follows_direction() {
    let person = DbEntity { name: "Person".to_string(), properties: Vec::new() };
    let book = book_entity();
    let outbound = DbRelationship {
        name: "wrote".to_string(),
        from: "Person".to_string(),
        to: "Book".to_string(),
        direction: DbRelationshipDirection::Outbound,
    };
    let inbound = DbRelationship {
        name: "written_by".to_string(),
        from: "Person".to_string(),
        to: "Book".to_string(),
        direction: DbRelationshipDirection::Inbound,
    };
    let any = DbRelationship {
        name: "knows".to_string(),
        from: "Person".to_string(),
        to: "Book".to_string(),
        direction: DbRelationshipDirection::Any,
    };
    let map = DbMap {
        primitives: vec![DbPrimitive::Entity(person), DbPrimitive::Entity(book)],
        relationships: vec![outbound, inbound, any],
    };
    let data = schema(map).ok().unwrap();
    let person_rels: Vec<&str> = data
        .operation_registry
        .get_operation_data("Person")
        .unwrap()
        .relationships
        .iter()
        .map(|r| r.name.as_str())
        .collect();
    let book_rels: Vec<&str> = data
        .operation_registry
        .get_operation_data("Book")
        .unwrap()
        .relationships
        .iter()
        .map(|r| r.name.as_str())
        .collect();
    assert_eq!(person_rels, vec!["wrote", "knows"]);
    assert_eq!(book_rels, vec!["written_by", "knows"]);
}

#[test]
fn entity_fields_hold_properties_then_owned_traversals() {
    let map = DbMap {
        primitives: vec![DbPrimitive::Entity(book_entity())],
        relationships: vec![DbRelationship {
            name: "authors".to_string(),
            from: "Book".to_string(),
            to: "Person".to_string(),
            direction: DbRelationshipDirection::Outbound,
        }],
    };
    let data = schema(map).ok().unwrap();
    let bundle = data.operation_registry.get_operation_data("Book").unwrap();
    let fields = build_entity_fields(bundle);
    assert_eq!(fields.len(), 3);
    assert_eq!(fields[0].name, "title");
    match &fields[0].kind {
        EntityFieldKind::Property(FieldType::Named { non_null, .. }) => assert!(*non_null),
        _ => panic!("expected a property field"),
    }
    assert_eq!(fields[1].name, "year");
    match &fields[1].kind {
        EntityFieldKind::Property(FieldType::Named { non_null, .. }) => assert!(!*non_null),
        _ => panic!("expected a property field"),
    }
    assert_eq!(fields[2].name, "book_authors");
    assert!(matches!(&fields[2].kind, EntityFieldKind::Traversal(to) if to == "Person"));
}

#[test]
fn array_properties_relax_nested_non_null_wrapping() {
    let ty = DbScalarType::Array(Box::new(DbScalarType::String));
    match build_field_type(&ty, true, true) {
        FieldType::List { element, non_null } => {
            assert!(non_null);
            match *element {
                FieldType::Named { scalar: DbScalarType::String, non_null } => {
                    assert!(!non_null)
                }
                _ => panic!("expected a named element type"),
            }
        }
        _ => panic!("expected a list type"),
    }
    match build_field_type(&ty, false, true) {
        FieldType::List { non_null, .. } => assert!(!non_null),
        _ => panic!("expected a list type"),
    }
}

#[test]
fn duplicate_entity_names_abort_schema_construction() {
    let map = DbMap {
        primitives: vec![
            DbPrimitive::Entity(book_entity()),
            DbPrimitive::Enum("Genre".to_string()),
            DbPrimitive::Entity(book_entity()),
        ],
        relationships: Vec::new(),
    };
    assert!(schema(map).is_err());
}

#[test]
fn argument_synthesis_follows_the_enforce_flag() {
    let data = schema(book_map()).ok().unwrap();
    let bundle = data.operation_registry.get_operation_data("Book").unwrap();
    let creation = build_arguments(bundle, true);
    assert_eq!(creation.len(), 2);
    assert_eq!(creation[0].name, "title");
    assert!(matches!(creation[0].field_type, FieldType::Named { non_null: true, .. }));
    assert!(matches!(creation[1].field_type, FieldType::Named { non_null: false, .. }));
    let filters = build_arguments(bundle, false);
    assert!(matches!(filters[0].field_type, FieldType::Named { non_null: false, .. }));
    assert!(matches!(filters[1].field_type, FieldType::Named { non_null: false, .. }));
}
