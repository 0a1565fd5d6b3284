use alchemy::aql::{
    get_filter_by_indices_attributes, AQLLogicalOperator, AQLNode, AQLOperation, AQLQuery,
    AQLQueryMethod,
};
use alchemy::errors::{DatabaseError, NotFoundError};
use alchemy::execution::{bind_arguments, BindValue, InputValue};
use alchemy::values::{convert_number, convert_value, DocumentNumber, DocumentValue, Value};

fn equality_node(key: &str) -> AQLNode {
    AQLNode::FilterOperation(
        Box::new(AQLNode::QueryParameter(key.to_string())),
        AQLOperation::Equal,
        Box::new(AQLNode::QueryBind(key.to_string())),
    )
}

#[test]
fn empty_and_renders_always_true() {
    let node = AQLNode::LogicalFilter(AQLLogicalOperator::And, Vec::new());
    assert_eq!(node.render(0), "true");
}

#[test]
fn empty_or_renders_always_false() {
    let node = AQLNode::LogicalFilter(AQLLogicalOperator::Or, Vec::new());
    assert_eq!(node.render(0), "false");
}

#[test]
fn rendering_is_deterministic() {
    let build = || {
        AQLNode::LogicalFilter(
            AQLLogicalOperator::Or,
            vec![equality_node("title"), equality_node("year")],
        )
    };
    let first = build();
    let second = build();
    assert_eq!(first.render(4), second.render(4));
    assert_eq!(first.render(4), first.render(4));
    assert_eq!(first.bind_names(), second.bind_names());
    assert_eq!(
        first.render(4),
        "((i.title == @4_title) OR (i.year == @4_year))"
    );
}

#[test]
fn filter_by_map_yields_one_equal_node_per_key() {
    let keys = vec!["a".to_string(), "b".to_string(), "c".to_string()];
    let filter = get_filter_by_indices_attributes(&keys);
    match &filter {
        AQLNode::LogicalFilter(AQLLogicalOperator::And, nodes) => {
            assert_eq!(nodes.len(), 3);
        }
        _ => panic!("expected an AND logical filter"),
    }
    assert_eq!(
        filter.bind_names(),
        vec!["a".to_string(), "b".to_string(), "c".to_string()]
    );
    assert_eq!(filter.render(7), "((i.a == @7_a) AND (i.b == @7_b) AND (i.c == @7_c))");
}

#[test]
fn bind_names_are_namespaced_per_query() {
    let first = AQLQuery::new(1, AQLQueryMethod::Get, equality_node("name"));
    let second = AQLQuery::new(2, AQLQueryMethod::Get, equality_node("name"));
    let key_in_first = first.get_argument_key("name");
    let key_in_second = second.get_argument_key("name");
    assert_eq!(key_in_first, "1_name");
    assert_eq!(key_in_second, "2_name");
    assert_ne!(key_in_first, key_in_second);
}

#[test]
fn query_text_per_method() {
    let filter = get_filter_by_indices_attributes(&vec!["title".to_string()]);
    let get = AQLQuery::new(0, AQLQueryMethod::Get, filter);
    assert_eq!(
        get.to_aql(),
        "FOR i IN @@collection FILTER ((i.title == @0_title)) RETURN i"
    );
    let create = AQLQuery::new(
        0,
        AQLQueryMethod::Create,
        AQLNode::LogicalFilter(AQLLogicalOperator::And, Vec::new()),
    );
    assert_eq!(create.to_aql(), "INSERT @0_doc INTO @@collection RETURN NEW");
    let update = AQLQuery::new(
        0,
        AQLQueryMethod::Update,
        get_filter_by_indices_attributes(&vec!["title".to_string()]),
    );
    assert_eq!(
        update.to_aql(),
        "FOR i IN @@collection FILTER ((i.title == @0_title)) UPDATE i WITH @0_patch IN @@collection RETURN NEW"
    );
    let remove = AQLQuery::new(
        0,
        AQLQueryMethod::Remove,
        get_filter_by_indices_attributes(&vec!["title".to_string()]),
    );
    assert_eq!(
        remove.to_aql(),
        "FOR i IN @@collection FILTER ((i.title == @0_title)) REMOVE i IN @@collection RETURN OLD"
    );
}

#[test]
fn unfiltered_query_renders_always_true_filter() {
    let q = AQLQuery::new(
        0,
        AQLQueryMethod::Get,
        get_filter_by_indices_attributes(&Vec::new()),
    );
    assert_eq!(q.to_aql(), "FOR i IN @@collection FILTER true RETURN i");
}

#[test]
fn big_integral_source_saturates_to_max() {
    match convert_number(&DocumentNumber::IntNum(5_000_000_000)) {
        Value::Int(v) => assert_eq!(v, i32::MAX),
        _ => panic!("expected an integer value"),
    }
    match convert_number(&DocumentNumber::UintNum(5_000_000_000)) {
        Value::Int(v) => assert_eq!(v, i32::MAX),
        _ => panic!("expected an integer value"),
    }
}

#[test]
fn small_integral_source_saturates_to_min() {
    match convert_number(&DocumentNumber::IntNum(-5_000_000_000)) {
        Value::Int(v) => assert_eq!(v, i32::MIN),
        _ => panic!("expected an integer value"),
    }
}

#[test]
fn negative_one_converts_unchanged() {
    match convert_number(&DocumentNumber::IntNum(-1)) {
        Value::Int(v) => assert_eq!(v, -1),
        _ => panic!("expected an integer value"),
    }
}

#[test]
fn floating_source_passes_through_unchanged() {
    let bits = f64::to_bits(2.5);
    match convert_value(&DocumentValue::Number(DocumentNumber::FloatNum(bits))) {
        Value::Float(b) => {
            assert_eq!(b, bits);
            assert_eq!(f64::from_bits(b), 2.5);
        }
        _ => panic!("expected a floating value"),
    }
}

#[test]
fn conversion_recurses_through_arrays_and_objects() {
    let doc = DocumentValue::Obj(vec![
        ("title".to_string(), DocumentValue::Str("Dune".to_string())),
        (
            "tags".to_string(),
            DocumentValue::Arr(vec![
                DocumentValue::Bool(true),
                DocumentValue::Null,
                DocumentValue::Number(DocumentNumber::IntNum(7)),
            ]),
        ),
    ]);
    match convert_value(&doc) {
        Value::Object(fields) => {
            assert_eq!(fields.len(), 2);
            assert_eq!(fields[0].0, "title");
            assert!(matches!(&fields[0].1, Value::Str(s) if s == "Dune"));
            assert_eq!(fields[1].0, "tags");
            match &fields[1].1 {
                Value::List(items) => {
                    assert_eq!(items.len(), 3);
                    assert!(matches!(items[0], Value::Bool(true)));
                    assert!(matches!(items[1], Value::Null));
                    assert!(matches!(items[2], Value::Int(7)));
                }
                _ => panic!("expected a list"),
            }
        }
        _ => panic!("expected an object"),
    }
}

#[test]
fn scalar_arguments_bind_and_structured_ones_skip() {
    let args = vec![
        ("a".to_string(), InputValue::Int(1)),
        ("b".to_string(), InputValue::Boolean(true)),
        ("c".to_string(), InputValue::List(Vec::new())),
        ("d".to_string(), InputValue::Str("x".to_string())),
        ("e".to_string(), InputValue::Null),
    ];
    let (binds, skipped) = bind_arguments(3, &args);
    assert_eq!(binds.len(), 2);
    assert_eq!(binds[0].0, "3_a");
    assert!(matches!(binds[0].1, BindValue::Int(1)));
    assert_eq!(binds[1].0, "3_d");
    assert!(matches!(&binds[1].1, BindValue::Str(s) if s == "x"));
    assert_eq!(skipped, vec!["c".to_string(), "e".to_string()]);
}

#[test]
fn not_found_error_names_the_model() {
    let e = NotFoundError::new("Book".to_string()).into_field_error();
    assert_eq!(e.message, "Book not found");
}

#[test]
fn database_error_passes_message_verbatim() {
    let e = DatabaseError::new("connection refused".to_string()).into_field_error();
    assert_eq!(e.message, "connection refused");
}

#[test]
fn argument_keys_carry_multi_digit_identifiers() {
    let q = AQLQuery::new(
        120,
        AQLQueryMethod::Get,
        AQLNode::LogicalFilter(AQLLogicalOperator::And, Vec::new()),
    );
    assert_eq!(q.get_argument_key("x"), "120_x");
    assert_eq!(q.get_argument_key("x_1"), "120_x_1");
}
