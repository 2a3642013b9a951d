use grm_adapters::derive::{
    derive_node_model, derive_rel_model, generate_property_helpers, is_grm_id_field, parse_rel_model_attrs,
    take_required_field, DataShape, DeriveInputModel, FieldInput, ModelField, PropertyHelpers, RelAttrArg,
    RelAttrInput, RelAttrValue,
};
use grm_adapters::propmap::{insert_prop, key_less};
use grm_adapters::python::{
    has_structured_query, NodeFindKeywords,
    configure_autocommit, parse_field_value_type, parse_python_direction, parse_python_order, parse_python_return,
    parse_service_mode, split_python_predicate_key, via_step, PyServiceWorkspaceFormat, PySessionFileFormat,
};
use grm_adapters::query::{OrderDirection, PredicateOp, TraversalDirection, TraversalReturn};
use grm_adapters::schema::RuntimeValueType;
use grm_adapters::service::ServiceWorkspaceMode;
use grm_adapters::text::{i64_text, parse_i64};
use grm_adapters::value::{JsonNumber, JsonValue};

fn field(name: &str, ty: &str) -> FieldInput {
    FieldInput { name: Some(name.to_string()), ty: ty.to_string(), grm_attrs: vec![] }
}

fn struct_input(ident: &str, fields: Vec<FieldInput>, attrs: Vec<RelAttrInput>) -> DeriveInputModel {
    DeriveInputModel { ident: ident.to_string(), generic_count: 0, data: DataShape::NamedStruct(fields), grm_attrs: attrs }
}

fn str_arg(key: &str, text: &str) -> RelAttrArg {
    RelAttrArg {
        key: key.to_string(),
        value: RelAttrValue::Str { text: text.to_string(), as_type: Ok(text.to_string()) },
    }
}

fn rel_attrs() -> Vec<RelAttrInput> {
    vec![RelAttrInput { args: vec![str_arg("from", "User"), str_arg("to", "Post"), str_arg("ty", "AUTHORED")], syntax_error: None }]
}

#[test]
fn predicate_keys_split_their_operator_suffix() {
    let (field, op) = split_python_predicate_key("age>=");
    assert_eq!(field, "age");
    assert_eq!(op, PredicateOp::Ge);
    let (field, op) = split_python_predicate_key("title~");
    assert_eq!(field, "title");
    assert_eq!(op, PredicateOp::Contains);
    let (field, op) = split_python_predicate_key("name");
    assert_eq!(field, "name");
    assert_eq!(op, PredicateOp::Eq);
}

#[test]
fn python_directions_returns_and_orders() {
    assert_eq!(parse_python_direction("outgoing").unwrap(), TraversalDirection::Out);
    assert_eq!(parse_python_direction("both").unwrap(), TraversalDirection::Both);
    assert_eq!(parse_python_direction("up").unwrap_err(), "via direction must be one of: out, in, both");
    assert_eq!(parse_python_return("rel").unwrap(), TraversalReturn::Edge);
    let order = parse_python_order(Some("age:asc,name:desc")).unwrap();
    assert_eq!(order.len(), 2);
    assert_eq!(order[0].field, "age");
    assert_eq!(order[0].direction, OrderDirection::Asc);
    assert_eq!(order[1].direction, OrderDirection::Desc);
    assert_eq!(parse_python_order(Some("age:asc,age:desc")).unwrap_err(), "duplicate order field 'age'");
    assert!(parse_python_order(None).unwrap().is_empty());
}

#[test]
fn python_session_keywords() {
    assert_eq!(parse_service_mode("create").unwrap(), ServiceWorkspaceMode::Create);
    assert_eq!(parse_service_mode("open").unwrap(), ServiceWorkspaceMode::Open);
    assert_eq!(parse_service_mode("reopen").unwrap_err(), "unsupported mode 'reopen', expected 'create' or 'open'");
    assert_eq!(PyServiceWorkspaceFormat::parse("bin").unwrap(), PyServiceWorkspaceFormat::Binary);
    assert_eq!(
        PyServiceWorkspaceFormat::parse("yaml").unwrap_err(),
        "unsupported workspace_format 'yaml', expected 'binary' or 'json'"
    );
    assert_eq!(PySessionFileFormat::parse("json").unwrap(), PySessionFileFormat::Json);
    assert_eq!(parse_field_value_type("float"), Some(RuntimeValueType::Float));
    assert_eq!(parse_field_value_type("date"), None);
    assert!(configure_autocommit(false, None, "json").unwrap().is_none());
}

#[test]
fn via_steps_follow_any_link_on_star() {
    let step = via_step("out", "*".to_string(), "Movie".to_string()).unwrap();
    assert_eq!(step.direction, TraversalDirection::Out);
    assert_eq!(step.edge_model, None);
    assert_eq!(step.end_model, "Movie");
    let step = via_step("in", "ACTEDIN".to_string(), "Person".to_string()).unwrap();
    assert_eq!(step.edge_model.as_deref(), Some("ACTEDIN"));
    assert!(via_step("sideways", "*".to_string(), "Movie".to_string()).is_err());
}

#[test]
fn id_fields_are_marked_or_named_id() {
    assert!(is_grm_id_field(&field("id", "i64")));
    let mut marked = field("user_id", "i64");
    marked.grm_attrs = vec![vec!["id".to_string()]];
    assert!(is_grm_id_field(&marked));
    assert!(!is_grm_id_field(&field("name", "String")));
    assert!(!is_grm_id_field(&FieldInput { name: None, ty: "i64".to_string(), grm_attrs: vec![] }));
}

#[test]
fn required_fields_are_taken_out() {
    let mut fields = vec![
        ModelField { name: "id".to_string(), ty: "i64".to_string() },
        ModelField { name: "name".to_string(), ty: "String".to_string() },
    ];
    let id = take_required_field(&mut fields, "id", "NodeModel derive").unwrap();
    assert_eq!(id.name, "id");
    assert_eq!(fields.len(), 1);
    assert_eq!(
        take_required_field(&mut fields, "id", "NodeModel derive").unwrap_err(),
        "NodeModel derive must contain a field named `id`"
    );
}

#[test]
fn node_model_plan_names_label_id_and_properties() {
    let input = struct_input("User", vec![field("id", "i64"), field("name", "String"), field("age", "i64")], vec![]);
    let plan = derive_node_model(&input).unwrap();
    assert_eq!(plan.label, "User");
    assert_eq!(plan.id_field.name, "id");
    assert_eq!(plan.properties.iter().map(|f| f.name.as_str()).collect::<Vec<_>>(), vec!["name", "age"]);
    assert_eq!(plan.helpers.iter().map(|h| h.method.as_str()).collect::<Vec<_>>(), vec!["name_prop", "age_prop"]);
}

#[test]
fn node_model_errors_come_in_order() {
    let mut generic = struct_input("Box", vec![field("id", "i64")], vec![]);
    generic.generic_count = 1;
    assert_eq!(derive_node_model(&generic).unwrap_err(), "NodeModel derive does not yet support generics");
    let tuple = DeriveInputModel { ident: "T".to_string(), generic_count: 0, data: DataShape::OtherStruct, grm_attrs: vec![] };
    assert_eq!(derive_node_model(&tuple).unwrap_err(), "NodeModel derive requires a struct with named fields");
    let en = DeriveInputModel { ident: "E".to_string(), generic_count: 0, data: DataShape::NotStruct, grm_attrs: vec![] };
    assert_eq!(derive_node_model(&en).unwrap_err(), "NodeModel can only be derived for structs");
    assert!(matches!(generate_property_helpers(&en), PropertyHelpers::CompileError(m) if m == "NodeModel can only be derived for structs"));
    let no_id = struct_input("User", vec![field("name", "String")], vec![]);
    assert_eq!(derive_node_model(&no_id).unwrap_err(), "NodeModel derive must contain a field named `id`");
}

#[test]
fn rel_model_plan_reads_its_attributes() {
    let input = struct_input(
        "Authored",
        vec![field("id", "i64"), field("from", "i64"), field("to", "i64"), field("year", "i64")],
        rel_attrs(),
    );
    let plan = derive_rel_model(&input).unwrap();
    assert_eq!((plan.from_type.as_str(), plan.to_type.as_str(), plan.rel_type.as_str()), ("User", "Post", "AUTHORED"));
    assert_eq!(plan.from_field.as_ref().map(|f| f.name.as_str()), Some("from"));
    assert_eq!(plan.to_field.as_ref().map(|f| f.name.as_str()), Some("to"));
    assert_eq!(plan.properties.len(), 1);
    assert_eq!(plan.properties[0].name, "year");
}

#[test]
fn rel_model_attributes_first_value_wins_and_errors_are_reported() {
    let first = RelAttrInput { args: vec![str_arg("from", "User")], syntax_error: None };
    let second = RelAttrInput { args: vec![str_arg("from", "Admin"), str_arg("to", "Post"), str_arg("ty", "AUTHORED")], syntax_error: None };
    let input = struct_input("Authored", vec![], vec![first, second]);
    assert_eq!(parse_rel_model_attrs(&input).unwrap(), ("User".to_string(), "Post".to_string(), "AUTHORED".to_string()));
    let unknown = struct_input("A", vec![], vec![RelAttrInput { args: vec![str_arg("kind", "X")], syntax_error: None }]);
    assert_eq!(parse_rel_model_attrs(&unknown).unwrap_err(), "Unknown RelModel attribute `kind`");
    let missing = struct_input("A", vec![], vec![RelAttrInput { args: vec![str_arg("from", "User")], syntax_error: None }]);
    assert_eq!(parse_rel_model_attrs(&missing).unwrap_err(), "RelModel requires #[grm(to = \"Type\")]");
    let broken = struct_input("A", vec![], vec![RelAttrInput { args: vec![], syntax_error: Some("expected `=`".to_string()) }]);
    assert_eq!(parse_rel_model_attrs(&broken).unwrap_err(), "expected `=`");
    let bad_type = struct_input(
        "A",
        vec![],
        vec![RelAttrInput {
            args: vec![RelAttrArg {
                key: "from".to_string(),
                value: RelAttrValue::Str { text: "1x".to_string(), as_type: Err("expected type".to_string()) },
            }],
            syntax_error: None,
        }],
    );
    assert_eq!(parse_rel_model_attrs(&bad_type).unwrap_err(), "expected type");
}

#[test]
fn rel_model_endpoint_fields_are_optional_but_id_is_required() {
    let input = struct_input("Authored", vec![field("id", "i64"), field("from", "i64")], rel_attrs());
    let plan = derive_rel_model(&input).unwrap();
    assert_eq!(plan.from_field.as_ref().map(|f| f.name.as_str()), Some("from"));
    assert!(plan.to_field.is_none());
    assert!(plan.properties.is_empty());
    let no_id = struct_input("Authored", vec![field("year", "u64")], rel_attrs());
    assert_eq!(derive_rel_model(&no_id).unwrap_err(), "RelModel derive must contain a field named `id`");
}

#[test]
fn property_lists_stay_in_key_order() {
    let mut props: Vec<(String, JsonValue)> = Vec::new();
    insert_prop(&mut props, "name".to_string(), JsonValue::String("Ada".to_string()));
    insert_prop(&mut props, "age".to_string(), JsonValue::Number(JsonNumber::PosInt(36)));
    insert_prop(&mut props, "zip".to_string(), JsonValue::Null);
    insert_prop(&mut props, "name".to_string(), JsonValue::String("Grace".to_string()));
    assert_eq!(props.iter().map(|(k, _)| k.as_str()).collect::<Vec<_>>(), vec!["age", "name", "zip"]);
    assert!(matches!(&props[1].1, JsonValue::String(t) if t == "Grace"));
    assert!(key_less("a", "b"));
    assert!(key_less("ab", "abc"));
    assert!(!key_less("abc", "ab"));
    assert!(!key_less("same", "same"));
    assert!(key_less("Z", "a"));
}

#[test]
fn integer_text_reads_back() {
    for i in [0i64, 7, -7, 2026, i64::MAX, i64::MIN] {
        let text = i64_text(i);
        assert_eq!(text, i.to_string());
        assert_eq!(parse_i64(&text.chars().collect::<Vec<_>>()), Some(i));
    }
    assert_eq!(parse_i64(&"+5".chars().collect::<Vec<_>>()), Some(5));
    assert_eq!(parse_i64(&"9223372036854775808".chars().collect::<Vec<_>>()), None);
    assert_eq!(parse_i64(&"-".chars().collect::<Vec<_>>()), None);
}

#[test]
fn any_structured_keyword_makes_a_structured_node_find() {
    let none = NodeFindKeywords {
        via: false,
        end_filters: false,
        edge_filters: false,
        return_mode: false,
        order: false,
        limit: false,
        offset: false,
    };
    assert!(!has_structured_query(&none));
    assert!(has_structured_query(&NodeFindKeywords { limit: true, ..none }));
    assert!(has_structured_query(&NodeFindKeywords { via: true, ..none }));
    assert!(has_structured_query(&NodeFindKeywords { offset: true, ..none }));
}

#[test]
fn rel_model_link_struct_without_endpoint_fields_derives() {
    let input = struct_input("Authored", vec![field("id", "AuthoredId"), field("year", "u64")], rel_attrs());
    let plan = derive_rel_model(&input).unwrap();
    assert_eq!(plan.rel_type, "AUTHORED");
    assert_eq!(plan.from_type, "User");
    assert_eq!(plan.to_type, "Post");
    assert_eq!(plan.id_field.ty, "AuthoredId");
    assert!(plan.from_field.is_none());
    assert!(plan.to_field.is_none());
    assert_eq!(plan.properties.iter().map(|f| f.name.as_str()).collect::<Vec<_>>(), vec!["year"]);
    assert!(plan.helpers.iter().any(|h| h.method == "year_prop" && h.field == "year"));
}
