use grm_adapters::deck_query::{
    flight_deck_schema, plan_read_only_query, query_kind_name, query_partial_reason, FindBounds, FlightDeckQueryKind, ReadOnlyCommand, SchemaEdgeModel,
    SchemaNodeModel,
};
use grm_adapters::gateway::QueryShape;
use grm_adapters::query::{QueryTerm, TraversalReturn};
use grm_adapters::schema::{RuntimeField, RuntimeValueType};

fn bounds(limit: Option<usize>, offset: Option<usize>, return_mode: Option<TraversalReturn>) -> FindBounds {
    FindBounds {
        model: "User".to_string(),
        terms: vec![QueryTerm { key: "status".to_string(), value: "active".to_string() }],
        limit,
        offset,
        return_mode,
    }
}

#[test]
fn node_find_gets_the_default_limit_and_keeps_its_offset() {
    let q = plan_read_only_query("node.find User".to_string(), ReadOnlyCommand::NodeFind(bounds(None, Some(5), None)), 50)
        .unwrap();
    assert_eq!(q.command, "node.find User");
    assert_eq!(q.kind, FlightDeckQueryKind::Query);
    assert_eq!(q.shape, QueryShape::NodeFind);
    assert_eq!(q.request.model, "User");
    assert_eq!(q.request.terms.len(), 1);
    assert_eq!(q.request.terms[0].key, "status");
    assert_eq!(q.request.terms[0].value, "active");
    assert_eq!(q.request.limit, Some(50));
    assert_eq!(q.request.offset, Some(5));
    assert_eq!(q.model_limit(), 50);
}

#[test]
fn limits_and_offsets_are_kept_within_bounds() {
    let big = plan_read_only_query(
        "edge.find Authored limit=5000 offset=999999".to_string(),
        ReadOnlyCommand::EdgeFind(bounds(Some(5000), Some(999_999), None)),
        200,
    )
    .unwrap();
    assert_eq!(big.shape, QueryShape::EdgeFind);
    assert_eq!(big.request.limit, Some(1000));
    assert_eq!(big.request.offset, Some(100_000));
    let zero = plan_read_only_query(
        "node.find User limit=0".to_string(),
        ReadOnlyCommand::NodeFind(bounds(Some(0), None, None)),
        200,
    )
    .unwrap();
    assert_eq!(zero.request.limit, Some(1));
    assert_eq!(zero.request.offset, None);
}

#[test]
fn explain_and_profile_keep_their_kind() {
    let e = plan_read_only_query("session.explain edge.find Authored".to_string(), ReadOnlyCommand::ExplainEdgeFind(bounds(None, None, None)), 10)
        .unwrap();
    assert_eq!(e.kind, FlightDeckQueryKind::Explain);
    assert_eq!(e.shape, QueryShape::EdgeFind);
    let p = plan_read_only_query("session.profile node.find User".to_string(), ReadOnlyCommand::ProfileNodeFind(bounds(None, None, Some(TraversalReturn::End))), 10)
        .unwrap();
    assert_eq!(p.kind, FlightDeckQueryKind::Profile);
    assert_eq!(p.shape, QueryShape::NodeFind);
    assert_eq!(p.request.return_mode, Some(TraversalReturn::End));
}

#[test]
fn node_find_returning_edges_and_other_commands_are_refused() {
    let err = plan_read_only_query(
        "node.find User return=edge".to_string(),
        ReadOnlyCommand::ExplainNodeFind(bounds(None, None, Some(TraversalReturn::Edge))),
        200,
    )
    .unwrap_err();
    assert_eq!(err, "node.find return=edge is intentionally deferred in this gateway slice");
    let edge_ok = plan_read_only_query(
        "edge.find Authored".to_string(),
        ReadOnlyCommand::EdgeFind(bounds(None, None, Some(TraversalReturn::Edge))),
        200,
    );
    assert!(edge_ok.is_ok());
    let other = plan_read_only_query("model.list".to_string(), ReadOnlyCommand::Other, 200).unwrap_err();
    assert_eq!(
        other,
        "unsupported read-only command; use node.find, edge.find, session.explain, or session.profile"
    );
}

#[test]
fn schema_view_lists_models_fields_and_arrows_in_order() {
    let nodes = vec![SchemaNodeModel {
        name: "User".to_string(),
        id_field_name: "user_id".to_string(),
        fields: vec![
            RuntimeField { name: "name".to_string(), value_type: RuntimeValueType::String, required: true },
            RuntimeField { name: "score".to_string(), value_type: RuntimeValueType::Float, required: false },
        ],
    }];
    let edges = vec![SchemaEdgeModel {
        name: "Authored".to_string(),
        from_model: "User".to_string(),
        to_model: "Post".to_string(),
        id_field_name: "authored_id".to_string(),
        fields: vec![RuntimeField { name: "year".to_string(), value_type: RuntimeValueType::Int, required: true }],
    }];
    let s = flight_deck_schema(&nodes, &edges);
    assert_eq!(s.node_models, vec!["User"]);
    assert_eq!(s.edge_models, vec!["Authored"]);
    assert_eq!(s.schema_node_models[0].id_field, "user_id");
    assert_eq!(s.schema_node_models[0].fields[1].name, "score");
    assert_eq!(s.schema_node_models[0].fields[1].value_type, "float");
    assert!(!s.schema_node_models[0].fields[1].required);
    assert_eq!(s.schema_edge_models[0].id_field, "authored_id");
    assert_eq!(s.schema_edge_models[0].fields[0].value_type, "int");
    assert_eq!(s.schema_edges[0].model, "Authored");
    assert_eq!(s.schema_edges[0].from_model, "User");
    assert_eq!(s.schema_edges[0].to_model, "Post");
}

#[test]
fn kinds_are_named_in_snake_case_and_only_edge_finds_report_partial_results() {
    assert_eq!(query_kind_name(FlightDeckQueryKind::Query), "query");
    assert_eq!(query_kind_name(FlightDeckQueryKind::Explain), "explain");
    assert_eq!(query_kind_name(FlightDeckQueryKind::Profile), "profile");
    assert_eq!(query_partial_reason(QueryShape::NodeFind, 4), None);
    assert_eq!(query_partial_reason(QueryShape::EdgeFind, 0), None);
    assert_eq!(
        query_partial_reason(QueryShape::EdgeFind, 2),
        Some("some edge endpoints were unavailable from the bounded typed query result")
    );
}
