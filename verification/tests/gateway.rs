use std::collections::BTreeMap;

use grm_adapters::gateway::{
    close_after_load, configured_flight_deck_allowed_origins, flight_deck_edge, flight_deck_node,
    flight_deck_security_status, include_edges_with_known_endpoints, node_label, origin_is_allowed,
    parse_flight_deck_allowed_origins, read_only_precheck, redacted_gateway_body, redacted_gateway_log_message,
    redacted_gateway_reply,
    reject_edge_return, bounded_limit, bounded_offset, request_limit, FlightDeckPrincipal, LoadKind,
    SecurityIdentityStatus, SecurityProfile,
};
use grm_adapters::deck_query::{plan_read_only_query, FindBounds, ReadOnlyCommand};
use grm_adapters::query::{QueryTerm, TraversalReturn};
use grm_adapters::records::{StoredNode, StoredRel};
use grm_adapters::value::JsonValue;

fn node(id: i64, label: &str) -> StoredNode {
    StoredNode { id, labels: vec![label.to_string()], props: vec![] }
}

#[test]
fn node_label_prefers_a_semantic_lookup_field() {
    let node = StoredNode {
        id: 7,
        labels: vec!["Decision".to_string()],
        props: vec![("title".to_string(), JsonValue::String("Use typed operations".to_string()))],
    };
    assert_eq!(node_label(&node), "Decision: Use typed operations");
}

#[test]
fn node_label_falls_back_to_model_and_id() {
    let node = StoredNode { id: 9, labels: vec!["Decision".to_string()], props: vec![] };
    assert_eq!(node_label(&node), "Decision #9");
}

#[test]
fn flight_deck_ids_are_serialized_as_strings() {
    let node = flight_deck_node(StoredNode { id: i64::MAX, labels: vec!["LargeId".to_string()], props: vec![] });
    let edge = flight_deck_edge(StoredRel {
        id: i64::MAX - 1,
        rel_type: "LINKS".to_string(),
        from: i64::MAX - 2,
        to: i64::MAX - 3,
        props: vec![],
    });
    assert_eq!(node.id, i64::MAX.to_string());
    assert_eq!(edge.id, (i64::MAX - 1).to_string());
    assert_eq!(edge.from, (i64::MAX - 2).to_string());
    assert_eq!(edge.to, (i64::MAX - 3).to_string());
}

#[test]
fn omitted_edges_count_edges_outside_the_bounded_node_set() {
    let nodes = BTreeMap::from([(1, node(1, "User")), (2, node(2, "Post"))]);
    let edges = vec![
        StoredRel { id: 10, rel_type: "Authored".to_string(), from: 1, to: 2, props: vec![] },
        StoredRel { id: 11, rel_type: "Authored".to_string(), from: 1, to: 99, props: vec![] },
    ];
    let (included, omitted) = include_edges_with_known_endpoints(&nodes, edges);
    assert_eq!(included.keys().copied().collect::<Vec<_>>(), vec![10]);
    assert_eq!(omitted, 1);
}

#[test]
fn close_is_attempted_after_snapshot_error_without_hiding_primary_error() {
    let error = close_after_load::<()>(
        Err("service response is missing schema".to_string()),
        Err("unexpected close response".to_string()),
    )
    .expect_err("snapshot error should be returned");
    let message = error.message(LoadKind::Snapshot);
    assert!(message.contains("schema"));
    assert!(message.contains("additionally failed to close workspace handle"));
    assert!(message.contains("close"));
}

#[test]
fn close_error_after_success_is_reported() {
    let error = close_after_load(Ok("demo".to_string()), Err("unexpected close response".to_string()))
        .expect_err("close error should be returned");
    assert!(error.message(LoadKind::Snapshot).contains("failed to close workspace handle"));
}

#[test]
fn successful_load_and_close_return_the_result() {
    assert_eq!(close_after_load(Ok(3), Ok(())).unwrap(), 3);
    let error = close_after_load::<()>(Err("query failed".to_string()), Ok(())).unwrap_err();
    assert_eq!(error.message(LoadKind::Query), "query failed");
    let both = close_after_load::<()>(Err("query failed".to_string()), Err("gone".to_string())).unwrap_err();
    assert_eq!(
        both.message(LoadKind::Query),
        "query failed; additionally failed to close workspace handle after query error: gone"
    );
}

#[test]
fn security_status_serializes_safe_profile_metadata() {
    let status = flight_deck_security_status(
        Some(SecurityProfile::Secured),
        Some(SecurityIdentityStatus::AuthenticatedPrincipal),
        Some(FlightDeckPrincipal { issuer: "local-admin".to_string(), subject: "admin-1".to_string() }),
        "mtls-certificate".to_string(),
        "secured-local-policy-v1".to_string(),
    );
    assert_eq!(status.security_profile, "secured");
    assert_eq!(status.identity_status, "authenticated_principal");
    assert_eq!(
        status.principal,
        Some(FlightDeckPrincipal { issuer: "local-admin".to_string(), subject: "admin-1".to_string() })
    );
    assert_eq!(status.authentication_method.as_deref(), Some("mtls-certificate"));
    assert_eq!(status.policy_version.as_deref(), Some("secured-local-policy-v1"));
}

#[test]
fn unknown_security_codes_and_empty_texts_are_reported_as_such() {
    let status = flight_deck_security_status(None, None, None, String::new(), String::new());
    assert_eq!(status.security_profile, "unknown");
    assert_eq!(status.identity_status, "unknown");
    assert_eq!(status.authentication_method, None);
    assert_eq!(status.policy_version, None);
}

#[test]
fn public_gateway_errors_do_not_include_local_tls_paths() {
    let path = "/home/laurie/.grm/secured-local/admin-1.key";
    let error = format!("failed to read TLS file '{path}': missing test file (GRM_SERVICE_TLS_CLIENT_KEY)");
    let (status, body) = redacted_gateway_reply("security status", &error);
    assert_eq!(axum::http::StatusCode::from_u16(status).unwrap(), axum::http::StatusCode::BAD_GATEWAY);
    assert_eq!(body, redacted_gateway_body("security status"));
    let log = redacted_gateway_log_message("security status");
    assert_eq!(body, "failed to load security status from GRM service");
    assert!(!body.contains("/home/laurie/.grm/secured-local/admin-1.key"));
    assert!(!body.contains("admin-1.key"));
    assert!(!body.contains("GRM_SERVICE_TLS_CLIENT_KEY"));
    assert!(!log.contains("/home/laurie/.grm/secured-local/admin-1.key"));
    assert!(!log.contains("admin-1.key"));
    assert!(!log.contains("GRM_SERVICE_TLS_CLIENT_KEY"));
}

#[test]
fn default_cors_origins_allow_local_flight_deck_ui_only() {
    let origins = configured_flight_deck_allowed_origins(None).expect("default origins should parse");
    assert!(origin_is_allowed("http://127.0.0.1:8081", &origins));
    assert!(origin_is_allowed("http://127.0.0.1:3001", &origins));
    assert!(!origin_is_allowed("https://attacker.example", &origins));
}

#[test]
fn configured_cors_origins_do_not_grant_unlisted_origins() {
    let origins = parse_flight_deck_allowed_origins("http://127.0.0.1:8081,http://localhost:8081")
        .expect("configured origins should parse");
    assert!(origin_is_allowed("http://localhost:8081", &origins));
    assert!(!origin_is_allowed("http://evil.localhost:8081", &origins));
}

#[test]
fn cors_origin_configuration_rejects_empty_or_invalid_values() {
    let empty_error = parse_flight_deck_allowed_origins(" , ").expect_err("empty origin configuration should be rejected");
    let invalid_error =
        parse_flight_deck_allowed_origins("http://127.0.0.1:8081\nbad").expect_err("invalid origin should be rejected");
    assert!(empty_error.contains("at least one"));
    assert!(invalid_error.contains("invalid allowed flight-deck origin"));
}

#[test]
fn configured_origins_are_trimmed_and_empty_pieces_skipped() {
    let origins = configured_flight_deck_allowed_origins(Some(" http://a.example , ,http://b.example ".to_string())).unwrap();
    assert_eq!(origins, vec!["http://a.example".to_string(), "http://b.example".to_string()]);
}

#[test]
fn rejects_write_and_cypher_like_commands_before_service_execution() {
    let write_error = read_only_precheck("node.delete WorkSlice 573").expect_err("write command should be rejected");
    let cypher_error = read_only_precheck("MATCH (n) RETURN n LIMIT 5").expect_err("Cypher-like command should be rejected");
    assert!(write_error.contains("write"));
    assert!(cypher_error.contains("Cypher"));
}

#[test]
fn read_only_commands_pass_the_precheck_trimmed() {
    assert_eq!(read_only_precheck("  node.find WorkSlice status=active  ").unwrap(), "node.find WorkSlice status=active");
    assert_eq!(read_only_precheck("   ").unwrap_err(), "enter a read-only GRM command");
}

#[test]
fn rejects_deferred_node_find_edge_return() {
    let command =
        read_only_precheck("node.find WorkSlice via=out:HAS_WORK_SLICE:AcceptanceCriteria return=edge").unwrap();
    let parsed = ReadOnlyCommand::NodeFind(FindBounds {
        model: "WorkSlice".to_string(),
        terms: vec![
            QueryTerm { key: "via".to_string(), value: "out:HAS_WORK_SLICE:AcceptanceCriteria".to_string() },
            QueryTerm { key: "return".to_string(), value: "edge".to_string() },
        ],
        limit: None,
        offset: None,
        return_mode: Some(TraversalReturn::Edge),
    });
    let error = plan_read_only_query(command, parsed, 50).expect_err("return=edge should be deferred");
    assert!(error.contains("return=edge"));
    let error = reject_edge_return(Some(TraversalReturn::Edge)).expect_err("return=edge should be deferred");
    assert!(error.contains("return=edge"));
    assert!(reject_edge_return(Some(TraversalReturn::End)).is_ok());
    assert!(reject_edge_return(None).is_ok());
}

#[test]
fn limits_are_clamped_and_offsets_capped() {
    assert_eq!(bounded_limit(Some(25), 50), 25);
    assert_eq!(bounded_limit(None, 50), 50);
    assert_eq!(bounded_limit(Some(0), 50), 1);
    assert_eq!(bounded_limit(Some(5000), 50), 1000);
    assert_eq!(request_limit(None), 200);
    assert_eq!(bounded_offset(Some(250_000)), Some(100_000));
    assert_eq!(bounded_offset(Some(7)), Some(7));
    assert_eq!(bounded_offset(None), None);
}
