use grm_adapters::idmap::{into_sorted_entries, keys_in_order};
use std::collections::BTreeMap;
use grm_adapters::cli::CliColors;
use grm_adapters::records::{StoredNode, StoredRel};
use grm_adapters::service_cli::ServiceEdgeModel;
use grm_adapters::service_commands::{plan_service_command, ServiceCommand, ServiceStep};
use grm_adapters::session::Bindings;
use grm_adapters::snapshot::{
    edge_endpoint_models, edge_query_records, explain_evidence, node_query_records, partial_reason,
    profile_evidence, query_evidence, snapshot_records,
};

fn node(id: i64, label: &str) -> StoredNode {
    StoredNode { id, labels: vec![label.to_string()], props: vec![] }
}

fn rel(id: i64, from: i64, to: i64) -> StoredRel {
    StoredRel { id, rel_type: "Authored".to_string(), from, to, props: vec![] }
}

fn ids(nodes: &[grm_adapters::gateway::FlightDeckNode]) -> Vec<String> {
    nodes.iter().map(|n| n.id.clone()).collect()
}

fn edge_ids(edges: &[grm_adapters::gateway::FlightDeckEdge]) -> Vec<String> {
    edges.iter().map(|e| e.id.clone()).collect()
}

#[test]
fn snapshot_orders_nodes_by_id_and_keeps_edges_between_them() {
    let node_lists = vec![vec![node(3, "Post"), node(1, "User")], vec![node(2, "Team")]];
    let edge_lists = vec![vec![rel(20, 1, 3), rel(11, 1, 99)], vec![rel(10, 2, 1)]];
    let r = snapshot_records(node_lists, edge_lists);
    assert_eq!(ids(&r.nodes), vec!["1", "2", "3"]);
    assert_eq!(r.nodes[0].label, "User #1");
    assert_eq!(edge_ids(&r.edges), vec!["10", "20"]);
    assert_eq!(r.edges[1].from, "1");
    assert_eq!(r.edges[1].to, "3");
    assert_eq!(r.omitted_edges, 1);
}

#[test]
fn snapshot_keeps_the_later_record_of_an_id() {
    let node_lists = vec![vec![node(1, "User")], vec![node(1, "Admin")]];
    let r = snapshot_records(node_lists, vec![]);
    assert_eq!(r.nodes.len(), 1);
    assert_eq!(r.nodes[0].model, "Admin");
    assert_eq!(r.omitted_edges, 0);
}

#[test]
fn snapshot_of_nothing_is_empty() {
    let r = snapshot_records(vec![], vec![vec![rel(1, 1, 2)]]);
    assert!(r.nodes.is_empty());
    assert!(r.edges.is_empty());
    assert_eq!(r.omitted_edges, 1);
}

#[test]
fn node_find_records_keep_node_order_and_count_outside_edges() {
    let nodes = vec![node(2, "Post"), node(1, "User")];
    let edges = vec![rel(10, 1, 2), rel(11, 1, 99), rel(12, 98, 2)];
    let r = node_query_records(nodes, edges);
    assert_eq!(ids(&r.nodes), vec!["2", "1"]);
    assert_eq!(edge_ids(&r.edges), vec!["10"]);
    assert_eq!(r.omitted_edges, 2);
}

#[test]
fn edge_endpoint_models_come_from_the_first_link_model_named() {
    let links = vec![
        ServiceEdgeModel {
            name: "Authored".to_string(),
            id_field_name: "id".to_string(),
            from_model: "User".to_string(),
            to_model: "Post".to_string(),
        },
        ServiceEdgeModel {
            name: "Authored".to_string(),
            id_field_name: "id".to_string(),
            from_model: "Team".to_string(),
            to_model: "Doc".to_string(),
        },
    ];
    assert_eq!(edge_endpoint_models(&links, "Authored"), Some(("User".to_string(), "Post".to_string())));
    assert_eq!(edge_endpoint_models(&links, "Follows"), None);
}

#[test]
fn edge_find_records_use_the_endpoints_looked_up() {
    let edges = vec![rel(10, 1, 2), rel(11, 1, 3)];
    let found = vec![(Some(node(1, "User")), Some(node(2, "Post"))), (None, None)];
    let r = edge_query_records(true, edges, found);
    assert_eq!(ids(&r.nodes), vec!["1", "2"]);
    assert_eq!(edge_ids(&r.edges), vec!["10"]);
    assert_eq!(r.omitted_edges, 1);
}

#[test]
fn edge_find_without_a_link_model_leaves_every_edge_out() {
    let r = edge_query_records(false, vec![rel(10, 1, 2), rel(11, 1, 3)], vec![]);
    assert!(r.nodes.is_empty());
    assert!(r.edges.is_empty());
    assert_eq!(r.omitted_edges, 2);
}

#[test]
fn partial_reason_is_given_only_when_edges_were_left_out() {
    assert_eq!(partial_reason(0), None);
    assert_eq!(partial_reason(3), Some("some edge endpoints were unavailable from the bounded typed query result"));
}

#[test]
fn evidence_names_its_source() {
    let q = query_evidence();
    assert_eq!(q.provenance, "service");
    assert_eq!(q.label, "service-backed typed query result");
    assert_eq!(q.plan_kind, None);
    let e = explain_evidence("scan".to_string(), vec!["NodeScan".to_string()], vec!["User.name".to_string()]);
    assert_eq!(e.label, "service/runtime explain evidence");
    assert_eq!(e.plan_kind.as_deref(), Some("scan"));
    assert_eq!(e.steps, vec!["NodeScan"]);
    assert_eq!(e.indexes, vec!["User.name"]);
    assert_eq!(e.row_count, None);
    let p = profile_evidence(None, 4, 120);
    assert_eq!(p.label, "service/runtime profile evidence");
    assert_eq!(p.plan_kind.as_deref(), Some(""));
    assert!(p.steps.is_empty());
    assert_eq!(p.row_count, Some(4));
    assert_eq!(p.elapsed_micros, Some(120));
}

#[test]
fn a_bound_name_stands_for_its_id_in_delete_and_update() {
    let mut bindings = Bindings::new();
    bindings.insert("alice".to_string(), 42);
    let colors = CliColors::for_terminal(false);
    let del = ServiceCommand::NodeDelete { model_name: "User".to_string(), id: "alice".to_string() };
    match plan_service_command(del, &bindings, false, "node.delete User alice", &colors) {
        Ok(ServiceStep::DeleteNode { model, id }) => {
            assert_eq!(model, "User");
            assert_eq!(id, 42);
        }
        other => panic!("unexpected plan {other:?}"),
    }
    let upd = ServiceCommand::EdgeUpdate { model_name: "Authored".to_string(), id: "alice".to_string(), assignments: vec![] };
    match plan_service_command(upd, &bindings, false, "edge.update Authored alice", &colors) {
        Ok(ServiceStep::UpdateEdge { id, .. }) => assert_eq!(id, 42),
        other => panic!("unexpected plan {other:?}"),
    }
    let digits = ServiceCommand::EdgeDelete { model_name: "Authored".to_string(), id: "7".to_string() };
    match plan_service_command(digits, &bindings, false, "edge.delete Authored 7", &colors) {
        Ok(ServiceStep::DeleteEdge { id, .. }) => assert_eq!(id, 7),
        other => panic!("unexpected plan {other:?}"),
    }
}

#[test]
fn map_entries_come_back_in_increasing_order_of_id() {
    let mut m: BTreeMap<i64, &str> = BTreeMap::new();
    m.insert(5, "five");
    m.insert(-2, "minus two");
    m.insert(9, "nine");
    m.insert(5, "FIVE");
    assert_eq!(keys_in_order(&m), vec![-2, 5, 9]);
    assert_eq!(into_sorted_entries(m), vec![(-2, "minus two"), (5, "FIVE"), (9, "nine")]);
}
