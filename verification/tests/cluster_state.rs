//! The cluster manager's state machine.

use chappy::cluster::{
    ClusterMap, IntervalSummary, Message, NodeSummary, TracedClusterState,
};

#[test]
fn test_state_updates() {
    let mut state = TracedClusterState::new(2);
    let instant_1: u64 = 1000;
    let instant_2: u64 = 2000;
    let instant_3: u64 = 3000;
    let instant_4: u64 = 4000;

    let err = state.update(Message::BindNodeStart {
        time: instant_1,
        cluster_size: 2,
        virt_ip: String::from("192.68.0.1"),
    });
    assert!(!err);
    assert!(state.state.has_node(&String::from("192.68.0.1")));
    assert!(state.span_open);
    assert!(!state.finished());
    assert_eq!(
        state.state.interval_summary(),
        IntervalSummary::Observed {
            first_node_start: instant_1,
            last_node_start: instant_1,
            first_node_end: None,
            last_node_end: None,
        }
    );
    assert_eq!(
        state.state.node_summary(),
        NodeSummary { expected_size: 2, nodes: 1, finished_nodes: 0 }
    );

    let err = state.update(Message::BindNodeStart {
        time: instant_2,
        cluster_size: 2,
        virt_ip: String::from("192.68.0.2"),
    });
    assert!(!err);
    assert!(state.state.has_node(&String::from("192.68.0.2")));
    assert!(state.span_open);
    assert!(!state.finished());
    assert_eq!(
        state.state.interval_summary(),
        IntervalSummary::Observed {
            first_node_start: instant_1,
            last_node_start: instant_2,
            first_node_end: None,
            last_node_end: None,
        }
    );
    assert_eq!(
        state.state.node_summary(),
        NodeSummary { expected_size: 2, nodes: 2, finished_nodes: 0 }
    );

    let err = state.update(Message::BindNodeEnd {
        time: instant_3,
        virt_ip: String::from("192.68.0.2"),
    });
    assert!(!err);
    assert!(state.state.has_node(&String::from("192.68.0.2")));
    assert!(state.span_open);
    assert!(!state.finished());
    assert_eq!(
        state.state.interval_summary(),
        IntervalSummary::Observed {
            first_node_start: instant_1,
            last_node_start: instant_2,
            first_node_end: Some(instant_3),
            last_node_end: Some(instant_3),
        }
    );
    assert_eq!(
        state.state.node_summary(),
        NodeSummary { expected_size: 2, nodes: 2, finished_nodes: 1 }
    );

    let err = state.update(Message::BindNodeEnd {
        time: instant_4,
        virt_ip: String::from("192.68.0.1"),
    });
    assert!(!err);
    assert!(state.state.has_node(&String::from("192.68.0.1")));
    // the last expected node ended: the cluster span closes
    assert!(!state.span_open);
    assert!(state.finished());
    assert_eq!(
        state.state.interval_summary(),
        IntervalSummary::Observed {
            first_node_start: instant_1,
            last_node_start: instant_2,
            first_node_end: Some(instant_3),
            last_node_end: Some(instant_4),
        }
    );
    assert_eq!(
        state.state.node_summary(),
        NodeSummary { expected_size: 2, nodes: 2, finished_nodes: 2 }
    );
}

#[test]
fn double_bind_is_an_error_and_ignored() {
    let mut state = TracedClusterState::new(2);
    state.update(Message::BindNodeStart {
        time: 10,
        cluster_size: 2,
        virt_ip: String::from("192.68.0.1"),
    });
    let err = state.update(Message::BindNodeStart {
        time: 99,
        cluster_size: 2,
        virt_ip: String::from("192.68.0.1"),
    });
    assert!(err);
    // the first start stands
    assert_eq!(
        state.state.interval_summary(),
        IntervalSummary::Observed {
            first_node_start: 10,
            last_node_start: 10,
            first_node_end: None,
            last_node_end: None,
        }
    );
}

#[test]
fn size_mismatch_is_logged() {
    let mut state = TracedClusterState::new(2);
    let err = state.update(Message::BindNodeStart {
        time: 10,
        cluster_size: 3,
        virt_ip: String::from("192.68.0.1"),
    });
    assert!(err);
    // the node is still recorded
    assert!(state.state.has_node(&String::from("192.68.0.1")));
}

#[test]
fn log_only_events_leave_state_alone() {
    let mut state = TracedClusterState::new(1);
    state.update(Message::BindNodeStart {
        time: 10,
        cluster_size: 1,
        virt_ip: String::from("192.68.0.1"),
    });
    let err = state.update(Message::BindServerStart { virt_ip: String::from("192.68.0.1") });
    assert!(!err);
    let err = state.update(Message::BindServerResponse { virt_ip: String::from("192.68.0.1") });
    assert!(!err);
    let err = state.update(Message::BindClientStart {
        src_virt_ip: String::from("192.68.0.1"),
        tgt_virt_ip: String::from("192.68.0.2"),
    });
    assert!(!err);
    let err = state.update(Message::BindClientEnd {
        src_virt_ip: String::from("192.68.0.1"),
        tgt_virt_ip: String::from("192.68.0.2"),
    });
    assert!(!err);
    // an event for an unknown ip is an error
    let err = state.update(Message::BindServerStart { virt_ip: String::from("192.68.0.9") });
    assert!(err);
    assert_eq!(
        state.state.node_summary(),
        NodeSummary { expected_size: 1, nodes: 1, finished_nodes: 0 }
    );
}

#[test]
fn empty_cluster_has_empty_interval() {
    let state = TracedClusterState::new(2);
    assert_eq!(state.state.interval_summary(), IntervalSummary::Empty);
}

#[test]
fn test_manager() {
    let instant_1: u64 = 5000;
    let instant_2: u64 = 6000;
    let mut clusters = ClusterMap::new();
    let cluster_id = String::from("cluster_id_1");

    let dropped = clusters.forward(
        &cluster_id,
        Message::BindNodeStart {
            cluster_size: 2,
            time: instant_1,
            virt_ip: String::from("192.168.0.1"),
        },
    );
    assert!(!dropped);
    let dropped = clusters.forward(
        &cluster_id,
        Message::BindNodeStart {
            cluster_size: 2,
            time: instant_1,
            virt_ip: String::from("192.168.0.2"),
        },
    );
    assert!(!dropped);
    clusters.forward(
        &cluster_id,
        Message::BindNodeEnd { time: instant_2, virt_ip: String::from("192.168.0.1") },
    );
    clusters.forward(
        &cluster_id,
        Message::BindNodeEnd { time: instant_2, virt_ip: String::from("192.168.0.2") },
    );

    let summary = clusters.get_summary(&cluster_id).unwrap();
    assert_eq!(
        summary.node,
        NodeSummary { expected_size: 2, nodes: 2, finished_nodes: 2 }
    );
    assert_eq!(
        summary.interval,
        IntervalSummary::Observed {
            first_node_start: instant_1,
            last_node_start: instant_1,
            first_node_end: Some(instant_2),
            last_node_end: Some(instant_2),
        }
    );
}

#[test]
fn message_for_unknown_cluster_is_dropped() {
    let mut clusters = ClusterMap::new();
    let dropped = clusters.forward(
        &String::from("nobody"),
        Message::BindNodeEnd { time: 1, virt_ip: String::from("192.168.0.1") },
    );
    assert!(dropped);
    assert!(clusters.get_summary(&String::from("nobody")).is_none());
}

#[test]
fn finished_cluster_is_replaced_on_rebind() {
    let mut clusters = ClusterMap::new();
    let cluster_id = String::from("c");
    clusters.forward(
        &cluster_id,
        Message::BindNodeStart { cluster_size: 1, time: 1, virt_ip: String::from("10.0.0.1") },
    );
    clusters.forward(
        &cluster_id,
        Message::BindNodeEnd { time: 2, virt_ip: String::from("10.0.0.1") },
    );
    let summary = clusters.get_summary(&cluster_id).unwrap();
    assert_eq!(summary.node.finished_nodes, 1);
    // the same cluster id comes back to life: a fresh state
    clusters.forward(
        &cluster_id,
        Message::BindNodeStart { cluster_size: 1, time: 9, virt_ip: String::from("10.0.0.5") },
    );
    let summary = clusters.get_summary(&cluster_id).unwrap();
    assert_eq!(
        summary.node,
        NodeSummary { expected_size: 1, nodes: 1, finished_nodes: 0 }
    );
    assert_eq!(
        summary.interval,
        IntervalSummary::Observed {
            first_node_start: 9,
            last_node_start: 9,
            first_node_end: None,
            last_node_end: None,
        }
    );
}
