use generic_subgraph_generator::batch::{
    handle_event, identities_to_record, should_acknowledge, Completion,
};
use generic_subgraph_generator::delivery::{assign_lanes, CompletionPolicy, ConsumePolicy, Reconciler};
use generic_subgraph_generator::encode::encode_graph;
use generic_subgraph_generator::event::{
    FileCreate, FileDelete, FileRead, FileWrite, GenericEvent, ProcessInboundConnectionLog,
    ProcessOutboundConnectionLog, ProcessPortBindLog, ProcessStart, ProcessStop,
};
use generic_subgraph_generator::fragment::{
    handle_inbound_traffic, handle_log, handle_outbound_traffic, handle_process_start,
};
use generic_subgraph_generator::graph::{Graph, Node, NodeKey, NodeState};
use generic_subgraph_generator::key::object_key;
use generic_subgraph_generator::payload::{DecodeError, RawEvent, RawField, RawValue};
use generic_subgraph_generator::serialize::{merge_completed, GeneratedSubgraphs, SubgraphSerializer};

fn field(name: &str, value: RawValue) -> RawField {
    RawField { name: name.to_string(), value }
}

fn s(v: &str) -> RawValue {
    RawValue::Str(v.to_string())
}

fn start_payload(exe: Option<&str>) -> RawEvent {
    let mut fields = vec![
        field("process_id", RawValue::UInt(100)),
        field("parent_process_id", RawValue::UInt(1)),
        field("name", s("bash")),
        field("hostname", s("h1")),
        field("arguments", s("")),
        field("timestamp", RawValue::UInt(1000)),
        field("eventname", s("PROCESS_START")),
    ];
    if let Some(e) = exe {
        fields.push(field("exe", s(e)));
    }
    RawEvent { fields }
}

fn start_event(exe: Option<&str>) -> ProcessStart {
    ProcessStart {
        process_id: 100,
        parent_process_id: 1,
        name: "bash".to_string(),
        hostname: "h1".to_string(),
        arguments: String::new(),
        timestamp: 1000,
        exe: exe.map(|e| e.to_string()),
        eventname: "PROCESS_START".to_string(),
    }
}

fn outbound_event() -> ProcessOutboundConnectionLog {
    ProcessOutboundConnectionLog {
        pid: 100,
        protocol: "tcp".to_string(),
        src_port: 5000,
        dst_port: 443,
        src_hostname: "h1".to_string(),
        src_ip_addr: "10.0.0.1".to_string(),
        dst_ip_addr: "1.1.1.1".to_string(),
        timestamp: 2000,
        eventname: "OUTBOUND_TCP".to_string(),
    }
}

fn count_label(g: &Graph, label: &str) -> usize {
    g.edges.iter().filter(|e| e.label == label).count()
}

fn find<'a>(g: &'a Graph, key: &NodeKey) -> Option<&'a Node> {
    g.nodes.iter().find(|n| n.key.same_as(key))
}

#[test]
fn process_start_with_exe_gives_four_nodes_and_four_edges() {
    let g = handle_process_start(start_event(Some("/bin/bash")));
    assert_eq!(g.nodes.len(), 4);
    assert_eq!(g.edges.len(), 4);
    assert_eq!(count_label(&g, "asset_processes"), 2);
    assert_eq!(count_label(&g, "children"), 1);
    assert_eq!(count_label(&g, "bin_file"), 1);
    assert!(find(&g, &NodeKey::Asset { hostname: "h1".to_string() }).is_some());
    let parent = find(&g, &NodeKey::Process { hostname: "h1".to_string(), process_id: 1 }).unwrap();
    assert_eq!(parent.state, NodeState::Existing);
    assert_eq!(parent.name, None);
    let child = find(&g, &NodeKey::Process { hostname: "h1".to_string(), process_id: 100 }).unwrap();
    assert_eq!(child.state, NodeState::Created);
    assert_eq!(child.name.as_deref(), Some("bash"));
    assert_eq!(child.created, 1000);
    let file = find(&g, &NodeKey::File { hostname: "h1".to_string(), path: "/bin/bash".to_string() }).unwrap();
    assert_eq!(file.state, NodeState::Existing);
    assert_eq!(g.timestamp, 1000);
}

#[test]
fn process_start_without_exe_gives_three_nodes_and_three_edges() {
    let g = handle_process_start(start_event(None));
    assert_eq!(g.nodes.len(), 3);
    assert_eq!(g.edges.len(), 3);
    assert_eq!(count_label(&g, "bin_file"), 0);
    assert!(g.nodes.iter().all(|n| !matches!(n.key, NodeKey::File { .. })));
}

#[test]
fn process_start_with_equal_ids_folds_parent_and_child() {
    let mut e = start_event(None);
    e.parent_process_id = 100;
    let g = handle_process_start(e);
    assert_eq!(g.nodes.len(), 2);
    let p = find(&g, &NodeKey::Process { hostname: "h1".to_string(), process_id: 100 }).unwrap();
    assert_eq!(p.state, NodeState::Created);
    assert_eq!(p.last_seen, 1000);
}

#[test]
fn outbound_then_process_start_unify_asset_and_process() {
    let mut g = handle_outbound_traffic(outbound_event());
    assert_eq!(g.nodes.len(), 8);
    assert_eq!(g.edges.len(), 7);
    let start = handle_process_start(start_event(None));
    g.merge(&start);
    let assets = g.nodes.iter().filter(|n| matches!(n.key, NodeKey::Asset { .. })).count();
    assert_eq!(assets, 1);
    let procs_100 = g
        .nodes
        .iter()
        .filter(|n| n.key.same_as(&NodeKey::Process { hostname: "h1".to_string(), process_id: 100 }))
        .count();
    assert_eq!(procs_100, 1);
    let p = find(&g, &NodeKey::Process { hostname: "h1".to_string(), process_id: 100 }).unwrap();
    assert_eq!(p.state, NodeState::Created);
    assert_eq!(p.name.as_deref(), Some("bash"));
    assert_eq!(p.last_seen, 2000);
    assert_eq!(p.created, 1000);
    assert_eq!(g.timestamp, 1000);
    assert_eq!(g.nodes.len(), 8 + 1);
}

#[test]
fn merge_twice_changes_nothing_and_order_keeps_sets() {
    let a = handle_outbound_traffic(outbound_event());
    let b = handle_process_start(start_event(Some("/bin/bash")));
    let mut ab = a.clone();
    ab.merge(&b);
    let (n1, e1) = (ab.nodes.len(), ab.edges.len());
    ab.merge(&b);
    assert_eq!((ab.nodes.len(), ab.edges.len()), (n1, e1));
    let mut ba = b.clone();
    ba.merge(&a);
    assert_eq!((ba.nodes.len(), ba.edges.len()), (n1, e1));
    for n in &ab.nodes {
        assert!(find(&ba, &n.key).is_some());
    }
    for e in &ab.edges {
        assert!(ba.edges.iter().any(|f| f.same_as(e)));
    }
}

#[test]
fn terminated_state_wins_over_existing() {
    let stop = ProcessStop {
        process_id: 1,
        name: "init".to_string(),
        hostname: "h1".to_string(),
        timestamp: 3000,
        eventname: "PROCESS_STOP".to_string(),
    };
    let mut g = match handle_log(GenericEvent::ProcessStop(stop)) {
        Ok(g) => g,
        Err(_) => panic!("stop has a fragment"),
    };
    assert_eq!(g.nodes.len(), 1);
    assert_eq!(g.edges.len(), 0);
    g.merge(&handle_process_start(start_event(None)));
    let p = find(&g, &NodeKey::Process { hostname: "h1".to_string(), process_id: 1 }).unwrap();
    assert_eq!(p.state, NodeState::Terminated);
    assert_eq!(p.terminated, 3000);
    assert_eq!(p.last_seen, 1000);
    assert_eq!(p.name.as_deref(), Some("init"));
}

#[test]
fn file_create_defaults_missing_actor_name() {
    let e = FileCreate {
        creator_process_id: 7,
        creator_process_name: None,
        path: "/tmp/x".to_string(),
        hostname: "h2".to_string(),
        timestamp: 5,
        eventname: "FILE_CREATE".to_string(),
    };
    let g = handle_log(GenericEvent::FileCreate(e)).ok().unwrap();
    assert_eq!(g.nodes.len(), 2);
    assert_eq!(count_label(&g, "created_files"), 1);
    let p = find(&g, &NodeKey::Process { hostname: "h2".to_string(), process_id: 7 }).unwrap();
    assert_eq!(p.name.as_deref(), Some(""));
    let f = find(&g, &NodeKey::File { hostname: "h2".to_string(), path: "/tmp/x".to_string() }).unwrap();
    assert_eq!(f.state, NodeState::Created);
    assert_eq!(f.created, 5);
}

#[test]
fn file_delete_marks_file_deleted() {
    let e = FileDelete {
        deleter_process_id: 7,
        deleter_process_name: Some("rm".to_string()),
        path: "/tmp/x".to_string(),
        hostname: "h2".to_string(),
        timestamp: 9,
        eventname: "FILE_DELETE".to_string(),
    };
    let g = handle_log(GenericEvent::FileDelete(e)).ok().unwrap();
    assert_eq!(count_label(&g, "deleted"), 1);
    let f = find(&g, &NodeKey::File { hostname: "h2".to_string(), path: "/tmp/x".to_string() }).unwrap();
    assert_eq!(f.state, NodeState::Deleted);
    assert_eq!(f.terminated, 9);
}

#[test]
fn port_bind_is_unsupported() {
    let e = ProcessPortBindLog {
        pid: 1,
        bound_port: 80,
        hostname: "h".to_string(),
        timestamp: 1,
        eventname: "PROCESS_PORT_BIND".to_string(),
    };
    assert!(handle_log(GenericEvent::ProcessPortBindLog(e)).is_err());
}

#[test]
fn decode_round_trip_of_process_start() {
    let e = GenericEvent::ProcessStart(start_event(Some("/bin/bash")));
    let raw = e.to_value();
    match GenericEvent::from_value(&raw) {
        Ok(GenericEvent::ProcessStart(d)) => {
            assert_eq!(d.process_id, 100);
            assert_eq!(d.parent_process_id, 1);
            assert_eq!(d.name, "bash");
            assert_eq!(d.hostname, "h1");
            assert_eq!(d.exe.as_deref(), Some("/bin/bash"));
            assert_eq!(d.timestamp, 1000);
            assert_eq!(d.eventname, "PROCESS_START");
        }
        _ => panic!("round trip failed"),
    }
}

#[test]
fn decode_round_trip_of_outbound() {
    let raw = GenericEvent::ProcessOutboundConnectionLog(outbound_event()).to_value();
    match GenericEvent::from_value(&raw) {
        Ok(GenericEvent::ProcessOutboundConnectionLog(d)) => {
            assert_eq!(d.src_port, 5000);
            assert_eq!(d.dst_port, 443);
            assert_eq!(d.dst_ip_addr, "1.1.1.1");
        }
        _ => panic!("round trip failed"),
    }
}

#[test]
fn decode_missing_discriminant() {
    let raw = RawEvent { fields: vec![field("process_id", RawValue::UInt(1))] };
    assert!(matches!(GenericEvent::from_value(&raw), Err(DecodeError::MissingDiscriminant)));
    let raw = RawEvent { fields: vec![field("eventname", RawValue::UInt(1))] };
    assert!(matches!(GenericEvent::from_value(&raw), Err(DecodeError::MissingDiscriminant)));
}

#[test]
fn decode_unknown_kind() {
    let raw = RawEvent { fields: vec![field("eventname", s("DNS_QUERY"))] };
    match GenericEvent::from_value(&raw) {
        Err(DecodeError::UnknownKind(k)) => assert_eq!(k, "DNS_QUERY"),
        _ => panic!("expected an unknown kind"),
    }
}

#[test]
fn decode_schema_mismatch() {
    let mut raw = start_payload(None);
    raw.fields.retain(|f| f.name != "hostname");
    assert!(matches!(GenericEvent::from_value(&raw), Err(DecodeError::SchemaMismatch)));
    let mut raw = start_payload(None);
    raw.fields[0].value = s("100");
    assert!(matches!(GenericEvent::from_value(&raw), Err(DecodeError::SchemaMismatch)));
    let raw = RawEvent {
        fields: vec![
            field("eventname", s("OUTBOUND_TCP")),
            field("pid", RawValue::UInt(1)),
            field("protocol", s("tcp")),
            field("src_port", RawValue::UInt(70000u64 << 16)),
            field("dst_port", RawValue::UInt(1)),
            field("src_hostname", s("h")),
            field("src_ip_addr", s("a")),
            field("dst_ip_addr", s("b")),
            field("timestamp", RawValue::UInt(1)),
        ],
    };
    assert!(matches!(GenericEvent::from_value(&raw), Err(DecodeError::SchemaMismatch)));
}

#[test]
fn decode_null_exe_reads_as_absent() {
    let mut raw = start_payload(None);
    raw.fields.push(field("exe", RawValue::Null));
    match GenericEvent::from_value(&raw) {
        Ok(GenericEvent::ProcessStart(d)) => assert_eq!(d.exe, None),
        _ => panic!("expected a process start"),
    }
}

#[test]
fn malformed_payload_gives_partial_with_same_graph() {
    let good = vec![start_payload(Some("/bin/bash")), GenericEvent::ProcessOutboundConnectionLog(outbound_event()).to_value()];
    let bad = RawEvent { fields: vec![field("eventname", s("NOPE"))] };
    let with_bad = vec![good[0].clone(), bad, good[1].clone()];
    let total = handle_event(&good, &vec![false, false]);
    let partial = handle_event(&with_bad, &vec![false, false, false]);
    assert!(matches!(total.completed_event, Completion::Total(_)));
    assert!(matches!(partial.completed_event, Completion::Partial(_, _)));
    let gt = total.completed_event.graph();
    let gp = partial.completed_event.graph();
    assert_eq!(gt.nodes.len(), gp.nodes.len());
    assert_eq!(gt.edges.len(), gp.edges.len());
    for n in &gt.nodes {
        assert!(find(gp, &n.key).is_some());
    }
    assert_eq!(partial.identities.len(), 2);
    assert_eq!(total.identities.len(), 2);
}

#[test]
fn all_cache_hits_give_empty_graph_and_no_artifact() {
    let payloads = vec![start_payload(None), start_payload(Some("/bin/sh"))];
    let out = handle_event(&payloads, &vec![true, true]);
    assert!(matches!(out.completed_event, Completion::Total(_)));
    assert!(out.completed_event.graph().is_empty());
    assert_eq!(out.identities.len(), 2);
    let mut ser = SubgraphSerializer::new();
    let done = vec![GeneratedSubgraphs::new(vec![out.completed_event.graph().clone()])];
    let artifacts = ser.serialize_completed_events(&done).ok().unwrap();
    assert_eq!(artifacts.len(), 0);
}

#[test]
fn missing_cache_answer_counts_as_miss() {
    let out = handle_event(&vec![start_payload(None)], &vec![]);
    assert_eq!(out.completed_event.graph().nodes.len(), 3);
    assert_eq!(out.identities.len(), 1);
}

#[test]
fn port_bind_payload_is_not_handled() {
    let raw = RawEvent {
        fields: vec![
            field("pid", RawValue::UInt(1)),
            field("bound_port", RawValue::UInt(80)),
            field("hostname", s("h")),
            field("timestamp", RawValue::UInt(1)),
            field("eventname", s("PROCESS_PORT_BIND")),
        ],
    };
    let out = handle_event(&vec![raw], &vec![false]);
    assert!(matches!(out.completed_event, Completion::Partial(_, _)));
    assert_eq!(out.identities.len(), 0);
}

#[test]
fn serialized_artifact_decompresses_to_the_encoding() {
    let g = handle_process_start(start_event(Some("/bin/bash")));
    let mut expected = Vec::new();
    encode_graph(&g, &mut expected);
    let mut ser = SubgraphSerializer::new();
    let artifacts = ser.serialize_completed_events(&vec![GeneratedSubgraphs::new(vec![g])]).ok().unwrap();
    assert_eq!(artifacts.len(), 1);
    assert_ne!(artifacts[0], expected);
    let plain = zstd::stream::decode_all(&artifacts[0][..]).unwrap();
    assert_eq!(plain, expected);
}

#[test]
fn encoding_of_an_empty_graph() {
    let g = Graph::new(258);
    let mut out = Vec::new();
    encode_graph(&g, &mut out);
    let mut want = vec![0u8; 16];
    want.extend_from_slice(&[2, 1, 0, 0, 0, 0, 0, 0]);
    assert_eq!(out, want);
}

#[test]
fn object_key_buckets_time() {
    let k = object_key(172800 + 5, &"abc".to_string());
    assert_eq!(k, "172800/172805-abc");
    let k = object_key(86399, &"x".to_string());
    assert_eq!(k, "0/86399-x");
    let k = object_key(86400, &"y".to_string());
    assert_eq!(k, "86400/86400-y");
    let k = object_key(0, &String::new());
    assert_eq!(k, "0/0-");
}

#[test]
fn lanes_are_round_robin() {
    assert_eq!(assign_lanes(5, 2), vec![0, 1, 0, 1, 0]);
    assert_eq!(assign_lanes(0, 3), Vec::<usize>::new());
}

#[test]
fn consume_policy_stops_at_margin_and_empty_pulls() {
    let mut p = ConsumePolicy::new(10_000, 2_000, 3);
    assert!(p.should_consume(7_999));
    assert!(!p.should_consume(8_000));
    p.register_received(false);
    p.register_received(false);
    assert!(p.should_consume(0));
    p.register_received(false);
    assert!(!p.should_consume(0));
    p.register_received(true);
    assert!(p.should_consume(0));
}

#[test]
fn completion_policy_flushes_on_count_or_time() {
    let p = CompletionPolicy::new(1000, 120_000);
    assert!(!p.should_flush(0, 500_000));
    assert!(!p.should_flush(999, 119_999));
    assert!(p.should_flush(1000, 0));
    assert!(p.should_flush(1, 120_000));
}

#[test]
fn shutdown_before_last_ack_fails_with_it_pending() {
    let ids = vec!["m1".to_string(), "m2".to_string(), "m3".to_string()];
    let mut r = Reconciler::new(&ids);
    r.acknowledge(&"m1".to_string());
    r.acknowledge(&"m2".to_string());
    match r.finish() {
        Err(rest) => assert_eq!(rest, vec!["m3".to_string()]),
        Ok(()) => panic!("must fail"),
    }
    r.acknowledge(&"m3".to_string());
    assert!(r.finish().is_ok());
}

#[test]
fn duplicate_initial_ids_and_unknown_acks() {
    let ids = vec!["a".to_string(), "a".to_string()];
    let mut r = Reconciler::new(&ids);
    assert_eq!(r.pending.len(), 1);
    r.acknowledge(&"zzz".to_string());
    assert_eq!(r.pending.len(), 1);
    r.acknowledge(&"a".to_string());
    assert!(r.finish().is_ok());
}

#[test]
fn empty_batch_is_total_and_empty() {
    let out = handle_event(&Vec::new(), &Vec::new());
    assert!(matches!(out.completed_event, Completion::Total(_)));
    assert!(out.completed_event.graph().is_empty());
    assert_eq!(out.completed_event.graph().timestamp, 0);
    assert!(out.identities.is_empty());
}

#[test]
fn batch_timestamp_is_the_earliest_event_time() {
    let later = GenericEvent::ProcessOutboundConnectionLog(outbound_event()).to_value();
    let out = handle_event(&vec![later, start_payload(None)], &vec![false, false]);
    assert_eq!(out.completed_event.graph().timestamp, 1000);
}

#[test]
fn inbound_connection_fragment() {
    let e = ProcessInboundConnectionLog {
        pid: 80,
        src_ip_addr: "1.2.3.4".to_string(),
        src_port: 40000,
        dst_port: 22,
        dst_hostname: "srv".to_string(),
        dst_ip_addr: "10.0.0.9".to_string(),
        protocol: "tcp".to_string(),
        timestamp: 77,
        eventname: "INBOUND_TCP".to_string(),
    };
    let g = handle_inbound_traffic(e);
    assert_eq!(g.nodes.len(), 8);
    assert_eq!(g.edges.len(), 7);
    for label in [
        "asset_ip",
        "asset_processes",
        "received_connection",
        "bound_port",
        "connected_to",
        "outbound_connection_to",
        "inbound_connection_to",
    ] {
        assert_eq!(count_label(&g, label), 1);
    }
    let inbound = find(
        &g,
        &NodeKey::ProcessInboundConnection {
            hostname: "srv".to_string(),
            ip_address: "10.0.0.9".to_string(),
            port: 22,
            protocol: "tcp".to_string(),
        },
    )
    .unwrap();
    assert_eq!(inbound.state, NodeState::Existing);
    assert_eq!(inbound.created, 77);
}

#[test]
fn file_read_and_write_edges() {
    let r = FileRead {
        reader_process_id: 3,
        reader_process_name: Some("cat".to_string()),
        path: "/etc/passwd".to_string(),
        hostname: "h".to_string(),
        timestamp: 10,
        eventname: "FILE_READ".to_string(),
    };
    let w = FileWrite {
        writer_pid: 3,
        writer_process_name: None,
        path: "/etc/passwd".to_string(),
        hostname: "h".to_string(),
        timestamp: 20,
        eventname: "FILE_WRITE".to_string(),
    };
    let mut g = handle_log(GenericEvent::FileRead(r)).ok().unwrap();
    g.merge(&handle_log(GenericEvent::FileWrite(w)).ok().unwrap());
    assert_eq!(g.nodes.len(), 2);
    assert_eq!(count_label(&g, "read_files"), 1);
    assert_eq!(count_label(&g, "wrote_files"), 1);
    let f = find(&g, &NodeKey::File { hostname: "h".to_string(), path: "/etc/passwd".to_string() }).unwrap();
    assert_eq!(f.state, NodeState::Existing);
    assert_eq!(f.last_seen, 20);
    let p = find(&g, &NodeKey::Process { hostname: "h".to_string(), process_id: 3 }).unwrap();
    assert_eq!(p.name.as_deref(), Some("cat"));
}

#[test]
fn cached_port_bind_is_still_a_failure() {
    let raw = RawEvent {
        fields: vec![
            field("pid", RawValue::UInt(1)),
            field("bound_port", RawValue::UInt(80)),
            field("hostname", s("h")),
            field("timestamp", RawValue::UInt(1)),
            field("eventname", s("PROCESS_PORT_BIND")),
        ],
    };
    let out = handle_event(&vec![raw, start_payload(None)], &vec![true, false]);
    assert!(matches!(out.completed_event, Completion::Partial(_, _)));
    assert_eq!(out.identities.len(), 1);
    assert!(!should_acknowledge(true, &out));
    assert_eq!(identities_to_record(true, &out).len(), 1);
}

#[test]
fn acknowledgement_needs_emission_and_a_total_verdict() {
    let out = handle_event(&vec![start_payload(None)], &vec![false]);
    assert!(should_acknowledge(true, &out));
    assert!(!should_acknowledge(false, &out));
    assert_eq!(identities_to_record(false, &out).len(), 0);
    assert_eq!(identities_to_record(true, &out).len(), 1);
}

#[test]
fn merging_batches_in_another_order_or_repeated_keeps_sets() {
    use_merged(&[0, 1], &[1, 0, 1]);
}

fn use_merged(order1: &[usize], order2: &[usize]) {
    let graphs = vec![
        handle_outbound_traffic(outbound_event()),
        handle_process_start(start_event(Some("/bin/bash"))),
    ];
    let batch = |order: &[usize]| -> Vec<GeneratedSubgraphs> {
        order.iter().map(|i| GeneratedSubgraphs::new(vec![graphs[*i].clone()])).collect()
    };
    let g1 = merge_completed(&batch(order1));
    let g2 = merge_completed(&batch(order2));
    assert_eq!(g1.nodes.len(), g2.nodes.len());
    assert_eq!(g1.edges.len(), g2.edges.len());
    for n in &g1.nodes {
        assert!(find(&g2, &n.key).is_some());
    }
    for e in &g1.edges {
        assert!(g2.edges.iter().any(|f| f.same_as(e)));
    }
}
