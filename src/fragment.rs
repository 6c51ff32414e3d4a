use vstd::prelude::*;
use crate::event::{
    FileCreate, FileDelete, FileRead, FileWrite, GenericEvent, ProcessInboundConnectionLog,
    ProcessOutboundConnectionLog, ProcessStart, ProcessStop,
};
use crate::graph::{
    clone_key, opt_view, upsert, EdgeV, Graph, Node, NodeKey, NodeKeyV, NodeState, NodeV,
};

verus! {

pub open spec fn asset_v(hostname: Seq<char>) -> NodeV {
    NodeV {
        key: NodeKeyV::Asset { hostname },
        state: NodeState::Unspecified,
        name: None,
        created: 0,
        last_seen: 0,
        terminated: 0,
    }
}

pub open spec fn process_v(
    hostname: Seq<char>,
    process_id: u64,
    name: Option<Seq<char>>,
    state: NodeState,
    created: u64,
    last_seen: u64,
    terminated: u64,
) -> NodeV {
    NodeV {
        key: NodeKeyV::Process { hostname, process_id },
        state,
        name,
        created,
        last_seen,
        terminated,
    }
}

/// A file node; `terminated` holds the time of deletion.
pub open spec fn file_v(
    hostname: Seq<char>,
    path: Seq<char>,
    state: NodeState,
    created: u64,
    last_seen: u64,
    terminated: u64,
) -> NodeV {
    NodeV { key: NodeKeyV::File { hostname, path }, state, name: None, created, last_seen, terminated }
}

pub open spec fn ip_v(ip_address: Seq<char>, last_seen: u64) -> NodeV {
    NodeV {
        key: NodeKeyV::IpAddress { ip_address },
        state: NodeState::Unspecified,
        name: None,
        created: 0,
        last_seen,
        terminated: 0,
    }
}

pub open spec fn port_v(ip_address: Seq<char>, port: u32, protocol: Seq<char>) -> NodeV {
    NodeV {
        key: NodeKeyV::IpPort { ip_address, port, protocol },
        state: NodeState::Unspecified,
        name: None,
        created: 0,
        last_seen: 0,
        terminated: 0,
    }
}

pub open spec fn connection_v(
    src_ip_address: Seq<char>,
    src_port: u32,
    dst_ip_address: Seq<char>,
    dst_port: u32,
    protocol: Seq<char>,
    created: u64,
) -> NodeV {
    NodeV {
        key: NodeKeyV::NetworkConnection {
            src_ip_address,
            src_port,
            dst_ip_address,
            dst_port,
            protocol,
        },
        state: NodeState::Created,
        name: None,
        created,
        last_seen: 0,
        terminated: 0,
    }
}

pub open spec fn outbound_v(
    hostname: Seq<char>,
    ip_address: Seq<char>,
    port: u32,
    protocol: Seq<char>,
    created: u64,
) -> NodeV {
    NodeV {
        key: NodeKeyV::ProcessOutboundConnection { hostname, ip_address, port, protocol },
        state: NodeState::Connected,
        name: None,
        created,
        last_seen: 0,
        terminated: 0,
    }
}

pub open spec fn inbound_v(
    hostname: Seq<char>,
    ip_address: Seq<char>,
    port: u32,
    protocol: Seq<char>,
    created: u64,
) -> NodeV {
    NodeV {
        key: NodeKeyV::ProcessInboundConnection { hostname, ip_address, port, protocol },
        state: NodeState::Existing,
        name: None,
        created,
        last_seen: 0,
        terminated: 0,
    }
}

pub open spec fn edge_v(label: Seq<char>, from: NodeV, to: NodeV) -> EdgeV {
    EdgeV { label, from: from.key, to: to.key }
}

fn asset_node(hostname: &String) -> (n: Node)
    ensures
        n@ == asset_v(hostname@),
{
    Node {
        key: NodeKey::Asset { hostname: hostname.clone() },
        state: NodeState::Unspecified,
        name: None,
        created: 0,
        last_seen: 0,
        terminated: 0,
    }
}

fn process_node(
    hostname: &String,
    process_id: u64,
    name: Option<String>,
    state: NodeState,
    created: u64,
    last_seen: u64,
    terminated: u64,
) -> (n: Node)
    ensures
        n@ == process_v(hostname@, process_id, opt_view(name), state, created, last_seen, terminated),
{
    Node {
        key: NodeKey::Process { hostname: hostname.clone(), process_id },
        state,
        name,
        created,
        last_seen,
        terminated,
    }
}

fn file_node(
    hostname: &String,
    path: &String,
    state: NodeState,
    created: u64,
    last_seen: u64,
    terminated: u64,
) -> (n: Node)
    ensures
        n@ == file_v(hostname@, path@, state, created, last_seen, terminated),
{
    Node {
        key: NodeKey::File { hostname: hostname.clone(), path: path.clone() },
        state,
        name: None,
        created,
        last_seen,
        terminated,
    }
}

fn ip_node(ip_address: &String, last_seen: u64) -> (n: Node)
    ensures
        n@ == ip_v(ip_address@, last_seen),
{
    Node {
        key: NodeKey::IpAddress { ip_address: ip_address.clone() },
        state: NodeState::Unspecified,
        name: None,
        created: 0,
        last_seen,
        terminated: 0,
    }
}

fn port_node(ip_address: &String, port: u32, protocol: &String) -> (n: Node)
    ensures
        n@ == port_v(ip_address@, port, protocol@),
{
    Node {
        key: NodeKey::IpPort { ip_address: ip_address.clone(), port, protocol: protocol.clone() },
        state: NodeState::Unspecified,
        name: None,
        created: 0,
        last_seen: 0,
        terminated: 0,
    }
}

fn connection_node(
    src_ip_address: &String,
    src_port: u32,
    dst_ip_address: &String,
    dst_port: u32,
    protocol: &String,
    created: u64,
) -> (n: Node)
    ensures
        n@ == connection_v(src_ip_address@, src_port, dst_ip_address@, dst_port, protocol@, created),
{
    Node {
        key: NodeKey::NetworkConnection {
            src_ip_address: src_ip_address.clone(),
            src_port,
            dst_ip_address: dst_ip_address.clone(),
            dst_port,
            protocol: protocol.clone(),
        },
        state: NodeState::Created,
        name: None,
        created,
        last_seen: 0,
        terminated: 0,
    }
}

/// The name of an acting process, empty where the event gives none.
fn name_or_empty(name: &Option<String>) -> (r: String)
    ensures
        r@ == name_or_empty_spec(*name),
{
    match name {
        Some(s) => s.clone(),
        None => String::new(),
    }
}

pub open spec fn name_or_empty_spec(name: Option<String>) -> Seq<char> {
    match name {
        Some(s) => s@,
        None => Seq::empty(),
    }
}

} // verus!

verus! {

pub open spec fn start_parent_v(e: ProcessStart) -> NodeV {
    process_v(e.hostname@, e.parent_process_id, None, NodeState::Existing, 0, e.timestamp, 0)
}

pub open spec fn start_child_v(e: ProcessStart) -> NodeV {
    process_v(e.hostname@, e.process_id, Some(e.name@), NodeState::Created, e.timestamp, 0, 0)
}

pub open spec fn start_exe_v(e: ProcessStart, exe: String) -> NodeV {
    file_v(e.hostname@, exe@, NodeState::Existing, 0, e.timestamp, 0)
}

/// The nodes of a process start: its host, the parent, the child and, where the
/// executable is known, the executable's file.
pub open spec fn process_start_nodes(e: ProcessStart) -> Map<NodeKeyV, NodeV> {
    let base = upsert(
        upsert(upsert(Map::empty(), asset_v(e.hostname@)), start_parent_v(e)),
        start_child_v(e),
    );
    match e.exe {
        Some(exe) => upsert(base, start_exe_v(e, exe)),
        None => base,
    }
}

pub open spec fn process_start_edges(e: ProcessStart) -> Set<EdgeV> {
    let base = Set::empty().insert(
        edge_v("asset_processes"@, asset_v(e.hostname@), start_parent_v(e)),
    ).insert(edge_v("asset_processes"@, asset_v(e.hostname@), start_child_v(e))).insert(
        edge_v("children"@, start_parent_v(e), start_child_v(e)),
    );
    match e.exe {
        Some(exe) => base.insert(edge_v("bin_file"@, start_child_v(e), start_exe_v(e, exe))),
        None => base,
    }
}

pub fn handle_process_start(process_start: ProcessStart) -> (g: Graph)
    ensures
        g@.wf(),
        g@.nodes.len() > 0,
        g@.timestamp == process_start.timestamp,
        g@.node_map() == process_start_nodes(process_start),
        g@.edge_set() == process_start_edges(process_start),
{
    let e = process_start;
    let mut g = Graph::new(e.timestamp);
    let asset = asset_node(&e.hostname);
    let asset_key = clone_key(&asset.key);
    g.add_node(asset);
    let parent = process_node(
        &e.hostname,
        e.parent_process_id,
        None,
        NodeState::Existing,
        0,
        e.timestamp,
        0,
    );
    let parent_key = clone_key(&parent.key);
    g.add_node(parent);
    let child = process_node(
        &e.hostname,
        e.process_id,
        Some(e.name.clone()),
        NodeState::Created,
        e.timestamp,
        0,
        0,
    );
    let child_key = clone_key(&child.key);
    g.add_node(child);
    g.link("asset_processes", &asset_key, &parent_key);
    g.link("asset_processes", &asset_key, &child_key);
    g.link("children", &parent_key, &child_key);
    match &e.exe {
        Some(exe) => {
            let file = file_node(&e.hostname, exe, NodeState::Existing, 0, e.timestamp, 0);
            let file_key = clone_key(&file.key);
            g.add_node(file);
            g.link("bin_file", &child_key, &file_key);
        },
        None => {},
    }
    g
}

pub open spec fn process_stop_v(e: ProcessStop) -> NodeV {
    process_v(e.hostname@, e.process_id, Some(e.name@), NodeState::Terminated, 0, 0, e.timestamp)
}

/// A process stop gives the terminated process alone.
pub fn handle_process_stop(process_stop: ProcessStop) -> (g: Graph)
    ensures
        g@.wf(),
        g@.nodes.len() > 0,
        g@.timestamp == process_stop.timestamp,
        g@.node_map() == upsert(Map::empty(), process_stop_v(process_stop)),
        g@.edge_set() == Set::<EdgeV>::empty(),
{
    let e = process_stop;
    let mut g = Graph::new(e.timestamp);
    let p = process_node(
        &e.hostname,
        e.process_id,
        Some(e.name.clone()),
        NodeState::Terminated,
        0,
        0,
        e.timestamp,
    );
    g.add_node(p);
    g
}

/// The two nodes and the edge of a file event: the acting process, the file,
/// and the edge `label` from the process to the file.
pub open spec fn file_event_nodes(actor: NodeV, file: NodeV) -> Map<NodeKeyV, NodeV> {
    upsert(upsert(Map::empty(), actor), file)
}

pub open spec fn actor_v(hostname: Seq<char>, pid: u64, name: Option<String>, ts: u64) -> NodeV {
    process_v(hostname, pid, Some(name_or_empty_spec(name)), NodeState::Existing, 0, ts, 0)
}

fn file_event(
    label: &str,
    hostname: &String,
    pid: u64,
    name: &Option<String>,
    path: &String,
    state: NodeState,
    created: u64,
    last_seen: u64,
    deleted: u64,
    timestamp: u64,
) -> (g: Graph)
    ensures
        g@.wf(),
        g@.nodes.len() > 0,
        g@.timestamp == timestamp,
        g@.node_map() == file_event_nodes(
            actor_v(hostname@, pid, *name, timestamp),
            file_v(hostname@, path@, state, created, last_seen, deleted),
        ),
        g@.edge_set() == Set::<EdgeV>::empty().insert(
            edge_v(
                label@,
                actor_v(hostname@, pid, *name, timestamp),
                file_v(hostname@, path@, state, created, last_seen, deleted),
            ),
        ),
{
    let mut g = Graph::new(timestamp);
    let actor = process_node(
        hostname,
        pid,
        Some(name_or_empty(name)),
        NodeState::Existing,
        0,
        timestamp,
        0,
    );
    let actor_key = clone_key(&actor.key);
    g.add_node(actor);
    let file = file_node(hostname, path, state, created, last_seen, deleted);
    let file_key = clone_key(&file.key);
    g.add_node(file);
    g.link(label, &actor_key, &file_key);
    g
}

pub open spec fn file_create_file_v(e: FileCreate) -> NodeV {
    file_v(e.hostname@, e.path@, NodeState::Created, e.timestamp, 0, 0)
}

pub open spec fn file_create_actor_v(e: FileCreate) -> NodeV {
    actor_v(e.hostname@, e.creator_process_id, e.creator_process_name, e.timestamp)
}

pub fn handle_file_create(file_creator: FileCreate) -> (g: Graph)
    ensures
        g@.wf(),
        g@.nodes.len() > 0,
        g@.timestamp == file_creator.timestamp,
        g@.node_map() == file_event_nodes(
            file_create_actor_v(file_creator),
            file_create_file_v(file_creator),
        ),
        g@.edge_set() == Set::<EdgeV>::empty().insert(
            edge_v(
                "created_files"@,
                file_create_actor_v(file_creator),
                file_create_file_v(file_creator),
            ),
        ),
{
    let e = &file_creator;
    file_event(
        "created_files",
        &e.hostname,
        e.creator_process_id,
        &e.creator_process_name,
        &e.path,
        NodeState::Created,
        e.timestamp,
        0,
        0,
        e.timestamp,
    )
}

pub open spec fn file_delete_file_v(e: FileDelete) -> NodeV {
    file_v(e.hostname@, e.path@, NodeState::Deleted, 0, 0, e.timestamp)
}

pub open spec fn file_delete_actor_v(e: FileDelete) -> NodeV {
    actor_v(e.hostname@, e.deleter_process_id, e.deleter_process_name, e.timestamp)
}

pub fn handle_file_delete(file_delete: FileDelete) -> (g: Graph)
    ensures
        g@.wf(),
        g@.nodes.len() > 0,
        g@.timestamp == file_delete.timestamp,
        g@.node_map() == file_event_nodes(
            file_delete_actor_v(file_delete),
            file_delete_file_v(file_delete),
        ),
        g@.edge_set() == Set::<EdgeV>::empty().insert(
            edge_v("deleted"@, file_delete_actor_v(file_delete), file_delete_file_v(file_delete)),
        ),
{
    let e = &file_delete;
    file_event(
        "deleted",
        &e.hostname,
        e.deleter_process_id,
        &e.deleter_process_name,
        &e.path,
        NodeState::Deleted,
        0,
        0,
        e.timestamp,
        e.timestamp,
    )
}

pub open spec fn file_read_file_v(e: FileRead) -> NodeV {
    file_v(e.hostname@, e.path@, NodeState::Existing, 0, e.timestamp, 0)
}

pub open spec fn file_read_actor_v(e: FileRead) -> NodeV {
    actor_v(e.hostname@, e.reader_process_id, e.reader_process_name, e.timestamp)
}

pub fn handle_file_read(file_read: FileRead) -> (g: Graph)
    ensures
        g@.wf(),
        g@.nodes.len() > 0,
        g@.timestamp == file_read.timestamp,
        g@.node_map() == file_event_nodes(file_read_actor_v(file_read), file_read_file_v(file_read)),
        g@.edge_set() == Set::<EdgeV>::empty().insert(
            edge_v("read_files"@, file_read_actor_v(file_read), file_read_file_v(file_read)),
        ),
{
    let e = &file_read;
    file_event(
        "read_files",
        &e.hostname,
        e.reader_process_id,
        &e.reader_process_name,
        &e.path,
        NodeState::Existing,
        0,
        e.timestamp,
        0,
        e.timestamp,
    )
}

pub open spec fn file_write_file_v(e: FileWrite) -> NodeV {
    file_v(e.hostname@, e.path@, NodeState::Existing, 0, e.timestamp, 0)
}

pub open spec fn file_write_actor_v(e: FileWrite) -> NodeV {
    actor_v(e.hostname@, e.writer_pid, e.writer_process_name, e.timestamp)
}

pub fn handle_file_write(file_write: FileWrite) -> (g: Graph)
    ensures
        g@.wf(),
        g@.nodes.len() > 0,
        g@.timestamp == file_write.timestamp,
        g@.node_map() == file_event_nodes(
            file_write_actor_v(file_write),
            file_write_file_v(file_write),
        ),
        g@.edge_set() == Set::<EdgeV>::empty().insert(
            edge_v("wrote_files"@, file_write_actor_v(file_write), file_write_file_v(file_write)),
        ),
{
    let e = &file_write;
    file_event(
        "wrote_files",
        &e.hostname,
        e.writer_pid,
        &e.writer_process_name,
        &e.path,
        NodeState::Existing,
        0,
        e.timestamp,
        0,
        e.timestamp,
    )
}

} // verus!

verus! {

pub open spec fn conn_process_v(hostname: Seq<char>, pid: u64, ts: u64) -> NodeV {
    process_v(hostname, pid, None, NodeState::Existing, 0, ts, 0)
}

/// The nodes of a connection seen from `hostname`: the host, the acting
/// process, the process's end of the connection `end`, both addresses, both
/// ports and the connection itself.
pub open spec fn connection_nodes(
    hostname: Seq<char>,
    process: NodeV,
    end: NodeV,
    first_ip: NodeV,
    second_ip: NodeV,
    src_port: NodeV,
    dst_port: NodeV,
    conn: NodeV,
) -> Map<NodeKeyV, NodeV> {
    upsert(
        upsert(
            upsert(
                upsert(
                    upsert(
                        upsert(upsert(upsert(Map::empty(), asset_v(hostname)), process), end),
                        first_ip,
                    ),
                    second_ip,
                ),
                src_port,
            ),
            dst_port,
        ),
        conn,
    )
}

/// The edges of a connection: the host's address, the host's process, the
/// process's end of the connection, the two ports of that end, and the
/// connection between the ports. `made` and `over` name the edges from the
/// process to its end and from its end to the source port.
pub open spec fn connection_edges(
    hostname: Seq<char>,
    process: NodeV,
    end: NodeV,
    host_ip: NodeV,
    src_port: NodeV,
    dst_port: NodeV,
    conn: NodeV,
    made: Seq<char>,
    over: Seq<char>,
) -> Set<EdgeV> {
    Set::empty().insert(edge_v("asset_ip"@, asset_v(hostname), host_ip)).insert(
        edge_v("asset_processes"@, asset_v(hostname), process),
    ).insert(edge_v(made, process, end)).insert(edge_v(over, end, src_port)).insert(
        edge_v("connected_to"@, end, dst_port),
    ).insert(edge_v("outbound_connection_to"@, src_port, conn)).insert(
        edge_v("inbound_connection_to"@, conn, dst_port),
    )
}

pub open spec fn outbound_nodes(e: ProcessOutboundConnectionLog) -> Map<NodeKeyV, NodeV> {
    connection_nodes(
        e.src_hostname@,
        conn_process_v(e.src_hostname@, e.pid, e.timestamp),
        outbound_v(e.src_hostname@, e.src_ip_addr@, e.src_port, e.protocol@, e.timestamp),
        ip_v(e.src_ip_addr@, e.timestamp),
        ip_v(e.dst_ip_addr@, e.timestamp),
        port_v(e.src_ip_addr@, e.src_port, e.protocol@),
        port_v(e.dst_ip_addr@, e.dst_port, e.protocol@),
        connection_v(e.src_ip_addr@, e.src_port, e.dst_ip_addr@, e.dst_port, e.protocol@, e.timestamp),
    )
}

pub open spec fn outbound_edges(e: ProcessOutboundConnectionLog) -> Set<EdgeV> {
    connection_edges(
        e.src_hostname@,
        conn_process_v(e.src_hostname@, e.pid, e.timestamp),
        outbound_v(e.src_hostname@, e.src_ip_addr@, e.src_port, e.protocol@, e.timestamp),
        ip_v(e.src_ip_addr@, e.timestamp),
        port_v(e.src_ip_addr@, e.src_port, e.protocol@),
        port_v(e.dst_ip_addr@, e.dst_port, e.protocol@),
        connection_v(e.src_ip_addr@, e.src_port, e.dst_ip_addr@, e.dst_port, e.protocol@, e.timestamp),
        "created_connections"@,
        "connected_over"@,
    )
}

pub fn handle_outbound_traffic(conn_log: ProcessOutboundConnectionLog) -> (g: Graph)
    ensures
        g@.wf(),
        g@.nodes.len() > 0,
        g@.timestamp == conn_log.timestamp,
        g@.node_map() == outbound_nodes(conn_log),
        g@.edge_set() == outbound_edges(conn_log),
{
    let e = &conn_log;
    let mut g = Graph::new(e.timestamp);
    let asset = asset_node(&e.src_hostname);
    let asset_key = clone_key(&asset.key);
    g.add_node(asset);
    let process = process_node(&e.src_hostname, e.pid, None, NodeState::Existing, 0, e.timestamp, 0);
    let process_key = clone_key(&process.key);
    g.add_node(process);
    let outbound = Node {
        key: NodeKey::ProcessOutboundConnection {
            hostname: e.src_hostname.clone(),
            ip_address: e.src_ip_addr.clone(),
            port: e.src_port,
            protocol: e.protocol.clone(),
        },
        state: NodeState::Connected,
        name: None,
        created: e.timestamp,
        last_seen: 0,
        terminated: 0,
    };
    let outbound_key = clone_key(&outbound.key);
    g.add_node(outbound);
    let src_ip = ip_node(&e.src_ip_addr, e.timestamp);
    let src_ip_key = clone_key(&src_ip.key);
    g.add_node(src_ip);
    g.add_node(ip_node(&e.dst_ip_addr, e.timestamp));
    let src_port = port_node(&e.src_ip_addr, e.src_port, &e.protocol);
    let src_port_key = clone_key(&src_port.key);
    g.add_node(src_port);
    let dst_port = port_node(&e.dst_ip_addr, e.dst_port, &e.protocol);
    let dst_port_key = clone_key(&dst_port.key);
    g.add_node(dst_port);
    let conn = connection_node(
        &e.src_ip_addr,
        e.src_port,
        &e.dst_ip_addr,
        e.dst_port,
        &e.protocol,
        e.timestamp,
    );
    let conn_key = clone_key(&conn.key);
    g.add_node(conn);
    g.link("asset_ip", &asset_key, &src_ip_key);
    g.link("asset_processes", &asset_key, &process_key);
    g.link("created_connections", &process_key, &outbound_key);
    g.link("connected_over", &outbound_key, &src_port_key);
    g.link("connected_to", &outbound_key, &dst_port_key);
    g.link("outbound_connection_to", &src_port_key, &conn_key);
    g.link("inbound_connection_to", &conn_key, &dst_port_key);
    g
}

pub open spec fn inbound_nodes(e: ProcessInboundConnectionLog) -> Map<NodeKeyV, NodeV> {
    connection_nodes(
        e.dst_hostname@,
        conn_process_v(e.dst_hostname@, e.pid, e.timestamp),
        inbound_v(e.dst_hostname@, e.dst_ip_addr@, e.dst_port, e.protocol@, e.timestamp),
        ip_v(e.dst_ip_addr@, e.timestamp),
        ip_v(e.src_ip_addr@, e.timestamp),
        port_v(e.src_ip_addr@, e.src_port, e.protocol@),
        port_v(e.dst_ip_addr@, e.dst_port, e.protocol@),
        connection_v(e.src_ip_addr@, e.src_port, e.dst_ip_addr@, e.dst_port, e.protocol@, e.timestamp),
    )
}

pub open spec fn inbound_edges(e: ProcessInboundConnectionLog) -> Set<EdgeV> {
    connection_edges(
        e.dst_hostname@,
        conn_process_v(e.dst_hostname@, e.pid, e.timestamp),
        inbound_v(e.dst_hostname@, e.dst_ip_addr@, e.dst_port, e.protocol@, e.timestamp),
        ip_v(e.dst_ip_addr@, e.timestamp),
        port_v(e.src_ip_addr@, e.src_port, e.protocol@),
        port_v(e.dst_ip_addr@, e.dst_port, e.protocol@),
        connection_v(e.src_ip_addr@, e.src_port, e.dst_ip_addr@, e.dst_port, e.protocol@, e.timestamp),
        "received_connection"@,
        "bound_port"@,
    )
}

pub fn handle_inbound_traffic(conn_log: ProcessInboundConnectionLog) -> (g: Graph)
    ensures
        g@.wf(),
        g@.nodes.len() > 0,
        g@.timestamp == conn_log.timestamp,
        g@.node_map() == inbound_nodes(conn_log),
        g@.edge_set() == inbound_edges(conn_log),
{
    let e = &conn_log;
    let mut g = Graph::new(e.timestamp);
    let asset = asset_node(&e.dst_hostname);
    let asset_key = clone_key(&asset.key);
    g.add_node(asset);
    let process = process_node(&e.dst_hostname, e.pid, None, NodeState::Existing, 0, e.timestamp, 0);
    let process_key = clone_key(&process.key);
    g.add_node(process);
    let inbound = Node {
        key: NodeKey::ProcessInboundConnection {
            hostname: e.dst_hostname.clone(),
            ip_address: e.dst_ip_addr.clone(),
            port: e.dst_port,
            protocol: e.protocol.clone(),
        },
        state: NodeState::Existing,
        name: None,
        created: e.timestamp,
        last_seen: 0,
        terminated: 0,
    };
    let inbound_key = clone_key(&inbound.key);
    g.add_node(inbound);
    let dst_ip = ip_node(&e.dst_ip_addr, e.timestamp);
    let dst_ip_key = clone_key(&dst_ip.key);
    g.add_node(dst_ip);
    g.add_node(ip_node(&e.src_ip_addr, e.timestamp));
    let src_port = port_node(&e.src_ip_addr, e.src_port, &e.protocol);
    let src_port_key = clone_key(&src_port.key);
    g.add_node(src_port);
    let dst_port = port_node(&e.dst_ip_addr, e.dst_port, &e.protocol);
    let dst_port_key = clone_key(&dst_port.key);
    g.add_node(dst_port);
    let conn = connection_node(
        &e.src_ip_addr,
        e.src_port,
        &e.dst_ip_addr,
        e.dst_port,
        &e.protocol,
        e.timestamp,
    );
    let conn_key = clone_key(&conn.key);
    g.add_node(conn);
    g.link("asset_ip", &asset_key, &dst_ip_key);
    g.link("asset_processes", &asset_key, &process_key);
    g.link("received_connection", &process_key, &inbound_key);
    g.link("bound_port", &inbound_key, &src_port_key);
    g.link("connected_to", &inbound_key, &dst_port_key);
    g.link("outbound_connection_to", &src_port_key, &conn_key);
    g.link("inbound_connection_to", &conn_key, &dst_port_key);
    g
}

/// An event that this library recognises but builds no fragment for.
#[derive(Clone, Debug)]
pub enum UnsupportedEvent {
    PortBind,
}

/// The node map of the fragment that an event gives.
pub open spec fn event_nodes(e: GenericEvent) -> Map<NodeKeyV, NodeV> {
    match e {
        GenericEvent::ProcessStart(x) => process_start_nodes(x),
        GenericEvent::ProcessStop(x) => upsert(Map::empty(), process_stop_v(x)),
        GenericEvent::FileCreate(x) => file_event_nodes(file_create_actor_v(x), file_create_file_v(x)),
        GenericEvent::FileDelete(x) => file_event_nodes(file_delete_actor_v(x), file_delete_file_v(x)),
        GenericEvent::FileRead(x) => file_event_nodes(file_read_actor_v(x), file_read_file_v(x)),
        GenericEvent::FileWrite(x) => file_event_nodes(file_write_actor_v(x), file_write_file_v(x)),
        GenericEvent::ProcessOutboundConnectionLog(x) => outbound_nodes(x),
        GenericEvent::ProcessInboundConnectionLog(x) => inbound_nodes(x),
        GenericEvent::ProcessPortBindLog(_) => Map::empty(),
    }
}

/// The edge set of the fragment that an event gives.
pub open spec fn event_edges(e: GenericEvent) -> Set<EdgeV> {
    match e {
        GenericEvent::ProcessStart(x) => process_start_edges(x),
        GenericEvent::ProcessStop(_) => Set::empty(),
        GenericEvent::FileCreate(x) => Set::empty().insert(
            edge_v("created_files"@, file_create_actor_v(x), file_create_file_v(x)),
        ),
        GenericEvent::FileDelete(x) => Set::empty().insert(
            edge_v("deleted"@, file_delete_actor_v(x), file_delete_file_v(x)),
        ),
        GenericEvent::FileRead(x) => Set::empty().insert(
            edge_v("read_files"@, file_read_actor_v(x), file_read_file_v(x)),
        ),
        GenericEvent::FileWrite(x) => Set::empty().insert(
            edge_v("wrote_files"@, file_write_actor_v(x), file_write_file_v(x)),
        ),
        GenericEvent::ProcessOutboundConnectionLog(x) => outbound_edges(x),
        GenericEvent::ProcessInboundConnectionLog(x) => inbound_edges(x),
        GenericEvent::ProcessPortBindLog(_) => Set::empty(),
    }
}

pub open spec fn event_timestamp(e: GenericEvent) -> u64 {
    match e {
        GenericEvent::ProcessStart(x) => x.timestamp,
        GenericEvent::ProcessStop(x) => x.timestamp,
        GenericEvent::FileCreate(x) => x.timestamp,
        GenericEvent::FileDelete(x) => x.timestamp,
        GenericEvent::FileRead(x) => x.timestamp,
        GenericEvent::FileWrite(x) => x.timestamp,
        GenericEvent::ProcessOutboundConnectionLog(x) => x.timestamp,
        GenericEvent::ProcessInboundConnectionLog(x) => x.timestamp,
        GenericEvent::ProcessPortBindLog(x) => x.timestamp,
    }
}

pub open spec fn is_supported(e: GenericEvent) -> bool {
    !(e is ProcessPortBindLog)
}

/// True unless the event is of a kind that has no fragment.
pub fn supported(e: &GenericEvent) -> (r: bool)
    ensures
        r == is_supported(*e),
{
    match e {
        GenericEvent::ProcessPortBindLog(_) => false,
        _ => true,
    }
}

/// Builds the fragment of an event; a port bind is refused.
pub fn handle_log(generic_event: GenericEvent) -> (r: Result<Graph, UnsupportedEvent>)
    ensures
        match r {
            Ok(g) => {
                &&& is_supported(generic_event)
                &&& g@.wf()
                &&& g@.nodes.len() > 0
                &&& g@.timestamp == event_timestamp(generic_event)
                &&& g@.node_map() == event_nodes(generic_event)
                &&& g@.edge_set() == event_edges(generic_event)
            },
            Err(_) => !is_supported(generic_event),
        },
{
    match generic_event {
        GenericEvent::ProcessStart(event) => Ok(handle_process_start(event)),
        GenericEvent::ProcessStop(event) => Ok(handle_process_stop(event)),
        GenericEvent::FileCreate(event) => Ok(handle_file_create(event)),
        GenericEvent::FileDelete(event) => Ok(handle_file_delete(event)),
        GenericEvent::FileRead(event) => Ok(handle_file_read(event)),
        GenericEvent::FileWrite(event) => Ok(handle_file_write(event)),
        GenericEvent::ProcessOutboundConnectionLog(event) => Ok(handle_outbound_traffic(event)),
        GenericEvent::ProcessInboundConnectionLog(event) => Ok(handle_inbound_traffic(event)),
        GenericEvent::ProcessPortBindLog(_) => Err(UnsupportedEvent::PortBind),
    }
}

} // verus!
