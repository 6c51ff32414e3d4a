use vstd::prelude::*;
use vstd::utf8::encode_utf8;
use crate::graph::{EdgeV, Graph, GraphV, NodeKey, NodeKeyV, NodeState, NodeV};

verus! {

/// A 64-bit integer as eight bytes, least significant first.
pub open spec fn u64_le(x: u64) -> Seq<u8> {
    seq![
        x as u8,
        (x >> 8) as u8,
        (x >> 16) as u8,
        (x >> 24) as u8,
        (x >> 32) as u8,
        (x >> 40) as u8,
        (x >> 48) as u8,
        (x >> 56) as u8,
    ]
}

/// A string as the length of its UTF-8 bytes followed by those bytes.
pub open spec fn str_bytes(s: Seq<char>) -> Seq<u8> {
    u64_le(encode_utf8(s).len() as u64) + encode_utf8(s)
}

pub open spec fn key_bytes(k: NodeKeyV) -> Seq<u8> {
    match k {
        NodeKeyV::Asset { hostname } => seq![0u8] + str_bytes(hostname),
        NodeKeyV::Process { hostname, process_id } => seq![1u8] + str_bytes(hostname) + u64_le(
            process_id,
        ),
        NodeKeyV::File { hostname, path } => seq![2u8] + str_bytes(hostname) + str_bytes(path),
        NodeKeyV::IpAddress { ip_address } => seq![3u8] + str_bytes(ip_address),
        NodeKeyV::IpPort { ip_address, port, protocol } => seq![4u8] + str_bytes(ip_address)
            + u64_le(port as u64) + str_bytes(protocol),
        NodeKeyV::NetworkConnection {
            src_ip_address,
            src_port,
            dst_ip_address,
            dst_port,
            protocol,
        } => seq![5u8] + str_bytes(src_ip_address) + u64_le(src_port as u64) + str_bytes(
            dst_ip_address,
        ) + u64_le(dst_port as u64) + str_bytes(protocol),
        NodeKeyV::ProcessOutboundConnection { hostname, ip_address, port, protocol } => seq![6u8]
            + str_bytes(hostname) + str_bytes(ip_address) + u64_le(port as u64) + str_bytes(
            protocol,
        ),
        NodeKeyV::ProcessInboundConnection { hostname, ip_address, port, protocol } => seq![7u8]
            + str_bytes(hostname) + str_bytes(ip_address) + u64_le(port as u64) + str_bytes(
            protocol,
        ),
    }
}

pub open spec fn state_byte(s: NodeState) -> u8 {
    match s {
        NodeState::Unspecified => 0,
        NodeState::Existing => 1,
        NodeState::Connected => 2,
        NodeState::Created => 3,
        NodeState::Deleted => 4,
        NodeState::Terminated => 5,
    }
}

pub open spec fn name_bytes(n: Option<Seq<char>>) -> Seq<u8> {
    match n {
        Some(s) => seq![1u8] + str_bytes(s),
        None => seq![0u8],
    }
}

pub open spec fn node_bytes(n: NodeV) -> Seq<u8> {
    key_bytes(n.key) + seq![state_byte(n.state)] + name_bytes(n.name) + u64_le(n.created) + u64_le(
        n.last_seen,
    ) + u64_le(n.terminated)
}

pub open spec fn edge_bytes(e: EdgeV) -> Seq<u8> {
    str_bytes(e.label) + key_bytes(e.from) + key_bytes(e.to)
}

/// The nodes' encodings one after the other.
pub open spec fn nodes_bytes(s: Seq<NodeV>) -> Seq<u8> {
    s.map_values(|n: NodeV| node_bytes(n)).flatten()
}

/// The edges' encodings one after the other.
pub open spec fn edges_bytes(s: Seq<EdgeV>) -> Seq<u8> {
    s.map_values(|e: EdgeV| edge_bytes(e)).flatten()
}

/// A graph as bytes: the node count and the nodes, the edge count and the
/// edges, then the timestamp.
pub open spec fn graph_bytes(g: GraphV) -> Seq<u8> {
    u64_le(g.nodes.len() as u64) + nodes_bytes(g.nodes) + u64_le(g.edges.len() as u64)
        + edges_bytes(g.edges) + u64_le(g.timestamp)
}

fn put_u64(out: &mut Vec<u8>, x: u64)
    ensures
        final(out)@ == old(out)@ + u64_le(x),
{
    out.push(x as u8);
    out.push((x >> 8) as u8);
    out.push((x >> 16) as u8);
    out.push((x >> 24) as u8);
    out.push((x >> 32) as u8);
    out.push((x >> 40) as u8);
    out.push((x >> 48) as u8);
    out.push((x >> 56) as u8);
    assert(out@ =~= old(out)@ + u64_le(x));
}

fn put_byte(out: &mut Vec<u8>, b: u8)
    ensures
        final(out)@ == old(out)@ + seq![b],
{
    out.push(b);
    assert(out@ =~= old(out)@ + seq![b]);
}

fn put_str(out: &mut Vec<u8>, s: &String)
    ensures
        final(out)@ == old(out)@ + str_bytes(s@),
{
    let b = s.as_str().as_bytes();
    let ghost start = out@;
    put_u64(out, b.len() as u64);
    let ghost mid = out@;
    let mut i: usize = 0;
    while i < b.len()
        invariant
            i <= b@.len(),
            b@ == encode_utf8(s@),
            mid == start + u64_le(b@.len() as u64),
            out@ == mid + b@.subrange(0, i as int),
        decreases b@.len() - i,
    {
        out.push(b[i]);
        assert(out@ =~= mid + b@.subrange(0, i + 1));
        i = i + 1;
    }
    assert(b@.subrange(0, b@.len() as int) =~= b@);
    assert(out@ =~= start + str_bytes(s@));
}

fn put_key(out: &mut Vec<u8>, k: &NodeKey)
    ensures
        final(out)@ == old(out)@ + key_bytes(k@),
{
    let ghost start = out@;
    match k {
        NodeKey::Asset { hostname } => {
            put_byte(out, 0);
            put_str(out, hostname);
        },
        NodeKey::Process { hostname, process_id } => {
            put_byte(out, 1);
            put_str(out, hostname);
            put_u64(out, *process_id);
        },
        NodeKey::File { hostname, path } => {
            put_byte(out, 2);
            put_str(out, hostname);
            put_str(out, path);
        },
        NodeKey::IpAddress { ip_address } => {
            put_byte(out, 3);
            put_str(out, ip_address);
        },
        NodeKey::IpPort { ip_address, port, protocol } => {
            put_byte(out, 4);
            put_str(out, ip_address);
            put_u64(out, *port as u64);
            put_str(out, protocol);
        },
        NodeKey::NetworkConnection { src_ip_address, src_port, dst_ip_address, dst_port, protocol } => {
            put_byte(out, 5);
            put_str(out, src_ip_address);
            put_u64(out, *src_port as u64);
            put_str(out, dst_ip_address);
            put_u64(out, *dst_port as u64);
            put_str(out, protocol);
        },
        NodeKey::ProcessOutboundConnection { hostname, ip_address, port, protocol } => {
            put_byte(out, 6);
            put_str(out, hostname);
            put_str(out, ip_address);
            put_u64(out, *port as u64);
            put_str(out, protocol);
        },
        NodeKey::ProcessInboundConnection { hostname, ip_address, port, protocol } => {
            put_byte(out, 7);
            put_str(out, hostname);
            put_str(out, ip_address);
            put_u64(out, *port as u64);
            put_str(out, protocol);
        },
    }
    assert(out@ =~= start + key_bytes(k@));
}

fn state_code(s: NodeState) -> (r: u8)
    ensures
        r == state_byte(s),
{
    match s {
        NodeState::Unspecified => 0,
        NodeState::Existing => 1,
        NodeState::Connected => 2,
        NodeState::Created => 3,
        NodeState::Deleted => 4,
        NodeState::Terminated => 5,
    }
}

fn put_node(out: &mut Vec<u8>, n: &crate::graph::Node)
    ensures
        final(out)@ == old(out)@ + node_bytes(n@),
{
    let ghost start = out@;
    put_key(out, &n.key);
    put_byte(out, state_code(n.state));
    match &n.name {
        Some(s) => {
            put_byte(out, 1);
            put_str(out, s);
        },
        None => {
            put_byte(out, 0);
        },
    }
    put_u64(out, n.created);
    put_u64(out, n.last_seen);
    put_u64(out, n.terminated);
    assert(out@ =~= start + node_bytes(n@));
}

fn put_edge(out: &mut Vec<u8>, e: &crate::graph::Edge)
    ensures
        final(out)@ == old(out)@ + edge_bytes(e@),
{
    let ghost start = out@;
    put_str(out, &e.label);
    put_key(out, &e.from);
    put_key(out, &e.to);
    assert(out@ =~= start + edge_bytes(e@));
}

/// Appends the encoding of `g` to `out`.
pub fn encode_graph(g: &Graph, out: &mut Vec<u8>)
    ensures
        final(out)@ == old(out)@ + graph_bytes(g@),
{
    let ghost start = out@;
    put_u64(out, g.nodes.len() as u64);
    let ghost after_count = out@;
    let mut i: usize = 0;
    while i < g.nodes.len()
        invariant
            i <= g@.nodes.len(),
            after_count == start + u64_le(g@.nodes.len() as u64),
            out@ == after_count + nodes_bytes(g@.nodes.take(i as int)),
        decreases g.nodes.len() - i,
    {
        let n = &g.nodes[i];
        put_node(out, n);
        proof {
            let t = g@.nodes.take(i + 1);
            let pre = g@.nodes.take(i as int).map_values(|x: NodeV| node_bytes(x));
            assert(t.map_values(|x: NodeV| node_bytes(x)) =~= pre.push(node_bytes(n@)));
            pre.lemma_flatten_push(node_bytes(n@));
            assert(out@ =~= after_count + nodes_bytes(t));
        }
        i = i + 1;
    }
    assert(g@.nodes.take(i as int) =~= g@.nodes);
    put_u64(out, g.edges.len() as u64);
    let ghost after_nodes = out@;
    let mut j: usize = 0;
    while j < g.edges.len()
        invariant
            j <= g@.edges.len(),
            out@ == after_nodes + edges_bytes(g@.edges.take(j as int)),
        decreases g.edges.len() - j,
    {
        let e = &g.edges[j];
        put_edge(out, e);
        proof {
            let t = g@.edges.take(j + 1);
            let pre = g@.edges.take(j as int).map_values(|x: EdgeV| edge_bytes(x));
            assert(t.map_values(|x: EdgeV| edge_bytes(x)) =~= pre.push(edge_bytes(e@)));
            pre.lemma_flatten_push(edge_bytes(e@));
            assert(out@ =~= after_nodes + edges_bytes(t));
        }
        j = j + 1;
    }
    assert(g@.edges.take(j as int) =~= g@.edges);
    put_u64(out, g.timestamp);
    assert(out@ =~= start + graph_bytes(g@));
}

} // verus!
