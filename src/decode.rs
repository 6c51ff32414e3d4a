use vstd::prelude::*;
use vstd::utf8::{decode_utf8, encode_utf8, encode_utf8_decode_utf8};
use crate::encode::{
    edge_bytes, edges_bytes, graph_bytes, key_bytes, name_bytes, node_bytes, nodes_bytes,
    state_byte, str_bytes, u64_le,
};
use crate::graph::{EdgeV, GraphV, NodeKeyV, NodeState, NodeV};

verus! {

/// The integer that eight bytes, least significant first, stand for.
pub open spec fn le_value(b: Seq<u8>) -> u64 {
    (b[0] as u64) | ((b[1] as u64) << 8u64) | ((b[2] as u64) << 16u64) | ((b[3] as u64) << 24u64)
        | ((b[4] as u64) << 32u64) | ((b[5] as u64) << 40u64) | ((b[6] as u64) << 48u64) | ((
    b[7] as u64) << 56u64)
}

/// Reads an integer from the front of `b`, giving it and the bytes after it.
#[verifier::opaque]
pub open spec fn parse_u64(b: Seq<u8>) -> Option<(u64, Seq<u8>)> {
    if b.len() >= 8 {
        Some((le_value(b), b.subrange(8, b.len() as int)))
    } else {
        None
    }
}

/// Reads a length-prefixed UTF-8 string from the front of `b`.
#[verifier::opaque]
pub open spec fn parse_str(b: Seq<u8>) -> Option<(Seq<char>, Seq<u8>)> {
    match parse_u64(b) {
        Some((n, r)) => if n <= r.len() {
            Some((decode_utf8(r.subrange(0, n as int)), r.subrange(n as int, r.len() as int)))
        } else {
            None
        },
        None => None,
    }
}

/// A string whose UTF-8 length fits the length prefix.
pub open spec fn fits(s: Seq<char>) -> bool {
    encode_utf8(s).len() <= u64::MAX
}

pub proof fn lemma_parse_u64(x: u64, r: Seq<u8>)
    ensures
        parse_u64(u64_le(x) + r) == Some((x, r)),
{
    reveal(parse_u64);
    let b = u64_le(x) + r;
    assert(b[0] == x as u8 && b[1] == (x >> 8) as u8 && b[2] == (x >> 16) as u8);
    assert(b[3] == (x >> 24) as u8 && b[4] == (x >> 32) as u8 && b[5] == (x >> 40) as u8);
    assert(b[6] == (x >> 48) as u8 && b[7] == (x >> 56) as u8);
    assert(x == ((x as u8) as u64)
        | (((x >> 8u64) as u8) as u64) << 8u64
        | (((x >> 16u64) as u8) as u64) << 16u64
        | (((x >> 24u64) as u8) as u64) << 24u64
        | (((x >> 32u64) as u8) as u64) << 32u64
        | (((x >> 40u64) as u8) as u64) << 40u64
        | (((x >> 48u64) as u8) as u64) << 48u64
        | (((x >> 56u64) as u8) as u64) << 56u64) by (bit_vector);
    assert(b.subrange(8, b.len() as int) =~= r);
}

pub proof fn lemma_parse_str(s: Seq<char>, r: Seq<u8>)
    requires
        fits(s),
    ensures
        parse_str(str_bytes(s) + r) == Some((s, r)),
{
    reveal(parse_str);
    let e = encode_utf8(s);
    let n = e.len() as u64;
    assert(str_bytes(s) + r =~= u64_le(n) + (e + r));
    lemma_parse_u64(n, e + r);
    assert((e + r).subrange(0, n as int) =~= e);
    assert((e + r).subrange(n as int, (e + r).len() as int) =~= r);
    encode_utf8_decode_utf8(s);
}

} // verus!

verus! {

#[verifier::opaque]
pub open spec fn parse_port(b: Seq<u8>) -> Option<(u32, Seq<u8>)> {
    match parse_u64(b) {
        Some((v, r)) => if v <= u32::MAX {
            Some((v as u32, r))
        } else {
            None
        },
        None => None,
    }
}

/// Reads a node key: its kind tag, then its fields.
#[verifier::opaque]
pub open spec fn parse_key(b: Seq<u8>) -> Option<(NodeKeyV, Seq<u8>)> {
    if b.len() == 0 {
        None
    } else {
        let t = b[0];
        let b1 = b.subrange(1, b.len() as int);
        if t == 0 {
            match parse_str(b1) {
                Some((hostname, r)) => Some((NodeKeyV::Asset { hostname }, r)),
                None => None,
            }
        } else if t == 1 {
            match parse_str(b1) {
                Some((hostname, r1)) => match parse_u64(r1) {
                    Some((process_id, r)) => Some((NodeKeyV::Process { hostname, process_id }, r)),
                    None => None,
                },
                None => None,
            }
        } else if t == 2 {
            match parse_str(b1) {
                Some((hostname, r1)) => match parse_str(r1) {
                    Some((path, r)) => Some((NodeKeyV::File { hostname, path }, r)),
                    None => None,
                },
                None => None,
            }
        } else if t == 3 {
            match parse_str(b1) {
                Some((ip_address, r)) => Some((NodeKeyV::IpAddress { ip_address }, r)),
                None => None,
            }
        } else if t == 4 {
            match parse_str(b1) {
                Some((ip_address, r1)) => match parse_port(r1) {
                    Some((port, r2)) => match parse_str(r2) {
                        Some((protocol, r)) => Some(
                            (NodeKeyV::IpPort { ip_address, port, protocol }, r),
                        ),
                        None => None,
                    },
                    None => None,
                },
                None => None,
            }
        } else if t == 5 {
            match parse_str(b1) {
                Some((src_ip_address, r1)) => match parse_port(r1) {
                    Some((src_port, r2)) => match parse_str(r2) {
                        Some((dst_ip_address, r3)) => match parse_port(r3) {
                            Some((dst_port, r4)) => match parse_str(r4) {
                                Some((protocol, r)) => Some(
                                    (
                                        NodeKeyV::NetworkConnection {
                                            src_ip_address,
                                            src_port,
                                            dst_ip_address,
                                            dst_port,
                                            protocol,
                                        },
                                        r,
                                    ),
                                ),
                                None => None,
                            },
                            None => None,
                        },
                        None => None,
                    },
                    None => None,
                },
                None => None,
            }
        } else if t == 6 || t == 7 {
            match parse_str(b1) {
                Some((hostname, r1)) => match parse_str(r1) {
                    Some((ip_address, r2)) => match parse_port(r2) {
                        Some((port, r3)) => match parse_str(r3) {
                            Some((protocol, r)) => if t == 6 {
                                Some(
                                    (
                                        NodeKeyV::ProcessOutboundConnection {
                                            hostname,
                                            ip_address,
                                            port,
                                            protocol,
                                        },
                                        r,
                                    ),
                                )
                            } else {
                                Some(
                                    (
                                        NodeKeyV::ProcessInboundConnection {
                                            hostname,
                                            ip_address,
                                            port,
                                            protocol,
                                        },
                                        r,
                                    ),
                                )
                            },
                            None => None,
                        },
                        None => None,
                    },
                    None => None,
                },
                None => None,
            }
        } else {
            None
        }
    }
}

/// Every string of the key fits its length prefix.
pub open spec fn key_fits(k: NodeKeyV) -> bool {
    match k {
        NodeKeyV::Asset { hostname } => fits(hostname),
        NodeKeyV::Process { hostname, .. } => fits(hostname),
        NodeKeyV::File { hostname, path } => fits(hostname) && fits(path),
        NodeKeyV::IpAddress { ip_address } => fits(ip_address),
        NodeKeyV::IpPort { ip_address, protocol, .. } => fits(ip_address) && fits(protocol),
        NodeKeyV::NetworkConnection { src_ip_address, dst_ip_address, protocol, .. } => fits(
            src_ip_address,
        ) && fits(dst_ip_address) && fits(protocol),
        NodeKeyV::ProcessOutboundConnection { hostname, ip_address, protocol, .. } => fits(hostname)
            && fits(ip_address) && fits(protocol),
        NodeKeyV::ProcessInboundConnection { hostname, ip_address, protocol, .. } => fits(hostname)
            && fits(ip_address) && fits(protocol),
    }
}

proof fn lemma_tag(t: u8, rest: Seq<u8>)
    ensures
        (seq![t] + rest).len() > 0,
        (seq![t] + rest)[0] == t,
        (seq![t] + rest).subrange(1, (seq![t] + rest).len() as int) == rest,
{
    assert((seq![t] + rest).subrange(1, (seq![t] + rest).len() as int) =~= rest);
}

proof fn lemma_parse_port(p: u32, r: Seq<u8>)
    ensures
        parse_port(u64_le(p as u64) + r) == Some((p, r)),
{
    reveal(parse_port);
    lemma_parse_u64(p as u64, r);
}

proof fn lemma_parse_key_asset(k: NodeKeyV, r: Seq<u8>)
    requires
        key_fits(k),
        k is Asset,
    ensures
        parse_key(key_bytes(k) + r) == Some((k, r)),
{
    reveal(parse_key);
    match k {
        NodeKeyV::Asset { hostname } => {
            assert(key_bytes(k) + r =~= seq![0u8] + (str_bytes(hostname) + r));
            lemma_tag(0, str_bytes(hostname) + r);
            lemma_parse_str(hostname, r);
        },
        _ => {},
    }
}

proof fn lemma_parse_key_process(k: NodeKeyV, r: Seq<u8>)
    requires
        key_fits(k),
        k is Process,
    ensures
        parse_key(key_bytes(k) + r) == Some((k, r)),
{
    reveal(parse_key);
    match k {
        NodeKeyV::Process { hostname, process_id } => {
            let tail = u64_le(process_id) + r;
            assert(key_bytes(k) + r =~= seq![1u8] + (str_bytes(hostname) + tail));
            lemma_tag(1, str_bytes(hostname) + tail);
            lemma_parse_str(hostname, tail);
            lemma_parse_u64(process_id, r);
        },
        _ => {},
    }
}

proof fn lemma_parse_key_file(k: NodeKeyV, r: Seq<u8>)
    requires
        key_fits(k),
        k is File,
    ensures
        parse_key(key_bytes(k) + r) == Some((k, r)),
{
    reveal(parse_key);
    match k {
        NodeKeyV::File { hostname, path } => {
            let tail = str_bytes(path) + r;
            assert(key_bytes(k) + r =~= seq![2u8] + (str_bytes(hostname) + tail));
            lemma_tag(2, str_bytes(hostname) + tail);
            lemma_parse_str(hostname, tail);
            lemma_parse_str(path, r);
        },
        _ => {},
    }
}

proof fn lemma_parse_key_ip_address(k: NodeKeyV, r: Seq<u8>)
    requires
        key_fits(k),
        k is IpAddress,
    ensures
        parse_key(key_bytes(k) + r) == Some((k, r)),
{
    reveal(parse_key);
    match k {
        NodeKeyV::IpAddress { ip_address } => {
            assert(key_bytes(k) + r =~= seq![3u8] + (str_bytes(ip_address) + r));
            lemma_tag(3, str_bytes(ip_address) + r);
            lemma_parse_str(ip_address, r);
        },
        _ => {},
    }
}

proof fn lemma_parse_key_ip_port(k: NodeKeyV, r: Seq<u8>)
    requires
        key_fits(k),
        k is IpPort,
    ensures
        parse_key(key_bytes(k) + r) == Some((k, r)),
{
    reveal(parse_key);
    match k {
        NodeKeyV::IpPort { ip_address, port, protocol } => {
            let t2 = str_bytes(protocol) + r;
            let t1 = u64_le(port as u64) + t2;
            assert(key_bytes(k) + r =~= seq![4u8] + (str_bytes(ip_address) + t1));
            lemma_tag(4, str_bytes(ip_address) + t1);
            lemma_parse_str(ip_address, t1);
            lemma_parse_port(port, t2);
            lemma_parse_str(protocol, r);
        },
        _ => {},
    }
}

proof fn lemma_parse_key_network_connection(k: NodeKeyV, r: Seq<u8>)
    requires
        key_fits(k),
        k is NetworkConnection,
    ensures
        parse_key(key_bytes(k) + r) == Some((k, r)),
{
    reveal(parse_key);
    match k {
        NodeKeyV::NetworkConnection {
            src_ip_address,
            src_port,
            dst_ip_address,
            dst_port,
            protocol,
        } => {
            let t4 = str_bytes(protocol) + r;
            let t3 = u64_le(dst_port as u64) + t4;
            let t2 = str_bytes(dst_ip_address) + t3;
            let t1 = u64_le(src_port as u64) + t2;
            assert(key_bytes(k) + r =~= seq![5u8] + (str_bytes(src_ip_address) + t1));
            lemma_tag(5, str_bytes(src_ip_address) + t1);
            lemma_parse_str(src_ip_address, t1);
            lemma_parse_port(src_port, t2);
            lemma_parse_str(dst_ip_address, t3);
            lemma_parse_port(dst_port, t4);
            lemma_parse_str(protocol, r);
        },
        _ => {},
    }
}

proof fn lemma_parse_key_process_outbound_connection(k: NodeKeyV, r: Seq<u8>)
    requires
        key_fits(k),
        k is ProcessOutboundConnection,
    ensures
        parse_key(key_bytes(k) + r) == Some((k, r)),
{
    reveal(parse_key);
    match k {
        NodeKeyV::ProcessOutboundConnection { hostname, ip_address, port, protocol } => {
            let t3 = str_bytes(protocol) + r;
            let t2 = u64_le(port as u64) + t3;
            let t1 = str_bytes(ip_address) + t2;
            assert(key_bytes(k) + r =~= seq![6u8] + (str_bytes(hostname) + t1));
            lemma_tag(6, str_bytes(hostname) + t1);
            lemma_parse_str(hostname, t1);
            lemma_parse_str(ip_address, t2);
            lemma_parse_port(port, t3);
            lemma_parse_str(protocol, r);
        },
        _ => {},
    }
}

proof fn lemma_parse_key_process_inbound_connection(k: NodeKeyV, r: Seq<u8>)
    requires
        key_fits(k),
        k is ProcessInboundConnection,
    ensures
        parse_key(key_bytes(k) + r) == Some((k, r)),
{
    reveal(parse_key);
    match k {
        NodeKeyV::ProcessInboundConnection { hostname, ip_address, port, protocol } => {
            let t3 = str_bytes(protocol) + r;
            let t2 = u64_le(port as u64) + t3;
            let t1 = str_bytes(ip_address) + t2;
            assert(key_bytes(k) + r =~= seq![7u8] + (str_bytes(hostname) + t1));
            lemma_tag(7, str_bytes(hostname) + t1);
            lemma_parse_str(hostname, t1);
            lemma_parse_str(ip_address, t2);
            lemma_parse_port(port, t3);
            lemma_parse_str(protocol, r);
        },
        _ => {},
    }
}

pub proof fn lemma_parse_key(k: NodeKeyV, r: Seq<u8>)
    requires
        key_fits(k),
    ensures
        parse_key(key_bytes(k) + r) == Some((k, r)),
{
    match k {
        NodeKeyV::Asset { .. } => lemma_parse_key_asset(k, r),
        NodeKeyV::Process { .. } => lemma_parse_key_process(k, r),
        NodeKeyV::File { .. } => lemma_parse_key_file(k, r),
        NodeKeyV::IpAddress { .. } => lemma_parse_key_ip_address(k, r),
        NodeKeyV::IpPort { .. } => lemma_parse_key_ip_port(k, r),
        NodeKeyV::NetworkConnection { .. } => lemma_parse_key_network_connection(k, r),
        NodeKeyV::ProcessOutboundConnection { .. } => {
            lemma_parse_key_process_outbound_connection(k, r)
        },
        NodeKeyV::ProcessInboundConnection { .. } => {
            lemma_parse_key_process_inbound_connection(k, r)
        },
    }
}

} // verus!

verus! {

pub open spec fn parse_state(b: Seq<u8>) -> Option<(NodeState, Seq<u8>)> {
    if b.len() == 0 {
        None
    } else {
        let r = b.subrange(1, b.len() as int);
        if b[0] == 0 {
            Some((NodeState::Unspecified, r))
        } else if b[0] == 1 {
            Some((NodeState::Existing, r))
        } else if b[0] == 2 {
            Some((NodeState::Connected, r))
        } else if b[0] == 3 {
            Some((NodeState::Created, r))
        } else if b[0] == 4 {
            Some((NodeState::Deleted, r))
        } else if b[0] == 5 {
            Some((NodeState::Terminated, r))
        } else {
            None
        }
    }
}

pub open spec fn parse_name(b: Seq<u8>) -> Option<(Option<Seq<char>>, Seq<u8>)> {
    if b.len() == 0 {
        None
    } else {
        let r = b.subrange(1, b.len() as int);
        if b[0] == 0 {
            Some((None, r))
        } else if b[0] == 1 {
            match parse_str(r) {
                Some((n, r2)) => Some((Some(n), r2)),
                None => None,
            }
        } else {
            None
        }
    }
}

#[verifier::opaque]
pub open spec fn parse_node(b: Seq<u8>) -> Option<(NodeV, Seq<u8>)> {
    match parse_key(b) {
        Some((key, r1)) => match parse_state(r1) {
            Some((state, r2)) => match parse_name(r2) {
                Some((name, r3)) => match parse_u64(r3) {
                    Some((created, r4)) => match parse_u64(r4) {
                        Some((last_seen, r5)) => match parse_u64(r5) {
                            Some((terminated, r)) => Some(
                                (NodeV { key, state, name, created, last_seen, terminated }, r),
                            ),
                            None => None,
                        },
                        None => None,
                    },
                    None => None,
                },
                None => None,
            },
            None => None,
        },
        None => None,
    }
}

#[verifier::opaque]
pub open spec fn parse_edge(b: Seq<u8>) -> Option<(EdgeV, Seq<u8>)> {
    match parse_str(b) {
        Some((label, r1)) => match parse_key(r1) {
            Some((from, r2)) => match parse_key(r2) {
                Some((to, r)) => Some((EdgeV { label, from, to }, r)),
                None => None,
            },
            None => None,
        },
        None => None,
    }
}

pub open spec fn node_fits(n: NodeV) -> bool {
    &&& key_fits(n.key)
    &&& match n.name {
        Some(s) => fits(s),
        None => true,
    }
}

pub open spec fn edge_fits(e: EdgeV) -> bool {
    fits(e.label) && key_fits(e.from) && key_fits(e.to)
}

proof fn lemma_parse_node(n: NodeV, r: Seq<u8>)
    requires
        node_fits(n),
    ensures
        parse_node(node_bytes(n) + r) == Some((n, r)),
{
    reveal(parse_node);
    let t5 = u64_le(n.terminated) + r;
    let t4 = u64_le(n.last_seen) + t5;
    let t3 = u64_le(n.created) + t4;
    let t2 = name_bytes(n.name) + t3;
    let t1 = seq![state_byte(n.state)] + t2;
    assert(node_bytes(n) + r =~= key_bytes(n.key) + t1);
    lemma_parse_key(n.key, t1);
    lemma_tag(state_byte(n.state), t2);
    match n.name {
        Some(x) => {
            assert(name_bytes(n.name) + t3 =~= seq![1u8] + (str_bytes(x) + t3));
            lemma_tag(1, str_bytes(x) + t3);
            lemma_parse_str(x, t3);
        },
        None => {
            lemma_tag(0, t3);
        },
    }
    lemma_parse_u64(n.created, t4);
    lemma_parse_u64(n.last_seen, t5);
    lemma_parse_u64(n.terminated, r);
}

proof fn lemma_parse_edge(e: EdgeV, r: Seq<u8>)
    requires
        edge_fits(e),
    ensures
        parse_edge(edge_bytes(e) + r) == Some((e, r)),
{
    reveal(parse_edge);
    let t2 = key_bytes(e.to) + r;
    let t1 = key_bytes(e.from) + t2;
    assert(edge_bytes(e) + r =~= str_bytes(e.label) + t1);
    lemma_parse_str(e.label, t1);
    lemma_parse_key(e.from, t2);
    lemma_parse_key(e.to, r);
}

/// Reads `n` nodes one after the other.
pub open spec fn parse_nodes(b: Seq<u8>, n: nat) -> Option<(Seq<NodeV>, Seq<u8>)>
    decreases n,
{
    if n == 0 {
        Some((Seq::empty(), b))
    } else {
        match parse_node(b) {
            Some((x, r)) => match parse_nodes(r, (n - 1) as nat) {
                Some((xs, r2)) => Some((seq![x] + xs, r2)),
                None => None,
            },
            None => None,
        }
    }
}

/// Reads `n` edges one after the other.
pub open spec fn parse_edges(b: Seq<u8>, n: nat) -> Option<(Seq<EdgeV>, Seq<u8>)>
    decreases n,
{
    if n == 0 {
        Some((Seq::empty(), b))
    } else {
        match parse_edge(b) {
            Some((x, r)) => match parse_edges(r, (n - 1) as nat) {
                Some((xs, r2)) => Some((seq![x] + xs, r2)),
                None => None,
            },
            None => None,
        }
    }
}

proof fn lemma_parse_nodes(s: Seq<NodeV>, r: Seq<u8>)
    requires
        forall|i: int| 0 <= i < s.len() ==> node_fits(#[trigger] s[i]),
    ensures
        parse_nodes(nodes_bytes(s) + r, s.len()) == Some((s, r)),
    decreases s.len(),
{
    if s.len() > 0 {
        let rest = s.subrange(1, s.len() as int);
        let parts = s.map_values(|x: NodeV| node_bytes(x));
        assert(parts.drop_first() =~= rest.map_values(|x: NodeV| node_bytes(x)));
        assert(nodes_bytes(s) == node_bytes(s[0]) + nodes_bytes(rest));
        assert(nodes_bytes(s) + r =~= node_bytes(s[0]) + (nodes_bytes(rest) + r));
        assert(node_fits(s[0]));
        lemma_parse_node(s[0], nodes_bytes(rest) + r);
        assert forall|i: int| 0 <= i < rest.len() implies node_fits(#[trigger] rest[i]) by {
            assert(rest[i] == s[i + 1]);
        }
        lemma_parse_nodes(rest, r);
        assert(seq![s[0]] + rest =~= s);
    } else {
        assert(s.map_values(|x: NodeV| node_bytes(x)) =~= Seq::<Seq<u8>>::empty());
        assert(nodes_bytes(s) + r =~= r);
        assert(s =~= Seq::<NodeV>::empty());
    }
}

proof fn lemma_parse_edges(s: Seq<EdgeV>, r: Seq<u8>)
    requires
        forall|i: int| 0 <= i < s.len() ==> edge_fits(#[trigger] s[i]),
    ensures
        parse_edges(edges_bytes(s) + r, s.len()) == Some((s, r)),
    decreases s.len(),
{
    if s.len() > 0 {
        let rest = s.subrange(1, s.len() as int);
        let parts = s.map_values(|x: EdgeV| edge_bytes(x));
        assert(parts.drop_first() =~= rest.map_values(|x: EdgeV| edge_bytes(x)));
        assert(edges_bytes(s) == edge_bytes(s[0]) + edges_bytes(rest));
        assert(edges_bytes(s) + r =~= edge_bytes(s[0]) + (edges_bytes(rest) + r));
        assert(edge_fits(s[0]));
        lemma_parse_edge(s[0], edges_bytes(rest) + r);
        assert forall|i: int| 0 <= i < rest.len() implies edge_fits(#[trigger] rest[i]) by {
            assert(rest[i] == s[i + 1]);
        }
        lemma_parse_edges(rest, r);
        assert(seq![s[0]] + rest =~= s);
    } else {
        assert(s.map_values(|x: EdgeV| edge_bytes(x)) =~= Seq::<Seq<u8>>::empty());
        assert(edges_bytes(s) + r =~= r);
        assert(s =~= Seq::<EdgeV>::empty());
    }
}

/// Reads a whole graph; `None` where the bytes are not exactly one graph's encoding.
pub open spec fn parse_graph(b: Seq<u8>) -> Option<GraphV> {
    match parse_u64(b) {
        Some((n, r1)) => match parse_nodes(r1, n as nat) {
            Some((nodes, r2)) => match parse_u64(r2) {
                Some((m, r3)) => match parse_edges(r3, m as nat) {
                    Some((edges, r4)) => match parse_u64(r4) {
                        Some((timestamp, r)) => if r.len() == 0 {
                            Some(GraphV { nodes, edges, timestamp })
                        } else {
                            None
                        },
                        None => None,
                    },
                    None => None,
                },
                None => None,
            },
            None => None,
        },
        None => None,
    }
}

/// Every count and string of the graph fits its length prefix.
pub open spec fn graph_fits(g: GraphV) -> bool {
    &&& g.nodes.len() <= u64::MAX
    &&& g.edges.len() <= u64::MAX
    &&& forall|i: int| 0 <= i < g.nodes.len() ==> node_fits(#[trigger] g.nodes[i])
    &&& forall|i: int| 0 <= i < g.edges.len() ==> edge_fits(#[trigger] g.edges[i])
}

/// Reading back the encoding of a graph gives that graph.
pub proof fn lemma_graph_round_trip(g: GraphV)
    requires
        graph_fits(g),
    ensures
        parse_graph(graph_bytes(g)) == Some(g),
{
    let e = Seq::<u8>::empty();
    let t4 = u64_le(g.timestamp);
    let t3 = edges_bytes(g.edges) + t4;
    let t2 = u64_le(g.edges.len() as u64) + t3;
    let t1 = nodes_bytes(g.nodes) + t2;
    assert(graph_bytes(g) =~= u64_le(g.nodes.len() as u64) + t1);
    lemma_parse_u64(g.nodes.len() as u64, t1);
    lemma_parse_nodes(g.nodes, t2);
    lemma_parse_u64(g.edges.len() as u64, t3);
    lemma_parse_edges(g.edges, t4);
    assert(t4 =~= t4 + e);
    lemma_parse_u64(g.timestamp, e);
}

} // verus!
