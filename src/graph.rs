use vstd::prelude::*;

verus! {

/// Lifecycle state carried by a node. Node kinds without a lifecycle use `Unspecified`.
#[derive(Clone, Copy, Debug, PartialEq, Eq, Structural)]
pub enum NodeState {
    Unspecified,
    Existing,
    Connected,
    Created,
    Deleted,
    Terminated,
}

/// How informative a state is: a merge keeps the state of higher rank.
pub open spec fn state_rank(s: NodeState) -> nat {
    match s {
        NodeState::Unspecified => 0,
        NodeState::Existing => 1,
        NodeState::Connected => 2,
        NodeState::Created => 3,
        NodeState::Deleted => 4,
        NodeState::Terminated => 5,
    }
}

fn rank_of(s: NodeState) -> (r: u8)
    ensures
        r as nat == state_rank(s),
{
    match s {
        NodeState::Unspecified => 0,
        NodeState::Existing => 1,
        NodeState::Connected => 2,
        NodeState::Created => 3,
        NodeState::Deleted => 4,
        NodeState::Terminated => 5,
    }
}

/// The identity of a node, made of the semantic fields that name the entity.
#[derive(Clone, Debug)]
pub enum NodeKey {
    Asset { hostname: String },
    Process { hostname: String, process_id: u64 },
    File { hostname: String, path: String },
    IpAddress { ip_address: String },
    IpPort { ip_address: String, port: u32, protocol: String },
    NetworkConnection {
        src_ip_address: String,
        src_port: u32,
        dst_ip_address: String,
        dst_port: u32,
        protocol: String,
    },
    ProcessOutboundConnection { hostname: String, ip_address: String, port: u32, protocol: String },
    ProcessInboundConnection { hostname: String, ip_address: String, port: u32, protocol: String },
}

pub enum NodeKeyV {
    Asset { hostname: Seq<char> },
    Process { hostname: Seq<char>, process_id: u64 },
    File { hostname: Seq<char>, path: Seq<char> },
    IpAddress { ip_address: Seq<char> },
    IpPort { ip_address: Seq<char>, port: u32, protocol: Seq<char> },
    NetworkConnection {
        src_ip_address: Seq<char>,
        src_port: u32,
        dst_ip_address: Seq<char>,
        dst_port: u32,
        protocol: Seq<char>,
    },
    ProcessOutboundConnection {
        hostname: Seq<char>,
        ip_address: Seq<char>,
        port: u32,
        protocol: Seq<char>,
    },
    ProcessInboundConnection {
        hostname: Seq<char>,
        ip_address: Seq<char>,
        port: u32,
        protocol: Seq<char>,
    },
}

impl View for NodeKey {
    type V = NodeKeyV;

    open spec fn view(&self) -> NodeKeyV {
        match self {
            NodeKey::Asset { hostname } => NodeKeyV::Asset { hostname: hostname@ },
            NodeKey::Process { hostname, process_id } => NodeKeyV::Process {
                hostname: hostname@,
                process_id: *process_id,
            },
            NodeKey::File { hostname, path } => NodeKeyV::File { hostname: hostname@, path: path@ },
            NodeKey::IpAddress { ip_address } => NodeKeyV::IpAddress { ip_address: ip_address@ },
            NodeKey::IpPort { ip_address, port, protocol } => NodeKeyV::IpPort {
                ip_address: ip_address@,
                port: *port,
                protocol: protocol@,
            },
            NodeKey::NetworkConnection {
                src_ip_address,
                src_port,
                dst_ip_address,
                dst_port,
                protocol,
            } => NodeKeyV::NetworkConnection {
                src_ip_address: src_ip_address@,
                src_port: *src_port,
                dst_ip_address: dst_ip_address@,
                dst_port: *dst_port,
                protocol: protocol@,
            },
            NodeKey::ProcessOutboundConnection { hostname, ip_address, port, protocol } =>
                NodeKeyV::ProcessOutboundConnection {
                hostname: hostname@,
                ip_address: ip_address@,
                port: *port,
                protocol: protocol@,
            },
            NodeKey::ProcessInboundConnection { hostname, ip_address, port, protocol } =>
                NodeKeyV::ProcessInboundConnection {
                hostname: hostname@,
                ip_address: ip_address@,
                port: *port,
                protocol: protocol@,
            },
        }
    }
}

pub(crate) fn str_eq(a: &String, b: &String) -> (r: bool)
    ensures
        r == (a@ == b@),
{
    *a == *b
}

impl NodeKey {
    /// Compares two identity keys by their semantic fields.
    pub fn same_as(&self, other: &NodeKey) -> (r: bool)
        ensures
            r == (self@ == other@),
    {
        match self {
            NodeKey::Asset { hostname: a } => match other {
                NodeKey::Asset { hostname: b } => str_eq(a, b),
                _ => false,
            },
            NodeKey::Process { hostname: a, process_id: p } => match other {
                NodeKey::Process { hostname: b, process_id: q } => *p == *q && str_eq(a, b),
                _ => false,
            },
            NodeKey::File { hostname: a, path: p } => match other {
                NodeKey::File { hostname: b, path: q } => str_eq(a, b) && str_eq(p, q),
                _ => false,
            },
            NodeKey::IpAddress { ip_address: a } => match other {
                NodeKey::IpAddress { ip_address: b } => str_eq(a, b),
                _ => false,
            },
            NodeKey::IpPort { ip_address: a, port: p, protocol: x } => match other {
                NodeKey::IpPort { ip_address: b, port: q, protocol: y } => *p == *q && str_eq(a, b)
                    && str_eq(x, y),
                _ => false,
            },
            NodeKey::NetworkConnection {
                src_ip_address: a,
                src_port: p,
                dst_ip_address: c,
                dst_port: t,
                protocol: x,
            } => match other {
                NodeKey::NetworkConnection {
                    src_ip_address: b,
                    src_port: q,
                    dst_ip_address: d,
                    dst_port: s,
                    protocol: y,
                } => *p == *q && *t == *s && str_eq(a, b) && str_eq(c, d) && str_eq(x, y),
                _ => false,
            },
            NodeKey::ProcessOutboundConnection { hostname: h, ip_address: a, port: p, protocol: x } =>
                match other {
                NodeKey::ProcessOutboundConnection {
                    hostname: g,
                    ip_address: b,
                    port: q,
                    protocol: y,
                } => *p == *q && str_eq(h, g) && str_eq(a, b) && str_eq(x, y),
                _ => false,
            },
            NodeKey::ProcessInboundConnection { hostname: h, ip_address: a, port: p, protocol: x } =>
                match other {
                NodeKey::ProcessInboundConnection {
                    hostname: g,
                    ip_address: b,
                    port: q,
                    protocol: y,
                } => *p == *q && str_eq(h, g) && str_eq(a, b) && str_eq(x, y),
                _ => false,
            },
        }
    }
}

/// A node of the property graph: its identity key and the attributes observed of it.
/// A timestamp of 0 means that the attribute was not observed.
#[derive(Clone, Debug)]
pub struct Node {
    pub key: NodeKey,
    pub state: NodeState,
    pub name: Option<String>,
    pub created: u64,
    pub last_seen: u64,
    pub terminated: u64,
}

pub struct NodeV {
    pub key: NodeKeyV,
    pub state: NodeState,
    pub name: Option<Seq<char>>,
    pub created: u64,
    pub last_seen: u64,
    pub terminated: u64,
}

pub open spec fn opt_view(o: Option<String>) -> Option<Seq<char>> {
    match o {
        Some(s) => Some(s@),
        None => None,
    }
}

impl View for Node {
    type V = NodeV;

    open spec fn view(&self) -> NodeV {
        NodeV {
            key: self.key@,
            state: self.state,
            name: opt_view(self.name),
            created: self.created,
            last_seen: self.last_seen,
            terminated: self.terminated,
        }
    }
}

pub open spec fn max_u64(a: u64, b: u64) -> u64 {
    if a >= b {
        a
    } else {
        b
    }
}

/// Two observations of one entity folded into one: the state of higher rank wins
/// (the later observation on a tie), a non-empty name observed later replaces an
/// earlier one while an empty one only fills a gap, and each timestamp is the
/// larger of the two.
pub open spec fn combine(a: NodeV, b: NodeV) -> NodeV {
    NodeV {
        key: a.key,
        state: if state_rank(b.state) >= state_rank(a.state) {
            b.state
        } else {
            a.state
        },
        name: if b.name is Some && b.name->Some_0.len() > 0 {
            b.name
        } else if a.name is Some {
            a.name
        } else {
            b.name
        },
        created: max_u64(a.created, b.created),
        last_seen: max_u64(a.last_seen, b.last_seen),
        terminated: max_u64(a.terminated, b.terminated),
    }
}

fn max_of(a: u64, b: u64) -> (r: u64)
    ensures
        r == max_u64(a, b),
{
    if a >= b {
        a
    } else {
        b
    }
}

fn clone_name(o: &Option<String>) -> (r: Option<String>)
    ensures
        opt_view(r) == opt_view(*o),
{
    match o {
        Some(s) => Some(s.clone()),
        None => None,
    }
}

pub(crate) fn clone_key(k: &NodeKey) -> (r: NodeKey)
    ensures
        r@ == k@,
{
    match k {
        NodeKey::Asset { hostname } => NodeKey::Asset { hostname: hostname.clone() },
        NodeKey::Process { hostname, process_id } => NodeKey::Process {
            hostname: hostname.clone(),
            process_id: *process_id,
        },
        NodeKey::File { hostname, path } => NodeKey::File {
            hostname: hostname.clone(),
            path: path.clone(),
        },
        NodeKey::IpAddress { ip_address } => NodeKey::IpAddress { ip_address: ip_address.clone() },
        NodeKey::IpPort { ip_address, port, protocol } => NodeKey::IpPort {
            ip_address: ip_address.clone(),
            port: *port,
            protocol: protocol.clone(),
        },
        NodeKey::NetworkConnection { src_ip_address, src_port, dst_ip_address, dst_port, protocol } =>
            NodeKey::NetworkConnection {
            src_ip_address: src_ip_address.clone(),
            src_port: *src_port,
            dst_ip_address: dst_ip_address.clone(),
            dst_port: *dst_port,
            protocol: protocol.clone(),
        },
        NodeKey::ProcessOutboundConnection { hostname, ip_address, port, protocol } =>
            NodeKey::ProcessOutboundConnection {
            hostname: hostname.clone(),
            ip_address: ip_address.clone(),
            port: *port,
            protocol: protocol.clone(),
        },
        NodeKey::ProcessInboundConnection { hostname, ip_address, port, protocol } =>
            NodeKey::ProcessInboundConnection {
            hostname: hostname.clone(),
            ip_address: ip_address.clone(),
            port: *port,
            protocol: protocol.clone(),
        },
    }
}

fn copy_node(n: &Node) -> (r: Node)
    ensures
        r@ == n@,
{
    Node {
        key: clone_key(&n.key),
        state: n.state,
        name: clone_name(&n.name),
        created: n.created,
        last_seen: n.last_seen,
        terminated: n.terminated,
    }
}

/// Folds a later observation `b` of the same entity into `a`.
pub fn combine_nodes(a: &Node, b: &Node) -> (r: Node)
    ensures
        r@ == combine(a@, b@),
{
    let state = if rank_of(b.state) >= rank_of(a.state) {
        b.state
    } else {
        a.state
    };
    let later_named = match &b.name {
        Some(n) => !n.as_str().is_empty(),
        None => false,
    };
    let name = if later_named {
        clone_name(&b.name)
    } else if a.name.is_some() {
        clone_name(&a.name)
    } else {
        clone_name(&b.name)
    };
    Node {
        key: clone_key(&a.key),
        state,
        name,
        created: max_of(a.created, b.created),
        last_seen: max_of(a.last_seen, b.last_seen),
        terminated: max_of(a.terminated, b.terminated),
    }
}

} // verus!

verus! {

/// A named, directed relation between two node keys.
#[derive(Clone, Debug)]
pub struct Edge {
    pub label: String,
    pub from: NodeKey,
    pub to: NodeKey,
}

pub struct EdgeV {
    pub label: Seq<char>,
    pub from: NodeKeyV,
    pub to: NodeKeyV,
}

impl View for Edge {
    type V = EdgeV;

    open spec fn view(&self) -> EdgeV {
        EdgeV { label: self.label@, from: self.from@, to: self.to@ }
    }
}

impl Edge {
    pub fn same_as(&self, other: &Edge) -> (r: bool)
        ensures
            r == (self@ == other@),
    {
        str_eq(&self.label, &other.label) && self.from.same_as(&other.from) && self.to.same_as(
            &other.to,
        )
    }
}

/// A property graph: nodes unique by identity key, a set of edges, and the
/// representative timestamp of the events it was built from.
#[derive(Clone, Debug)]
pub struct Graph {
    pub nodes: Vec<Node>,
    pub edges: Vec<Edge>,
    pub timestamp: u64,
}

pub struct GraphV {
    pub nodes: Seq<NodeV>,
    pub edges: Seq<EdgeV>,
    pub timestamp: u64,
}

impl View for Graph {
    type V = GraphV;

    open spec fn view(&self) -> GraphV {
        GraphV {
            nodes: self.nodes@.map_values(|n: Node| n@),
            edges: self.edges@.map_values(|e: Edge| e@),
            timestamp: self.timestamp,
        }
    }
}

pub open spec fn has_key(s: Seq<NodeV>, k: NodeKeyV) -> bool {
    exists|i: int| 0 <= i < s.len() && (#[trigger] s[i]).key == k
}

pub open spec fn keys_unique(s: Seq<NodeV>) -> bool {
    forall|i: int, j: int|
        0 <= i < s.len() && 0 <= j < s.len() && (#[trigger] s[i]).key == (#[trigger] s[j]).key
            ==> i == j
}

/// The nodes of a sequence as a map from identity key to node.
pub open spec fn node_map(s: Seq<NodeV>) -> Map<NodeKeyV, NodeV> {
    Map::new(
        |k: NodeKeyV| has_key(s, k),
        |k: NodeKeyV| s[choose|i: int| 0 <= i < s.len() && (#[trigger] s[i]).key == k],
    )
}

/// The node map after merging the nodes of `b` into those of `a`.
pub open spec fn merged_nodes(a: Map<NodeKeyV, NodeV>, b: Map<NodeKeyV, NodeV>) -> Map<
    NodeKeyV,
    NodeV,
> {
    Map::new(
        |k: NodeKeyV| a.contains_key(k) || b.contains_key(k),
        |k: NodeKeyV|
            if a.contains_key(k) && b.contains_key(k) {
                combine(a[k], b[k])
            } else if a.contains_key(k) {
                a[k]
            } else {
                b[k]
            },
    )
}

/// The node map after observing node `n` once more.
pub open spec fn upsert(m: Map<NodeKeyV, NodeV>, n: NodeV) -> Map<NodeKeyV, NodeV> {
    if m.contains_key(n.key) {
        m.insert(n.key, combine(m[n.key], n))
    } else {
        m.insert(n.key, n)
    }
}

pub open spec fn merged_timestamp(a: GraphV, b: GraphV) -> u64 {
    if a.nodes.len() == 0 {
        b.timestamp
    } else if b.nodes.len() == 0 {
        a.timestamp
    } else if a.timestamp <= b.timestamp {
        a.timestamp
    } else {
        b.timestamp
    }
}

impl GraphV {
    pub open spec fn node_map(self) -> Map<NodeKeyV, NodeV> {
        node_map(self.nodes)
    }

    pub open spec fn key_set(self) -> Set<NodeKeyV> {
        self.node_map().dom()
    }

    pub open spec fn edge_set(self) -> Set<EdgeV> {
        self.edges.to_set()
    }

    pub open spec fn has_node(self, k: NodeKeyV) -> bool {
        has_key(self.nodes, k)
    }

    /// Keys are unique, edges are unique, and every edge joins two nodes of the graph.
    pub open spec fn wf(self) -> bool {
        &&& keys_unique(self.nodes)
        &&& self.edges.no_duplicates()
        &&& forall|i: int|
            0 <= i < self.edges.len() ==> self.has_node((#[trigger] self.edges[i]).from)
                && self.has_node(self.edges[i].to)
    }
}

/// A graph has no node exactly when its node map is empty.
pub proof fn lemma_no_nodes(g: GraphV)
    ensures
        (g.nodes.len() == 0) == (g.node_map() == Map::<NodeKeyV, NodeV>::empty()),
{
    if g.nodes.len() == 0 {
        assert(g.node_map() =~= Map::<NodeKeyV, NodeV>::empty());
    } else {
        assert(has_key(g.nodes, g.nodes[0].key));
        assert(g.node_map().contains_key(g.nodes[0].key));
    }
}

pub proof fn lemma_node_map_at(s: Seq<NodeV>, i: int)
    requires
        keys_unique(s),
        0 <= i < s.len(),
    ensures
        node_map(s).contains_key(s[i].key),
        node_map(s)[s[i].key] == s[i],
{
    assert(has_key(s, s[i].key));
    let j = choose|j: int| 0 <= j < s.len() && (#[trigger] s[j]).key == s[i].key;
    assert(s[j].key == s[i].key);
}

proof fn lemma_node_map_push(s: Seq<NodeV>, n: NodeV)
    requires
        keys_unique(s),
        !has_key(s, n.key),
    ensures
        keys_unique(s.push(n)),
        node_map(s.push(n)) == node_map(s).insert(n.key, n),
{
    let t = s.push(n);
    assert forall|i: int, j: int|
        0 <= i < t.len() && 0 <= j < t.len() && (#[trigger] t[i]).key == (#[trigger] t[j]).key
            implies i == j by {
        if i < s.len() && j == s.len() {
            assert(s[i].key == n.key);
        } else if j < s.len() && i == s.len() {
            assert(s[j].key == n.key);
        } else if i < s.len() && j < s.len() {
            assert(s[i] == t[i] && s[j] == t[j]);
        }
    }
    assert forall|k: NodeKeyV| #[trigger] node_map(t).contains_key(k) implies node_map(
        s,
    ).insert(n.key, n).contains_key(k) && node_map(t)[k] == node_map(s).insert(n.key, n)[k] by {
        let i = choose|i: int| 0 <= i < t.len() && (#[trigger] t[i]).key == k;
        lemma_node_map_at(t, i);
        if i < s.len() {
            assert(t[i] == s[i]);
            lemma_node_map_at(s, i);
        }
    }
    assert forall|k: NodeKeyV| #[trigger] node_map(s).insert(n.key, n).contains_key(k) implies node_map(
        t,
    ).contains_key(k) by {
        if k == n.key {
            assert(t[s.len() as int].key == k);
        } else {
            let i = choose|i: int| 0 <= i < s.len() && (#[trigger] s[i]).key == k;
            assert(t[i] == s[i]);
        }
    }
    assert(node_map(t) =~= node_map(s).insert(n.key, n));
}

proof fn lemma_node_map_update(s: Seq<NodeV>, i: int, n: NodeV)
    requires
        keys_unique(s),
        0 <= i < s.len(),
        s[i].key == n.key,
    ensures
        keys_unique(s.update(i, n)),
        node_map(s.update(i, n)) == node_map(s).insert(n.key, n),
{
    let t = s.update(i, n);
    assert forall|a: int, b: int|
        0 <= a < t.len() && 0 <= b < t.len() && (#[trigger] t[a]).key == (#[trigger] t[b]).key
            implies a == b by {
        assert(t[a].key == s[a].key && t[b].key == s[b].key);
    }
    assert forall|k: NodeKeyV| #[trigger] node_map(t).contains_key(k) implies node_map(
        s,
    ).insert(n.key, n).contains_key(k) && node_map(t)[k] == node_map(s).insert(n.key, n)[k] by {
        let j = choose|j: int| 0 <= j < t.len() && (#[trigger] t[j]).key == k;
        lemma_node_map_at(t, j);
        assert(s[j].key == k);
        lemma_node_map_at(s, j);
    }
    assert forall|k: NodeKeyV| #[trigger] node_map(s).insert(n.key, n).contains_key(k) implies node_map(
        t,
    ).contains_key(k) by {
        if k == n.key {
            assert(t[i].key == k);
        } else {
            let j = choose|j: int| 0 <= j < s.len() && (#[trigger] s[j]).key == k;
            assert(t[j] == s[j]);
        }
    }
    assert(node_map(t) =~= node_map(s).insert(n.key, n));
}

} // verus!

verus! {

impl Graph {
    pub fn new(timestamp: u64) -> (g: Graph)
        ensures
            g@.nodes.len() == 0,
            g@.edges.len() == 0,
            g@.timestamp == timestamp,
            g@.wf(),
            g@.node_map() == Map::<NodeKeyV, NodeV>::empty(),
            g@.edge_set() == Set::<EdgeV>::empty(),
    {
        let g = Graph { nodes: Vec::new(), edges: Vec::new(), timestamp };
        assert(g@.node_map() =~= Map::<NodeKeyV, NodeV>::empty());
        assert(g@.edge_set() =~= Set::<EdgeV>::empty());
        g
    }

    /// True iff the graph holds no node.
    pub fn is_empty(&self) -> (r: bool)
        ensures
            r == (self@.nodes.len() == 0),
            r == (self@.key_set() == Set::<NodeKeyV>::empty()),
    {
        if self.nodes.len() == 0 {
            assert(self@.key_set() =~= Set::<NodeKeyV>::empty());
            true
        } else {
            assert(self@.key_set().contains(self@.nodes[0].key));
            false
        }
    }

    /// The position of the node with key `k`, if the graph holds one.
    pub fn find_node(&self, k: &NodeKey) -> (r: Option<usize>)
        ensures
            match r {
                Some(i) => i < self@.nodes.len() && self@.nodes[i as int].key == k@,
                None => !self@.has_node(k@),
            },
    {
        let mut i: usize = 0;
        while i < self.nodes.len()
            invariant
                i <= self.nodes.len(),
                forall|j: int| 0 <= j < i ==> (#[trigger] self@.nodes[j]).key != k@,
            decreases self.nodes.len() - i,
        {
            if self.nodes[i].key.same_as(k) {
                return Some(i);
            }
            i = i + 1;
        }
        None
    }

    /// Records one observation of a node: a node with the same key absorbs it,
    /// else it is inserted.
    pub fn add_node(&mut self, n: Node)
        requires
            old(self)@.wf(),
        ensures
            final(self)@.wf(),
            final(self)@.node_map() == upsert(old(self)@.node_map(), n@),
            final(self)@.edges == old(self)@.edges,
            final(self)@.timestamp == old(self)@.timestamp,
            final(self)@.nodes.len() > 0,
    {
        let ghost s = self@.nodes;
        match self.find_node(&n.key) {
            Some(i) => {
                proof {
                    lemma_node_map_at(s, i as int);
                }
                let merged = combine_nodes(&self.nodes[i], &n);
                self.nodes.set(i, merged);
                proof {
                    assert(self@.nodes =~= s.update(i as int, merged@));
                    lemma_node_map_update(s, i as int, merged@);
                    assert forall|j: int| 0 <= j < self@.edges.len() implies self@.has_node(
                        (#[trigger] self@.edges[j]).from,
                    ) && self@.has_node(self@.edges[j].to) by {
                        let a = choose|a: int|
                            0 <= a < s.len() && (#[trigger] s[a]).key == self@.edges[j].from;
                        let b = choose|b: int|
                            0 <= b < s.len() && (#[trigger] s[b]).key == self@.edges[j].to;
                        assert(self@.nodes[a].key == s[a].key);
                        assert(self@.nodes[b].key == s[b].key);
                    }
                }
            },
            None => {
                let ghost nv = n@;
                self.nodes.push(n);
                proof {
                    assert(self@.nodes =~= s.push(nv));
                    lemma_node_map_push(s, nv);
                    assert forall|j: int| 0 <= j < self@.edges.len() implies self@.has_node(
                        (#[trigger] self@.edges[j]).from,
                    ) && self@.has_node(self@.edges[j].to) by {
                        let a = choose|a: int|
                            0 <= a < s.len() && (#[trigger] s[a]).key == self@.edges[j].from;
                        let b = choose|b: int|
                            0 <= b < s.len() && (#[trigger] s[b]).key == self@.edges[j].to;
                        assert(self@.nodes[a] == s[a]);
                        assert(self@.nodes[b] == s[b]);
                    }
                }
            },
        }
    }

    pub fn has_edge(&self, e: &Edge) -> (r: bool)
        ensures
            r == self@.edges.contains(e@),
    {
        let mut i: usize = 0;
        while i < self.edges.len()
            invariant
                i <= self.edges.len(),
                forall|j: int| 0 <= j < i ==> (#[trigger] self@.edges[j]) != e@,
            decreases self.edges.len() - i,
        {
            if self.edges[i].same_as(e) {
                assert(self@.edges[i as int] == e@);
                return true;
            }
            i = i + 1;
        }
        false
    }

    /// Adds an edge between two nodes of the graph; an edge already present is left as is.
    pub fn add_edge(&mut self, e: Edge)
        requires
            old(self)@.wf(),
            old(self)@.has_node(e@.from),
            old(self)@.has_node(e@.to),
        ensures
            final(self)@.wf(),
            final(self)@.edge_set() == old(self)@.edge_set().insert(e@),
            final(self)@.nodes == old(self)@.nodes,
            final(self)@.timestamp == old(self)@.timestamp,
    {
        let ghost s = self@.edges;
        if !self.has_edge(&e) {
            let ghost ev = e@;
            self.edges.push(e);
            proof {
                assert(self@.edges =~= s.push(ev));
                assert forall|i: int, j: int|
                    0 <= i < self@.edges.len() && 0 <= j < self@.edges.len() && i != j implies self@.edges[i]
                    != self@.edges[j] by {
                    if i < s.len() && j < s.len() {
                        assert(s[i] == self@.edges[i] && s[j] == self@.edges[j]);
                    } else if i < s.len() {
                        assert(s.contains(s[i]));
                    } else {
                        assert(s.contains(s[j]));
                    }
                }
                assert forall|j: int| 0 <= j < self@.edges.len() implies self@.has_node(
                    (#[trigger] self@.edges[j]).from,
                ) && self@.has_node(self@.edges[j].to) by {
                    if j < s.len() {
                        assert(self@.edges[j] == s[j]);
                    }
                }
            }
        }
        proof {
            if !s.contains(e@) {
                s.lemma_push_to_set_commute(e@);
                assert(self@.edges =~= s.push(e@));
            }
            assert(self@.edge_set() =~= s.to_set().insert(e@));
        }
    }

    /// Folds `other` into this graph: nodes of equal key are combined, the
    /// others inserted, and the edge sets united.
    pub fn merge(&mut self, other: &Graph)
        requires
            old(self)@.wf(),
            other@.wf(),
        ensures
            final(self)@.wf(),
            final(self)@.node_map() == merged_nodes(old(self)@.node_map(), other@.node_map()),
            final(self)@.edge_set() == old(self)@.edge_set() + other@.edge_set(),
            final(self)@.timestamp == merged_timestamp(old(self)@, other@),
    {
        let ghost m0 = self@.node_map();
        let ghost e0 = self@.edge_set();
        let ghost empty0 = self@.nodes.len() == 0;
        let empty_before = self.nodes.len() == 0;
        let ghost b = other@.nodes;
        let mut i: usize = 0;
        while i < other.nodes.len()
            invariant
                i <= other.nodes.len(),
                self@.wf(),
                other@.wf(),
                b == other@.nodes,
                self@.node_map() == merged_nodes(m0, node_map(b.take(i as int))),
                self@.edge_set() == e0,
                self@.timestamp == old(self)@.timestamp,
                empty0 == (old(self)@.nodes.len() == 0),
                empty0 && i == 0 ==> self@.nodes.len() == 0,
                !empty0 || i > 0 ==> self@.nodes.len() > 0,
            decreases other.nodes.len() - i,
        {
            let ghost cur = self@.node_map();
            let ghost pre = b.take(i as int);
            let ghost nv = b[i as int];
            let n = copy_node(&other.nodes[i]);
            self.add_node(n);
            proof {
                assert(b.take(i + 1) =~= pre.push(nv));
                assert(keys_unique(pre));
                assert(!has_key(pre, nv.key)) by {
                    if has_key(pre, nv.key) {
                        let j = choose|j: int| 0 <= j < pre.len() && (#[trigger] pre[j]).key == nv.key;
                        assert(b[j].key == b[i as int].key);
                    }
                }
                lemma_node_map_push(pre, nv);
                assert(self@.node_map() =~= merged_nodes(m0, node_map(b.take(i + 1))));
            }
            i = i + 1;
        }
        proof {
            assert(b.take(i as int) =~= b);
        }
        let ghost mid = self@.node_map();
        let ghost be = other@.edges;
        let mut j: usize = 0;
        while j < other.edges.len()
            invariant
                j <= other.edges.len(),
                self@.wf(),
                other@.wf(),
                be == other@.edges,
                self@.node_map() == mid,
                mid == merged_nodes(m0, other@.node_map()),
                self@.edge_set() == e0 + be.take(j as int).to_set(),
                self@.timestamp == old(self)@.timestamp,
                self@.nodes.len() == 0 <==> (empty0 && other@.nodes.len() == 0),
            decreases other.edges.len() - j,
        {
            let e = Edge {
                label: other.edges[j].label.clone(),
                from: clone_key(&other.edges[j].from),
                to: clone_key(&other.edges[j].to),
            };
            proof {
                assert(other@.edges[j as int] == e@);
                assert(other@.has_node(e@.from) && other@.has_node(e@.to));
                assert(other@.node_map().contains_key(e@.from));
                assert(other@.node_map().contains_key(e@.to));
                assert(self@.node_map().contains_key(e@.from));
                assert(self@.node_map().contains_key(e@.to));
            }
            self.add_edge(e);
            proof {
                assert(be.take(j + 1) =~= be.take(j as int).push(be[j as int]));
                be.take(j as int).lemma_push_to_set_commute(be[j as int]);
                assert(self@.edge_set() =~= e0 + be.take(j + 1).to_set());
            }
            j = j + 1;
        }
        proof {
            assert(be.take(j as int) =~= be);
        }
        if empty_before {
            self.timestamp = other.timestamp;
        } else if other.nodes.len() > 0 && other.timestamp < self.timestamp {
            self.timestamp = other.timestamp;
        }
    }
}

} // verus!

verus! {

/// Merging is commutative on node keys and edges: merging `f` into `t` or `t`
/// into `f` gives the same key set and the same edge set. It is idempotent:
/// merging `f` a second time leaves nodes (attributes included) and edges as
/// the first merge left them.
pub proof fn lemma_merge_commutative_idempotent(t: GraphV, f: GraphV)
    ensures
        merged_nodes(t.node_map(), f.node_map()).dom() == merged_nodes(
            f.node_map(),
            t.node_map(),
        ).dom(),
        t.edge_set() + f.edge_set() == f.edge_set() + t.edge_set(),
        merged_nodes(merged_nodes(t.node_map(), f.node_map()), f.node_map()) == merged_nodes(
            t.node_map(),
            f.node_map(),
        ),
        (t.edge_set() + f.edge_set()) + f.edge_set() == t.edge_set() + f.edge_set(),
{
    let a = t.node_map();
    let b = f.node_map();
    let m = merged_nodes(a, b);
    assert(m.dom() =~= merged_nodes(b, a).dom());
    assert(t.edge_set() + f.edge_set() =~= f.edge_set() + t.edge_set());
    assert((t.edge_set() + f.edge_set()) + f.edge_set() =~= t.edge_set() + f.edge_set());
    assert forall|k: NodeKeyV| #[trigger] m.contains_key(k) && b.contains_key(k) implies combine(
        m[k],
        b[k],
    ) == m[k] by {
        if a.contains_key(k) {
            let x = a[k];
            let y = b[k];
            assert(combine(combine(x, y), y) == combine(x, y));
        }
    }
    assert(merged_nodes(m, b) =~= m);
}

} // verus!

verus! {

impl Graph {
    /// Adds the edge `label` from the node keyed `from` to the node keyed `to`.
    pub fn link(&mut self, label: &str, from: &NodeKey, to: &NodeKey)
        requires
            old(self)@.wf(),
            old(self)@.node_map().contains_key(from@),
            old(self)@.node_map().contains_key(to@),
        ensures
            final(self)@.wf(),
            final(self)@.edge_set() == old(self)@.edge_set().insert(
                EdgeV { label: label@, from: from@, to: to@ },
            ),
            final(self)@.nodes == old(self)@.nodes,
            final(self)@.timestamp == old(self)@.timestamp,
    {
        let e = Edge { label: label.to_owned(), from: clone_key(from), to: clone_key(to) };
        self.add_edge(e);
    }
}

} // verus!
