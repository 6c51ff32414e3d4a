use vstd::prelude::*;
use crate::encode::{encode_graph, graph_bytes};
use crate::payload::PayloadView;
use crate::graph::{merged_nodes, EdgeV, Graph, GraphV, NodeKeyV, NodeV};

verus! {

/// What compressing `data` at `level` gives: the zstd frame, or `None` where
/// the compressor fails.
pub uninterp spec fn zstd_frame(data: Seq<u8>, level: i32) -> Option<Seq<u8>>;

/// Relies on zstd::stream::copy_encode: the destination receives the zstd frame
/// of the whole source at the given level, or the call fails; either outcome
/// depends on the bytes and the level alone.
#[verifier::external_body]
fn compress(data: &Vec<u8>, level: i32) -> (r: Option<Vec<u8>>)
    ensures
        match r {
            Some(c) => zstd_frame(data@, level) == Some(c@),
            None => zstd_frame(data@, level) is None,
        },
{
    let mut compressed = Vec::with_capacity(data.len());
    let mut source = std::io::Cursor::new(data);
    match zstd::stream::copy_encode(&mut source, &mut compressed, level) {
        Ok(()) => Some(compressed),
        Err(_) => None,
    }
}

/// The compression level of emitted artifacts.
pub const COMPRESSION_LEVEL: i32 = 4;

/// The subgraphs that one completed batch hands over for emission.
#[derive(Clone, Debug)]
pub struct GeneratedSubgraphs {
    pub subgraphs: Vec<Graph>,
}

impl GeneratedSubgraphs {
    pub fn new(subgraphs: Vec<Graph>) -> (r: GeneratedSubgraphs)
        ensures
            r.subgraphs == subgraphs,
    {
        GeneratedSubgraphs { subgraphs }
    }
}

/// Emission failed: the compressor failed on the encoded graph.
#[derive(Clone, Debug)]
pub enum SerializeError {
    Compress,
}

pub open spec fn graph_views(gs: Seq<Graph>) -> Seq<GraphV> {
    gs.map_values(|g: Graph| g@)
}

/// The subgraphs of all completed batches, in order.
pub open spec fn all_subgraphs(ce: Seq<GeneratedSubgraphs>) -> Seq<GraphV>
    decreases ce.len(),
{
    if ce.len() == 0 {
        Seq::empty()
    } else {
        all_subgraphs(ce.drop_last()) + graph_views(ce.last().subgraphs@)
    }
}

/// The node map of the graphs `gs` merged in order into an empty graph.
pub open spec fn fold_nodes(gs: Seq<GraphV>) -> Map<NodeKeyV, NodeV>
    decreases gs.len(),
{
    if gs.len() == 0 {
        Map::empty()
    } else {
        merged_nodes(fold_nodes(gs.drop_last()), gs.last().node_map())
    }
}

pub open spec fn fold_edges(gs: Seq<GraphV>) -> Set<EdgeV>
    decreases gs.len(),
{
    if gs.len() == 0 {
        Set::empty()
    } else {
        fold_edges(gs.drop_last()) + gs.last().edge_set()
    }
}

/// The timestamp of the graphs `gs` merged in order into an empty graph of
/// timestamp 0: while the merge holds no node, the timestamp of the graph
/// merged last; from the first graph with nodes on, the earliest timestamp
/// among the graphs with nodes.
pub open spec fn fold_timestamp(gs: Seq<GraphV>) -> u64
    decreases gs.len(),
{
    if gs.len() == 0 {
        0
    } else {
        let prev = fold_timestamp(gs.drop_last());
        let last = gs.last();
        if fold_nodes(gs.drop_last()) == Map::<NodeKeyV, NodeV>::empty() {
            last.timestamp
        } else if last.nodes.len() == 0 || prev <= last.timestamp {
            prev
        } else {
            last.timestamp
        }
    }
}

pub open spec fn all_wf(ce: Seq<GeneratedSubgraphs>) -> bool {
    forall|i: int, j: int|
        0 <= i < ce.len() && 0 <= j < ce[i].subgraphs@.len() ==> (#[trigger] ce[i].subgraphs@[j])@.wf()
}

/// The artifacts of one graph: none for an empty graph, else the compressed
/// encoding of the graph.
pub open spec fn artifacts_of(g: GraphV) -> Seq<Seq<u8>> {
    if g.nodes.len() == 0 {
        Seq::empty()
    } else {
        seq![zstd_frame(graph_bytes(g), COMPRESSION_LEVEL)->Some_0]
    }
}

/// Emitting `g` fails exactly when it has nodes and compressing its encoding fails.
pub open spec fn emission_fails(g: GraphV) -> bool {
    g.nodes.len() > 0 && zstd_frame(graph_bytes(g), COMPRESSION_LEVEL) is None
}

pub open spec fn byte_views(v: Seq<Vec<u8>>) -> Seq<Seq<u8>> {
    v.map_values(|b: Vec<u8>| b@)
}

/// Merges every subgraph of every completed batch into one graph.
pub fn merge_completed(completed_events: &Vec<GeneratedSubgraphs>) -> (g: Graph)
    requires
        all_wf(completed_events@),
    ensures
        g@.wf(),
        g@.node_map() == fold_nodes(all_subgraphs(completed_events@)),
        g@.edge_set() == fold_edges(all_subgraphs(completed_events@)),
        g@.timestamp == fold_timestamp(all_subgraphs(completed_events@)),
{
    let ghost ce = completed_events@;
    let mut subgraph = Graph::new(0);
    let mut i: usize = 0;
    while i < completed_events.len()
        invariant
            i <= ce.len(),
            ce == completed_events@,
            all_wf(ce),
            subgraph@.wf(),
            subgraph@.node_map() == fold_nodes(all_subgraphs(ce.take(i as int))),
            subgraph@.edge_set() == fold_edges(all_subgraphs(ce.take(i as int))),
            subgraph@.timestamp == fold_timestamp(all_subgraphs(ce.take(i as int))),
        decreases ce.len() - i,
    {
        let subs = &completed_events[i].subgraphs;
        let ghost before = all_subgraphs(ce.take(i as int));
        let mut j: usize = 0;
        while j < subs.len()
            invariant
                i < ce.len(),
                j <= subs@.len(),
                subs == ce[i as int].subgraphs,
                all_wf(ce),
                subgraph@.wf(),
                subgraph@.node_map() == fold_nodes(before + graph_views(subs@.take(j as int))),
                subgraph@.edge_set() == fold_edges(before + graph_views(subs@.take(j as int))),
                subgraph@.timestamp == fold_timestamp(before + graph_views(subs@.take(j as int))),
            decreases subs@.len() - j,
        {
            assert(subs@[j as int]@.wf());
            proof {
                crate::graph::lemma_no_nodes(subgraph@);
            }
            subgraph.merge(&subs[j]);
            proof {
                let next = before + graph_views(subs@.take(j + 1));
                assert(next.drop_last() =~= before + graph_views(subs@.take(j as int)));
                assert(next.last() == subs@[j as int]@);
            }
            j = j + 1;
        }
        proof {
            assert(subs@.take(j as int) =~= subs@);
            assert(ce.take(i + 1).drop_last() =~= ce.take(i as int));
            assert(ce.take(i + 1).last() == ce[i as int]);
        }
        i = i + 1;
    }
    proof {
        assert(ce.take(i as int) =~= ce);
    }
    subgraph
}

/// Keeps the buffer that encoded graphs are written to.
#[derive(Clone, Debug, Default)]
pub struct SubgraphSerializer {
    pub proto: Vec<u8>,
}

impl SubgraphSerializer {
    pub fn new() -> (r: SubgraphSerializer)
        ensures
            r.proto@.len() == 0,
    {
        SubgraphSerializer { proto: Vec::new() }
    }

    /// The artifacts of one merged graph: none when it is empty, else one
    /// compressed encoding of it.
    pub fn serialize_graph(&mut self, subgraph: &Graph) -> (r: Result<Vec<Vec<u8>>, SerializeError>)
        ensures
            r is Err <==> emission_fails(subgraph@),
            match r {
                Ok(out) => byte_views(out@) == artifacts_of(subgraph@),
                Err(SerializeError::Compress) => true,
            },
    {
        if subgraph.is_empty() {
            let out: Vec<Vec<u8>> = Vec::new();
            assert(byte_views(out@) =~= artifacts_of(subgraph@));
            return Ok(out);
        }
        self.proto.clear();
        encode_graph(subgraph, &mut self.proto);
        assert(self.proto@ =~= graph_bytes(subgraph@));
        match compress(&self.proto, COMPRESSION_LEVEL) {
            Some(compressed) => {
                let mut out: Vec<Vec<u8>> = Vec::new();
                out.push(compressed);
                assert(byte_views(out@) =~= artifacts_of(subgraph@));
                Ok(out)
            },
            None => Err(SerializeError::Compress),
        }
    }

    /// Merges the subgraphs of all completed batches and emits the result: no
    /// artifact when nothing is left to store, else one.
    pub fn serialize_completed_events(
        &mut self,
        completed_events: &Vec<GeneratedSubgraphs>,
    ) -> (r: Result<Vec<Vec<u8>>, SerializeError>)
        requires
            all_wf(completed_events@),
        ensures
            exists|g: GraphV|
                {
                    &&& g.wf()
                    &&& g.node_map() == fold_nodes(all_subgraphs(completed_events@))
                    &&& g.edge_set() == fold_edges(all_subgraphs(completed_events@))
                    &&& g.timestamp == fold_timestamp(all_subgraphs(completed_events@))
                    &&& (r is Err <==> emission_fails(g))
                    &&& match r {
                        Ok(out) => byte_views(out@) == artifacts_of(g),
                        Err(SerializeError::Compress) => true,
                    }
                },
    {
        let subgraph = merge_completed(completed_events);
        let r = self.serialize_graph(&subgraph);
        assert(subgraph@.wf());
        r
    }
}

} // verus!

verus! {

/// A batch whose payloads all decode to supported events and all hit the cache gives a graph
/// without nodes, hence no artifact, and every payload's event is handled.
pub proof fn lemma_all_hits_emit_nothing(
    evs: Seq<PayloadView>,
    hits: Seq<bool>,
    g: GraphV,
)
    requires
        forall|i: int|
            0 <= i < evs.len() ==> crate::event::decode_spec(#[trigger] evs[i]) is Ok
                && crate::fragment::is_supported(crate::event::decode_spec(evs[i])->Ok_0)
                && crate::batch::hit_at(hits, i),
        g.wf(),
        g.node_map() == crate::batch::batch_nodes(evs, hits, evs.len()),
    ensures
        artifacts_of(g) == Seq::<Seq<u8>>::empty(),
        g.nodes.len() == 0,
        g.edges.len() == 0,
        g.edge_set() == Set::<EdgeV>::empty(),
        crate::batch::batch_edges(evs, hits, evs.len()) == Set::<EdgeV>::empty(),
        crate::batch::batch_handled(evs, hits, evs.len()).len() == evs.len(),
        forall|i: int|
            0 <= i < evs.len() ==> crate::batch::batch_handled(evs, hits, evs.len())[i]
                == crate::event::decode_spec(#[trigger] evs[i])->Ok_0,
{
    crate::batch::lemma_all_cache_hits(evs, hits, evs.len());
    crate::graph::lemma_no_nodes(g);
    if g.edges.len() > 0 {
        assert(g.has_node(g.edges[0].from));
    }
    assert(g.edge_set() =~= Set::<EdgeV>::empty());
}

} // verus!

verus! {

/// The keys of the graphs `gs` merged in order are the keys of any of them, and
/// the edges are the edges of any of them.
pub proof fn lemma_fold_is_union(gs: Seq<GraphV>)
    ensures
        forall|k: NodeKeyV|
            #[trigger] fold_nodes(gs).contains_key(k) <==> exists|i: int|
                0 <= i < gs.len() && (#[trigger] gs[i]).node_map().contains_key(k),
        forall|e: EdgeV|
            #[trigger] fold_edges(gs).contains(e) <==> exists|i: int|
                0 <= i < gs.len() && (#[trigger] gs[i]).edge_set().contains(e),
    decreases gs.len(),
{
    if gs.len() > 0 {
        let pre = gs.drop_last();
        lemma_fold_is_union(pre);
        assert forall|k: NodeKeyV|
            #[trigger] fold_nodes(gs).contains_key(k) <==> exists|i: int|
                0 <= i < gs.len() && (#[trigger] gs[i]).node_map().contains_key(k) by {
            if fold_nodes(pre).contains_key(k) {
                let i = choose|i: int| 0 <= i < pre.len() && (#[trigger] pre[i]).node_map().contains_key(k);
                assert(gs[i] == pre[i]);
            }
            if exists|i: int| 0 <= i < gs.len() && (#[trigger] gs[i]).node_map().contains_key(k) {
                let i = choose|i: int| 0 <= i < gs.len() && (#[trigger] gs[i]).node_map().contains_key(k);
                if i < gs.len() - 1 {
                    assert(pre[i] == gs[i]);
                }
            }
        }
        assert forall|e: EdgeV|
            #[trigger] fold_edges(gs).contains(e) <==> exists|i: int|
                0 <= i < gs.len() && (#[trigger] gs[i]).edge_set().contains(e) by {
            if fold_edges(pre).contains(e) {
                let i = choose|i: int| 0 <= i < pre.len() && (#[trigger] pre[i]).edge_set().contains(e);
                assert(gs[i] == pre[i]);
            }
            if exists|i: int| 0 <= i < gs.len() && (#[trigger] gs[i]).edge_set().contains(e) {
                let i = choose|i: int| 0 <= i < gs.len() && (#[trigger] gs[i]).edge_set().contains(e);
                if i < gs.len() - 1 {
                    assert(pre[i] == gs[i]);
                }
            }
        }
    }
}

/// Merging the subgraphs of completed batches in another order, or with some of
/// them repeated, gives the same node keys and the same edges: all that counts
/// is which subgraphs occur. In particular the result is empty for both or for
/// neither.
pub proof fn lemma_merge_order_and_repeats(c1: Seq<GeneratedSubgraphs>, c2: Seq<GeneratedSubgraphs>)
    requires
        all_subgraphs(c1).to_set() == all_subgraphs(c2).to_set(),
    ensures
        fold_nodes(all_subgraphs(c1)).dom() == fold_nodes(all_subgraphs(c2)).dom(),
        fold_edges(all_subgraphs(c1)) == fold_edges(all_subgraphs(c2)),
        (fold_nodes(all_subgraphs(c1)).dom() == Set::<NodeKeyV>::empty()) == (fold_nodes(
            all_subgraphs(c2),
        ).dom() == Set::<NodeKeyV>::empty()),
{
    let a = all_subgraphs(c1);
    let b = all_subgraphs(c2);
    lemma_fold_is_union(a);
    lemma_fold_is_union(b);
    assert forall|k: NodeKeyV| #[trigger] fold_nodes(a).contains_key(k) implies fold_nodes(b).contains_key(k) by {
        let i = choose|i: int| 0 <= i < a.len() && (#[trigger] a[i]).node_map().contains_key(k);
        assert(a.to_set().contains(a[i]));
        assert(b.to_set().contains(a[i]));
        let j = choose|j: int| 0 <= j < b.len() && b[j] == a[i];
        assert(b[j].node_map().contains_key(k));
    }
    assert forall|k: NodeKeyV| #[trigger] fold_nodes(b).contains_key(k) implies fold_nodes(a).contains_key(k) by {
        let i = choose|i: int| 0 <= i < b.len() && (#[trigger] b[i]).node_map().contains_key(k);
        assert(b.to_set().contains(b[i]));
        assert(a.to_set().contains(b[i]));
        let j = choose|j: int| 0 <= j < a.len() && a[j] == b[i];
        assert(a[j].node_map().contains_key(k));
    }
    assert forall|e: EdgeV| #[trigger] fold_edges(a).contains(e) implies fold_edges(b).contains(e) by {
        let i = choose|i: int| 0 <= i < a.len() && (#[trigger] a[i]).edge_set().contains(e);
        assert(a.to_set().contains(a[i]));
        assert(b.to_set().contains(a[i]));
        let j = choose|j: int| 0 <= j < b.len() && b[j] == a[i];
        assert(b[j].edge_set().contains(e));
    }
    assert forall|e: EdgeV| #[trigger] fold_edges(b).contains(e) implies fold_edges(a).contains(e) by {
        let i = choose|i: int| 0 <= i < b.len() && (#[trigger] b[i]).edge_set().contains(e);
        assert(b.to_set().contains(b[i]));
        assert(a.to_set().contains(b[i]));
        let j = choose|j: int| 0 <= j < a.len() && a[j] == b[i];
        assert(a[j].edge_set().contains(e));
    }
    assert(fold_nodes(a).dom() =~= fold_nodes(b).dom());
    assert(fold_edges(a) =~= fold_edges(b));
}

} // verus!

verus! {

/// Two emissions whose batches hold the same subgraphs, in any order and with
/// any repeats, encode graphs that read back with the same node keys and the
/// same edges.
pub proof fn lemma_emitted_graphs_agree(
    c1: Seq<GeneratedSubgraphs>,
    c2: Seq<GeneratedSubgraphs>,
    g1: GraphV,
    g2: GraphV,
)
    requires
        all_subgraphs(c1).to_set() == all_subgraphs(c2).to_set(),
        g1.node_map() == fold_nodes(all_subgraphs(c1)),
        g1.edge_set() == fold_edges(all_subgraphs(c1)),
        g2.node_map() == fold_nodes(all_subgraphs(c2)),
        g2.edge_set() == fold_edges(all_subgraphs(c2)),
        crate::decode::graph_fits(g1),
        crate::decode::graph_fits(g2),
    ensures
        crate::decode::parse_graph(graph_bytes(g1)) == Some(g1),
        crate::decode::parse_graph(graph_bytes(g2)) == Some(g2),
        g1.key_set() == g2.key_set(),
        g1.edge_set() == g2.edge_set(),
        (g1.nodes.len() == 0) == (g2.nodes.len() == 0),
        (artifacts_of(g1).len() == 0) == (artifacts_of(g2).len() == 0),
{
    lemma_merge_order_and_repeats(c1, c2);
    crate::decode::lemma_graph_round_trip(g1);
    crate::decode::lemma_graph_round_trip(g2);
    crate::graph::lemma_no_nodes(g1);
    crate::graph::lemma_no_nodes(g2);
    if g1.nodes.len() == 0 {
        assert(g2.node_map().dom() =~= Set::<NodeKeyV>::empty());
        assert(g2.node_map() =~= Map::<NodeKeyV, NodeV>::empty());
    }
    if g2.nodes.len() == 0 {
        assert(g1.node_map().dom() =~= Set::<NodeKeyV>::empty());
        assert(g1.node_map() =~= Map::<NodeKeyV, NodeV>::empty());
    }
}

} // verus!
