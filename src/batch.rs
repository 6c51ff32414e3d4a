use vstd::prelude::*;
use crate::event::{decode_spec, GenericEvent};
use crate::fragment::{
    event_edges, event_nodes, event_timestamp, handle_log, is_supported, supported,
    UnsupportedEvent,
};
use crate::graph::{merged_nodes, EdgeV, Graph, NodeKeyV, NodeV};
use crate::payload::{DecodeError, PayloadView, RawEvent};

verus! {

/// Why a payload of a batch was not handled.
#[derive(Clone, Debug)]
pub enum BatchError {
    Decode(DecodeError),
    Unsupported(UnsupportedEvent),
}

/// The outcome of a batch: `Partial` when some payload failed, with the last
/// failure; `Total` when none did.
#[derive(Clone, Debug)]
pub enum Completion {
    Total(Graph),
    Partial(Graph, BatchError),
}

impl Completion {
    pub open spec fn graph_spec(self) -> Graph {
        match self {
            Completion::Total(g) => g,
            Completion::Partial(g, _) => g,
        }
    }

    pub fn graph(&self) -> (r: &Graph)
        ensures
            *r == self.graph_spec(),
    {
        match self {
            Completion::Total(g) => g,
            Completion::Partial(g, _) => g,
        }
    }
}

/// The merged fragment of a batch with its verdict, and the events that may be
/// acknowledged.
#[derive(Clone, Debug)]
pub struct OutputEvent {
    pub completed_event: Completion,
    pub identities: Vec<GenericEvent>,
}

/// The cache's answer for payload `i`; no answer counts as a miss.
pub open spec fn hit_at(hits: Seq<bool>, i: int) -> bool {
    0 <= i < hits.len() && hits[i]
}

/// Payload `i` decodes to a supported event and misses the cache.
pub open spec fn contributes(evs: Seq<PayloadView>, hits: Seq<bool>, i: int) -> bool {
    match decode_spec(evs[i]) {
        Ok(e) => is_supported(e) && !hit_at(hits, i),
        Err(_) => false,
    }
}

/// Payload `i` may be acknowledged: it decodes to a supported event, whether
/// or not the cache has seen it.
pub open spec fn handled(evs: Seq<PayloadView>, hits: Seq<bool>, i: int) -> bool {
    match decode_spec(evs[i]) {
        Ok(e) => is_supported(e),
        Err(_) => false,
    }
}

/// The failure that payload `i` gives, if any: an undecodable payload, or an
/// unsupported event whatever the cache says of it.
pub open spec fn failure_at(evs: Seq<PayloadView>, hits: Seq<bool>, i: int) -> Option<BatchError> {
    match decode_spec(evs[i]) {
        Ok(e) => if !is_supported(e) {
            Some(BatchError::Unsupported(UnsupportedEvent::PortBind))
        } else {
            None
        },
        Err(d) => Some(BatchError::Decode(d)),
    }
}

/// The nodes of the first `n` payloads' fragments, merged in order.
pub open spec fn batch_nodes(evs: Seq<PayloadView>, hits: Seq<bool>, n: nat) -> Map<NodeKeyV, NodeV>
    decreases n,
{
    if n == 0 {
        Map::empty()
    } else {
        let prev = batch_nodes(evs, hits, (n - 1) as nat);
        if contributes(evs, hits, n - 1) {
            merged_nodes(prev, event_nodes(decode_spec(evs[n - 1])->Ok_0))
        } else {
            prev
        }
    }
}

/// The edges of the first `n` payloads' fragments.
pub open spec fn batch_edges(evs: Seq<PayloadView>, hits: Seq<bool>, n: nat) -> Set<EdgeV>
    decreases n,
{
    if n == 0 {
        Set::empty()
    } else {
        let prev = batch_edges(evs, hits, (n - 1) as nat);
        if contributes(evs, hits, n - 1) {
            prev + event_edges(decode_spec(evs[n - 1])->Ok_0)
        } else {
            prev
        }
    }
}

/// The representative timestamp of the first `n` payloads: the earliest event
/// time among those with a fragment, 0 where there is none.
pub open spec fn batch_timestamp(evs: Seq<PayloadView>, hits: Seq<bool>, n: nat) -> u64
    decreases n,
{
    if n == 0 {
        0
    } else {
        let prev = batch_timestamp(evs, hits, (n - 1) as nat);
        if contributes(evs, hits, n - 1) {
            let t = event_timestamp(decode_spec(evs[n - 1])->Ok_0);
            if batch_nodes(evs, hits, (n - 1) as nat) == Map::<NodeKeyV, NodeV>::empty() || t < prev {
                t
            } else {
                prev
            }
        } else {
            prev
        }
    }
}

/// The decoded events of the handled payloads among the first `n`, in order.
pub open spec fn batch_handled(evs: Seq<PayloadView>, hits: Seq<bool>, n: nat) -> Seq<GenericEvent>
    decreases n,
{
    if n == 0 {
        Seq::empty()
    } else {
        let prev = batch_handled(evs, hits, (n - 1) as nat);
        if handled(evs, hits, n - 1) {
            prev.push(decode_spec(evs[n - 1])->Ok_0)
        } else {
            prev
        }
    }
}

/// The last failure among the first `n` payloads.
pub open spec fn batch_error(evs: Seq<PayloadView>, hits: Seq<bool>, n: nat) -> Option<BatchError>
    decreases n,
{
    if n == 0 {
        None
    } else {
        match failure_at(evs, hits, n - 1) {
            Some(e) => Some(e),
            None => batch_error(evs, hits, (n - 1) as nat),
        }
    }
}

pub open spec fn payload_views(events: Seq<RawEvent>) -> Seq<PayloadView> {
    events.map_values(|r: RawEvent| r@)
}

/// Decodes each payload, skips those the cache has seen (`cache_hits[i]` is
/// the cache's answer for payload `i`), and merges the fragments of the rest.
/// A payload that fails is recorded and skipped; it is not among the identities.
pub fn handle_event(events: &Vec<RawEvent>, cache_hits: &Vec<bool>) -> (r: OutputEvent)
    ensures
        r.completed_event.graph_spec()@.wf(),
        r.completed_event.graph_spec()@.node_map() == batch_nodes(
            payload_views(events@),
            cache_hits@,
            events@.len(),
        ),
        r.completed_event.graph_spec()@.edge_set() == batch_edges(
            payload_views(events@),
            cache_hits@,
            events@.len(),
        ),
        r.completed_event.graph_spec()@.timestamp == batch_timestamp(
            payload_views(events@),
            cache_hits@,
            events@.len(),
        ),
        r.identities@ == batch_handled(payload_views(events@), cache_hits@, events@.len()),
        match r.completed_event {
            Completion::Total(_) => batch_error(payload_views(events@), cache_hits@, events@.len())
                is None,
            Completion::Partial(_, e) => batch_error(
                payload_views(events@),
                cache_hits@,
                events@.len(),
            ) == Some(e),
        },
{
    let ghost evs = payload_views(events@);
    let ghost hits = cache_hits@;
    let mut failed: Option<BatchError> = None;
    let mut final_subgraph = Graph::new(0);
    let mut identities: Vec<GenericEvent> = Vec::new();
    let mut i: usize = 0;
    while i < events.len()
        invariant
            i <= events@.len(),
            evs == payload_views(events@),
            hits == cache_hits@,
            final_subgraph@.wf(),
            final_subgraph@.node_map() == batch_nodes(evs, hits, i as nat),
            final_subgraph@.edge_set() == batch_edges(evs, hits, i as nat),
            identities@ == batch_handled(evs, hits, i as nat),
            final_subgraph@.timestamp == batch_timestamp(evs, hits, i as nat),
            failed == batch_error(evs, hits, i as nat),
        decreases events.len() - i,
    {
        assert(evs[i as int] == events@[i as int]@);
        match GenericEvent::from_value(&events[i]) {
            Err(e) => {
                failed = Some(BatchError::Decode(e));
            },
            Ok(event) => {
                let hit = i < cache_hits.len() && cache_hits[i];
                if !supported(&event) {
                    failed = Some(BatchError::Unsupported(UnsupportedEvent::PortBind));
                } else if hit {
                    identities.push(event);
                } else {
                    let identity = event.duplicate();
                    match handle_log(event) {
                        Ok(subgraph) => {
                            identities.push(identity);
                            proof {
                                crate::graph::lemma_no_nodes(final_subgraph@);
                            }
                            final_subgraph.merge(&subgraph);
                        },
                        Err(e) => {
                            failed = Some(BatchError::Unsupported(e));
                        },
                    }
                }
            },
        }
        i = i + 1;
    }
    let completed_event = match failed {
        Some(e) => Completion::Partial(final_subgraph, e),
        None => Completion::Total(final_subgraph),
    };
    OutputEvent { completed_event, identities }
}

} // verus!

verus! {

/// The cache answers with the answer for payload `m` taken out.
pub open spec fn without_answer(hits: Seq<bool>, m: int) -> Seq<bool> {
    if 0 <= m < hits.len() {
        hits.remove(m)
    } else {
        hits
    }
}

proof fn lemma_skip_malformed(
    evs: Seq<PayloadView>,
    hits: Seq<bool>,
    m: int,
    n: nat,
)
    requires
        0 <= m < evs.len(),
        decode_spec(evs[m]) is Err,
        n <= evs.len(),
    ensures
        n <= m ==> {
            &&& batch_nodes(evs, hits, n) == batch_nodes(evs.remove(m), without_answer(hits, m), n)
            &&& batch_edges(evs, hits, n) == batch_edges(evs.remove(m), without_answer(hits, m), n)
            &&& batch_handled(evs, hits, n) == batch_handled(
                evs.remove(m),
                without_answer(hits, m),
                n,
            )
        },
        n > m ==> {
            &&& batch_nodes(evs, hits, n) == batch_nodes(
                evs.remove(m),
                without_answer(hits, m),
                (n - 1) as nat,
            )
            &&& batch_edges(evs, hits, n) == batch_edges(
                evs.remove(m),
                without_answer(hits, m),
                (n - 1) as nat,
            )
            &&& batch_handled(evs, hits, n) == batch_handled(
                evs.remove(m),
                without_answer(hits, m),
                (n - 1) as nat,
            )
        },
    decreases n,
{
    let evs2 = evs.remove(m);
    let hits2 = without_answer(hits, m);
    if n > 0 {
        lemma_skip_malformed(evs, hits, m, (n - 1) as nat);
        let i = n - 1;
        if i < m {
            assert(evs2[i] == evs[i]);
            assert(hit_at(hits2, i) == hit_at(hits, i));
        } else if i > m {
            assert(evs2[i - 1] == evs[i]);
            assert(hit_at(hits2, i - 1) == hit_at(hits, i));
        }
    }
}

proof fn lemma_no_failure(
    evs: Seq<PayloadView>,
    hits: Seq<bool>,
    n: nat,
)
    requires
        n <= evs.len(),
        forall|i: int| 0 <= i < n ==> failure_at(evs, hits, i) is None,
    ensures
        batch_error(evs, hits, n) is None,
    decreases n,
{
    if n > 0 {
        lemma_no_failure(evs, hits, (n - 1) as nat);
    }
}

proof fn lemma_failure_stays(
    evs: Seq<PayloadView>,
    hits: Seq<bool>,
    m: int,
    n: nat,
)
    requires
        0 <= m < n <= evs.len(),
        failure_at(evs, hits, m) is Some,
    ensures
        batch_error(evs, hits, n) is Some,
    decreases n,
{
    if n - 1 > m {
        lemma_failure_stays(evs, hits, m, (n - 1) as nat);
    }
}

/// One malformed payload `m` among well-formed ones: the batch's verdict is
/// partial, while its nodes, edges and handled events are those of the batch
/// without that payload, whose verdict is total.
pub proof fn lemma_malformed_payload_skipped(
    evs: Seq<PayloadView>,
    hits: Seq<bool>,
    m: int,
)
    requires
        0 <= m < evs.len(),
        decode_spec(evs[m]) is Err,
        forall|i: int| 0 <= i < evs.len() && i != m ==> failure_at(evs, hits, i) is None,
    ensures
        batch_error(evs, hits, evs.len()) is Some,
        batch_error(evs.remove(m), without_answer(hits, m), (evs.len() - 1) as nat) is None,
        batch_nodes(evs, hits, evs.len()) == batch_nodes(
            evs.remove(m),
            without_answer(hits, m),
            (evs.len() - 1) as nat,
        ),
        batch_edges(evs, hits, evs.len()) == batch_edges(
            evs.remove(m),
            without_answer(hits, m),
            (evs.len() - 1) as nat,
        ),
        batch_handled(evs, hits, evs.len()) == batch_handled(
            evs.remove(m),
            without_answer(hits, m),
            (evs.len() - 1) as nat,
        ),
{
    let evs2 = evs.remove(m);
    let hits2 = without_answer(hits, m);
    lemma_skip_malformed(evs, hits, m, evs.len());
    lemma_failure_stays(evs, hits, m, evs.len());
    assert forall|i: int| 0 <= i < evs2.len() implies failure_at(evs2, hits2, i) is None by {
        if i < m {
            assert(evs2[i] == evs[i]);
            assert(hit_at(hits2, i) == hit_at(hits, i));
            assert(failure_at(evs, hits, i) is None);
        } else {
            assert(evs2[i] == evs[i + 1]);
            assert(hit_at(hits2, i) == hit_at(hits, i + 1));
            assert(failure_at(evs, hits, i + 1) is None);
        }
    }
    lemma_no_failure(evs2, hits2, evs2.len());
}

/// A batch whose payloads all decode to supported events and all hit the cache merges nothing,
/// fails nowhere, and hands back every decoded event as handled.
pub proof fn lemma_all_cache_hits(
    evs: Seq<PayloadView>,
    hits: Seq<bool>,
    n: nat,
)
    requires
        n <= evs.len(),
        forall|i: int|
            0 <= i < n ==> decode_spec(#[trigger] evs[i]) is Ok && is_supported(
                decode_spec(evs[i])->Ok_0,
            ) && hit_at(hits, i),
    ensures
        batch_nodes(evs, hits, n) == Map::<NodeKeyV, NodeV>::empty(),
        batch_edges(evs, hits, n) == Set::<EdgeV>::empty(),
        batch_error(evs, hits, n) is None,
        batch_handled(evs, hits, n).len() == n,
        forall|i: int|
            0 <= i < n ==> batch_handled(evs, hits, n)[i] == decode_spec(#[trigger] evs[i])->Ok_0,
    decreases n,
{
    if n > 0 {
        lemma_all_cache_hits(evs, hits, (n - 1) as nat);
        assert(decode_spec(evs[n - 1]) is Ok && is_supported(decode_spec(evs[n - 1])->Ok_0)
            && hit_at(hits, n - 1));
    }
}

} // verus!

verus! {

/// Whether the message whose batch gave `output` may be deleted from the
/// queue: only when the batch's artifacts were durably emitted and no payload
/// of it failed.
pub fn should_acknowledge(emitted: bool, output: &OutputEvent) -> (r: bool)
    ensures
        r == (emitted && output.completed_event is Total),
{
    emitted && match &output.completed_event {
        Completion::Total(_) => true,
        Completion::Partial(_, _) => false,
    }
}

/// The events to record in the dedup cache once a batch is settled: its
/// handled events when its artifacts were emitted, none otherwise.
pub fn identities_to_record(emitted: bool, output: &OutputEvent) -> (r: Vec<GenericEvent>)
    ensures
        r@ == if emitted {
            output.identities@
        } else {
            Seq::<GenericEvent>::empty()
        },
{
    let mut r: Vec<GenericEvent> = Vec::new();
    if emitted {
        let mut i: usize = 0;
        while i < output.identities.len()
            invariant
                i <= output.identities@.len(),
                r@ == output.identities@.take(i as int),
            decreases output.identities.len() - i,
        {
            r.push(output.identities[i].duplicate());
            assert(r@ =~= output.identities@.take(i + 1));
            i = i + 1;
        }
        assert(output.identities@.take(i as int) =~= output.identities@);
    }
    r
}

} // verus!
