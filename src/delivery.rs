use vstd::prelude::*;
use crate::graph::str_eq;

verus! {

/// When a lane stops pulling messages: at the deadline less a safety margin,
/// or after a number of empty pulls in a row.
#[derive(Clone, Debug)]
pub struct ConsumePolicy {
    pub deadline_ms: u64,
    pub stop_margin_ms: u64,
    pub max_empty_receives: u64,
    pub empty_receives: u64,
}

impl ConsumePolicy {
    pub fn new(deadline_ms: u64, stop_margin_ms: u64, max_empty_receives: u64) -> (r: ConsumePolicy)
        ensures
            r.deadline_ms == deadline_ms,
            r.stop_margin_ms == stop_margin_ms,
            r.max_empty_receives == max_empty_receives,
            r.empty_receives == 0,
    {
        ConsumePolicy { deadline_ms, stop_margin_ms, max_empty_receives, empty_receives: 0 }
    }

    pub open spec fn should_consume_spec(&self, now_ms: u64) -> bool {
        &&& (now_ms as int) + (self.stop_margin_ms as int) < (self.deadline_ms as int)
        &&& self.empty_receives < self.max_empty_receives
    }

    /// True while there is time left before the margin and the run of empty
    /// pulls is short of its limit.
    pub fn should_consume(&self, now_ms: u64) -> (r: bool)
        ensures
            r == self.should_consume_spec(now_ms),
    {
        if self.empty_receives >= self.max_empty_receives {
            false
        } else if now_ms >= self.deadline_ms {
            false
        } else {
            self.deadline_ms - now_ms > self.stop_margin_ms
        }
    }

    /// Records the result of one pull: an empty one lengthens the run, a
    /// non-empty one ends it.
    pub fn register_received(&mut self, any: bool)
        ensures
            final(self).deadline_ms == old(self).deadline_ms,
            final(self).stop_margin_ms == old(self).stop_margin_ms,
            final(self).max_empty_receives == old(self).max_empty_receives,
            final(self).empty_receives == if any {
                0
            } else if old(self).empty_receives == u64::MAX {
                u64::MAX
            } else {
                (old(self).empty_receives + 1) as u64
            },
    {
        if any {
            self.empty_receives = 0;
        } else if self.empty_receives < u64::MAX {
            self.empty_receives = self.empty_receives + 1;
        }
    }
}

/// When buffered work is flushed: at a number of items or after a time window,
/// whichever comes first.
#[derive(Clone, Debug)]
pub struct CompletionPolicy {
    pub max_messages: u64,
    pub max_wait_ms: u64,
}

impl CompletionPolicy {
    pub fn new(max_messages: u64, max_wait_ms: u64) -> (r: CompletionPolicy)
        ensures
            r.max_messages == max_messages,
            r.max_wait_ms == max_wait_ms,
    {
        CompletionPolicy { max_messages, max_wait_ms }
    }

    /// True when `buffered` items, the oldest buffered `waited_ms` ago, are to be flushed.
    pub fn should_flush(&self, buffered: u64, waited_ms: u64) -> (r: bool)
        ensures
            r == (buffered > 0 && (buffered >= self.max_messages || waited_ms >= self.max_wait_ms)),
    {
        buffered > 0 && (buffered >= self.max_messages || waited_ms >= self.max_wait_ms)
    }
}

/// The lane that each of `n` messages goes to, round robin in receipt order.
pub fn assign_lanes(n: usize, lanes: usize) -> (r: Vec<usize>)
    requires
        lanes > 0,
    ensures
        r@.len() == n,
        forall|i: int| 0 <= i < n ==> #[trigger] r@[i] as int == i % (lanes as int),
{
    let mut r: Vec<usize> = Vec::new();
    let mut lane: usize = 0;
    let mut i: usize = 0;
    while i < n
        invariant
            i <= n,
            lanes > 0,
            r@.len() == i,
            lane as int == (i as int) % (lanes as int),
            forall|j: int| 0 <= j < i ==> #[trigger] r@[j] as int == j % (lanes as int),
        decreases n - i,
    {
        r.push(lane);
        proof {
            let q = (i as int) / (lanes as int);
            vstd::arithmetic::div_mod::lemma_fundamental_div_mod(i as int, lanes as int);
            if lane + 1 == lanes {
                assert((i + 1) as int == (q + 1) * (lanes as int) + 0) by (nonlinear_arith)
                    requires
                        i as int == (lanes as int) * q + (lane as int),
                        lane + 1 == lanes,
                ;
                vstd::arithmetic::div_mod::lemma_fundamental_div_mod_converse(
                    (i + 1) as int,
                    lanes as int,
                    q + 1,
                    0,
                );
            } else {
                assert((i + 1) as int == q * (lanes as int) + (lane + 1)) by (nonlinear_arith)
                    requires
                        i as int == (lanes as int) * q + (lane as int),
                ;
                vstd::arithmetic::div_mod::lemma_fundamental_div_mod_converse(
                    (i + 1) as int,
                    lanes as int,
                    q,
                    lane + 1,
                );
            }
        }
        lane = if lane + 1 == lanes {
            0
        } else {
            lane + 1
        };
        i = i + 1;
    }
    r
}

pub open spec fn id_views(ids: Seq<String>) -> Seq<Seq<char>> {
    ids.map_values(|s: String| s@)
}

/// Tracks the message identities of one invocation that are not yet accounted for.
#[derive(Clone, Debug)]
pub struct Reconciler {
    pub pending: Vec<String>,
}

impl Reconciler {
    /// The identities not yet accounted for.
    pub open spec fn pending_set(&self) -> Set<Seq<char>> {
        id_views(self.pending@).to_set()
    }

    pub open spec fn wf(&self) -> bool {
        id_views(self.pending@).no_duplicates()
    }

    fn position(&self, id: &String) -> (r: Option<usize>)
        ensures
            match r {
                Some(i) => i < self.pending@.len() && self.pending@[i as int]@ == id@,
                None => !self.pending_set().contains(id@),
            },
    {
        let mut i: usize = 0;
        while i < self.pending.len()
            invariant
                i <= self.pending@.len(),
                forall|j: int| 0 <= j < i ==> (#[trigger] self.pending@[j])@ != id@,
            decreases self.pending.len() - i,
        {
            if str_eq(&self.pending[i], id) {
                return Some(i);
            }
            i = i + 1;
        }
        proof {
            if self.pending_set().contains(id@) {
                let k = choose|k: int|
                    0 <= k < id_views(self.pending@).len() && id_views(self.pending@)[k] == id@;
                assert(self.pending@[k]@ == id@);
            }
        }
        None
    }

    /// Starts from the identities received in this invocation.
    pub fn new(initial: &Vec<String>) -> (r: Reconciler)
        ensures
            r.wf(),
            r.pending_set() == id_views(initial@).to_set(),
    {
        let mut r = Reconciler { pending: Vec::new() };
        assert(r.pending_set() =~= Set::empty());
        let mut i: usize = 0;
        while i < initial.len()
            invariant
                i <= initial@.len(),
                r.wf(),
                r.pending_set() == id_views(initial@.take(i as int)).to_set(),
            decreases initial.len() - i,
        {
            let id = &initial[i];
            proof {
                assert(id_views(initial@.take(i + 1)) =~= id_views(initial@.take(i as int)).push(
                    id@,
                ));
                id_views(initial@.take(i as int)).lemma_push_to_set_commute(id@);
            }
            let found = r.position(id);
            if found.is_some() {
                proof {
                    let k = found->Some_0 as int;
                    assert(id_views(r.pending@)[k] == id@);
                    assert(r.pending_set().insert(id@) =~= r.pending_set());
                }
            } else {
                let ghost before = r.pending@;
                r.pending.push(id.clone());
                proof {
                    assert(id_views(r.pending@) =~= id_views(before).push(id@));
                    id_views(before).lemma_push_to_set_commute(id@);
                    assert forall|a: int, b: int|
                        0 <= a < id_views(r.pending@).len() && 0 <= b < id_views(r.pending@).len()
                            && a != b implies id_views(r.pending@)[a] != id_views(r.pending@)[b] by {
                        if a < before.len() && b < before.len() {
                            assert(id_views(before)[a] == id_views(r.pending@)[a]);
                            assert(id_views(before)[b] == id_views(r.pending@)[b]);
                        } else if a < before.len() {
                            assert(id_views(before).contains(id_views(before)[a]));
                        } else {
                            assert(id_views(before).contains(id_views(before)[b]));
                        }
                    }
                }
            }
            i = i + 1;
        }
        assert(initial@.take(i as int) =~= initial@);
        r
    }

    /// A lane reports `id` handled: it is no longer pending.
    pub fn acknowledge(&mut self, id: &String)
        requires
            old(self).wf(),
        ensures
            final(self).wf(),
            final(self).pending_set() == old(self).pending_set().remove(id@),
    {
        match self.position(id) {
            Some(i) => {
                let ghost before = id_views(self.pending@);
                self.pending.remove(i);
                proof {
                    assert(id_views(self.pending@) =~= before.remove(i as int));
                    assert forall|a: int, b: int|
                        0 <= a < id_views(self.pending@).len() && 0 <= b < id_views(
                            self.pending@,
                        ).len() && a != b implies id_views(self.pending@)[a] != id_views(
                            self.pending@,
                        )[b] by {
                        let a2 = if a < i { a } else { a + 1 };
                        let b2 = if b < i { b } else { b + 1 };
                        assert(id_views(self.pending@)[a] == before[a2]);
                        assert(id_views(self.pending@)[b] == before[b2]);
                    }
                    assert forall|x: Seq<char>|
                        #[trigger] self.pending_set().contains(x) <==> before.to_set().remove(
                            id@,
                        ).contains(x) by {
                        if self.pending_set().contains(x) {
                            let now = id_views(self.pending@);
                            let k = choose|k: int| 0 <= k < now.len() && now[k] == x;
                            let k2 = if k < i { k } else { k + 1 };
                            assert(before[k2] == x);
                            assert(before[i as int] == id@);
                        }
                        if before.to_set().remove(id@).contains(x) {
                            let k = choose|k: int| 0 <= k < before.len() && before[k] == x;
                            assert(k != i);
                            let k2 = if k < i { k } else { k - 1 };
                            assert(id_views(self.pending@)[k2] == x);
                        }
                    }
                    assert(self.pending_set() =~= before.to_set().remove(id@));
                }
            },
            None => {
                assert(self.pending_set() =~= old(self).pending_set().remove(id@));
            },
        }
    }

    /// After the shutdown signal: success iff every identity was accounted
    /// for, else the identities still pending, which stay for redelivery.
    pub fn finish(&self) -> (r: Result<(), Vec<String>>)
        requires
            self.wf(),
        ensures
            match r {
                Ok(()) => self.pending_set() == Set::<Seq<char>>::empty(),
                Err(rest) => id_views(rest@).to_set() == self.pending_set() && rest@.len() > 0,
            },
    {
        if self.pending.len() == 0 {
            assert(self.pending_set() =~= Set::<Seq<char>>::empty());
            Ok(())
        } else {
            let mut rest: Vec<String> = Vec::new();
            let mut i: usize = 0;
            while i < self.pending.len()
                invariant
                    i <= self.pending@.len(),
                    id_views(rest@) == id_views(self.pending@.take(i as int)),
                decreases self.pending.len() - i,
            {
                let ghost before = rest@;
                let id = self.pending[i].clone();
                rest.push(id);
                assert(id_views(rest@) =~= id_views(before).push(self.pending@[i as int]@));
                assert(id_views(self.pending@.take(i + 1)) =~= id_views(
                    self.pending@.take(i as int),
                ).push(self.pending@[i as int]@));
                i = i + 1;
            }
            assert(self.pending@.take(i as int) =~= self.pending@);
            Err(rest)
        }
    }
}

} // verus!
