//! The dependency graph behind fine-grained reactive signals.
//!
//! A `ReactiveGraph` records which effects read which signals, which effects are
//! still alive, how deeply batches are nested and which effects a batch has
//! deferred. It decides, for every write and every batch end, which effects have
//! to run; running them is left to the caller, which owns the effect closures.
use vstd::prelude::*;

verus! {

/// Identifier of a reactive node: a signal or an effect.
#[derive(Debug, Clone, Copy, PartialEq, Eq, Hash, Structural)]
pub struct NodeId(pub u64);

/// Hands out node identifiers, counting up from 1 and wrapping as an atomic
/// fetch-add does. One allocator serves the whole process, so that no two
/// nodes share an identifier, whichever graph they belong to.
pub struct IdAllocator {
    next: u64,
    issued: Ghost<Seq<NodeId>>,
}

impl IdAllocator {
    /// The identifiers handed out so far, oldest first.
    pub closed spec fn issued(&self) -> Seq<NodeId> {
        self.issued@
    }

    /// The identifier the next call of `NodeId::next` hands out.
    pub closed spec fn upcoming(&self) -> u64 {
        self.next
    }

    /// Until the counter has gone round, the `i`-th identifier handed out is
    /// `i + 1` and the next one follows the last.
    #[verifier::type_invariant]
    spec fn counts_up(&self) -> bool {
        let issued = self.issued@;
        issued.len() <= u64::MAX ==> {
            &&& forall|i: int| 0 <= i < issued.len() ==> #[trigger] issued[i] == NodeId((i + 1) as u64)
            &&& issued.len() < u64::MAX ==> self.next == issued.len() + 1
        }
    }

    /// An allocator that has handed out nothing; the first identifier is 1.
    pub fn new() -> (ids: IdAllocator)
        ensures
            ids.issued() == Seq::<NodeId>::empty(),
            ids.upcoming() == 1,
    {
        IdAllocator { next: 1, issued: Ghost(Seq::empty()) }
    }
}

impl NodeId {
    /// Hands out the identifier the allocator holds and advances it by one
    /// (wrapping, as an atomic fetch-add does). Until `u64::MAX` identifiers
    /// have been handed out, each one is greater than every earlier one, so
    /// all of them differ.
    pub fn next(ids: &mut IdAllocator) -> (id: NodeId)
        ensures
            id == NodeId(old(ids).upcoming()),
            final(ids).issued() == old(ids).issued().push(id),
            final(ids).upcoming() == if old(ids).upcoming() == u64::MAX {
                0
            } else {
                (old(ids).upcoming() + 1) as u64
            },
            final(ids).issued().len() <= u64::MAX ==> forall|i: int|
                0 <= i < old(ids).issued().len() ==> (#[trigger] old(ids).issued()[i]).0 < id.0,
            final(ids).issued().len() <= u64::MAX ==> final(ids).issued().no_duplicates(),
    {
        proof {
            use_type_invariant(&*ids);
        }
        let id = NodeId(ids.next);
        let ghost issued = ids.issued@.push(id);
        proof {
            if issued.len() <= u64::MAX {
                assert forall|i: int| 0 <= i < issued.len() implies #[trigger] issued[i] == NodeId(
                    (i + 1) as u64,
                ) by {
                    if i < issued.len() - 1 {
                        assert(issued[i] == ids.issued@[i]);
                    }
                }
                assert forall|i: int, j: int|
                    0 <= i < issued.len() && 0 <= j < issued.len() && i != j implies issued[i]
                    != issued[j] by {
                    assert(issued[i] == NodeId((i + 1) as u64));
                    assert(issued[j] == NodeId((j + 1) as u64));
                }
                assert forall|i: int| 0 <= i < ids.issued@.len() implies (
                #[trigger] ids.issued@[i]).0 < id.0 by {
                    assert(ids.issued@[i] == NodeId((i + 1) as u64));
                }
            }
        }
        *ids = IdAllocator { next: ids.next.wrapping_add(1), issued: Ghost(issued) };
        id
    }
}

/// `s` with `x` appended unless `x` already occurs in it (set insertion that
/// keeps first-insertion order).
pub open spec fn insert_unique<A>(s: Seq<A>, x: A) -> Seq<A> {
    if s.contains(x) {
        s
    } else {
        s.push(x)
    }
}

/// Inserts every element of `xs`, left to right, with `insert_unique`.
pub open spec fn insert_all_unique<A>(s: Seq<A>, xs: Seq<A>) -> Seq<A>
    decreases xs.len(),
{
    if xs.len() == 0 {
        s
    } else {
        insert_unique(insert_all_unique(s, xs.drop_last()), xs.last())
    }
}

/// `xs` without any occurrence of `x`.
pub open spec fn without<A>(xs: Seq<A>, x: A) -> Seq<A>
    decreases xs.len(),
{
    if xs.len() == 0 {
        xs
    } else {
        let rest = without(xs.drop_last(), x);
        if xs.last() == x {
            rest
        } else {
            rest.push(xs.last())
        }
    }
}

/// Subscription edges `(signal, observer)` whose observer is not `observer`.
pub open spec fn without_observer(edges: Seq<(NodeId, NodeId)>, observer: NodeId) -> Seq<
    (NodeId, NodeId),
>
    decreases edges.len(),
{
    if edges.len() == 0 {
        edges
    } else {
        let rest = without_observer(edges.drop_last(), observer);
        if edges.last().1 == observer {
            rest
        } else {
            rest.push(edges.last())
        }
    }
}

/// The observers subscribed to `signal`, in subscription order.
pub open spec fn observers_of(edges: Seq<(NodeId, NodeId)>, signal: NodeId) -> Seq<NodeId>
    decreases edges.len(),
{
    if edges.len() == 0 {
        Seq::empty()
    } else {
        let rest = observers_of(edges.drop_last(), signal);
        if edges.last().0 == signal {
            rest.push(edges.last().1)
        } else {
            rest
        }
    }
}

/// The elements of `xs` that are live effects, in order.
pub open spec fn keep_active(xs: Seq<NodeId>, effects: Seq<NodeId>) -> Seq<NodeId>
    decreases xs.len(),
{
    if xs.len() == 0 {
        Seq::empty()
    } else {
        let rest = keep_active(xs.drop_last(), effects);
        if effects.contains(xs.last()) {
            rest.push(xs.last())
        } else {
            rest
        }
    }
}

/// Abstract state of a reactive graph.
#[verifier::ext_equal]
pub struct GraphModel {
    /// Subscriptions `(signal, observer)`, each at most once.
    pub edges: Seq<(NodeId, NodeId)>,
    /// Live effects.
    pub effects: Seq<NodeId>,
    /// How many batches are open.
    pub batch_depth: nat,
    /// Effects notified during the open batch, waiting for its end.
    pub pending: Seq<NodeId>,
    /// The effect that is running now, if any; reads register against it.
    pub observer: Option<NodeId>,
}

impl GraphModel {
    /// No subscription, live effect or pending effect is recorded twice, and
    /// nothing is deferred while no batch is open.
    pub open spec fn wf(self) -> bool {
        &&& self.edges.no_duplicates()
        &&& self.effects.no_duplicates()
        &&& self.pending.no_duplicates()
        &&& self.batch_depth == 0 ==> self.pending.len() == 0
    }

    /// A read of `signal`: the running effect, if any, subscribes to it.
    pub open spec fn read_recorded(self, signal: NodeId) -> GraphModel {
        match self.observer {
            Some(o) => GraphModel { edges: insert_unique(self.edges, (signal, o)), ..self },
            None => self,
        }
    }

    /// A write of `signal`: inside a batch its observers are deferred;
    /// otherwise the live ones among them are returned to be run.
    pub open spec fn notified(self, signal: NodeId) -> (GraphModel, Seq<NodeId>) {
        let subs = observers_of(self.edges, signal);
        if self.batch_depth > 0 {
            (GraphModel { pending: insert_all_unique(self.pending, subs), ..self }, Seq::empty())
        } else {
            (self, keep_active(subs, self.effects))
        }
    }

    /// One more batch open.
    pub open spec fn batch_begun(self) -> GraphModel {
        GraphModel { batch_depth: self.batch_depth + 1, ..self }
    }

    /// The end of a batch: once no batch is open any more, the deferred live
    /// effects are returned to be run and the deferred set is emptied.
    pub open spec fn batch_ended(self) -> (GraphModel, Seq<NodeId>) {
        let depth: nat = if self.batch_depth > 0 {
            (self.batch_depth - 1) as nat
        } else {
            0
        };
        if depth == 0 {
            (
                GraphModel { batch_depth: 0, pending: Seq::empty(), ..self },
                keep_active(self.pending, self.effects),
            )
        } else {
            (GraphModel { batch_depth: depth, ..self }, Seq::empty())
        }
    }

    /// `id` becomes a live effect.
    pub open spec fn effect_registered(self, id: NodeId) -> GraphModel {
        GraphModel { effects: insert_unique(self.effects, id), ..self }
    }

    /// Disposal: the effect stops being live, loses its subscriptions and is
    /// no longer pending.
    pub open spec fn effect_disposed(self, id: NodeId) -> GraphModel {
        GraphModel {
            effects: without(self.effects, id),
            edges: without_observer(self.edges, id),
            pending: without(self.pending, id),
            ..self
        }
    }

    /// `observer` becomes the running effect (or none runs).
    pub open spec fn observing(self, observer: Option<NodeId>) -> GraphModel {
        GraphModel { observer, ..self }
    }
}

/// A graph with nothing recorded: no subscription, no effect, no open batch,
/// nothing deferred and no running effect.
pub open spec fn empty_graph() -> GraphModel {
    GraphModel {
        edges: Seq::empty(),
        effects: Seq::empty(),
        batch_depth: 0,
        pending: Seq::empty(),
        observer: None,
    }
}

/// Subscription table, live effects, batch nesting and deferred effects.
pub struct ReactiveGraph {
    edges: Vec<(NodeId, NodeId)>,
    effects: Vec<NodeId>,
    batch_depth: usize,
    pending_effects: Vec<NodeId>,
    current_observer: Option<NodeId>,
}

impl ReactiveGraph {
    /// The graph is always well formed.
    #[verifier::type_invariant]
    spec fn always_wf(&self) -> bool {
        self@.wf()
    }
}

impl View for ReactiveGraph {
    type V = GraphModel;

    closed spec fn view(&self) -> GraphModel {
        GraphModel {
            edges: self.edges@,
            effects: self.effects@,
            batch_depth: self.batch_depth as nat,
            pending: self.pending_effects@,
            observer: self.current_observer,
        }
    }
}

fn contains_node(v: &Vec<NodeId>, x: NodeId) -> (b: bool)
    ensures
        b == v@.contains(x),
{
    let mut i: usize = 0;
    while i < v.len()
        invariant
            i <= v.len(),
            forall|j: int| 0 <= j < i ==> v@[j] != x,
        decreases v.len() - i,
    {
        if v[i] == x {
            assert(v@[i as int] == x);
            return true;
        }
        i += 1;
    }
    false
}

fn contains_edge(v: &Vec<(NodeId, NodeId)>, x: (NodeId, NodeId)) -> (b: bool)
    ensures
        b == v@.contains(x),
{
    let mut i: usize = 0;
    while i < v.len()
        invariant
            i <= v.len(),
            forall|j: int| 0 <= j < i ==> v@[j] != x,
        decreases v.len() - i,
    {
        let e = v[i];
        if e.0 == x.0 && e.1 == x.1 {
            assert(v@[i as int] == x);
            return true;
        }
        i += 1;
    }
    false
}

proof fn lemma_insert_unique_no_dup<A>(s: Seq<A>, x: A)
    requires
        s.no_duplicates(),
    ensures
        insert_unique(s, x).no_duplicates(),
        forall|y: A| insert_unique(s, x).contains(y) <==> (s.contains(y) || y == x),
{
    if !s.contains(x) {
        assert forall|y: A| s.push(x).contains(y) <==> (s.contains(y) || y == x) by {
            if s.push(x).contains(y) {
                let j = choose|j: int| 0 <= j < s.push(x).len() && s.push(x)[j] == y;
                if j < s.len() {
                    assert(s[j] == y);
                }
            }
            if s.contains(y) {
                let j = choose|j: int| 0 <= j < s.len() && s[j] == y;
                assert(s.push(x)[j] == y);
            }
            if y == x {
                assert(s.push(x)[s.len() as int] == y);
            }
        }
    }
}

proof fn lemma_without_props<A>(xs: Seq<A>, x: A)
    ensures
        forall|y: A| #[trigger] without(xs, x).contains(y) <==> (xs.contains(y) && y != x),
        xs.no_duplicates() ==> without(xs, x).no_duplicates(),
    decreases xs.len(),
{
    if xs.len() > 0 {
        let rest = without(xs.drop_last(), x);
        lemma_without_props(xs.drop_last(), x);
        assert forall|y: A| xs.contains(y) <==> (xs.drop_last().contains(y) || y == xs.last()) by {
            if xs.contains(y) {
                let j = choose|j: int| 0 <= j < xs.len() && xs[j] == y;
                if j < xs.len() - 1 {
                    assert(xs.drop_last()[j] == y);
                }
            }
            if xs.drop_last().contains(y) {
                let j = choose|j: int| 0 <= j < xs.drop_last().len() && xs.drop_last()[j] == y;
                assert(xs[j] == y);
            }
            if y == xs.last() {
                assert(xs[xs.len() - 1] == y);
            }
        }
        if xs.no_duplicates() {
            assert(xs.drop_last().no_duplicates());
            assert(!xs.drop_last().contains(xs.last())) by {
                if xs.drop_last().contains(xs.last()) {
                    let j = choose|j: int|
                        0 <= j < xs.drop_last().len() && xs.drop_last()[j] == xs.last();
                    assert(xs[j] == xs[xs.len() - 1]);
                }
            }
        }
        if xs.last() != x {
            lemma_insert_unique_props_push(rest, xs.last());
        }
        assert forall|y: A| #[trigger] without(xs, x).contains(y) <==> (xs.contains(y) && y != x) by {
            assert(rest.contains(y) <==> (xs.drop_last().contains(y) && y != x));
            if xs.last() != x {
                assert(without(xs, x) == rest.push(xs.last()));
                lemma_seq_push_contains(rest, xs.last(), y);
            } else {
                assert(without(xs, x) == rest);
            }
        }
    }
}

proof fn lemma_insert_unique_props_push<A>(s: Seq<A>, x: A)
    ensures
        forall|y: A| s.push(x).contains(y) <==> (s.contains(y) || y == x),
        s.no_duplicates() && !s.contains(x) ==> s.push(x).no_duplicates(),
{
    assert forall|y: A| s.push(x).contains(y) <==> (s.contains(y) || y == x) by {
        if s.push(x).contains(y) {
            let j = choose|j: int| 0 <= j < s.push(x).len() && s.push(x)[j] == y;
            if j < s.len() {
                assert(s[j] == y);
            }
        }
        if s.contains(y) {
            let j = choose|j: int| 0 <= j < s.len() && s[j] == y;
            assert(s.push(x)[j] == y);
        }
        if y == x {
            assert(s.push(x)[s.len() as int] == y);
        }
    }
}

proof fn lemma_without_observer_props(edges: Seq<(NodeId, NodeId)>, o: NodeId)
    ensures
        forall|e: (NodeId, NodeId)|
            #[trigger] without_observer(edges, o).contains(e) <==> (edges.contains(e) && e.1 != o),
        edges.no_duplicates() ==> without_observer(edges, o).no_duplicates(),
    decreases edges.len(),
{
    if edges.len() > 0 {
        let rest = without_observer(edges.drop_last(), o);
        lemma_without_observer_props(edges.drop_last(), o);
        assert forall|y: (NodeId, NodeId)|
            edges.contains(y) <==> (edges.drop_last().contains(y) || y == edges.last()) by {
            if edges.contains(y) {
                let j = choose|j: int| 0 <= j < edges.len() && edges[j] == y;
                if j < edges.len() - 1 {
                    assert(edges.drop_last()[j] == y);
                }
            }
            if edges.drop_last().contains(y) {
                let j = choose|j: int|
                    0 <= j < edges.drop_last().len() && edges.drop_last()[j] == y;
                assert(edges[j] == y);
            }
            if y == edges.last() {
                assert(edges[edges.len() - 1] == y);
            }
        }
        if edges.no_duplicates() {
            assert(edges.drop_last().no_duplicates());
            assert(!edges.drop_last().contains(edges.last())) by {
                if edges.drop_last().contains(edges.last()) {
                    let j = choose|j: int|
                        0 <= j < edges.drop_last().len() && edges.drop_last()[j] == edges.last();
                    assert(edges[j] == edges[edges.len() - 1]);
                }
            }
        }
        if edges.last().1 != o {
            lemma_insert_unique_props_push(rest, edges.last());
        }
        assert forall|e: (NodeId, NodeId)|
            #[trigger] without_observer(edges, o).contains(e) <==> (edges.contains(e) && e.1 != o) by {
            assert(rest.contains(e) <==> (edges.drop_last().contains(e) && e.1 != o));
            if edges.last().1 != o {
                assert(without_observer(edges, o) == rest.push(edges.last()));
                lemma_seq_push_contains(rest, edges.last(), e);
            } else {
                assert(without_observer(edges, o) == rest);
            }
        }
    }
}

proof fn lemma_insert_all_unique_props(s: Seq<NodeId>, xs: Seq<NodeId>)
    requires
        s.no_duplicates(),
    ensures
        insert_all_unique(s, xs).no_duplicates(),
        forall|y: NodeId| #[trigger] insert_all_unique(s, xs).contains(y) <==> (s.contains(y) || xs.contains(y)),
    decreases xs.len(),
{
    if xs.len() > 0 {
        lemma_insert_all_unique_props(s, xs.drop_last());
        lemma_insert_unique_no_dup(insert_all_unique(s, xs.drop_last()), xs.last());
        assert forall|y: NodeId| xs.contains(y) <==> (xs.drop_last().contains(y) || y == xs.last()) by {
            if xs.contains(y) {
                let j = choose|j: int| 0 <= j < xs.len() && xs[j] == y;
                if j < xs.len() - 1 {
                    assert(xs.drop_last()[j] == y);
                }
            }
            if xs.drop_last().contains(y) {
                let j = choose|j: int| 0 <= j < xs.drop_last().len() && xs.drop_last()[j] == y;
                assert(xs[j] == y);
            }
            if y == xs.last() {
                assert(xs[xs.len() - 1] == y);
            }
        }
        let prev = insert_all_unique(s, xs.drop_last());
        assert forall|y: NodeId|
            #[trigger] insert_all_unique(s, xs).contains(y) <==> (s.contains(y) || xs.contains(y)) by {
            assert(insert_all_unique(s, xs) == insert_unique(prev, xs.last()));
            assert(prev.contains(y) <==> (s.contains(y) || xs.drop_last().contains(y)));
        }
    }
}

impl ReactiveGraph {
    /// An empty graph: no subscription, no effect, no open batch, no running
    /// effect.
    pub fn new() -> (g: ReactiveGraph)
        ensures
            g@ == empty_graph(),
            g@.wf(),
    {
        ReactiveGraph {
            edges: Vec::new(),
            effects: Vec::new(),
            batch_depth: 0,
            pending_effects: Vec::new(),
            current_observer: None,
        }
    }

    /// Records a read of `signal_id`: the running effect, if there is one,
    /// subscribes to the signal (once).
    pub fn track(&mut self, signal_id: NodeId)
        ensures
            final(self)@ == old(self)@.read_recorded(signal_id),
            final(self)@.wf(),
    {
        proof {
            use_type_invariant(&*self);
        }
        if let Some(observer) = self.current_observer {
            let edge = (signal_id, observer);
            proof {
                lemma_insert_unique_no_dup(self.edges@, edge);
            }
            if !contains_edge(&self.edges, edge) {
                let mut edges: Vec<(NodeId, NodeId)> = Vec::new();
                std::mem::swap(&mut edges, &mut self.edges);
                edges.push(edge);
                self.edges = edges;
            }
        }
    }

    /// Records a write of `signal_id`. Inside a batch, the signal's observers
    /// are added to the deferred set and nothing is returned; outside, the live
    /// effects among its observers are returned, in subscription order.
    pub fn notify(&mut self, signal_id: NodeId) -> (to_run: Vec<NodeId>)
        ensures
            final(self)@ == old(self)@.notified(signal_id).0,
            to_run@ == old(self)@.notified(signal_id).1,
            final(self)@.wf(),
    {
        proof {
            use_type_invariant(&*self);
        }
        let ghost g0 = self@;
        let mut to_run: Vec<NodeId> = Vec::new();
        let mut pending: Vec<NodeId> = Vec::new();
        std::mem::swap(&mut pending, &mut self.pending_effects);
        let n = self.edges.len();
        let mut i: usize = 0;
        while i < n
            invariant
                n == self.edges.len(),
                i <= n,
                g0.wf(),
                self@ == (GraphModel { pending: Seq::empty(), ..g0 }),
                pending@.no_duplicates(),
                g0.batch_depth > 0 ==> pending@ == insert_all_unique(
                    g0.pending,
                    observers_of(g0.edges.take(i as int), signal_id),
                ),
                g0.batch_depth > 0 ==> to_run@ == Seq::<NodeId>::empty(),
                g0.batch_depth == 0 ==> pending@ == g0.pending,
                g0.batch_depth == 0 ==> to_run@ == keep_active(
                    observers_of(g0.edges.take(i as int), signal_id),
                    g0.effects,
                ),
            decreases n - i,
        {
            let edge = self.edges[i];
            proof {
                let t = g0.edges.take(i as int);
                let t1 = g0.edges.take(i + 1);
                assert(t1.drop_last() =~= t);
                assert(t1.last() == edge);
                let subs = observers_of(t, signal_id);
                if edge.0 == signal_id {
                    assert(subs.push(edge.1).drop_last() =~= subs);
                    lemma_insert_unique_no_dup(pending@, edge.1);
                }
            }
            if edge.0 == signal_id {
                let sub = edge.1;
                if self.batch_depth > 0 {
                    if !contains_node(&pending, sub) {
                        pending.push(sub);
                    }
                } else if contains_node(&self.effects, sub) {
                    to_run.push(sub);
                }
            }
            i += 1;
        }
        proof {
            assert(g0.edges.take(n as int) =~= g0.edges);
        }
        self.pending_effects = pending;
        to_run
    }

    /// Makes `id` a live effect.
    pub fn register_effect(&mut self, id: NodeId)
        ensures
            final(self)@ == old(self)@.effect_registered(id),
            final(self)@.wf(),
    {
        proof {
            use_type_invariant(&*self);
        }
        proof {
            lemma_insert_unique_no_dup(self.effects@, id);
        }
        if !contains_node(&self.effects, id) {
            let mut effects: Vec<NodeId> = Vec::new();
            std::mem::swap(&mut effects, &mut self.effects);
            effects.push(id);
            self.effects = effects;
        }
    }

    /// Whether `id` is a live effect.
    pub fn is_active(&self, id: NodeId) -> (b: bool)
        ensures
            b == self@.effects.contains(id),
    {
        contains_node(&self.effects, id)
    }

    /// Makes `observer` the running effect and returns the one it replaces.
    pub fn swap_observer(&mut self, observer: Option<NodeId>) -> (prev: Option<NodeId>)
        ensures
            prev == old(self)@.observer,
            final(self)@ == old(self)@.observing(observer),
            final(self)@.wf(),
    {
        proof {
            use_type_invariant(&*self);
        }
        let prev = self.current_observer;
        self.current_observer = observer;
        prev
    }

    /// The effect that is running now, if any.
    pub fn current_observer(&self) -> (o: Option<NodeId>)
        ensures
            o == self@.observer,
    {
        self.current_observer
    }

    /// How many batches are open.
    pub fn batch_depth(&self) -> (d: usize)
        ensures
            d == self@.batch_depth,
    {
        self.batch_depth
    }

    /// Opens a batch.
    pub fn begin_batch(&mut self)
        requires
            old(self)@.batch_depth < usize::MAX,
        ensures
            final(self)@ == old(self)@.batch_begun(),
            final(self)@.wf(),
    {
        proof {
            use_type_invariant(&*self);
        }
        self.batch_depth = self.batch_depth + 1;
    }

    /// Closes a batch. When no batch is open any more, returns the deferred
    /// live effects, each once, and forgets the deferred set.
    pub fn end_batch(&mut self) -> (to_run: Vec<NodeId>)
        ensures
            final(self)@ == old(self)@.batch_ended().0,
            to_run@ == old(self)@.batch_ended().1,
            final(self)@.wf(),
    {
        proof {
            use_type_invariant(&*self);
        }
        let depth = if self.batch_depth > 0 {
            self.batch_depth - 1
        } else {
            0
        };
        if depth == 0 {
            let mut pending: Vec<NodeId> = Vec::new();
            std::mem::swap(&mut pending, &mut self.pending_effects);
            self.batch_depth = 0;
            let mut to_run: Vec<NodeId> = Vec::new();
            let n = pending.len();
            let mut i: usize = 0;
            while i < n
                invariant
                    n == pending.len(),
                    i <= n,
                    to_run@ == keep_active(pending@.take(i as int), self@.effects),
                decreases n - i,
            {
                let p = pending[i];
                proof {
                    let t1 = pending@.take(i + 1);
                    assert(t1.drop_last() =~= pending@.take(i as int));
                    assert(t1.last() == p);
                }
                if contains_node(&self.effects, p) {
                    to_run.push(p);
                }
                i += 1;
            }
            proof {
                assert(pending@.take(n as int) =~= pending@);
            }
            to_run
        } else {
            self.batch_depth = depth;
            Vec::new()
        }
    }

    /// Disposes of effect `id`: it stops being live, loses every subscription
    /// and leaves the deferred set.
    pub fn dispose_effect(&mut self, id: NodeId)
        ensures
            final(self)@ == old(self)@.effect_disposed(id),
            final(self)@.wf(),
    {
        proof {
            use_type_invariant(&*self);
        }
        let ghost g0 = self@;
        proof {
            lemma_without_props(g0.effects, id);
            lemma_without_props(g0.pending, id);
            lemma_without_observer_props(g0.edges, id);
        }
        self.effects = remove_node(&self.effects, id);
        self.pending_effects = remove_node(&self.pending_effects, id);
        let mut edges: Vec<(NodeId, NodeId)> = Vec::new();
        let n = self.edges.len();
        let mut i: usize = 0;
        while i < n
            invariant
                n == self.edges.len(),
                self.edges@ == g0.edges,
                i <= n,
                edges@ == without_observer(g0.edges.take(i as int), id),
            decreases n - i,
        {
            let e = self.edges[i];
            proof {
                let t1 = g0.edges.take(i + 1);
                assert(t1.drop_last() =~= g0.edges.take(i as int));
                assert(t1.last() == e);
            }
            if !(e.1 == id) {
                edges.push(e);
            }
            i += 1;
        }
        proof {
            assert(g0.edges.take(n as int) =~= g0.edges);
        }
        self.edges = edges;
    }
}

fn remove_node(v: &Vec<NodeId>, x: NodeId) -> (out: Vec<NodeId>)
    ensures
        out@ == without(v@, x),
{
    let mut out: Vec<NodeId> = Vec::new();
    let n = v.len();
    let mut i: usize = 0;
    while i < n
        invariant
            n == v.len(),
            i <= n,
            out@ == without(v@.take(i as int), x),
        decreases n - i,
    {
        let y = v[i];
        proof {
            let t1 = v@.take(i + 1);
            assert(t1.drop_last() =~= v@.take(i as int));
            assert(t1.last() == y);
        }
        if !(y == x) {
            out.push(y);
        }
        i += 1;
    }
    proof {
        assert(v@.take(n as int) =~= v@);
    }
    out
}

} // verus!

verus! {

/// The writes of `signals`, one after another, with their returned effects
/// dropped.
pub open spec fn notified_all(m: GraphModel, signals: Seq<NodeId>) -> GraphModel
    decreases signals.len(),
{
    if signals.len() == 0 {
        m
    } else {
        notified_all(m, signals.drop_last()).notified(signals.last()).0
    }
}

/// Whether `x` observes one of `signals` along `edges`.
pub open spec fn observes_any(edges: Seq<(NodeId, NodeId)>, signals: Seq<NodeId>, x: NodeId) -> bool {
    exists|j: int| 0 <= j < signals.len() && observers_of(edges, signals[j]).contains(x)
}

proof fn lemma_seq_push_contains<A>(s: Seq<A>, x: A, y: A)
    ensures
        s.push(x).contains(y) <==> (s.contains(y) || y == x),
{
    lemma_insert_unique_props_push(s, x);
}

proof fn lemma_observers_of_props(edges: Seq<(NodeId, NodeId)>, s: NodeId)
    ensures
        forall|x: NodeId| #[trigger] observers_of(edges, s).contains(x) <==> edges.contains((s, x)),
        edges.no_duplicates() ==> observers_of(edges, s).no_duplicates(),
    decreases edges.len(),
{
    if edges.len() > 0 {
        let d = edges.drop_last();
        let rest = observers_of(d, s);
        lemma_observers_of_props(d, s);
        assert forall|y: (NodeId, NodeId)| edges.contains(y) <==> (d.contains(y) || y == edges.last()) by {
            if edges.contains(y) {
                let j = choose|j: int| 0 <= j < edges.len() && edges[j] == y;
                if j < edges.len() - 1 {
                    assert(d[j] == y);
                }
            }
            if d.contains(y) {
                let j = choose|j: int| 0 <= j < d.len() && d[j] == y;
                assert(edges[j] == y);
            }
            if y == edges.last() {
                assert(edges[edges.len() - 1] == y);
            }
        }
        if edges.last().0 == s {
            lemma_insert_unique_props_push(rest, edges.last().1);
            if edges.no_duplicates() {
                assert(d.no_duplicates());
                assert(!d.contains(edges.last())) by {
                    if d.contains(edges.last()) {
                        let j = choose|j: int| 0 <= j < d.len() && d[j] == edges.last();
                        assert(edges[j] == edges[edges.len() - 1]);
                    }
                }
                assert(!rest.contains(edges.last().1));
            }
        }
        assert forall|x: NodeId| observers_of(edges, s).contains(x) <==> edges.contains((s, x)) by {
            if edges.last().0 == s {
                lemma_seq_push_contains(rest, edges.last().1, x);
            }
        }
        if edges.no_duplicates() {
            assert(d.no_duplicates());
        }
    }
}

proof fn lemma_keep_active_props(xs: Seq<NodeId>, effects: Seq<NodeId>)
    ensures
        forall|x: NodeId| #[trigger] keep_active(xs, effects).contains(x) <==> (xs.contains(x) && effects.contains(x)),
        xs.no_duplicates() ==> keep_active(xs, effects).no_duplicates(),
    decreases xs.len(),
{
    if xs.len() > 0 {
        let d = xs.drop_last();
        let rest = keep_active(d, effects);
        lemma_keep_active_props(d, effects);
        assert forall|y: NodeId| xs.contains(y) <==> (d.contains(y) || y == xs.last()) by {
            if xs.contains(y) {
                let j = choose|j: int| 0 <= j < xs.len() && xs[j] == y;
                if j < xs.len() - 1 {
                    assert(d[j] == y);
                }
            }
            if d.contains(y) {
                let j = choose|j: int| 0 <= j < d.len() && d[j] == y;
                assert(xs[j] == y);
            }
            if y == xs.last() {
                assert(xs[xs.len() - 1] == y);
            }
        }
        if effects.contains(xs.last()) {
            lemma_insert_unique_props_push(rest, xs.last());
            if xs.no_duplicates() {
                assert(d.no_duplicates());
                assert(!d.contains(xs.last())) by {
                    if d.contains(xs.last()) {
                        let j = choose|j: int| 0 <= j < d.len() && d[j] == xs.last();
                        assert(xs[j] == xs[xs.len() - 1]);
                    }
                }
            }
        }
        assert forall|x: NodeId| keep_active(xs, effects).contains(x) <==> (xs.contains(x) && effects.contains(x)) by {
            if effects.contains(xs.last()) {
                lemma_seq_push_contains(rest, xs.last(), x);
            }
        }
        if xs.no_duplicates() {
            assert(d.no_duplicates());
        }
    }
}

proof fn lemma_notified_all_in_batch(m: GraphModel, signals: Seq<NodeId>)
    requires
        m.wf(),
        m.batch_depth > 0,
    ensures
        notified_all(m, signals) == (GraphModel { pending: notified_all(m, signals).pending, ..m }),
        notified_all(m, signals).wf(),
        forall|x: NodeId|
            notified_all(m, signals).pending.contains(x) <==> (m.pending.contains(x)
                || observes_any(m.edges, signals, x)),
        forall|j: int|
            0 <= j < signals.len() ==> (#[trigger] notified_all(m, signals.take(j)).notified(
                signals[j],
            )).1 == Seq::<NodeId>::empty(),
    decreases signals.len(),
{
    if signals.len() > 0 {
        let d = signals.drop_last();
        lemma_notified_all_in_batch(m, d);
        let p = notified_all(m, d);
        let subs = observers_of(m.edges, signals.last());
        lemma_insert_all_unique_props(p.pending, subs);
        assert(p.batch_depth == m.batch_depth);
        assert(notified_all(m, signals) == p.notified(signals.last()).0);
        assert(notified_all(m, signals).pending == insert_all_unique(p.pending, subs));
        assert forall|x: NodeId|
            notified_all(m, signals).pending.contains(x) <==> (m.pending.contains(x)
                || observes_any(m.edges, signals, x)) by {
            assert(p.pending.contains(x) <==> (m.pending.contains(x) || observes_any(m.edges, d, x)));
            assert(insert_all_unique(p.pending, subs).contains(x) <==> (p.pending.contains(x)
                || subs.contains(x)));
            if observes_any(m.edges, signals, x) {
                let j = choose|j: int|
                    0 <= j < signals.len() && observers_of(m.edges, signals[j]).contains(x);
                if j < signals.len() - 1 {
                    assert(d[j] == signals[j]);
                    assert(observes_any(m.edges, d, x));
                }
            }
            if observes_any(m.edges, d, x) {
                let j = choose|j: int| 0 <= j < d.len() && observers_of(m.edges, d[j]).contains(x);
                assert(signals[j] == d[j]);
            }
            if subs.contains(x) {
                assert(signals[signals.len() - 1] == signals.last());
            }
        }
        assert forall|j: int|
            0 <= j < signals.len() implies (#[trigger] notified_all(m, signals.take(j)).notified(
                signals[j],
            )).1 == Seq::<NodeId>::empty() by {
            if j < signals.len() - 1 {
                assert(d.take(j) =~= signals.take(j));
                assert(d[j] == signals[j]);
            } else {
                assert(signals.take(j) =~= d);
            }
        }
    }
}

/// Inside a batch a write runs nothing: every observer of the written signal
/// is deferred, and nothing else about the graph changes.
pub proof fn law_write_in_batch_is_deferred(m: GraphModel, signal: NodeId)
    requires
        m.wf(),
        m.batch_depth > 0,
    ensures
        m.notified(signal).1 == Seq::<NodeId>::empty(),
        m.notified(signal).0 == (GraphModel { pending: m.notified(signal).0.pending, ..m }),
        forall|x: NodeId|
            observers_of(m.edges, signal).contains(x) ==> m.notified(signal).0.pending.contains(x),
{
    lemma_insert_all_unique_props(m.pending, observers_of(m.edges, signal));
}

/// A batch in which `signals` are written one after another runs nothing
/// until it ends, and its end restores the batch depth it found. Opened
/// outside any batch, its end runs exactly the live effects that observe one
/// of the written signals, each of them once, and leaves nothing deferred.
/// Opened inside another batch, its end runs nothing and leaves the deferred
/// effects, the written signals' observers added, to the outer batch.
pub proof fn law_batch_runs_each_effect_once(m: GraphModel, signals: Seq<NodeId>)
    requires
        m.wf(),
    ensures
        forall|j: int|
            0 <= j < signals.len() ==> (#[trigger] notified_all(m.batch_begun(), signals.take(j)).notified(
                signals[j],
            )).1 == Seq::<NodeId>::empty(),
        ({
            let (after, run) = notified_all(m.batch_begun(), signals).batch_ended();
            &&& after.batch_depth == m.batch_depth
            &&& after.edges == m.edges
            &&& after.effects == m.effects
            &&& after.wf()
            &&& m.batch_depth == 0 ==> {
                &&& run.no_duplicates()
                &&& forall|x: NodeId|
                    #![trigger run.contains(x)]
                    #![trigger observes_any(m.edges, signals, x)]
                    run.contains(x) <==> (m.effects.contains(x) && observes_any(m.edges, signals, x))
                &&& after.pending.len() == 0
            }
            &&& m.batch_depth > 0 ==> {
                &&& run == Seq::<NodeId>::empty()
                &&& forall|x: NodeId|
                    #![trigger after.pending.contains(x)]
                    after.pending.contains(x) <==> (m.pending.contains(x) || observes_any(
                        m.edges,
                        signals,
                        x,
                    ))
            }
        }),
{
    let b = m.batch_begun();
    lemma_notified_all_in_batch(b, signals);
    let p = notified_all(b, signals);
    lemma_keep_active_props(p.pending, p.effects);
    assert(p.batch_depth == m.batch_depth + 1);
    assert(p.effects == m.effects);
    let (after, run) = p.batch_ended();
    if m.batch_depth == 0 {
        assert(run == keep_active(p.pending, p.effects));
        assert forall|x: NodeId|
            run.contains(x) <==> (m.effects.contains(x) && observes_any(m.edges, signals, x)) by {
            assert(!m.pending.contains(x));
            assert(b.pending == m.pending);
            assert(p.pending.contains(x) <==> (b.pending.contains(x) || observes_any(
                b.edges,
                signals,
                x,
            )));
            assert(keep_active(p.pending, p.effects).contains(x) <==> (p.pending.contains(x)
                && p.effects.contains(x)));
        }
        assert(after.pending.len() == 0);
        assert(after.batch_depth == 0);
        assert(after.wf());
    } else {
        assert(after.pending == p.pending);
        assert(after.batch_depth == m.batch_depth);
        assert(after.wf());
        assert forall|x: NodeId| #[trigger] after.pending.contains(x) <==> (m.pending.contains(x)
            || observes_any(m.edges, signals, x)) by {
            assert(b.pending == m.pending);
            assert(p.pending.contains(x) <==> (b.pending.contains(x) || observes_any(
                b.edges,
                signals,
                x,
            )));
        }
    }
    assert(after.edges == m.edges);
    assert(after.effects == m.effects);
}

/// Closing an inner batch runs nothing and keeps the deferred effects for the
/// outer one.
pub proof fn law_inner_batch_end_defers(m: GraphModel)
    requires
        m.wf(),
        m.batch_depth > 1,
    ensures
        m.batch_ended().1 == Seq::<NodeId>::empty(),
        m.batch_ended().0 == (GraphModel { batch_depth: (m.batch_depth - 1) as nat, ..m }),
{
}

/// Outside a batch a write runs exactly the live effects subscribed to the
/// signal, each once, and changes nothing in the graph.
pub proof fn law_write_runs_live_subscribers(m: GraphModel, signal: NodeId)
    requires
        m.wf(),
        m.batch_depth == 0,
    ensures
        m.notified(signal).0 == m,
        m.notified(signal).1.no_duplicates(),
        forall|x: NodeId|
            #![trigger m.notified(signal).1.contains(x)]
            #![trigger m.edges.contains((signal, x))]
            m.notified(signal).1.contains(x) <==> (m.edges.contains((signal, x))
                && m.effects.contains(x)),
{
    lemma_observers_of_props(m.edges, signal);
    lemma_keep_active_props(observers_of(m.edges, signal), m.effects);
    assert forall|x: NodeId|
        m.notified(signal).1.contains(x) <==> (m.edges.contains((signal, x))
            && m.effects.contains(x)) by {
        assert(observers_of(m.edges, signal).contains(x) <==> m.edges.contains((signal, x)));
        assert(keep_active(observers_of(m.edges, signal), m.effects).contains(x) <==> (
        observers_of(m.edges, signal).contains(x) && m.effects.contains(x)));
    }
}

/// A read made while an effect runs subscribes that effect: a later write of
/// the same signal outside a batch runs it, as long as it is live.
pub proof fn law_read_subscribes_running_effect(m: GraphModel, signal: NodeId, effect: NodeId)
    requires
        m.wf(),
        m.observer == Some(effect),
        m.effects.contains(effect),
        m.batch_depth == 0,
    ensures
        m.read_recorded(signal).notified(signal).1.contains(effect),
{
    let r = m.read_recorded(signal);
    lemma_insert_unique_no_dup(m.edges, (signal, effect));
    lemma_observers_of_props(r.edges, signal);
    lemma_keep_active_props(observers_of(r.edges, signal), r.effects);
}

/// A disposed effect is no longer live, observes nothing and is not deferred,
/// so neither a write nor the end of a batch runs it.
pub proof fn law_disposed_effect_never_runs(m: GraphModel, effect: NodeId, signal: NodeId)
    requires
        m.wf(),
    ensures
        !m.effect_disposed(effect).effects.contains(effect),
        !m.effect_disposed(effect).pending.contains(effect),
        !observers_of(m.effect_disposed(effect).edges, signal).contains(effect),
        !m.effect_disposed(effect).notified(signal).1.contains(effect),
        !m.effect_disposed(effect).batch_ended().1.contains(effect),
{
    let d = m.effect_disposed(effect);
    lemma_without_props(m.effects, effect);
    lemma_without_props(m.pending, effect);
    lemma_without_observer_props(m.edges, effect);
    lemma_observers_of_props(d.edges, signal);
    lemma_keep_active_props(observers_of(d.edges, signal), d.effects);
    lemma_keep_active_props(d.pending, d.effects);
    assert(without(m.effects, effect).contains(effect) <==> (m.effects.contains(effect) && effect
        != effect));
    assert(without(m.pending, effect).contains(effect) <==> (m.pending.contains(effect) && effect
        != effect));
    assert(observers_of(d.edges, signal).contains(effect) <==> d.edges.contains((signal, effect)));
    assert(without_observer(m.edges, effect).contains((signal, effect)) <==> (m.edges.contains(
        (signal, effect),
    ) && effect != effect));
}


proof fn lemma_without_absent<A>(xs: Seq<A>, x: A)
    requires
        !xs.contains(x),
    ensures
        without(xs, x) == xs,
    decreases xs.len(),
{
    if xs.len() > 0 {
        let d = xs.drop_last();
        assert(!d.contains(x)) by {
            if d.contains(x) {
                let j = choose|j: int| 0 <= j < d.len() && d[j] == x;
                assert(xs[j] == x);
            }
        }
        lemma_without_absent(d, x);
        assert(xs.last() != x) by {
            assert(xs[xs.len() - 1] == xs.last());
        }
        assert(d.push(xs.last()) =~= xs);
    }
}

proof fn lemma_without_observer_absent(edges: Seq<(NodeId, NodeId)>, o: NodeId)
    requires
        forall|e: (NodeId, NodeId)| edges.contains(e) ==> e.1 != o,
    ensures
        without_observer(edges, o) == edges,
    decreases edges.len(),
{
    if edges.len() > 0 {
        let d = edges.drop_last();
        assert forall|e: (NodeId, NodeId)| d.contains(e) implies e.1 != o by {
            let j = choose|j: int| 0 <= j < d.len() && d[j] == e;
            assert(edges[j] == e);
            assert(edges.contains(e));
        }
        lemma_without_observer_absent(d, o);
        assert(edges.contains(edges.last())) by {
            assert(edges[edges.len() - 1] == edges.last());
        }
        assert(d.push(edges.last()) =~= edges);
    }
}

/// Disposing an effect a second time changes nothing, and disposing an
/// identifier that is not live, not deferred and subscribed to nothing leaves
/// the graph as it was.
pub proof fn law_dispose_is_idempotent(m: GraphModel, id: NodeId)
    ensures
        m.effect_disposed(id).effect_disposed(id) == m.effect_disposed(id),
        !m.effects.contains(id) && !m.pending.contains(id) && (forall|s: NodeId|
            !m.edges.contains((s, id))) ==> m.effect_disposed(id) == m,
{
    let d = m.effect_disposed(id);
    lemma_without_props(m.effects, id);
    lemma_without_props(m.pending, id);
    lemma_without_observer_props(m.edges, id);
    assert(!d.effects.contains(id));
    assert(!d.pending.contains(id));
    lemma_without_absent(d.effects, id);
    lemma_without_absent(d.pending, id);
    lemma_without_observer_absent(d.edges, id);
    assert(d.effect_disposed(id) =~= d);
    if !m.effects.contains(id) && !m.pending.contains(id) && (forall|s: NodeId|
        !m.edges.contains((s, id))) {
        lemma_without_absent(m.effects, id);
        lemma_without_absent(m.pending, id);
        assert forall|e: (NodeId, NodeId)| m.edges.contains(e) implies e.1 != id by {
            if e.1 == id {
                assert(e == (e.0, id));
            }
        }
        lemma_without_observer_absent(m.edges, id);
        assert(m.effect_disposed(id) =~= m);
    }
}

/// One operation on a reactive graph, as its methods perform it.
pub enum GraphOp {
    /// `track` of a signal.
    Read(NodeId),
    /// `notify` of a signal.
    Write(NodeId),
    /// `begin_batch`.
    BeginBatch,
    /// `end_batch`.
    EndBatch,
    /// `register_effect`.
    Register(NodeId),
    /// `dispose_effect`.
    Dispose(NodeId),
    /// `swap_observer`.
    Observe(Option<NodeId>),
}

/// The graph after `op`, and the effects it returns to be run.
pub open spec fn op_step(m: GraphModel, op: GraphOp) -> (GraphModel, Seq<NodeId>) {
    match op {
        GraphOp::Read(signal) => (m.read_recorded(signal), Seq::empty()),
        GraphOp::Write(signal) => m.notified(signal),
        GraphOp::BeginBatch => (m.batch_begun(), Seq::empty()),
        GraphOp::EndBatch => m.batch_ended(),
        GraphOp::Register(id) => (m.effect_registered(id), Seq::empty()),
        GraphOp::Dispose(id) => (m.effect_disposed(id), Seq::empty()),
        GraphOp::Observe(o) => (m.observing(o), Seq::empty()),
    }
}

/// The graph after `ops`, one after another.
pub open spec fn after_ops(m: GraphModel, ops: Seq<GraphOp>) -> GraphModel
    decreases ops.len(),
{
    if ops.len() == 0 {
        m
    } else {
        op_step(after_ops(m, ops.drop_last()), ops.last()).0
    }
}

proof fn lemma_op_keeps_effect_out(m: GraphModel, id: NodeId, op: GraphOp)
    requires
        !m.effects.contains(id),
        op != GraphOp::Register(id),
    ensures
        !op_step(m, op).0.effects.contains(id),
        !op_step(m, op).1.contains(id),
{
    match op {
        GraphOp::Write(signal) => {
            lemma_keep_active_props(observers_of(m.edges, signal), m.effects);
        },
        GraphOp::EndBatch => {
            lemma_keep_active_props(m.pending, m.effects);
        },
        GraphOp::Register(x) => {
            lemma_seq_push_contains(m.effects, x, id);
        },
        GraphOp::Dispose(x) => {
            lemma_without_props(m.effects, x);
        },
        _ => {},
    }
}

proof fn lemma_ops_keep_effect_out(m: GraphModel, id: NodeId, ops: Seq<GraphOp>)
    requires
        !m.effects.contains(id),
        forall|k: int| 0 <= k < ops.len() ==> ops[k] != GraphOp::Register(id),
    ensures
        !after_ops(m, ops).effects.contains(id),
        forall|k: int|
            0 <= k < ops.len() ==> !(#[trigger] op_step(after_ops(m, ops.take(k)), ops[k])).1.contains(
                id,
            ),
    decreases ops.len(),
{
    if ops.len() > 0 {
        let d = ops.drop_last();
        assert forall|k: int| 0 <= k < d.len() implies d[k] != GraphOp::Register(id) by {
            assert(d[k] == ops[k]);
        }
        lemma_ops_keep_effect_out(m, id, d);
        assert(ops.last() == ops[ops.len() - 1]);
        lemma_op_keeps_effect_out(after_ops(m, d), id, ops.last());
        assert forall|k: int|
            0 <= k < ops.len() implies !(#[trigger] op_step(after_ops(m, ops.take(k)), ops[k])).1.contains(
            id,
        ) by {
            if k < ops.len() - 1 {
                assert(d.take(k) =~= ops.take(k));
                assert(d[k] == ops[k]);
            } else {
                assert(ops.take(k) =~= d);
            }
        }
    }
}

/// Once an effect is disposed, no later write or batch end runs it, whatever
/// operations follow, as long as none of them registers it again.
pub proof fn law_disposed_effect_stays_silent(m: GraphModel, id: NodeId, ops: Seq<GraphOp>)
    requires
        forall|k: int| 0 <= k < ops.len() ==> ops[k] != GraphOp::Register(id),
    ensures
        forall|k: int|
            0 <= k < ops.len() ==> !(#[trigger] op_step(
                after_ops(m.effect_disposed(id), ops.take(k)),
                ops[k],
            )).1.contains(id),
{
    lemma_without_props(m.effects, id);
    lemma_ops_keep_effect_out(m.effect_disposed(id), id, ops);
}


proof fn lemma_op_keeps_wf(m: GraphModel, op: GraphOp)
    requires
        m.wf(),
    ensures
        op_step(m, op).0.wf(),
{
    match op {
        GraphOp::Read(signal) => {
            if let Some(o) = m.observer {
                lemma_insert_unique_no_dup(m.edges, (signal, o));
            }
        },
        GraphOp::Write(signal) => {
            lemma_insert_all_unique_props(m.pending, observers_of(m.edges, signal));
        },
        GraphOp::Register(id) => {
            lemma_insert_unique_no_dup(m.effects, id);
        },
        GraphOp::Dispose(id) => {
            lemma_without_props(m.effects, id);
            lemma_without_props(m.pending, id);
            lemma_without_observer_props(m.edges, id);
            if m.batch_depth == 0 {
                assert(m.pending =~= Seq::<NodeId>::empty());
                assert(without(m.pending, id) =~= Seq::<NodeId>::empty());
            }
        },
        _ => {},
    }
}

proof fn lemma_ops_keep_wf(m: GraphModel, ops: Seq<GraphOp>)
    requires
        m.wf(),
    ensures
        after_ops(m, ops).wf(),
    decreases ops.len(),
{
    if ops.len() > 0 {
        lemma_ops_keep_wf(m, ops.drop_last());
        lemma_op_keeps_wf(after_ops(m, ops.drop_last()), ops.last());
    }
}

/// Whether, along `ops` run from `m`, effect `x` read `signal` while it was
/// the running effect and was not disposed afterwards.
pub open spec fn read_while_running(m: GraphModel, ops: Seq<GraphOp>, signal: NodeId, x: NodeId) -> bool {
    exists|k: int|
        0 <= k < ops.len() && #[trigger] ops[k] == GraphOp::Read(signal) && after_ops(m, ops.take(k)).observer
            == Some(x) && forall|j: int| k < j < ops.len() ==> ops[j] != GraphOp::Dispose(x)
}

proof fn lemma_op_edges(m: GraphModel, op: GraphOp, signal: NodeId, x: NodeId)
    ensures
        op_step(m, op).0.edges.contains((signal, x)) <==> ((m.edges.contains((signal, x)) && op
            != GraphOp::Dispose(x)) || (op == GraphOp::Read(signal) && m.observer == Some(x))),
{
    match op {
        GraphOp::Read(s) => {
            if let Some(o) = m.observer {
                if m.edges.contains((s, o)) {
                    assert(insert_unique(m.edges, (s, o)) == m.edges);
                } else {
                    lemma_seq_push_contains(m.edges, (s, o), (signal, x));
                }
            }
        },
        GraphOp::Dispose(y) => {
            lemma_without_observer_props(m.edges, y);
        },
        _ => {},
    }
}

proof fn lemma_edges_are_reads(m: GraphModel, ops: Seq<GraphOp>, signal: NodeId, x: NodeId)
    requires
        !m.edges.contains((signal, x)),
    ensures
        after_ops(m, ops).edges.contains((signal, x)) <==> read_while_running(m, ops, signal, x),
    decreases ops.len(),
{
    if ops.len() > 0 {
        let d = ops.drop_last();
        let last = ops.len() - 1;
        let op = ops.last();
        assert(op == ops[last]);
        lemma_edges_are_reads(m, d, signal, x);
        let before = after_ops(m, d);
        lemma_op_edges(before, op, signal, x);
        assert(ops.take(last) =~= d);
        if after_ops(m, ops).edges.contains((signal, x)) {
            if op == GraphOp::Read(signal) && before.observer == Some(x) {
                assert(ops[last] == GraphOp::Read(signal));
            } else {
                assert(read_while_running(m, d, signal, x));
                let k = choose|k: int|
                    0 <= k < d.len() && #[trigger] d[k] == GraphOp::Read(signal) && after_ops(
                        m,
                        d.take(k),
                    ).observer == Some(x) && forall|j: int| k < j < d.len() ==> d[j] != GraphOp::Dispose(x);
                assert(d.take(k) =~= ops.take(k));
                assert(ops[k] == d[k]);
                assert forall|j: int| k < j < ops.len() implies ops[j] != GraphOp::Dispose(x) by {
                    if j < last {
                        assert(ops[j] == d[j]);
                    }
                }
            }
        }
        if read_while_running(m, ops, signal, x) {
            let k = choose|k: int|
                0 <= k < ops.len() && #[trigger] ops[k] == GraphOp::Read(signal) && after_ops(
                    m,
                    ops.take(k),
                ).observer == Some(x) && forall|j: int| k < j < ops.len() ==> ops[j] != GraphOp::Dispose(x);
            if k < last {
                assert(d.take(k) =~= ops.take(k));
                assert(ops[k] == d[k]);
                assert forall|j: int| k < j < d.len() implies d[j] != GraphOp::Dispose(x) by {
                    assert(ops[j] == d[j]);
                }
                assert(read_while_running(m, d, signal, x));
                assert(ops[last] != GraphOp::Dispose(x));
            }
        }
    }
}

/// Outside a batch, writing `signal` on a graph that `ops` built from nothing
/// runs exactly the live effects that read `signal` while they were running
/// and were not disposed since, each of them once, and changes nothing.
pub proof fn law_write_runs_effects_that_read(ops: Seq<GraphOp>, signal: NodeId)
    requires
        after_ops(empty_graph(), ops).batch_depth == 0,
    ensures
        ({
            let m = after_ops(empty_graph(), ops);
            &&& m.notified(signal).0 == m
            &&& m.notified(signal).1.no_duplicates()
            &&& forall|x: NodeId|
                #![trigger m.notified(signal).1.contains(x)]
                #![trigger read_while_running(empty_graph(), ops, signal, x)]
                m.notified(signal).1.contains(x) <==> (m.effects.contains(x) && read_while_running(
                    empty_graph(),
                    ops,
                    signal,
                    x,
                ))
        }),
{
    let m = after_ops(empty_graph(), ops);
    lemma_ops_keep_wf(empty_graph(), ops);
    law_write_runs_live_subscribers(m, signal);
    assert forall|x: NodeId|
        m.notified(signal).1.contains(x) <==> (m.effects.contains(x) && read_while_running(
            empty_graph(),
            ops,
            signal,
            x,
        )) by {
        lemma_edges_are_reads(empty_graph(), ops, signal, x);
    }
}

} // verus!
