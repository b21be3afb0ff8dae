use vstd::prelude::*;
use crate::graph::{EdgeFilter, Graph, VertexFilter, targets};
use crate::pipes::{
    pipe_step,
    AsPipe, BackPipe, ExceptPipe, FilterPipe, Gremlin, MaybeGremlin, MergePipe, Pipe, PropertyPipe,
    SimpleTraversalDir, SimpleTraversalPipe, TakePipe, UniquePipe, VertexPipe, trail_view,
    traversal_targets,
};
use crate::value::{Value, copy_value, value_eq};

verus! {

/// One result of a query.
#[derive(Debug, PartialEq)]
pub enum QueryResult {
    Empty,
    Value(Value),
    Vertex(u64),
}

/// What a result says of the token it comes from: the extracted value if
/// there is one, else the vertex, else nothing.
pub open spec fn result_of(g: Gremlin, r: QueryResult) -> bool {
    match g.result {
        Some(v) => r matches QueryResult::Value(x) && value_eq(x, v),
        None => match g.vertex {
            Some(id) => r == QueryResult::Vertex(id),
            None => r is Empty,
        },
    }
}

/// A state of the engine: the steps, the token in hand, the program counter,
/// the last exhausted step (-1 for none) and the tokens collected so far.
pub type EngineState = (Seq<Pipe>, Option<Gremlin>, int, int, Seq<Gremlin>);

/// How the engine moves on after the step at the counter answered `r`:
/// a token moves one step right, or is collected at the last step; a pull
/// moves the counter left, or, at the frontier, makes the step exhausted;
/// `Done` makes the step exhausted.
pub open spec fn engine_moves(r: MaybeGremlin, a: EngineState, b: EngineState) -> bool {
    let max = a.0.len() - 1;
    let pc = a.2;
    let done = a.3;
    let after = if pc + 1 > max {
        max
    } else {
        pc + 1
    };
    match r {
        MaybeGremlin::Gremlin(t) => if pc + 1 > max {
            b.4 == a.4.push(t) && b.1 is None && b.2 == pc && b.3 == done
        } else {
            b.1 == Some(t) && b.2 == pc + 1 && b.3 == done && b.4 == a.4
        },
        MaybeGremlin::Done => b.1 is None && b.4 == a.4 && b.3 == pc && b.2 == after,
        _ => b.1 is None && b.4 == a.4 && if pc - 1 > done {
            b.2 == pc - 1 && b.3 == done
        } else {
            b.3 == pc && b.2 == after
        },
    }
}

/// One visit of the engine: while some step is not exhausted, the step at
/// the counter runs on the token in hand, as its kind says, and the engine
/// moves on as `engine_moves` says.
pub open spec fn engine_next(g: Graph, a: EngineState, b: EngineState) -> bool {
    let pc = a.2;
    &&& a.3 < a.0.len() - 1
    &&& 0 <= pc < a.0.len()
    &&& b.0.len() == a.0.len()
    &&& b.0 == a.0.update(pc, b.0[pc])
    &&& exists|r: MaybeGremlin|
        #[trigger] pipe_step(a.0[pc], b.0[pc], g, a.1, r) && engine_moves(r, a, b)
}

/// A run of the engine on `g` from the steps `s0` to the steps `s1` that
/// collects `gs`: a sequence of visits from the start (counter at the last
/// step, no token, nothing exhausted) until every step is exhausted.
pub open spec fn engine_run(g: Graph, s0: Seq<Pipe>, s1: Seq<Pipe>, gs: Seq<Gremlin>) -> bool {
    exists|t: Seq<EngineState>|
        {
            &&& t.len() >= 1
            &&& t[0] == (s0, None::<Gremlin>, s0.len() - 1, -1int, Seq::<Gremlin>::empty())
            &&& forall|i: int| 0 <= i < t.len() - 1 ==> #[trigger] engine_next(g, t[i], t[i + 1])
            &&& t.last().0 == s1
            &&& t.last().3 == s0.len() - 1
            &&& t.last().4 == gs
        }
}

/// A step that takes a number `n >= 0` of tokens and has taken none yet.
pub open spec fn fresh_take(p: Pipe) -> bool {
    p is Take && 0 <= p->Take_0.take && p->Take_0.taken == 0
}

/// A step that lets each vertex through once and has seen none yet.
pub open spec fn fresh_unique(p: Pipe) -> bool {
    p is Unique && p->Unique_0.seen@.is_empty()
}

/// The last two steps let each vertex through once and have seen none yet.
pub open spec fn twice_unique(s: Seq<Pipe>) -> bool {
    &&& s.len() >= 2
    &&& fresh_unique(s[s.len() - 1])
    &&& fresh_unique(s[s.len() - 2])
}

/// No vertex occurs twice among the vertex results.
pub open spec fn distinct_vertices(r: Seq<QueryResult>) -> bool {
    forall|i: int, j: int|
        0 <= i < j < r.len() && (#[trigger] r[i]) is Vertex && (#[trigger] r[j]) is Vertex
            ==> r[i]->Vertex_0 != r[j]->Vertex_0
}

/// A vertex filter that names only vertices absent from `g`.
pub open spec fn names_only_absent(g: Graph, f: VertexFilter) -> bool {
    match f {
        VertexFilter::Id(x) => !g.vertices@.contains_key(x),
        VertexFilter::Ids(l) => forall|i: int| 0 <= i < l@.len() ==> !g.vertices@.contains_key(#[trigger] l@[i]),
        _ => false,
    }
}

/// A program of two steps: a source that names only absent vertices (and
/// holds no present one), then a traversal with nothing buffered.
pub open spec fn absent_then_traversal(g: Graph, s: Seq<Pipe>) -> bool {
    &&& s.len() == 2
    &&& s[0] is Vertex
    &&& names_only_absent(g, s[0]->Vertex_0.filter)
    &&& forall|i: int|
        0 <= i < s[0]->Vertex_0.vertices@.len() ==> !g.vertices@.contains_key(
            #[trigger] s[0]->Vertex_0.vertices@[i],
        )
    &&& s[1] is Traversal
    &&& s[1]->Traversal_0.edges@.len() == 0
}

/// The program `v(Id(x)).as_(k).out(All).back(k)`, not run yet.
pub open spec fn back_round_trip(s: Seq<Pipe>) -> bool {
    &&& s.len() == 4
    &&& s[0] is Vertex
    &&& !s[0]->Vertex_0.init
    &&& s[0]->Vertex_0.filter is Id
    &&& s[1] is As
    &&& s[2] is Traversal
    &&& s[2]->Traversal_0.dir == SimpleTraversalDir::Out
    &&& s[2]->Traversal_0.filter is All
    &&& s[2]->Traversal_0.edges@.len() == 0
    &&& s[3] is Back
    &&& s[3]->Back_0.label == s[1]->As_0.label
}

/// How many out-edges a vertex has; none for an absent vertex.
pub open spec fn out_degree(g: Graph, v: u64) -> nat {
    if g.vertices@.contains_key(v) {
        g.vertices@[v].e_out@.len()
    } else {
        0
    }
}

proof fn lemma_all_targets_len(g: Graph, ids: Seq<u64>, outward: bool)
    ensures
        targets(g, ids, EdgeFilter::All, outward).len() == ids.len(),
    decreases ids.len(),
{
    if ids.len() > 0 {
        lemma_all_targets_len(g, ids.drop_last(), outward);
    }
}

/// Where a run of `back_round_trip` from `v` with label `k` stands: the
/// source hands out `v` once; until the traversal has taken that token,
/// nothing is buffered or emitted; after that, emitted results, buffered
/// neighbours and a token on its way to the last step add up to `e`; every
/// token past the label step carries the trail `k => v`.
pub open spec fn round_trip_state(
    s: Seq<Pipe>,
    v: u64,
    k: u64,
    e: nat,
    results: Seq<Gremlin>,
    token: Option<Gremlin>,
    pc: int,
    done: int,
) -> bool {
    let source = s[0]->Vertex_0;
    let trav = s[2]->Traversal_0;
    let before = !source.init || source.vertices@ == seq![v];
    let pending = token is Some && (pc == 1 || pc == 2);
    let trail = Some(map![k => v]);
    &&& s.len() == 4
    &&& s[0] is Vertex
    &&& source.filter is Id
    &&& source.filter->Id_0 == v
    &&& s[1] is As
    &&& s[1]->As_0.label == k
    &&& s[2] is Traversal
    &&& trav.dir == SimpleTraversalDir::Out
    &&& trav.filter is All
    &&& s[3] is Back
    &&& s[3]->Back_0.label == k
    &&& source.init ==> source.vertices@ == seq![v] || source.vertices@.len() == 0
    &&& token is Some ==> 1 <= pc
    &&& done >= 0 ==> !before
    &&& done >= 2 ==> trav.edges@.len() == 0 && !pending
    &&& done >= 3 ==> token is None
    &&& forall|i: int| 0 <= i < results.len() ==> (#[trigger] results[i]).vertex == Some(v)
    &&& before ==> results.len() == 0 && trav.edges@.len() == 0 && token is None
    &&& !before ==> {
        &&& pending ==> results.len() == 0 && trav.edges@.len() == 0
        &&& pending ==> token->Some_0.vertex == Some(v)
        &&& pc >= 2 && token is Some ==> trail_view(token->Some_0.trail) == trail
        &&& trav.edges@.len() > 0 ==> trav.gremlin is Some && trail_view(trav.gremlin->Some_0.trail)
            == trail
        &&& !pending ==> results.len() + trav.edges@.len() + (if token is Some {
            1int
        } else {
            0int
        }) == e
    }
}

/// The worth of a token waiting at the input of step `k` of `n`, when no
/// step holds back `c` tokens or more.
pub open spec fn weight(k: int, n: int, c: nat) -> nat
    decreases n - k,
{
    if k >= n {
        0
    } else {
        1 + c * (weight(k + 1, n, c) + 1)
    }
}

/// The worth of what step `k` holds back.
pub open spec fn term(p: Pipe, k: int, n: int, c: nat) -> nat {
    p.count(c) * (weight(k + 1, n, c) + 1)
}

/// The worth of what steps `0..k` hold back.
pub open spec fn held(s: Seq<Pipe>, k: int, c: nat) -> nat
    decreases k,
{
    if k <= 0 {
        0
    } else {
        held(s, k - 1, c) + term(s[k - 1], k - 1, s.len() as int, c)
    }
}

/// The total size of the lists that steps `0..k` hold.
pub open spec fn sizes(s: Seq<Pipe>, k: int) -> nat
    decreases k,
{
    if k <= 0 {
        0
    } else {
        sizes(s, k - 1) + s[k - 1].size()
    }
}

proof fn lemma_sizes(s: Seq<Pipe>, k: int, i: int)
    requires
        0 <= i < k <= s.len(),
    ensures
        s[i].size() <= sizes(s, k),
    decreases k,
{
    if i < k - 1 {
        lemma_sizes(s, k - 1, i);
    }
}

proof fn lemma_held_update(s: Seq<Pipe>, i: int, x: Pipe, k: int, c: nat)
    requires
        0 <= i < s.len(),
        0 <= k <= s.len(),
    ensures
        k <= i ==> held(s.update(i, x), k, c) == held(s, k, c),
        k > i ==> held(s.update(i, x), k, c) + term(s[i], i, s.len() as int, c) == held(s, k, c)
            + term(x, i, s.len() as int, c),
    decreases k,
{
    if k > 0 {
        lemma_held_update(s, i, x, k - 1, c);
    }
}

proof fn lemma_held_ge(s: Seq<Pipe>, i: int, k: int, c: nat)
    requires
        0 <= i < k <= s.len(),
    ensures
        held(s, k, c) >= term(s[i], i, s.len() as int, c),
    decreases k,
{
    if i < k - 1 {
        lemma_held_ge(s, i, k - 1, c);
    }
}

proof fn lemma_step_bound(cnt: nat, cnt2: nat, c: nat, w: nat)
    requires
        cnt2 < c,
        w >= 1,
    ensures
        cnt2 * w + (w - 1) < 1 + c * w,
        cnt2 * w < 1 + c * w,
{
    assert(cnt2 * w <= (c - 1) * w) by (nonlinear_arith)
        requires
            cnt2 <= c - 1,
            w >= 1,
    ;
    assert((c - 1) * w == c * w - w) by (nonlinear_arith);
}

proof fn lemma_pop_bound(cnt: nat, cnt2: nat, w: nat)
    requires
        cnt2 < cnt,
        w >= 1,
    ensures
        cnt2 * w + (w - 1) < cnt * w,
{
    assert((cnt2 + 1) * w <= cnt * w) by (nonlinear_arith)
        requires
            cnt2 + 1 <= cnt,
            w >= 1,
    ;
    assert((cnt2 + 1) * w == cnt2 * w + w) by (nonlinear_arith);
}

proof fn lemma_mul_mono(cnt: nat, cnt2: nat, w: nat)
    requires
        cnt2 <= cnt,
    ensures
        cnt2 * w <= cnt * w,
{
    assert(cnt2 * w <= cnt * w) by (nonlinear_arith)
        requires
            cnt2 <= cnt,
    ;
}

/// A query: a store and a program of steps that starts with a vertex
/// source.
pub struct Query<'a> {
    pub graph: &'a Graph,
    pub program: Vec<Pipe>,
}

impl<'a> Query<'a> {
    /// A query can run: its store is well formed, its program is not empty,
    /// and each predicate filter in it can be called on every vertex.
    pub open spec fn wf(&self) -> bool {
        &&& self.graph.wf()
        &&& 1 <= self.program@.len() < i64::MAX
        &&& forall|k: int| 0 <= k < self.program@.len() ==> (#[trigger] self.program@[k]).ready()
    }

    /// `r` is `self` with one more step at the end.
    pub open spec fn extends(&self, r: &Query<'a>) -> bool {
        &&& r.graph == self.graph
        &&& r.program@.len() == self.program@.len() + 1
        &&& r.program@.subrange(0, self.program@.len() as int) == self.program@
    }

    /// A query whose program is one vertex source.
    pub fn new(graph: &'a Graph, filter: VertexFilter) -> (r: Query<'a>)
        ensures
            r.graph == graph,
            r.program@.len() == 1,
            r.program@[0] matches Pipe::Vertex(p) && !p.init && p.vertices@.len() == 0 && p.filter
                == filter,
    {
        let mut program: Vec<Pipe> = Vec::new();
        program.push(Pipe::Vertex(VertexPipe::new(filter)));
        Query { graph, program }
    }

    /// Runs the program and collects what reaches its end, each token
    /// turned into a result: the tokens are those of a run of the engine
    /// (`engine_run`) on the store and the program. Besides, where the last
    /// step takes `n >= 0` tokens and has taken none yet, there are at most
    /// `n` results; after a fresh `unique` no vertex repeats; a fresh
    /// `unique` after another lets through all that the first one did; a
    /// traversal after a source of absent vertices gives nothing; and
    /// `v(Id(x)).as_(k).out(All).back(k)` gives `x` once per out-edge.
    pub fn run(&mut self) -> (r: Vec<QueryResult>)
        requires
            old(self).wf(),
        ensures
            final(self).graph == old(self).graph,
            exists|gs: Seq<Gremlin>|
                {
                    &&& engine_run(*old(self).graph, old(self).program@, final(self).program@, gs)
                    &&& gs.len() == r@.len()
                    &&& forall|i: int| 0 <= i < gs.len() ==> result_of(#[trigger] gs[i], r@[i])
                },
            fresh_take(old(self).program@.last()) ==> r@.len() <= old(
                self,
            ).program@.last()->Take_0.take,
            fresh_unique(old(self).program@.last()) ==> distinct_vertices(r@),
            twice_unique(old(self).program@) ==> r@.len() == final(self).program@[old(
                self,
            ).program@.len() - 2]->Unique_0.seen@.len(),
            absent_then_traversal(*old(self).graph, old(self).program@) ==> r@.len() == 0,
            back_round_trip(old(self).program@) ==> {
                let v = old(self).program@[0]->Vertex_0.filter->Id_0;
                &&& r@.len() == out_degree(*old(self).graph, v)
                &&& forall|i: int| 0 <= i < r@.len() ==> r@[i] == QueryResult::Vertex(v)
            },
    {
        let gs = self.run_program();
        let r = to_results(&gs);
        proof {
            assert(forall|i: int| 0 <= i < gs@.len() ==> result_of(#[trigger] gs@[i], r@[i]));
            if twice_unique(old(self).program@) {
                let seen = self.program@[old(self).program@.len() - 2]->Unique_0.seen@;
                let vs = gs@.map_values(|g: Gremlin| g.vertex->Some_0);
                assert(vs.no_duplicates()) by {
                    assert forall|i: int, j: int| 0 <= i < vs.len() && 0 <= j < vs.len() && i != j
                        implies vs[i] != vs[j] by {
                        if i < j {
                            assert(gs@[i].vertex != gs@[j].vertex);
                        } else {
                            assert(gs@[j].vertex != gs@[i].vertex);
                        }
                    }
                }
                assert(vs.to_set() =~= seen) by {
                    assert forall|v: u64| vs.to_set().contains(v) implies seen.contains(v) by {
                        let i = choose|i: int| 0 <= i < vs.len() && vs[i] == v;
                        assert(gs@[i].vertex is Some);
                    }
                    assert forall|v: u64| seen.contains(v) implies vs.to_set().contains(v) by {
                        let i = choose|i: int| 0 <= i < gs@.len() && (#[trigger] gs@[i]).vertex == Some(v);
                        assert(vs[i] == v);
                    }
                }
                vs.unique_seq_to_set();
            }
            if back_round_trip(old(self).program@) {
                assert forall|i: int| 0 <= i < r@.len() implies r@[i] == QueryResult::Vertex(
                    old(self).program@[0]->Vertex_0.filter->Id_0,
                ) by {
                    assert(result_of(gs@[i], r@[i]));
                }
            }
            if fresh_unique(old(self).program@.last()) {
                assert forall|i: int, j: int|
                    0 <= i < j < r@.len() && (#[trigger] r@[i]) is Vertex && (#[trigger] r@[j]) is Vertex
                        implies r@[i]->Vertex_0 != r@[j]->Vertex_0 by {
                    assert(result_of(gs@[i], r@[i]));
                    assert(result_of(gs@[j], r@[j]));
                }
            }
        }
        r
    }

    /// The engine. It visits the step at the program counter with the last
    /// token, moves right when the step hands out a token and left when it
    /// pulls, and advances the frontier of exhausted steps when a step is
    /// done or pulls at the frontier; what the last step hands out is
    /// collected. It ends because each visit lowers, in this order, the
    /// number of steps not yet exhausted, the weighted count of tokens held
    /// back or waiting (a token waiting at a step outweighs all that a step
    /// can buffer from it), or the distance of the counter from the frontier.
    fn run_program(&mut self) -> (r: Vec<Gremlin>)
        requires
            old(self).wf(),
        ensures
            final(self).graph == old(self).graph,
            engine_run(*old(self).graph, old(self).program@, final(self).program@, r@),
            fresh_take(old(self).program@.last()) ==> r@.len() <= old(
                self,
            ).program@.last()->Take_0.take,
            absent_then_traversal(*old(self).graph, old(self).program@) ==> r@.len() == 0,
            back_round_trip(old(self).program@) ==> {
                let v = old(self).program@[0]->Vertex_0.filter->Id_0;
                &&& r@.len() == out_degree(*old(self).graph, v)
                &&& forall|i: int| 0 <= i < r@.len() ==> (#[trigger] r@[i]).vertex == Some(v)
                    && r@[i].result is None
            },
            final(self).program@.len() == old(self).program@.len(),
            twice_unique(old(self).program@) ==> {
                let seen = final(self).program@[old(self).program@.len() - 2]->Unique_0.seen@;
                &&& final(self).program@[old(self).program@.len() - 2] is Unique
                &&& forall|i: int|
                    0 <= i < r@.len() ==> (#[trigger] r@[i]).vertex is Some && seen.contains(
                        r@[i].vertex->Some_0,
                    )
                &&& forall|v: u64|
                    seen.contains(v) ==> exists|i: int|
                        0 <= i < r@.len() && (#[trigger] r@[i]).vertex == Some(v)
            },
            fresh_unique(old(self).program@.last()) ==> forall|i: int, j: int|
                0 <= i < j < r@.len() ==> (#[trigger] r@[i]).vertex is Some && (#[trigger] r@[j]).vertex
                    is Some && r@[i].vertex != r@[j].vertex,
    {
        let n: usize = self.program.len();
        let max: i64 = n as i64 - 1;
        let ghost c: nat = (2 * self.graph.autoid + 2 + sizes(self.program@, n as int)) as nat;
        let ghost last0 = self.program@.last();
        let ghost g0 = self.graph;
        let ghost dead = absent_then_traversal(*self.graph, self.program@);
        let ghost trip = back_round_trip(self.program@);
        let ghost twice = twice_unique(self.program@);
        let ghost rv: u64 = self.program@[0]->Vertex_0.filter->Id_0;
        let ghost rk: u64 = self.program@[1]->As_0.label;
        let ghost re: nat = out_degree(*self.graph, rv);
        proof {
            assert forall|k: int| 0 <= k < n implies (#[trigger] self.program@[k]).bounded(*self.graph, c) by {
                lemma_sizes(self.program@, n as int, k);
            }
        }
        let mut token: Option<Gremlin> = None;
        let mut results: Vec<Gremlin> = Vec::new();
        let mut done: i64 = -1;
        let mut pc: i64 = max;
        let ghost s_start = self.program@;
        let ghost mut trace: Seq<EngineState> = seq![
            (self.program@, None::<Gremlin>, max as int, -1int, Seq::<Gremlin>::empty()),
        ];
        while done < max
            invariant
                trace.len() >= 1,
                trace[0] == (s_start, None::<Gremlin>, max as int, -1int, Seq::<Gremlin>::empty()),
                s_start.len() == n,
                forall|i: int| 0 <= i < trace.len() - 1 ==> #[trigger] engine_next(*g0, trace[i], trace[i + 1]),
                trace.last() == (self.program@, token, pc as int, done as int, results@),
                self.wf(),
                self.graph == g0,
                self.program@.len() == n,
                max == n - 1,
                -1 <= done <= max,
                done < max ==> done < pc <= max,
                done == max ==> token is None,
                0 <= pc <= max,
                forall|k: int|
                    0 <= k < n ==> (#[trigger] self.program@[k]).bounded(*self.graph, c),
                fresh_take(last0) ==> {
                    &&& self.program@[max as int] is Take
                    &&& self.program@[max as int]->Take_0.take == last0->Take_0.take
                    &&& 0 <= self.program@[max as int]->Take_0.taken <= last0->Take_0.take
                    &&& results@.len() <= last0->Take_0.take
                    &&& done < max ==> results@.len() == self.program@[max as int]->Take_0.taken
                },
                re == out_degree(*g0, rv),
                twice ==> {
                    let last = self.program@[max as int]->Unique_0.seen@;
                    let prev = self.program@[max - 1]->Unique_0.seen@;
                    &&& max >= 1
                    &&& self.program@[max as int] is Unique
                    &&& self.program@[max - 1] is Unique
                    &&& forall|v: u64|
                        last.contains(v) ==> exists|i: int|
                            0 <= i < results@.len() && (#[trigger] results@[i]).vertex == Some(v)
                    &&& token is Some && pc == max ==> {
                        &&& token->Some_0.vertex is Some
                        &&& !last.contains(token->Some_0.vertex->Some_0)
                        &&& prev == last.insert(token->Some_0.vertex->Some_0)
                    }
                    &&& !(token is Some && pc == max) ==> prev == last
                },
                trip ==> round_trip_state(self.program@, rv, rk, re, results@, token, pc as int, done as int),
                trip ==> forall|i: int| 0 <= i < results@.len() ==> (#[trigger] results@[i]).result is None,
                dead ==> {
                    &&& absent_then_traversal(*g0, self.program@)
                    &&& results@.len() == 0
                    &&& token is Some ==> pc == 1 && token->Some_0.vertex is Some
                        && !g0.vertices@.contains_key(token->Some_0.vertex->Some_0)
                },
                fresh_unique(last0) ==> {
                    &&& self.program@[max as int] is Unique
                    &&& forall|i: int|
                        0 <= i < results@.len() ==> (#[trigger] results@[i]).vertex is Some
                            && self.program@[max as int]->Unique_0.seen@.contains(
                            results@[i].vertex->Some_0,
                        )
                    &&& forall|i: int, j: int|
                        0 <= i < j < results@.len() ==> (#[trigger] results@[i]).vertex != (
                        #[trigger] results@[j]).vertex
                },
            decreases max - done, held(self.program@, n as int, c) + match token {
                Some(_) => weight(pc as int, n as int, c),
                None => 0,
            }, pc - done,
        {
            let ghost s0 = self.program@;
            let ghost r_old = results@;
            let ghost had = token is Some;
            let ghost tok = token;
            let ghost a: EngineState = (s0, token, pc as int, done as int, results@);
            let reply = self.program[pc as usize].run(self.graph, token, Ghost(c));
            proof {
                if trip && pc == 2 {
                    if self.graph.vertices@.contains_key(rv) {
                        lemma_all_targets_len(*self.graph, self.graph.vertices@[rv].e_out@, true);
                    }
                    assert(s0[2]->Traversal_0.filter == EdgeFilter::All);
                    assert(traversal_targets(*self.graph, rv, SimpleTraversalDir::Out, EdgeFilter::All).len() == re);
                }
            }
            let ghost rep = reply;
            token = None;
            let ghost k: int = pc as int;
            let ghost w: nat = weight(k + 1, n as int, c) + 1;
            proof {
                let s1 = self.program@;
                assert(s1 == s0.update(k, s1[k]));
                lemma_held_update(s0, k, s1[k], n as int, c);
                lemma_held_ge(s0, k, n as int, c);
                assert(weight(k, n as int, c) == 1 + c * w);
                assert(held(s1, n as int, c) + term(s0[k], k, n as int, c) == held(s0, n as int, c)
                    + term(s1[k], k, n as int, c));
                if reply is Gremlin {
                    if had {
                        lemma_step_bound(s0[k].count(c), s1[k].count(c), c, w);
                    } else {
                        lemma_pop_bound(s0[k].count(c), s1[k].count(c), w);
                    }
                } else if reply is Pull || reply is False {
                    if had {
                        lemma_step_bound(s0[k].count(c), s1[k].count(c), c, w);
                    } else {
                        lemma_mul_mono(s0[k].count(c), s1[k].count(c), w);
                    }
                }
            }
            match reply {
                MaybeGremlin::Gremlin(t) => {
                    if pc + 1 > max {
                        results.push(t);
                    } else {
                        token = Some(t);
                        pc = pc + 1;
                    }
                },
                MaybeGremlin::Pull | MaybeGremlin::False => {
                    if pc - 1 > done {
                        pc = pc - 1;
                    } else {
                        done = pc;
                        pc = pc + 1;
                        if pc > max {
                            pc = max;
                        }
                    }
                },
                MaybeGremlin::Done => {
                    done = pc;
                    pc = pc + 1;
                    if pc > max {
                        pc = max;
                    }
                },
            }
            proof {
                let b: EngineState = (self.program@, token, pc as int, done as int, results@);
                assert(pipe_step(s0[k], self.program@[k], *g0, tok, rep));
                assert(engine_moves(rep, a, b));
                assert(a.3 < a.0.len() - 1);
                assert(0 <= a.2 < a.0.len());
                assert(b.0.len() == a.0.len());
                assert(b.0 == a.0.update(a.2, b.0[a.2]));
                assert(pipe_step(a.0[a.2], b.0[a.2], *g0, a.1, rep));
                assert(engine_next(*g0, a, b));
                let t0 = trace;
                trace = trace.push(b);
                assert forall|i: int| 0 <= i < trace.len() - 1 implies #[trigger] engine_next(
                    *g0,
                    trace[i],
                    trace[i + 1],
                ) by {
                    if i < t0.len() - 1 {
                        assert(trace[i] == t0[i] && trace[i + 1] == t0[i + 1]);
                    } else {
                        assert(trace[i] == a);
                    }
                }
            }
            proof {
                if twice {
                    let last0 = s0[max as int]->Unique_0.seen@;
                    let last = self.program@[max as int]->Unique_0.seen@;
                    assert forall|v: u64| last.contains(v) implies exists|i: int|
                        0 <= i < results@.len() && (#[trigger] results@[i]).vertex == Some(v) by {
                        if last0.contains(v) {
                            let i = choose|i: int|
                                0 <= i < r_old.len() && (#[trigger] r_old[i]).vertex == Some(v);
                            assert(results@[i] == r_old[i]);
                        } else {
                            assert(results@[results@.len() - 1].vertex == Some(v));
                        }
                    }
                }
            }
        }
        proof {
            assert(engine_run(*g0, s_start, self.program@, results@));
        }
        results
    }

    /// Appends a vertex source; it passes on the trail of the token that reaches it.
    pub fn vertex(&mut self, filter: VertexFilter) -> (r: &mut Self)
        ensures
            old(self).extends(r),
            r.program@.last() matches Pipe::Vertex(p) && !p.init && p.vertices@.len() == 0 && p.filter == filter,
            *final(self) == *final(r),
    {
        self.program.push(Pipe::Vertex(VertexPipe::new(filter)));
        proof {
            assert(self.program@.subrange(0, self.program@.len() - 1) =~= old(self).program@);
        }
        self
    }

    /// Appends a step that moves each token to the sources of its in-edges.
    pub fn in_(&mut self, filter: EdgeFilter) -> (r: &mut Self)
        ensures
            old(self).extends(r),
            r.program@.last() matches Pipe::Traversal(p) && p.dir == SimpleTraversalDir::In && p.filter == filter && p.edges@.len() == 0 && p.gremlin is None,
            *final(self) == *final(r),
    {
        self.program.push(Pipe::Traversal(SimpleTraversalPipe::new(SimpleTraversalDir::In, filter)));
        proof {
            assert(self.program@.subrange(0, self.program@.len() - 1) =~= old(self).program@);
        }
        self
    }

    /// Appends a step that moves each token to the targets of its out-edges.
    pub fn out(&mut self, filter: EdgeFilter) -> (r: &mut Self)
        ensures
            old(self).extends(r),
            r.program@.last() matches Pipe::Traversal(p) && p.dir == SimpleTraversalDir::Out && p.filter == filter && p.edges@.len() == 0 && p.gremlin is None,
            *final(self) == *final(r),
    {
        self.program.push(Pipe::Traversal(SimpleTraversalPipe::new(SimpleTraversalDir::Out, filter)));
        proof {
            assert(self.program@.subrange(0, self.program@.len() - 1) =~= old(self).program@);
        }
        self
    }

    /// Appends a step that moves each token along its in-edges, then its out-edges.
    pub fn both(&mut self, filter: EdgeFilter) -> (r: &mut Self)
        ensures
            old(self).extends(r),
            r.program@.last() matches Pipe::Traversal(p) && p.dir == SimpleTraversalDir::Both && p.filter == filter && p.edges@.len() == 0 && p.gremlin is None,
            *final(self) == *final(r),
    {
        self.program.push(Pipe::Traversal(SimpleTraversalPipe::new(SimpleTraversalDir::Both, filter)));
        proof {
            assert(self.program@.subrange(0, self.program@.len() - 1) =~= old(self).program@);
        }
        self
    }

    /// Appends a step that extracts one property of each token's vertex.
    pub fn property(&mut self, property: String) -> (r: &mut Self)
        ensures
            old(self).extends(r),
            r.program@.last() matches Pipe::Property(p) && p.property == property,
            *final(self) == *final(r),
    {
        self.program.push(Pipe::Property(PropertyPipe::new(property)));
        proof {
            assert(self.program@.subrange(0, self.program@.len() - 1) =~= old(self).program@);
        }
        self
    }

    /// Appends a step that lets each vertex through once.
    pub fn unique(&mut self) -> (r: &mut Self)
        ensures
            old(self).extends(r),
            r.program@.last() matches Pipe::Unique(p) && p.seen@.is_empty(),
            *final(self) == *final(r),
    {
        self.program.push(Pipe::Unique(UniquePipe::new()));
        proof {
            assert(self.program@.subrange(0, self.program@.len() - 1) =~= old(self).program@);
        }
        self
    }

    /// Appends a step that keeps the tokens whose vertex passes a filter.
    pub fn filter(&mut self, filter: VertexFilter) -> (r: &mut Self)
        ensures
            old(self).extends(r),
            r.program@.last() matches Pipe::Filter(p) && p.filter == filter,
            *final(self) == *final(r),
    {
        self.program.push(Pipe::Filter(FilterPipe::new(filter)));
        proof {
            assert(self.program@.subrange(0, self.program@.len() - 1) =~= old(self).program@);
        }
        self
    }

    /// Appends a step that lets the first `take` tokens through.
    pub fn take(&mut self, take: i64) -> (r: &mut Self)
        ensures
            old(self).extends(r),
            r.program@.last() matches Pipe::Take(p) && p.take == take && p.taken == 0,
            *final(self) == *final(r),
    {
        self.program.push(Pipe::Take(TakePipe::new(take)));
        proof {
            assert(self.program@.subrange(0, self.program@.len() - 1) =~= old(self).program@);
        }
        self
    }

    /// Appends a step that labels each token's vertex.
    pub fn as_(&mut self, label: u64) -> (r: &mut Self)
        ensures
            old(self).extends(r),
            r.program@.last() matches Pipe::As(p) && p.label == label,
            *final(self) == *final(r),
    {
        self.program.push(Pipe::As(AsPipe::new(label)));
        proof {
            assert(self.program@.subrange(0, self.program@.len() - 1) =~= old(self).program@);
        }
        self
    }

    /// Appends a step that returns each token to its labelled vertex.
    pub fn back(&mut self, label: u64) -> (r: &mut Self)
        ensures
            old(self).extends(r),
            r.program@.last() matches Pipe::Back(p) && p.label == label,
            *final(self) == *final(r),
    {
        self.program.push(Pipe::Back(BackPipe::new(label)));
        proof {
            assert(self.program@.subrange(0, self.program@.len() - 1) =~= old(self).program@);
        }
        self
    }

    /// Appends a step that drops the tokens standing on their labelled vertex.
    pub fn except(&mut self, label: u64) -> (r: &mut Self)
        ensures
            old(self).extends(r),
            r.program@.last() matches Pipe::Except(p) && p.label == label,
            *final(self) == *final(r),
    {
        self.program.push(Pipe::Except(ExceptPipe::new(label)));
        proof {
            assert(self.program@.subrange(0, self.program@.len() - 1) =~= old(self).program@);
        }
        self
    }

    /// Appends a step that moves each token to the vertices its trail gives the labels.
    pub fn merge(&mut self, vertex_ids: Vec<u64>) -> (r: &mut Self)
        ensures
            old(self).extends(r),
            r.program@.last() matches Pipe::Merge(p) && p.vertex_ids == vertex_ids && p.mapped_ids@.len() == 0 && p.gremlin is None,
            *final(self) == *final(r),
    {
        self.program.push(Pipe::Merge(MergePipe::new(vertex_ids)));
        proof {
            assert(self.program@.subrange(0, self.program@.len() - 1) =~= old(self).program@);
        }
        self
    }
}

/// Turns tokens into results (see `result_of`).
pub fn to_results(gs: &Vec<Gremlin>) -> (r: Vec<QueryResult>)
    ensures
        r@.len() == gs@.len(),
        forall|i: int| 0 <= i < gs@.len() ==> result_of(#[trigger] gs@[i], r@[i]),
{
    let mut r: Vec<QueryResult> = Vec::new();
    let mut i: usize = 0;
    while i < gs.len()
        invariant
            0 <= i <= gs@.len(),
            r@.len() == i,
            forall|q: int| 0 <= q < i ==> result_of(#[trigger] gs@[q], r@[q]),
        decreases gs@.len() - i,
    {
        let g = &gs[i];
        let x = match &g.result {
            Some(v) => QueryResult::Value(copy_value(v)),
            None => match g.vertex {
                Some(id) => QueryResult::Vertex(id),
                None => QueryResult::Empty,
            },
        };
        r.push(x);
        i = i + 1;
    }
    r
}

} // verus!
