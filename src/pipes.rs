use std::collections::HashMap;
use std::collections::HashSet;
use vstd::prelude::*;
use crate::graph::{EdgeFilter, Graph, VertexFilter, filter_edge, filter_vertex, lemma_targets_len, targets, vertex_accepts};
use crate::value::{Value, copy_value, get_property, key_position, value_eq};

verus! {

broadcast use vstd::std_specs::hash::group_hash_axioms;

/// The token passed between steps: the current vertex, a value that a
/// property step extracted, and the `as` trail from labels to vertex ids.
#[derive(Debug)]
pub struct Gremlin {
    pub result: Option<Value>,
    pub vertex: Option<u64>,
    pub trail: Option<HashMap<u64, u64>>,
}

/// What a step answers the engine.
#[derive(Debug)]
pub enum MaybeGremlin {
    /// No output for now; pull from upstream.
    Pull,
    /// This step and all before it are exhausted.
    Done,
    /// The input failed this step.
    False,
    /// An output token.
    Gremlin(Gremlin),
}

#[derive(Debug, Clone, Copy, PartialEq, Eq, Structural)]
pub enum SimpleTraversalDir {
    In,
    Out,
    Both,
}

/// The trail of a token, as a map.
pub open spec fn trail_view(t: Option<HashMap<u64, u64>>) -> Option<Map<u64, u64>> {
    match t {
        Some(m) => Some(m@),
        None => None,
    }
}

/// A token at `v` with no extracted value, whose trail is `trail`.
pub open spec fn positioned(r: MaybeGremlin, v: u64, trail: Option<Map<u64, u64>>) -> bool {
    &&& r is Gremlin
    &&& r->Gremlin_0.vertex == Some(v)
    &&& r->Gremlin_0.result is None
    &&& trail_view(r->Gremlin_0.trail) == trail
}

/// The vertices that a traversal step moves a token at `v` to, in the order
/// in which it buffers them: for `Both`, the in-neighbours, then the
/// out-neighbours.
pub open spec fn traversal_targets(g: Graph, v: u64, dir: SimpleTraversalDir, f: EdgeFilter) -> Seq<u64> {
    match dir {
        SimpleTraversalDir::Out => g.neighbours(v, f, true),
        SimpleTraversalDir::In => g.neighbours(v, f, false),
        SimpleTraversalDir::Both => g.neighbours(v, f, false) + g.neighbours(v, f, true),
    }
}

/// The ids of `ids` that the trail maps, mapped, in order.
pub open spec fn merge_targets(ids: Seq<u64>, trail: Option<Map<u64, u64>>) -> Seq<u64>
    decreases ids.len(),
{
    if ids.len() == 0 {
        seq![]
    } else {
        let rest = merge_targets(ids.drop_last(), trail);
        match trail {
            Some(m) => if m.contains_key(ids.last()) {
                rest.push(m[ids.last()])
            } else {
                rest
            },
            None => rest,
        }
    }
}

proof fn lemma_merge_targets_len(ids: Seq<u64>, trail: Option<Map<u64, u64>>)
    ensures
        merge_targets(ids, trail).len() <= ids.len(),
    decreases ids.len(),
{
    if ids.len() > 0 {
        lemma_merge_targets_len(ids.drop_last(), trail);
    }
}

fn copy_trail(t: &Option<HashMap<u64, u64>>) -> (r: Option<HashMap<u64, u64>>)
    ensures
        trail_view(r) == trail_view(*t),
{
    match t {
        Some(m) => Some(m.clone()),
        None => None,
    }
}

/// What one call of a vertex source does: it resolves its filter on the
/// first call, then hands out the last vertex of its list with the upstream
/// trail, or answers `Done` when the list is empty.
pub open spec fn vertex_step(
    prev: VertexPipe,
    next: VertexPipe,
    graph: Graph,
    gremlin: Option<Gremlin>,
    r: MaybeGremlin,
) -> bool {
    &&& next.init
    &&& next.filter == prev.filter
    &&& exists|l: Seq<u64>|
        {
            &&& (prev.init ==> l == prev.vertices@)
            &&& (!prev.init ==> graph.resolves(prev.filter, l))
            &&& (l.len() == 0 ==> r is Done && next.vertices@ == l)
            &&& (l.len() > 0 ==> next.vertices@ == l.drop_last() && positioned(
                r,
                l.last(),
                match gremlin {
                    Some(g) => trail_view(g.trail),
                    None => None,
                },
            ))
        }
}

/// Source of tokens: the vertices that its filter resolves to, popped last
/// first.
pub struct VertexPipe {
    pub init: bool,
    pub vertices: Vec<u64>,
    pub filter: VertexFilter,
}

impl VertexPipe {
    pub fn new(filter: VertexFilter) -> (r: VertexPipe)
        ensures
            !r.init,
            r.vertices@.len() == 0,
            r.filter == filter,
    {
        VertexPipe { init: false, vertices: Vec::new(), filter }
    }

    /// On the first call resolves the filter; then hands out one vertex per
    /// call, carrying the upstream trail, and `Done` when none is left.
    pub fn run(&mut self, graph: &Graph, gremlin: Option<Gremlin>) -> (r: MaybeGremlin)
        requires
            graph.wf(),
            old(self).filter.callable(),
        ensures
            vertex_step(*old(self), *final(self), *graph, gremlin, r),
    {
        if !self.init {
            self.vertices = graph.search_verticies(&self.filter);
            self.init = true;
        }
        match self.vertices.pop() {
            Some(v) => {
                let trail = match gremlin {
                    Some(g) => g.trail,
                    None => None,
                };
                MaybeGremlin::Gremlin(Gremlin { vertex: Some(v), trail, result: None })
            },
            None => MaybeGremlin::Done,
        }
    }
}

/// What one call of a traversal step does: with a buffer, it hands out the
/// last buffered vertex with the stored token's trail; with an empty buffer
/// and a new token, it buffers that token's neighbours first; `Pull` when
/// nothing is buffered.
pub open spec fn traversal_step(
    prev: SimpleTraversalPipe,
    next: SimpleTraversalPipe,
    graph: Graph,
    gremlin: Option<Gremlin>,
    r: MaybeGremlin,
) -> bool {
    &&& next.dir == prev.dir
    &&& next.filter == prev.filter
    &&& prev.edges@.len() == 0 && gremlin is None ==> r is Pull && next.edges@.len() == 0
    &&& prev.edges@.len() > 0 ==> {
        &&& next.edges@ == prev.edges@.drop_last()
        &&& next.gremlin == prev.gremlin
        &&& positioned(
            r,
            prev.edges@.last(),
            match prev.gremlin {
                Some(g) => trail_view(g.trail),
                None => None,
            },
        )
    }
    &&& prev.edges@.len() == 0 && gremlin is Some ==> {
        let t = gremlin->Some_0;
        let l = match t.vertex {
            Some(v) => traversal_targets(graph, v, prev.dir, prev.filter),
            None => seq![],
        };
        &&& next.gremlin == gremlin
        &&& l.len() == 0 ==> r is Pull && next.edges@.len() == 0
        &&& l.len() > 0 ==> next.edges@ == l.drop_last() && positioned(
            r,
            l.last(),
            trail_view(t.trail),
        )
    }
}

/// Moves each token along the edges of its vertex.
pub struct SimpleTraversalPipe {
    pub dir: SimpleTraversalDir,
    pub filter: EdgeFilter,
    pub edges: Vec<u64>,
    pub gremlin: Option<Gremlin>,
}

impl SimpleTraversalPipe {
    pub fn new(dir: SimpleTraversalDir, filter: EdgeFilter) -> (r: SimpleTraversalPipe)
        ensures
            r.dir == dir,
            r.filter == filter,
            r.edges@.len() == 0,
            r.gremlin is None,
    {
        SimpleTraversalPipe { dir, filter, edges: Vec::new(), gremlin: None }
    }

    fn collect(graph: &Graph, v: u64, filter: &EdgeFilter, outward: bool) -> (r: Vec<u64>)
        requires
            graph.wf(),
        ensures
            r@ == graph.neighbours(v, *filter, outward),
    {
        let es = if outward {
            graph.get_out_edges(&v)
        } else {
            graph.get_in_edges(&v)
        };
        let ghost l: Seq<u64> = if !graph.vertices@.contains_key(v) {
            seq![]
        } else if outward {
            graph.vertices@[v].e_out@
        } else {
            graph.vertices@[v].e_in@
        };
        let mut r: Vec<u64> = Vec::new();
        let mut i: usize = 0;
        while i < es.len()
            invariant
                es@.len() == l.len(),
                forall|q: int| 0 <= q < l.len() ==> *es@[q] == graph.edges@[#[trigger] l[q]],
                0 <= i <= l.len(),
                r@ == targets(*graph, l.subrange(0, i as int), *filter, outward),
            decreases l.len() - i,
        {
            proof {
                assert(l.subrange(0, i + 1).drop_last() =~= l.subrange(0, i as int));
                assert(*es@[i as int] == graph.edges@[l[i as int]]);
            }
            let e = es[i];
            if filter_edge(e, filter) {
                if outward {
                    r.push(e.v_in);
                } else {
                    r.push(e.v_out);
                }
            }
            i = i + 1;
        }
        proof {
            assert(l.subrange(0, l.len() as int) =~= l);
        }
        r
    }

    fn get_edges(graph: &Graph, v: u64, filter: &EdgeFilter, dir: SimpleTraversalDir) -> (r: Vec<u64>)
        requires
            graph.wf(),
        ensures
            r@ == traversal_targets(*graph, v, dir, *filter),
    {
        match dir {
            SimpleTraversalDir::Out => Self::collect(graph, v, filter, true),
            SimpleTraversalDir::In => Self::collect(graph, v, filter, false),
            SimpleTraversalDir::Both => {
                let mut a = Self::collect(graph, v, filter, false);
                let mut b = Self::collect(graph, v, filter, true);
                a.append(&mut b);
                a
            },
        }
    }

    /// Buffers the neighbours of a new token's vertex and hands them out
    /// last first, each with that token's trail; `Pull` when none is left.
    pub fn run(&mut self, graph: &Graph, gremlin: Option<Gremlin>) -> (r: MaybeGremlin)
        requires
            graph.wf(),
        ensures
            traversal_step(*old(self), *final(self), *graph, gremlin, r),
    {
        if gremlin.is_none() && self.edges.len() == 0 {
            return MaybeGremlin::Pull;
        }
        if self.edges.len() == 0 {
            let next = match &gremlin {
                Some(g) => match g.vertex {
                    Some(v) => Self::get_edges(graph, v, &self.filter, self.dir),
                    None => Vec::new(),
                },
                None => Vec::new(),
            };
            self.edges = next;
            self.gremlin = gremlin;
        }
        match self.edges.pop() {
            Some(v) => {
                let trail = match &self.gremlin {
                    Some(g) => copy_trail(&g.trail),
                    None => None,
                };
                MaybeGremlin::Gremlin(Gremlin { vertex: Some(v), trail, result: None })
            },
            None => MaybeGremlin::Pull,
        }
    }
}

/// What one call of `PropertyPipe::run` does.
pub open spec fn property_step(
    prev: PropertyPipe,
    next: PropertyPipe,
    graph: Graph,
    gremlin: Option<Gremlin>,
    r: MaybeGremlin,
) -> bool {
    &&& next == prev
    &&& gremlin is None ==> r is Pull
    &&& gremlin matches Some(t) ==> {
        let found = t.vertex is Some && graph.vertices@.contains_key(t.vertex->Some_0)
            && key_position(
            graph.vertices@[t.vertex->Some_0].properties@,
            prev.property@,
        ) != -1;
        &&& !found ==> r is False
        &&& found ==> {
            let props = graph.vertices@[t.vertex->Some_0].properties@;
            &&& r is Gremlin
            &&& r->Gremlin_0.vertex == t.vertex
            &&& r->Gremlin_0.trail == t.trail
            &&& r->Gremlin_0.result matches Some(x) && value_eq(
                x,
                props[key_position(props, prev.property@)].1,
            )
        }
    }
}

/// Replaces a token's extracted value by a copy of one property of its
/// vertex.
pub struct PropertyPipe {
    pub property: String,
}

impl PropertyPipe {
    pub fn new(property: String) -> (r: PropertyPipe)
        ensures
            r.property == property,
    {
        PropertyPipe { property }
    }

    /// `Pull` without input; `False` when the token has no vertex, the
    /// vertex is absent or lacks the property.
    pub fn run(&mut self, graph: &Graph, gremlin: Option<Gremlin>) -> (r: MaybeGremlin)
        ensures
            property_step(*old(self), *final(self), *graph, gremlin, r),
    {
        let g = match gremlin {
            None => {
                return MaybeGremlin::Pull;
            },
            Some(g) => g,
        };
        let v_id = match g.vertex {
            None => {
                return MaybeGremlin::False;
            },
            Some(v) => v,
        };
        let v = match graph.get_vertex(&v_id) {
            None => {
                return MaybeGremlin::False;
            },
            Some(v) => v,
        };
        match get_property(&v.properties, &self.property) {
            None => MaybeGremlin::False,
            Some(x) => {
                let c = copy_value(x);
                MaybeGremlin::Gremlin(Gremlin { result: Some(c), vertex: g.vertex, trail: g.trail })
            },
        }
    }
}

/// What one call of `UniquePipe::run` does.
pub open spec fn unique_step(
    prev: UniquePipe,
    next: UniquePipe,
    gremlin: Option<Gremlin>,
    r: MaybeGremlin,
) -> bool {
    &&& !(gremlin is Some && gremlin->Some_0.vertex is Some) ==> r is Pull && next.seen@
        == prev.seen@
    &&& gremlin is Some && gremlin->Some_0.vertex is Some ==> {
        let v = gremlin->Some_0.vertex->Some_0;
        &&& next.seen@ == prev.seen@.insert(v)
        &&& prev.seen@.contains(v) ==> r is Pull
        &&& !prev.seen@.contains(v) ==> r == MaybeGremlin::Gremlin(gremlin->Some_0)
    }
}

/// Lets each vertex through once.
pub struct UniquePipe {
    pub seen: HashSet<u64>,
}

impl UniquePipe {
    pub fn new() -> (r: UniquePipe)
        ensures
            r.seen@ == Set::<u64>::empty(),
    {
        UniquePipe { seen: HashSet::new() }
    }

    /// Passes a token whose vertex it has not seen, and records the vertex;
    /// `Pull` otherwise.
    pub fn run(&mut self, gremlin: Option<Gremlin>) -> (r: MaybeGremlin)
        ensures
            unique_step(*old(self), *final(self), gremlin, r),
    {
        let g = match gremlin {
            None => {
                return MaybeGremlin::Pull;
            },
            Some(g) => g,
        };
        let v = match g.vertex {
            None => {
                return MaybeGremlin::Pull;
            },
            Some(v) => v,
        };
        if !self.seen.insert(v) {
            return MaybeGremlin::Pull;
        }
        MaybeGremlin::Gremlin(g)
    }
}

/// What one call of `FilterPipe::run` does.
pub open spec fn filter_step(
    prev: FilterPipe,
    next: FilterPipe,
    graph: Graph,
    gremlin: Option<Gremlin>,
    r: MaybeGremlin,
) -> bool {
    &&& next == prev
    &&& r is Pull || r is Gremlin
    &&& r is Gremlin ==> {
        &&& gremlin is Some
        &&& r == MaybeGremlin::Gremlin(gremlin->Some_0)
        &&& gremlin->Some_0.vertex is Some
        &&& graph.vertices@.contains_key(gremlin->Some_0.vertex->Some_0)
    }
    &&& gremlin is Some && gremlin->Some_0.vertex is Some && graph.vertices@.contains_key(
        gremlin->Some_0.vertex->Some_0,
    ) ==> vertex_accepts(
        prev.filter,
        graph.vertices@[gremlin->Some_0.vertex->Some_0],
        r is Gremlin,
    )
}

/// Lets through the tokens whose vertex passes a vertex filter.
pub struct FilterPipe {
    pub filter: VertexFilter,
}

impl FilterPipe {
    pub fn new(filter: VertexFilter) -> (r: FilterPipe)
        ensures
            r.filter == filter,
    {
        FilterPipe { filter }
    }

    /// Passes the token when its vertex is present and passes the filter;
    /// `Pull` otherwise.
    pub fn run(&mut self, graph: &Graph, gremlin: Option<Gremlin>) -> (r: MaybeGremlin)
        requires
            old(self).filter.callable(),
        ensures
            filter_step(*old(self), *final(self), *graph, gremlin, r),
    {
        let g = match gremlin {
            None => {
                return MaybeGremlin::Pull;
            },
            Some(g) => g,
        };
        let v_id = match g.vertex {
            None => {
                return MaybeGremlin::Pull;
            },
            Some(v) => v,
        };
        let v = match graph.get_vertex(&v_id) {
            None => {
                return MaybeGremlin::Pull;
            },
            Some(v) => v,
        };
        if filter_vertex(v, &self.filter) {
            MaybeGremlin::Gremlin(g)
        } else {
            MaybeGremlin::Pull
        }
    }
}

/// What one call of `TakePipe::run` does.
pub open spec fn take_step(
    prev: TakePipe,
    next: TakePipe,
    gremlin: Option<Gremlin>,
    r: MaybeGremlin,
) -> bool {
    &&& next.take == prev.take
    &&& prev.taken == prev.take ==> r is Done && next.taken == 0
    &&& prev.taken != prev.take && gremlin is None ==> r is Pull && next.taken
        == prev.taken
    &&& prev.taken != prev.take && gremlin is Some ==> {
        &&& r == MaybeGremlin::Gremlin(gremlin->Some_0)
        &&& next.taken == if prev.taken < i64::MAX {
            prev.taken + 1
        } else {
            prev.taken as int
        }
    }
}

/// Lets the first `take` tokens through, then answers `Done`.
pub struct TakePipe {
    pub taken: i64,
    pub take: i64,
}

impl TakePipe {
    pub fn new(take: i64) -> (r: TakePipe)
        ensures
            r.taken == 0,
            r.take == take,
    {
        TakePipe { taken: 0, take }
    }

    /// `Done`, with the count reset, once `take` tokens have passed; else
    /// passes the token, or `Pull` without one.
    pub fn run(&mut self, gremlin: Option<Gremlin>) -> (r: MaybeGremlin)
        ensures
            take_step(*old(self), *final(self), gremlin, r),
    {
        if self.taken == self.take {
            self.taken = 0;
            return MaybeGremlin::Done;
        }
        let g = match gremlin {
            None => {
                return MaybeGremlin::Pull;
            },
            Some(g) => g,
        };
        if self.taken < i64::MAX {
            self.taken = self.taken + 1;
        }
        MaybeGremlin::Gremlin(g)
    }
}

/// What one call of `AsPipe::run` does.
pub open spec fn as_step(
    prev: AsPipe,
    next: AsPipe,
    gremlin: Option<Gremlin>,
    r: MaybeGremlin,
) -> bool {
    &&& next == prev
    &&& !(gremlin is Some && gremlin->Some_0.vertex is Some) ==> r is Pull
    &&& gremlin is Some && gremlin->Some_0.vertex is Some ==> {
        let t = gremlin->Some_0;
        &&& r is Gremlin
        &&& r->Gremlin_0.vertex == t.vertex
        &&& r->Gremlin_0.result == t.result
        &&& trail_view(r->Gremlin_0.trail) == Some(map![prev.label => t.vertex->Some_0])
    }
}

/// Labels the current vertex: the trail becomes that one entry.
pub struct AsPipe {
    pub label: u64,
}

impl AsPipe {
    pub fn new(label: u64) -> (r: AsPipe)
        ensures
            r.label == label,
    {
        AsPipe { label }
    }

    pub fn run(&mut self, gremlin: Option<Gremlin>) -> (r: MaybeGremlin)
        ensures
            as_step(*old(self), *final(self), gremlin, r),
    {
        let g = match gremlin {
            None => {
                return MaybeGremlin::Pull;
            },
            Some(g) => g,
        };
        let v = match g.vertex {
            None => {
                return MaybeGremlin::Pull;
            },
            Some(v) => v,
        };
        let mut m: HashMap<u64, u64> = HashMap::new();
        m.insert(self.label, v);
        proof {
            assert(m@ =~= map![self.label => v]);
        }
        MaybeGremlin::Gremlin(Gremlin { result: g.result, vertex: g.vertex, trail: Some(m) })
    }
}

/// The vertex that the trail gives a label, if any.
pub open spec fn labelled(trail: Option<HashMap<u64, u64>>, label: u64) -> Option<u64> {
    match trail {
        Some(m) => if m@.contains_key(label) {
            Some(m@[label])
        } else {
            None
        },
        None => None,
    }
}

fn lookup(trail: &Option<HashMap<u64, u64>>, label: u64) -> (r: Option<u64>)
    ensures
        r == labelled(*trail, label),
{
    match trail {
        Some(m) => match m.get(&label) {
            Some(v) => Some(*v),
            None => None,
        },
        None => None,
    }
}

/// What one call of `BackPipe::run` does.
pub open spec fn back_step(
    prev: BackPipe,
    next: BackPipe,
    gremlin: Option<Gremlin>,
    r: MaybeGremlin,
) -> bool {
    &&& next == prev
    &&& gremlin is None ==> r is Pull
    &&& gremlin matches Some(t) ==> {
        &&& r is Gremlin
        &&& r->Gremlin_0.vertex == labelled(t.trail, prev.label)
        &&& r->Gremlin_0.trail is None
        &&& r->Gremlin_0.result is None
    }
}

/// Returns to the vertex labelled earlier, with an empty trail.
pub struct BackPipe {
    pub label: u64,
}

impl BackPipe {
    pub fn new(label: u64) -> (r: BackPipe)
        ensures
            r.label == label,
    {
        BackPipe { label }
    }

    pub fn run(&mut self, gremlin: Option<Gremlin>) -> (r: MaybeGremlin)
        ensures
            back_step(*old(self), *final(self), gremlin, r),
    {
        let g = match gremlin {
            None => {
                return MaybeGremlin::Pull;
            },
            Some(g) => g,
        };
        let v = lookup(&g.trail, self.label);
        MaybeGremlin::Gremlin(Gremlin { vertex: v, trail: None, result: None })
    }
}

/// What one call of `ExceptPipe::run` does.
pub open spec fn except_step(
    prev: ExceptPipe,
    next: ExceptPipe,
    gremlin: Option<Gremlin>,
    r: MaybeGremlin,
) -> bool {
    &&& next == prev
    &&& gremlin is None ==> r is Pull
    &&& gremlin matches Some(t) ==> {
        let x = labelled(t.trail, prev.label);
        &&& (x is Some && x == t.vertex) ==> r is Pull
        &&& !(x is Some && x == t.vertex) ==> r == MaybeGremlin::Gremlin(t)
    }
}

/// Drops the tokens that stand on the vertex labelled earlier; a label
/// missing from the trail drops nothing.
pub struct ExceptPipe {
    pub label: u64,
}

impl ExceptPipe {
    pub fn new(label: u64) -> (r: ExceptPipe)
        ensures
            r.label == label,
    {
        ExceptPipe { label }
    }

    pub fn run(&mut self, gremlin: Option<Gremlin>) -> (r: MaybeGremlin)
        ensures
            except_step(*old(self), *final(self), gremlin, r),
    {
        let g = match gremlin {
            None => {
                return MaybeGremlin::Pull;
            },
            Some(g) => g,
        };
        match lookup(&g.trail, self.label) {
            Some(x) => {
                if g.vertex == Some(x) {
                    return MaybeGremlin::Pull;
                }
            },
            None => {},
        }
        MaybeGremlin::Gremlin(g)
    }
}

/// What one call of `MergePipe::run` does.
pub open spec fn merge_step(
    prev: MergePipe,
    next: MergePipe,
    gremlin: Option<Gremlin>,
    r: MaybeGremlin,
) -> bool {
    &&& next.vertex_ids == prev.vertex_ids
    &&& prev.mapped_ids@.len() == 0 && gremlin is None ==> r is Pull
        && next.mapped_ids@.len() == 0
    &&& prev.mapped_ids@.len() > 0 ==> {
        &&& next.mapped_ids@ == prev.mapped_ids@.drop_last()
        &&& next.gremlin == prev.gremlin
        &&& positioned(
            r,
            prev.mapped_ids@.last(),
            match prev.gremlin {
                Some(g) => trail_view(g.trail),
                None => None,
            },
        )
    }
    &&& prev.mapped_ids@.len() == 0 && gremlin is Some ==> {
        let t = gremlin->Some_0;
        let l = merge_targets(prev.vertex_ids@, trail_view(t.trail));
        &&& next.gremlin == gremlin
        &&& l.len() == 0 ==> r is Pull && next.mapped_ids@.len() == 0
        &&& l.len() > 0 ==> next.mapped_ids@ == l.drop_last() && positioned(
            r,
            l.last(),
            trail_view(t.trail),
        )
    }
}

/// Moves a token to each of the vertices that its trail gives the listed
/// labels.
pub struct MergePipe {
    pub vertex_ids: Vec<u64>,
    pub mapped_ids: Vec<u64>,
    pub gremlin: Option<Gremlin>,
}

impl MergePipe {
    pub fn new(vertex_ids: Vec<u64>) -> (r: MergePipe)
        ensures
            r.vertex_ids == vertex_ids,
            r.mapped_ids@.len() == 0,
            r.gremlin is None,
    {
        MergePipe { vertex_ids, mapped_ids: Vec::new(), gremlin: None }
    }

    /// Buffers the mapped vertices of a new token and hands them out last
    /// first, each with that token's trail; `Pull` when none is left.
    pub fn run(&mut self, gremlin: Option<Gremlin>) -> (r: MaybeGremlin)
        ensures
            merge_step(*old(self), *final(self), gremlin, r),
    {
        if gremlin.is_none() && self.mapped_ids.len() == 0 {
            return MaybeGremlin::Pull;
        }
        if self.mapped_ids.len() == 0 {
            let mut next: Vec<u64> = Vec::new();
            match &gremlin {
                Some(g) => {
                    let mut i: usize = 0;
                    while i < self.vertex_ids.len()
                        invariant
                            0 <= i <= self.vertex_ids@.len(),
                            next@ == merge_targets(
                                self.vertex_ids@.subrange(0, i as int),
                                trail_view(g.trail),
                            ),
                        decreases self.vertex_ids@.len() - i,
                    {
                        proof {
                            assert(self.vertex_ids@.subrange(0, i + 1).drop_last()
                                =~= self.vertex_ids@.subrange(0, i as int));
                        }
                        match lookup(&g.trail, self.vertex_ids[i]) {
                            Some(v) => {
                                next.push(v);
                            },
                            None => {},
                        }
                        i = i + 1;
                    }
                    proof {
                        assert(self.vertex_ids@.subrange(0, i as int) =~= self.vertex_ids@);
                    }
                },
                None => {},
            }
            self.mapped_ids = next;
            self.gremlin = gremlin;
        }
        match self.mapped_ids.pop() {
            Some(v) => {
                let trail = match &self.gremlin {
                    Some(g) => copy_trail(&g.trail),
                    None => None,
                };
                MaybeGremlin::Gremlin(Gremlin { vertex: Some(v), trail, result: None })
            },
            None => MaybeGremlin::Pull,
        }
    }
}

/// What one call of a step does: the relation of its own kind.
pub open spec fn pipe_step(
    prev: Pipe,
    next: Pipe,
    graph: Graph,
    gremlin: Option<Gremlin>,
    r: MaybeGremlin,
) -> bool {
    match prev {
        Pipe::Vertex(p) => next is Vertex && vertex_step(p, next->Vertex_0, graph, gremlin, r),
        Pipe::Traversal(p) => next is Traversal && traversal_step(
            p,
            next->Traversal_0,
            graph,
            gremlin,
            r,
        ),
        Pipe::Property(p) => next is Property && property_step(
            p,
            next->Property_0,
            graph,
            gremlin,
            r,
        ),
        Pipe::Unique(p) => next is Unique && unique_step(p, next->Unique_0, gremlin, r),
        Pipe::Filter(p) => next is Filter && filter_step(p, next->Filter_0, graph, gremlin, r),
        Pipe::Take(p) => next is Take && take_step(p, next->Take_0, gremlin, r),
        Pipe::As(p) => next is As && as_step(p, next->As_0, gremlin, r),
        Pipe::Back(p) => next is Back && back_step(p, next->Back_0, gremlin, r),
        Pipe::Except(p) => next is Except && except_step(p, next->Except_0, gremlin, r),
        Pipe::Merge(p) => next is Merge && merge_step(p, next->Merge_0, gremlin, r),
    }
}

/// A step of a query program.
pub enum Pipe {
    Vertex(VertexPipe),
    Traversal(SimpleTraversalPipe),
    Property(PropertyPipe),
    Unique(UniquePipe),
    Filter(FilterPipe),
    Take(TakePipe),
    As(AsPipe),
    Back(BackPipe),
    Except(ExceptPipe),
    Merge(MergePipe),
}

proof fn lemma_neighbours_len(g: Graph, v: u64, f: EdgeFilter, outward: bool)
    requires
        g.wf(),
    ensures
        g.neighbours(v, f, outward).len() <= g.autoid,
{
    if g.vertices@.contains_key(v) {
        assert(g.vertex_ok(v));
        lemma_targets_len(g, g.vertices@[v].e_out@, f, true);
        lemma_targets_len(g, g.vertices@[v].e_in@, f, false);
    }
}

impl Pipe {
    /// Its predicate filter, if any, can be called on every vertex.
    pub open spec fn ready(&self) -> bool {
        match self {
            Pipe::Vertex(p) => p.filter.callable(),
            Pipe::Filter(p) => p.filter.callable(),
            _ => true,
        }
    }

    /// How many tokens the step holds back: its buffer, or, for a source
    /// not yet resolved, `c - 1`.
    pub open spec fn count(&self, c: nat) -> nat {
        match self {
            Pipe::Vertex(p) => if p.init {
                p.vertices@.len()
            } else {
                (c - 1) as nat
            },
            Pipe::Traversal(p) => p.edges@.len(),
            Pipe::Merge(p) => p.mapped_ids@.len(),
            _ => 0,
        }
    }

    /// The lists that the step holds.
    pub open spec fn size(&self) -> nat {
        match self {
            Pipe::Vertex(p) => p.vertices@.len() + match p.filter {
                VertexFilter::Ids(l) => l@.len(),
                _ => 0,
            },
            Pipe::Traversal(p) => p.edges@.len(),
            Pipe::Merge(p) => p.mapped_ids@.len() + p.vertex_ids@.len(),
            _ => 0,
        }
    }

    /// Every buffer the step holds or can fill from one token on `g` has
    /// fewer than `c` entries.
    pub open spec fn bounded(&self, g: Graph, c: nat) -> bool {
        &&& c >= 2 * g.autoid + 2
        &&& match self {
            Pipe::Vertex(p) => (p.init ==> p.vertices@.len() <= c - 1) && (p.filter is Ids
                ==> p.filter->Ids_0@.len() <= c - 1),
            Pipe::Traversal(p) => p.edges@.len() <= c - 1,
            Pipe::Merge(p) => p.mapped_ids@.len() <= c - 1 && p.vertex_ids@.len() <= c - 1,
            _ => true,
        }
    }

    /// Runs the step on one input. Whatever it answers, the tokens it holds
    /// back stay under `c`; without input it hands out a token only by
    /// holding back one fewer, and pulls without holding back more.
    pub fn run(&mut self, graph: &Graph, gremlin: Option<Gremlin>, Ghost(c): Ghost<nat>) -> (r:
        MaybeGremlin)
        requires
            graph.wf(),
            old(self).ready(),
            old(self).bounded(*graph, c),
        ensures
            pipe_step(*old(self), *final(self), *graph, gremlin, r),
            final(self).ready(),
            final(self).bounded(*graph, c),
            final(self).count(c) < c,
            gremlin is None && r is Gremlin ==> final(self).count(c) < old(self).count(c),
            gremlin is None && (r is Pull || r is False) ==> final(self).count(c) <= old(
                self,
            ).count(c),
            *old(self) is Take ==> {
                let prev = (*old(self))->Take_0;
                let next = (*final(self))->Take_0;
                &&& *final(self) is Take
                &&& next.take == prev.take
                &&& prev.taken == prev.take ==> r is Done
                &&& r is Done ==> next.taken == 0
                &&& r is Gremlin ==> prev.taken != prev.take && next.taken == if prev.taken < i64::MAX {
                    prev.taken + 1
                } else {
                    prev.taken as int
                }
                &&& !(r is Gremlin || r is Done) ==> next.taken == prev.taken
            },
            *old(self) is Vertex ==> *final(self) is Vertex && vertex_step(
                (*old(self))->Vertex_0,
                (*final(self))->Vertex_0,
                *graph,
                gremlin,
                r,
            ),
            *old(self) is Traversal ==> *final(self) is Traversal && traversal_step(
                (*old(self))->Traversal_0,
                (*final(self))->Traversal_0,
                *graph,
                gremlin,
                r,
            ),
            *old(self) is As ==> {
                &&& *final(self) == *old(self)
                &&& !(gremlin is Some && gremlin->Some_0.vertex is Some) ==> r is Pull
                &&& gremlin is Some && gremlin->Some_0.vertex is Some ==> {
                    &&& r is Gremlin
                    &&& r->Gremlin_0.vertex == gremlin->Some_0.vertex
                    &&& trail_view(r->Gremlin_0.trail) == Some(
                        map![(*old(self))->As_0.label => gremlin->Some_0.vertex->Some_0],
                    )
                }
            },
            *old(self) is Back ==> {
                &&& *final(self) == *old(self)
                &&& gremlin is None ==> r is Pull
                &&& gremlin is Some ==> r is Gremlin && r->Gremlin_0.vertex == labelled(
                    gremlin->Some_0.trail,
                    (*old(self))->Back_0.label,
                ) && r->Gremlin_0.result is None
            },
            *old(self) is Unique ==> {
                let s0 = (*old(self))->Unique_0.seen@;
                let s1 = (*final(self))->Unique_0.seen@;
                &&& *final(self) is Unique
                &&& s0.subset_of(s1)
                &&& s1 == if gremlin is Some && gremlin->Some_0.vertex is Some {
                    s0.insert(gremlin->Some_0.vertex->Some_0)
                } else {
                    s0
                }
                &&& gremlin is Some && gremlin->Some_0.vertex is Some && !s0.contains(
                    gremlin->Some_0.vertex->Some_0,
                ) ==> r == MaybeGremlin::Gremlin(gremlin->Some_0)
                &&& r is Gremlin ==> {
                    &&& r->Gremlin_0.vertex is Some
                    &&& !s0.contains(r->Gremlin_0.vertex->Some_0)
                    &&& s1.contains(r->Gremlin_0.vertex->Some_0)
                }
            },
    {
        match self {
            Pipe::Vertex(p) => p.run(graph, gremlin),
            Pipe::Traversal(p) => {
                proof {
                    if gremlin is Some && gremlin->Some_0.vertex is Some {
                        let v = gremlin->Some_0.vertex->Some_0;
                        lemma_neighbours_len(*graph, v, p.filter, true);
                        lemma_neighbours_len(*graph, v, p.filter, false);
                    }
                }
                p.run(graph, gremlin)
            },
            Pipe::Property(p) => p.run(graph, gremlin),
            Pipe::Unique(p) => p.run(gremlin),
            Pipe::Filter(p) => p.run(graph, gremlin),
            Pipe::Take(p) => p.run(gremlin),
            Pipe::As(p) => p.run(gremlin),
            Pipe::Back(p) => p.run(gremlin),
            Pipe::Except(p) => p.run(gremlin),
            Pipe::Merge(p) => {
                proof {
                    if gremlin is Some {
                        lemma_merge_targets_len(p.vertex_ids@, trail_view(gremlin->Some_0.trail));
                    }
                }
                p.run(gremlin)
            },
        }
    }
}

} // verus!
