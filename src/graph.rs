use std::collections::HashMap;
use vstd::prelude::*;
use crate::value::{Properties, props_superset, properties_filter};

verus! {

broadcast use vstd::std_specs::hash::group_hash_axioms;

/// A vertex: its properties and the ids of its incoming and outgoing edges,
/// in the order in which the edges were added.
#[derive(Debug)]
pub struct Vertex {
    pub properties: Properties,
    pub e_in: Vec<u64>,
    pub e_out: Vec<u64>,
    pub id: u64,
}

/// A directed edge from `v_out` to `v_in`.
#[derive(Debug)]
pub struct Edge {
    pub label: String,
    pub properties: Properties,
    pub v_in: u64,
    pub v_out: u64,
    pub id: u64,
}

/// The store: vertices and edges keyed by id, and the counter that issues
/// ids. Ids are never reused.
#[derive(Debug)]
pub struct Graph {
    pub autoid: u64,
    pub vertices: HashMap<u64, Vertex>,
    pub edges: HashMap<u64, Edge>,
}

#[derive(Debug, PartialEq, Eq, Structural, Clone, Copy)]
pub enum GraphError {
    VertexNotFound,
    EdgeNotFound,
}

/// A test on vertices, supplied by the caller of a query.
pub trait VertexPredicate {
    /// The test can be called on `v`.
    spec fn accepts(&self, v: &Vertex) -> bool;

    /// The test may answer `r` on `v`.
    spec fn gives(&self, v: &Vertex, r: bool) -> bool;

    fn test(&self, v: &Vertex) -> (r: bool)
        requires
            self.accepts(v),
        ensures
            self.gives(v, r),
    ;
}

impl<F: Fn(&Vertex) -> bool> VertexPredicate for F {
    open spec fn accepts(&self, v: &Vertex) -> bool {
        call_requires(*self, (v,))
    }

    open spec fn gives(&self, v: &Vertex, r: bool) -> bool {
        call_ensures(*self, (v,), r)
    }

    fn test(&self, v: &Vertex) -> (r: bool) {
        self(v)
    }
}

pub enum EdgeFilter {
    All,
    Label(String),
    Labels(Vec<String>),
    Props(Properties),
}

pub enum VertexFilter {
    All,
    Id(u64),
    Ids(Vec<u64>),
    Props(Properties),
    Fn(Box<dyn VertexPredicate>),
}

impl VertexFilter {
    /// A predicate filter can be called on every vertex.
    pub open spec fn callable(&self) -> bool {
        self is Fn ==> forall|v: Vertex| #[trigger] (self->Fn_0).accepts(&v)
    }
}

/// The texts of a list of labels.
pub open spec fn label_views(ls: Seq<String>) -> Seq<Seq<char>> {
    ls.map_values(|s: String| s@)
}

/// Whether an edge passes an edge filter.
pub open spec fn edge_passes(e: Edge, f: EdgeFilter) -> bool {
    match f {
        EdgeFilter::All => true,
        EdgeFilter::Label(l) => e.label@ == l@,
        EdgeFilter::Labels(ls) => label_views(ls@).contains(e.label@),
        EdgeFilter::Props(p) => props_superset(e.properties@, p@),
    }
}

/// Whether a vertex passes a vertex filter other than a predicate.
pub open spec fn vertex_passes(v: Vertex, f: VertexFilter) -> bool {
    match f {
        VertexFilter::All => true,
        VertexFilter::Id(x) => v.id == x,
        VertexFilter::Ids(l) => l@.contains(v.id),
        VertexFilter::Props(p) => props_superset(v.properties@, p@),
        VertexFilter::Fn(_) => true,
    }
}

/// The vertices that an edge list leads to, in list order: for each listed
/// edge that passes `f`, its target (`outward`) or its source.
pub open spec fn targets(g: Graph, ids: Seq<u64>, f: EdgeFilter, outward: bool) -> Seq<u64>
    decreases ids.len(),
{
    if ids.len() == 0 {
        seq![]
    } else {
        let rest = targets(g, ids.drop_last(), f, outward);
        let e = g.edges@[ids.last()];
        if edge_passes(e, f) {
            rest.push(if outward { e.v_in } else { e.v_out })
        } else {
            rest
        }
    }
}

pub proof fn lemma_targets_len(g: Graph, ids: Seq<u64>, f: EdgeFilter, outward: bool)
    ensures
        targets(g, ids, f, outward).len() <= ids.len(),
    decreases ids.len(),
{
    if ids.len() > 0 {
        lemma_targets_len(g, ids.drop_last(), f, outward);
    }
}


/// The ids of `s` that are keys of `m`, in order.
pub open spec fn keep_in(s: Seq<u64>, m: Map<u64, Edge>) -> Seq<u64>
    decreases s.len(),
{
    if s.len() == 0 {
        seq![]
    } else {
        let r = keep_in(s.drop_last(), m);
        if m.contains_key(s.last()) {
            r.push(s.last())
        } else {
            r
        }
    }
}

proof fn lemma_keep_all(s: Seq<u64>, m: Map<u64, Edge>)
    requires
        forall|i: int| 0 <= i < s.len() ==> m.contains_key(#[trigger] s[i]),
    ensures
        keep_in(s, m) == s,
    decreases s.len(),
{
    if s.len() > 0 {
        lemma_keep_all(s.drop_last(), m);
        assert(s.drop_last().push(s.last()) =~= s);
    }
}

proof fn lemma_keep_absent(s: Seq<u64>, m: Map<u64, Edge>, e: u64)
    requires
        !s.contains(e),
    ensures
        keep_in(s, m.remove(e)) == keep_in(s, m),
    decreases s.len(),
{
    if s.len() > 0 {
        assert(!s.drop_last().contains(e)) by {
            if s.drop_last().contains(e) {
                let j = choose|j: int| 0 <= j < s.drop_last().len() && s.drop_last()[j] == e;
                assert(s[j] == e);
            }
        }
        lemma_keep_absent(s.drop_last(), m, e);
        assert(s[s.len() - 1] != e);
    }
}

proof fn lemma_keep_contains(s: Seq<u64>, m: Map<u64, Edge>, e: u64)
    ensures
        keep_in(s, m).contains(e) ==> s.contains(e),
        keep_in(s, m).len() <= s.len(),
    decreases s.len(),
{
    if s.len() > 0 {
        lemma_keep_contains(s.drop_last(), m, e);
        let r = keep_in(s.drop_last(), m);
        if keep_in(s, m).contains(e) {
            if r.contains(e) {
                let j = choose|j: int| 0 <= j < s.drop_last().len() && s.drop_last()[j] == e;
                assert(s[j] == e);
            } else {
                assert(s[s.len() - 1] == e);
            }
        }
    }
}

proof fn lemma_keep_remove(s: Seq<u64>, m: Map<u64, Edge>, e: u64, i: int)
    requires
        s.no_duplicates(),
        0 <= i < keep_in(s, m).len(),
        keep_in(s, m)[i] == e,
        forall|j: int| i < j < keep_in(s, m).len() ==> keep_in(s, m)[j] != e,
    ensures
        keep_in(s, m.remove(e)) == keep_in(s, m).remove(i),
    decreases s.len(),
{
    let t = keep_in(s, m);
    let s1 = s.drop_last();
    let l = s.last();
    let r = keep_in(s1, m);
    assert(s1.no_duplicates()) by {
        assert forall|a: int, b: int| 0 <= a < b < s1.len() implies s1[a] != s1[b] by {
            assert(s[a] == s1[a] && s[b] == s1[b]);
        }
    }
    lemma_keep_contains(s1, m, e);
    if l == e {
        assert(!s1.contains(e)) by {
            if s1.contains(e) {
                let j = choose|j: int| 0 <= j < s1.len() && s1[j] == e;
                assert(s[j] == e && s[s.len() - 1] == e);
            }
        }
        assert(!r.contains(e));
        if m.contains_key(e) {
            assert(t == r.push(e));
            if i < t.len() - 1 {
                assert(r[i] == e);
            }
            assert(i == t.len() - 1);
            lemma_keep_absent(s1, m, e);
            assert(t.remove(i) =~= r);
        } else {
            assert(t == r);
            assert(r[i] == e);
        }
    } else {
        lemma_keep_remove_step(s, m, e, i);
    }
}

proof fn lemma_keep_remove_step(s: Seq<u64>, m: Map<u64, Edge>, e: u64, i: int)
    requires
        s.len() > 0,
        s.last() != e,
        s.no_duplicates(),
        0 <= i < keep_in(s, m).len(),
        keep_in(s, m)[i] == e,
        forall|j: int| i < j < keep_in(s, m).len() ==> keep_in(s, m)[j] != e,
    ensures
        keep_in(s, m.remove(e)) == keep_in(s, m).remove(i),
    decreases s.len(), 0int,
{
    let t = keep_in(s, m);
    let s1 = s.drop_last();
    let l = s.last();
    let r = keep_in(s1, m);
    assert(s1.no_duplicates()) by {
        assert forall|a: int, b: int| 0 <= a < b < s1.len() implies s1[a] != s1[b] by {
            assert(s[a] == s1[a] && s[b] == s1[b]);
        }
    }
    if m.contains_key(l) {
        assert(t == r.push(l));
        assert(i < t.len() - 1);
        assert(r[i] == e);
        assert forall|j: int| i < j < r.len() implies r[j] != e by {
            assert(t[j] == r[j]);
        }
        lemma_keep_remove(s1, m, e, i);
        assert(m.remove(e).contains_key(l));
        assert(keep_in(s, m.remove(e)) == keep_in(s1, m.remove(e)).push(l));
        assert(r.remove(i).push(l) =~= t.remove(i));
    } else {
        assert(t == r);
        lemma_keep_remove(s1, m, e, i);
        assert(!m.remove(e).contains_key(l));
    }
}

/// `t` is `s` with its last occurrence of `x` taken out, the order kept.
pub open spec fn removes_last(s: Seq<u64>, t: Seq<u64>, x: u64) -> bool {
    exists|i: int|
        0 <= i < s.len() && #[trigger] s[i] == x && (forall|j: int| i < j < s.len() ==> s[j] != x)
            && t == s.remove(i)
}

/// Position of the last occurrence of `x` in `v`.
fn last_position(v: &Vec<u64>, x: u64) -> (r: Option<usize>)
    ensures
        r is None ==> !v@.contains(x),
        r matches Some(i) ==> i < v@.len() && v@[i as int] == x && forall|j: int|
            i < j < v@.len() ==> v@[j] != x,
{
    let mut i: usize = v.len();
    while i > 0
        invariant
            i <= v@.len(),
            forall|j: int| i <= j < v@.len() ==> v@[j] != x,
        decreases i,
    {
        i = i - 1;
        if v[i] == x {
            return Some(i);
        }
    }
    None
}

proof fn lemma_remove_no_dup(s: Seq<u64>, i: int)
    requires
        s.no_duplicates(),
        0 <= i < s.len(),
    ensures
        s.remove(i).no_duplicates(),
        forall|e: u64| #[trigger] s.remove(i).contains(e) == (s.contains(e) && e != s[i]),
        s.remove(i).len() == s.len() - 1,
{
    let t = s.remove(i);
    assert forall|e: u64| #[trigger] t.contains(e) == (s.contains(e) && e != s[i]) by {
        if t.contains(e) {
            let j = choose|j: int| 0 <= j < t.len() && t[j] == e;
            if j < i {
                assert(s[j] == e);
            } else {
                assert(s[j + 1] == e);
            }
        }
        if s.contains(e) && e != s[i] {
            let j = choose|j: int| 0 <= j < s.len() && s[j] == e;
            if j < i {
                assert(t[j] == e);
            } else {
                assert(t[j - 1] == e);
            }
        }
    }
}

/// `b` is an answer that a vertex filter may give on `v`: for a predicate,
/// one the predicate may give; otherwise whether `v` passes.
pub open spec fn vertex_accepts(f: VertexFilter, v: Vertex, b: bool) -> bool {
    match f {
        VertexFilter::Fn(p) => p.gives(&v, b),
        _ => b == vertex_passes(v, f),
    }
}

/// The ids in `ids` that are keys of `m`, in order.
pub open spec fn present_ids(m: Map<u64, Vertex>, ids: Seq<u64>) -> Seq<u64>
    decreases ids.len(),
{
    if ids.len() == 0 {
        seq![]
    } else if m.contains_key(ids.last()) {
        present_ids(m, ids.drop_last()).push(ids.last())
    } else {
        present_ids(m, ids.drop_last())
    }
}

/// Whether a vertex passes a filter; a predicate filter is called on it.
pub fn filter_vertex(vertex: &Vertex, filter: &VertexFilter) -> (r: bool)
    requires
        filter.callable(),
    ensures
        vertex_accepts(*filter, *vertex, r),
{
    match filter {
        VertexFilter::All => true,
        VertexFilter::Id(id) => vertex.id == *id,
        VertexFilter::Ids(ids) => {
            let mut i: usize = 0;
            while i < ids.len()
                invariant
                    0 <= i <= ids@.len(),
                    *filter == VertexFilter::Ids(*ids),
                    forall|q: int| 0 <= q < i ==> ids@[q] != vertex.id,
                decreases ids@.len() - i,
            {
                if ids[i] == vertex.id {
                    proof {
                        assert(ids@[i as int] == vertex.id);
                        assert(ids@.contains(vertex.id));
                    }
                    return true;
                }
                i = i + 1;
            }
            false
        },
        VertexFilter::Props(p) => properties_filter(&vertex.properties, p),
        VertexFilter::Fn(f) => {
            proof {
                assert((filter->Fn_0).accepts(&*vertex));
            }
            f.test(vertex)
        },
    }
}

/// Whether an edge passes an edge filter.
pub fn filter_edge(edge: &Edge, filter: &EdgeFilter) -> (r: bool)
    ensures
        r == edge_passes(*edge, *filter),
{
    match filter {
        EdgeFilter::All => true,
        EdgeFilter::Label(l) => edge.label == *l,
        EdgeFilter::Labels(ls) => {
            let mut i: usize = 0;
            while i < ls.len()
                invariant
                    0 <= i <= ls@.len(),
                    *filter == EdgeFilter::Labels(*ls),
                    forall|q: int| 0 <= q < i ==> #[trigger] label_views(ls@)[q] != edge.label@,
                decreases ls@.len() - i,
            {
                if ls[i] == edge.label {
                    proof {
                        assert(label_views(ls@)[i as int] == edge.label@);
                    }
                    return true;
                }
                i = i + 1;
            }
            false
        },
        EdgeFilter::Props(p) => properties_filter(&edge.properties, p),
    }
}

/// Searching with an empty property map finds every vertex of the store.
pub proof fn lemma_empty_props_selects_all(g: Graph, p: Properties, r: Seq<u64>, id: u64)
    requires
        p@.len() == 0,
        g.resolves(VertexFilter::Props(p), r),
    ensures
        r.contains(id) == g.vertices@.contains_key(id),
{
}

/// Adding an entry to a property map never adds a search result.
pub proof fn lemma_props_filter_monotone(
    g: Graph,
    p: Properties,
    q: Properties,
    rp: Seq<u64>,
    rq: Seq<u64>,
    id: u64,
)
    requires
        q@.len() == p@.len() + 1,
        q@.subrange(0, p@.len() as int) == p@,
        g.resolves(VertexFilter::Props(p), rp),
        g.resolves(VertexFilter::Props(q), rq),
    ensures
        rq.contains(id) ==> rp.contains(id),
{
    if rq.contains(id) {
        let props = g.vertices@[id].properties@;
        assert(g.selects(VertexFilter::Props(q), id));
        assert forall|i: int| 0 <= i < p@.len() implies {
            let pos = crate::value::key_position(props, #[trigger] p@[i].0@);
            0 <= pos < props.len() && crate::value::value_eq(props[pos].1, p@[i].1)
        } by {
            assert(p@[i] == q@[i]);
        }
        assert(g.selects(VertexFilter::Props(p), id));
    }
}

impl Graph {
    pub open spec fn vertex_ok(&self, vid: u64) -> bool {
        let v = self.vertices@[vid];
        &&& v.id == vid
        &&& 1 <= vid <= self.autoid
        &&& v.e_in@.no_duplicates()
        &&& v.e_out@.no_duplicates()
        &&& v.e_in@.len() <= self.autoid
        &&& v.e_out@.len() <= self.autoid
        &&& forall|i: int|
            0 <= i < v.e_in@.len() ==> self.edges@.contains_key(#[trigger] v.e_in@[i])
                && self.edges@[v.e_in@[i]].v_in == vid
        &&& forall|i: int|
            0 <= i < v.e_out@.len() ==> self.edges@.contains_key(#[trigger] v.e_out@[i])
                && self.edges@[v.e_out@[i]].v_out == vid
    }

    pub open spec fn edge_ok(&self, eid: u64) -> bool {
        let e = self.edges@[eid];
        &&& e.id == eid
        &&& 1 <= eid <= self.autoid
        &&& self.vertices@.contains_key(e.v_out)
        &&& self.vertices@.contains_key(e.v_in)
        &&& self.vertices@[e.v_out].e_out@.contains(eid)
        &&& self.vertices@[e.v_in].e_in@.contains(eid)
    }

    /// The store's invariant: each edge's endpoints exist and list it once,
    /// and each listed edge exists and has that vertex as its endpoint.
    pub open spec fn wf(&self) -> bool {
        &&& forall|vid: u64| #[trigger] self.vertices@.contains_key(vid) ==> self.vertex_ok(vid)
        &&& forall|eid: u64| #[trigger] self.edges@.contains_key(eid) ==> self.edge_ok(eid)
    }

    /// The ids that `targets` gives for the out-edges (`outward`) or
    /// in-edges of a vertex; none for an absent vertex.
    pub open spec fn neighbours(&self, vid: u64, f: EdgeFilter, outward: bool) -> Seq<u64> {
        if !self.vertices@.contains_key(vid) {
            seq![]
        } else if outward {
            targets(*self, self.vertices@[vid].e_out@, f, true)
        } else {
            targets(*self, self.vertices@[vid].e_in@, f, false)
        }
    }

    /// An empty store.
    pub fn new() -> (g: Graph)
        ensures
            g.wf(),
            g.autoid == 0,
            g.vertices@ == Map::<u64, Vertex>::empty(),
            g.edges@ == Map::<u64, Edge>::empty(),
    {
        Graph { autoid: 0, vertices: HashMap::new(), edges: HashMap::new() }
    }

    /// Adds a vertex with empty incidence lists under the next id.
    pub fn add_vertex(&mut self, properties: Properties) -> (r: Result<u64, GraphError>)
        requires
            old(self).wf(),
            old(self).autoid < u64::MAX,
        ensures
            final(self).wf(),
            r == Ok::<u64, GraphError>(final(self).autoid),
            final(self).autoid == old(self).autoid + 1,
            !old(self).vertices@.contains_key(final(self).autoid),
            final(self).vertices@ == old(self).vertices@.insert(
                final(self).autoid,
                final(self).vertices@[final(self).autoid],
            ),
            final(self).vertices@[final(self).autoid].properties == properties,
            final(self).vertices@[final(self).autoid].id == final(self).autoid,
            final(self).vertices@[final(self).autoid].e_in@.len() == 0,
            final(self).vertices@[final(self).autoid].e_out@.len() == 0,
            final(self).edges@ == old(self).edges@,
    {
        let ghost g0 = *self;
        let id = self.next_id();
        let v = Vertex { properties, e_in: Vec::new(), e_out: Vec::new(), id };
        self.vertices.insert(id, v);
        proof {
            assert(!g0.vertices@.contains_key(id)) by {
                if g0.vertices@.contains_key(id) {
                    assert(g0.vertex_ok(id));
                }
            }
            assert forall|vid: u64| #[trigger] self.vertices@.contains_key(vid) implies self.vertex_ok(
                vid,
            ) by {
                if vid != id {
                    assert(g0.vertex_ok(vid));
                }
            }
            assert forall|eid: u64| #[trigger] self.edges@.contains_key(eid) implies self.edge_ok(
                eid,
            ) by {
                assert(g0.edge_ok(eid));
            }
        }
        Ok(id)
    }

    /// Adds an edge from `v_out` to `v_in` under the next id, and lists it
    /// last among the out-edges of `v_out` and the in-edges of `v_in`. Fails,
    /// and changes nothing, when either endpoint is absent.
    pub fn add_edge(&mut self, v_out: u64, v_in: u64, label: String, properties: Properties) -> (r:
        Result<u64, GraphError>)
        requires
            old(self).wf(),
            old(self).autoid < u64::MAX,
        ensures
            final(self).wf(),
            !(old(self).vertices@.contains_key(v_out) && old(self).vertices@.contains_key(v_in))
                ==> r == Err::<u64, GraphError>(GraphError::VertexNotFound) && *final(self) == *old(
                self,
            ),
            old(self).vertices@.contains_key(v_out) && old(self).vertices@.contains_key(v_in) ==> {
                let id = final(self).autoid;
                &&& r == Ok::<u64, GraphError>(id)
                &&& id == old(self).autoid + 1
                &&& !old(self).edges@.contains_key(id)
                &&& final(self).edges@ == old(self).edges@.insert(id, final(self).edges@[id])
                &&& final(self).edges@[id].v_out == v_out
                &&& final(self).edges@[id].v_in == v_in
                &&& final(self).edges@[id].id == id
                &&& final(self).edges@[id].label == label
                &&& final(self).edges@[id].properties == properties
                &&& final(self).vertices@.dom() == old(self).vertices@.dom()
                &&& final(self).vertices@[v_out].e_out@ == old(self).vertices@[v_out].e_out@.push(id)
                &&& final(self).vertices@[v_in].e_in@ == old(self).vertices@[v_in].e_in@.push(id)
                &&& final(self).vertices@[v_out].e_in@ == if v_out == v_in {
                    old(self).vertices@[v_in].e_in@.push(id)
                } else {
                    old(self).vertices@[v_out].e_in@
                }
                &&& final(self).vertices@[v_in].e_out@ == if v_out == v_in {
                    old(self).vertices@[v_out].e_out@.push(id)
                } else {
                    old(self).vertices@[v_in].e_out@
                }
                &&& final(self).vertices@[v_out].id == old(self).vertices@[v_out].id
                &&& final(self).vertices@[v_in].id == old(self).vertices@[v_in].id
                &&& final(self).vertices@[v_out].properties == old(self).vertices@[v_out].properties
                &&& final(self).vertices@[v_in].properties == old(self).vertices@[v_in].properties
                &&& forall|x: u64|
                    #![trigger final(self).vertices@[x]]
                    x != v_out && x != v_in ==> final(self).vertices@[x] == old(self).vertices@[x]
            },
    {
        if !self.vertices.contains_key(&v_out) || !self.vertices.contains_key(&v_in) {
            return Err(GraphError::VertexNotFound);
        }
        let ghost g0 = *self;
        let id = self.next_id();
        proof {
            assert(!g0.edges@.contains_key(id)) by {
                if g0.edges@.contains_key(id) {
                    assert(g0.edge_ok(id));
                }
            }
            assert(g0.vertex_ok(v_in));
            assert(g0.vertex_ok(v_out));
            assert(!g0.vertices@[v_in].e_in@.contains(id));
            assert(!g0.vertices@[v_out].e_out@.contains(id));
        }
        match self.vertices.remove(&v_in) {
            Some(mut x) => {
                x.e_in.push(id);
                self.vertices.insert(v_in, x);
            },
            None => {},
        }
        match self.vertices.remove(&v_out) {
            Some(mut x) => {
                x.e_out.push(id);
                self.vertices.insert(v_out, x);
            },
            None => {},
        }
        self.edges.insert(id, Edge { label, properties, v_in, v_out, id });
        proof {
            assert(self.vertices@[v_in].e_in@ == g0.vertices@[v_in].e_in@.push(id));
            assert(self.vertices@[v_out].e_out@ == g0.vertices@[v_out].e_out@.push(id));
            assert forall|vid: u64| #[trigger] self.vertices@.contains_key(vid) implies self.vertex_ok(
                vid,
            ) by {
                assert(g0.vertex_ok(vid));
                let v = self.vertices@[vid];
                let v0 = g0.vertices@[vid];
                assert forall|i: int| 0 <= i < v.e_in@.len() implies self.edges@.contains_key(
                    #[trigger] v.e_in@[i],
                ) && self.edges@[v.e_in@[i]].v_in == vid by {
                    if i < v0.e_in@.len() {
                        assert(v.e_in@[i] == v0.e_in@[i]);
                    }
                }
                assert forall|i: int| 0 <= i < v.e_out@.len() implies self.edges@.contains_key(
                    #[trigger] v.e_out@[i],
                ) && self.edges@[v.e_out@[i]].v_out == vid by {
                    if i < v0.e_out@.len() {
                        assert(v.e_out@[i] == v0.e_out@[i]);
                    }
                }
            }
            assert forall|eid: u64| #[trigger] self.edges@.contains_key(eid) implies self.edge_ok(
                eid,
            ) by {
                if eid == id {
                    assert(self.vertices@[v_in].e_in@.last() == id);
                    assert(self.vertices@[v_out].e_out@.last() == id);
                } else {
                    assert(g0.edge_ok(eid));
                    let e = self.edges@[eid];
                    let a = g0.vertices@[e.v_out].e_out@;
                    let b = g0.vertices@[e.v_in].e_in@;
                    let ia = choose|i: int| 0 <= i < a.len() && a[i] == eid;
                    let ib = choose|i: int| 0 <= i < b.len() && b[i] == eid;
                    assert(self.vertices@[e.v_out].e_out@[ia] == eid);
                    assert(self.vertices@[e.v_in].e_in@[ib] == eid);
                }
            }
        }
        Ok(id)
    }

    /// Removes an edge and takes its id out of both endpoints' lists.
    pub fn remove_edge(&mut self, id: u64) -> (r: Result<(), GraphError>)
        requires
            old(self).wf(),
        ensures
            final(self).wf(),
            !old(self).edges@.contains_key(id) ==> r == Err::<(), GraphError>(
                GraphError::EdgeNotFound,
            ) && *final(self) == *old(self),
            old(self).edges@.contains_key(id) ==> {
                &&& r == Ok::<(), GraphError>(())
                &&& final(self).edges@ == old(self).edges@.remove(id)
                &&& final(self).autoid == old(self).autoid
                &&& final(self).vertices@.dom() == old(self).vertices@.dom()
                &&& forall|x: u64| #[trigger]
                    final(self).vertices@.contains_key(x) ==> final(self).vertices@[x].id == old(
                        self,
                    ).vertices@[x].id && final(self).vertices@[x].properties == old(
                        self,
                    ).vertices@[x].properties
                &&& {
                    let vi = old(self).edges@[id].v_in;
                    let vo = old(self).edges@[id].v_out;
                    &&& removes_last(
                        old(self).vertices@[vi].e_in@,
                        final(self).vertices@[vi].e_in@,
                        id,
                    )
                    &&& removes_last(
                        old(self).vertices@[vo].e_out@,
                        final(self).vertices@[vo].e_out@,
                        id,
                    )
                    &&& vi != vo ==> final(self).vertices@[vi].e_out@ == old(self).vertices@[vi].e_out@
                        && final(self).vertices@[vo].e_in@ == old(self).vertices@[vo].e_in@
                    &&& forall|x: u64|
                        #![trigger final(self).vertices@[x]]
                        x != vi && x != vo ==> final(self).vertices@[x] == old(self).vertices@[x]
                }
                &&& forall|x: u64, e: u64|
                    #![trigger final(self).vertices@[x].e_in@.contains(e)]
                    #![trigger final(self).vertices@[x].e_out@.contains(e)]
                    final(self).vertices@.contains_key(x) ==> {
                        &&& final(self).vertices@[x].e_in@.contains(e) == (old(
                            self,
                        ).vertices@[x].e_in@.contains(e) && e != id)
                        &&& final(self).vertices@[x].e_out@.contains(e) == (old(
                            self,
                        ).vertices@[x].e_out@.contains(e) && e != id)
                    }
            },
    {
        let (v_in, v_out) = match self.edges.get(&id) {
            Some(e) => (e.v_in, e.v_out),
            None => {
                return Err(GraphError::EdgeNotFound);
            },
        };
        let ghost g0 = *self;
        let ghost mut i_in: int = -1;
        let ghost mut i_out: int = -1;
        proof {
            assert(g0.edge_ok(id));
        }
        match self.vertices.remove(&v_in) {
            Some(mut x) => {
                match last_position(&x.e_in, id) {
                    Some(i) => {
                        proof {
                            lemma_remove_no_dup(x.e_in@, i as int);
                            i_in = i as int;
                        }
                        x.e_in.remove(i);
                    },
                    None => {},
                }
                self.vertices.insert(v_in, x);
            },
            None => {},
        }
        let ghost g1 = *self;
        match self.vertices.remove(&v_out) {
            Some(mut x) => {
                match last_position(&x.e_out, id) {
                    Some(i) => {
                        proof {
                            lemma_remove_no_dup(x.e_out@, i as int);
                            i_out = i as int;
                        }
                        x.e_out.remove(i);
                    },
                    None => {},
                }
                self.vertices.insert(v_out, x);
            },
            None => {},
        }
        self.edges.remove(&id);
        proof {
            let a = g0.vertices@[v_in].e_in@;
            let b = g0.vertices@[v_out].e_out@;
            assert(a.contains(id));
            assert(b.contains(id));
            assert(g1.vertices@[v_out].e_out@ == b);
            assert(self.vertices@[v_in].e_in@ == a.remove(i_in));
            assert(self.vertices@[v_out].e_out@ == b.remove(i_out));
            assert(a[i_in] == id);
            assert(b[i_out] == id);
            assert(removes_last(a, self.vertices@[v_in].e_in@, id));
            assert(removes_last(b, self.vertices@[v_out].e_out@, id));
            assert forall|x: u64, e: u64|
                #![trigger self.vertices@[x].e_in@.contains(e)]
                #![trigger self.vertices@[x].e_out@.contains(e)]
                self.vertices@.contains_key(x) implies {
                &&& self.vertices@[x].e_in@.contains(e) == (g0.vertices@[x].e_in@.contains(e) && e
                    != id)
                &&& self.vertices@[x].e_out@.contains(e) == (g0.vertices@[x].e_out@.contains(e) && e
                    != id)
            } by {
                assert(g0.vertex_ok(x));
                if x != v_in && x != v_out {
                    if g0.vertices@[x].e_in@.contains(e) {
                        let i = choose|i: int| 0 <= i < g0.vertices@[x].e_in@.len() && g0.vertices@[x].e_in@[i] == e;
                        assert(g0.edges@[g0.vertices@[x].e_in@[i]].v_in == x);
                    }
                    if g0.vertices@[x].e_out@.contains(e) {
                        let i = choose|i: int| 0 <= i < g0.vertices@[x].e_out@.len() && g0.vertices@[x].e_out@[i] == e;
                        assert(g0.edges@[g0.vertices@[x].e_out@[i]].v_out == x);
                    }
                } else if x == v_in && x != v_out {
                    if g0.vertices@[x].e_out@.contains(e) {
                        let i = choose|i: int| 0 <= i < g0.vertices@[x].e_out@.len() && g0.vertices@[x].e_out@[i] == e;
                        assert(g0.edges@[g0.vertices@[x].e_out@[i]].v_out == x);
                    }
                } else if x == v_out && x != v_in {
                    if g0.vertices@[x].e_in@.contains(e) {
                        let i = choose|i: int| 0 <= i < g0.vertices@[x].e_in@.len() && g0.vertices@[x].e_in@[i] == e;
                        assert(g0.edges@[g0.vertices@[x].e_in@[i]].v_in == x);
                    }
                }
            }
            assert forall|vid: u64| #[trigger] self.vertices@.contains_key(vid) implies self.vertex_ok(
                vid,
            ) by {
                assert(g0.vertex_ok(vid));
                let v = self.vertices@[vid];
                let v0 = g0.vertices@[vid];
                assert forall|i: int| 0 <= i < v.e_in@.len() implies self.edges@.contains_key(
                    #[trigger] v.e_in@[i],
                ) && self.edges@[v.e_in@[i]].v_in == vid by {
                    assert(v.e_in@.contains(v.e_in@[i]));
                    assert(v0.e_in@.contains(v.e_in@[i]));
                }
                assert forall|i: int| 0 <= i < v.e_out@.len() implies self.edges@.contains_key(
                    #[trigger] v.e_out@[i],
                ) && self.edges@[v.e_out@[i]].v_out == vid by {
                    assert(v.e_out@.contains(v.e_out@[i]));
                    assert(v0.e_out@.contains(v.e_out@[i]));
                }
            }
            assert forall|eid: u64| #[trigger] self.edges@.contains_key(eid) implies self.edge_ok(
                eid,
            ) by {
                assert(g0.edge_ok(eid));
                let e = self.edges@[eid];
                assert(self.vertices@[e.v_out].e_out@.contains(eid) == (g0.vertices@[e.v_out].e_out@.contains(eid) && eid != id));
                assert(self.vertices@[e.v_in].e_in@.contains(eid) == (g0.vertices@[e.v_in].e_in@.contains(eid) && eid != id));
            }
        }
        Ok(())
    }

    /// Removes a vertex after removing every edge that has it as an endpoint;
    /// a self-loop is removed once.
    pub fn remove_vertex(&mut self, id: u64) -> (r: Result<(), GraphError>)
        requires
            old(self).wf(),
        ensures
            final(self).wf(),
            !old(self).vertices@.contains_key(id) ==> r == Err::<(), GraphError>(
                GraphError::VertexNotFound,
            ) && *final(self) == *old(self),
            old(self).vertices@.contains_key(id) ==> {
                &&& r == Ok::<(), GraphError>(())
                &&& forall|x: u64| #[trigger]
                    final(self).vertices@.contains_key(x) ==> final(self).vertices@[x].id == old(
                        self,
                    ).vertices@[x].id && final(self).vertices@[x].properties == old(
                        self,
                    ).vertices@[x].properties
                &&& final(self).vertices@.dom() == old(self).vertices@.dom().remove(id)
                &&& final(self).autoid == old(self).autoid
                &&& forall|x: u64| #[trigger]
                    final(self).vertices@.contains_key(x) ==> {
                        &&& final(self).vertices@[x].e_in@ == keep_in(
                            old(self).vertices@[x].e_in@,
                            final(self).edges@,
                        )
                        &&& final(self).vertices@[x].e_out@ == keep_in(
                            old(self).vertices@[x].e_out@,
                            final(self).edges@,
                        )
                    }
                &&& forall|e: u64| #[trigger]
                    final(self).edges@.contains_key(e) ==> final(self).edges@[e].v_in != id
                        && final(self).edges@[e].v_out != id
                &&& forall|e: u64| #[trigger]
                    old(self).edges@.contains_key(e) ==> (final(self).edges@.contains_key(e) <==> (
                    old(self).edges@[e].v_in != id && old(self).edges@[e].v_out != id))
                &&& forall|e: u64| #[trigger]
                    final(self).edges@.contains_key(e) ==> final(self).edges@[e] == old(
                        self,
                    ).edges@[e]
            },
    {
        let mut incident: Vec<u64> = Vec::new();
        match self.vertices.get(&id) {
            Some(v) => {
                let mut i: usize = 0;
                while i < v.e_in.len()
                    invariant
                        0 <= i <= v.e_in@.len(),
                        incident@ == v.e_in@.subrange(0, i as int),
                    decreases v.e_in@.len() - i,
                {
                    incident.push(v.e_in[i]);
                    i = i + 1;
                    proof {
                        assert(incident@ =~= v.e_in@.subrange(0, i as int));
                    }
                }
                let mut j: usize = 0;
                while j < v.e_out.len()
                    invariant
                        0 <= j <= v.e_out@.len(),
                        i == v.e_in@.len(),
                        incident@ == v.e_in@ + v.e_out@.subrange(0, j as int),
                    decreases v.e_out@.len() - j,
                {
                    incident.push(v.e_out[j]);
                    j = j + 1;
                    proof {
                        assert(incident@ =~= v.e_in@ + v.e_out@.subrange(0, j as int));
                    }
                }
                proof {
                    assert(v.e_in@.subrange(0, v.e_in@.len() as int) =~= v.e_in@);
                    assert(v.e_out@.subrange(0, v.e_out@.len() as int) =~= v.e_out@);
                }
            },
            None => {
                return Err(GraphError::VertexNotFound);
            },
        }
        let ghost g0 = *self;
        proof {
            assert(g0.vertex_ok(id));
            let v = g0.vertices@[id];
            assert forall|e: u64| #[trigger]
                g0.edges@.contains_key(e) && (g0.edges@[e].v_in == id || g0.edges@[e].v_out
                    == id) implies incident@.contains(e) by {
                assert(g0.edge_ok(e));
                if g0.edges@[e].v_in == id {
                    let k = choose|k: int| 0 <= k < v.e_in@.len() && v.e_in@[k] == e;
                    assert(incident@[k] == e);
                } else {
                    let k = choose|k: int| 0 <= k < v.e_out@.len() && v.e_out@[k] == e;
                    assert(incident@[v.e_in@.len() + k] == e);
                }
            }
            assert forall|x: u64| #[trigger] g0.vertices@.contains_key(x) && x != id implies {
                &&& g0.vertices@[x].e_in@ == keep_in(g0.vertices@[x].e_in@, g0.edges@)
                &&& g0.vertices@[x].e_out@ == keep_in(g0.vertices@[x].e_out@, g0.edges@)
            } by {
                assert(g0.vertex_ok(x));
                lemma_keep_all(g0.vertices@[x].e_in@, g0.edges@);
                lemma_keep_all(g0.vertices@[x].e_out@, g0.edges@);
            }
            assert forall|k: int| 0 <= k < incident@.len() implies #[trigger] g0.edges@.contains_key(incident@[k])
                && (g0.edges@[incident@[k]].v_in == id || g0.edges@[incident@[k]].v_out == id) by {
                if k < v.e_in@.len() {
                    assert(incident@[k] == v.e_in@[k]);
                } else {
                    assert(incident@[k] == v.e_out@[k - v.e_in@.len()]);
                }
            }
        }
        let mut k: usize = 0;
        while k < incident.len()
            invariant
                self.wf(),
                g0.wf(),
                0 <= k <= incident@.len(),
                self.vertices@.dom() == g0.vertices@.dom(),
                self.autoid == g0.autoid,
                forall|x: u64| #[trigger]
                    self.vertices@.contains_key(x) ==> self.vertices@[x].id == g0.vertices@[x].id
                        && self.vertices@[x].properties == g0.vertices@[x].properties,
                forall|x: u64| #[trigger]
                    self.vertices@.contains_key(x) && x != id ==> {
                        &&& self.vertices@[x].e_in@ == keep_in(g0.vertices@[x].e_in@, self.edges@)
                        &&& self.vertices@[x].e_out@ == keep_in(g0.vertices@[x].e_out@, self.edges@)
                    },
                forall|e: u64| #[trigger]
                    self.edges@.contains_key(e) ==> g0.edges@.contains_key(e) && self.edges@[e]
                        == g0.edges@[e],
                forall|e: u64| #[trigger]
                    g0.edges@.contains_key(e) && g0.edges@[e].v_in != id && g0.edges@[e].v_out
                        != id ==> self.edges@.contains_key(e),
                forall|e: u64| #[trigger]
                    self.edges@.contains_key(e) && (self.edges@[e].v_in == id
                        || self.edges@[e].v_out == id) ==> exists|q: int|
                        k <= q < incident@.len() && incident@[q] == e,
                forall|q: int|
                    0 <= q < incident@.len() ==> #[trigger] g0.edges@.contains_key(incident@[q]) && (
                    g0.edges@[incident@[q]].v_in == id || g0.edges@[incident@[q]].v_out == id),
            decreases incident@.len() - k,
        {
            let e = incident[k];
            if self.edges.contains_key(&e) {
                let ghost pre = *self;
                let _ = self.remove_edge(e);
                proof {
                    let vi = pre.edges@[e].v_in;
                    let vo = pre.edges@[e].v_out;
                    assert forall|x: u64| #[trigger]
                        self.vertices@.contains_key(x) && x != id implies {
                        &&& self.vertices@[x].e_in@ == keep_in(g0.vertices@[x].e_in@, self.edges@)
                        &&& self.vertices@[x].e_out@ == keep_in(g0.vertices@[x].e_out@, self.edges@)
                    } by {
                        assert(g0.vertex_ok(x));
                        let gi = g0.vertices@[x].e_in@;
                        let go = g0.vertices@[x].e_out@;
                        if x == vi {
                            let s0 = pre.vertices@[x].e_in@;
                            let i = choose|i: int|
                                0 <= i < s0.len() && #[trigger] s0[i] == e && (forall|j: int|
                                    i < j < s0.len() ==> s0[j] != e) && self.vertices@[x].e_in@
                                    == s0.remove(i);
                            lemma_keep_remove(gi, pre.edges@, e, i);
                        } else {
                            assert(!gi.contains(e)) by {
                                if gi.contains(e) {
                                    let j = choose|j: int| 0 <= j < gi.len() && gi[j] == e;
                                    assert(g0.edges@[gi[j]].v_in == x);
                                }
                            }
                            lemma_keep_absent(gi, pre.edges@, e);
                        }
                        if x == vo {
                            let s0 = pre.vertices@[x].e_out@;
                            let i = choose|i: int|
                                0 <= i < s0.len() && #[trigger] s0[i] == e && (forall|j: int|
                                    i < j < s0.len() ==> s0[j] != e) && self.vertices@[x].e_out@
                                    == s0.remove(i);
                            lemma_keep_remove(go, pre.edges@, e, i);
                        } else {
                            assert(!go.contains(e)) by {
                                if go.contains(e) {
                                    let j = choose|j: int| 0 <= j < go.len() && go[j] == e;
                                    assert(g0.edges@[go[j]].v_out == x);
                                }
                            }
                            lemma_keep_absent(go, pre.edges@, e);
                        }
                    }
                }
            }
            k = k + 1;
            proof {
                assert forall|x: u64| #[trigger]
                    self.edges@.contains_key(x) && (self.edges@[x].v_in == id
                        || self.edges@[x].v_out == id) implies exists|q: int|
                        k <= q < incident@.len() && incident@[q] == x by {
                    assert(x != e);
                }
            }
        }
        let ghost g2 = *self;
        self.vertices.remove(&id);
        proof {
            assert forall|vid: u64| #[trigger] self.vertices@.contains_key(vid) implies self.vertex_ok(
                vid,
            ) by {
                assert(g2.vertex_ok(vid));
            }
            assert forall|eid: u64| #[trigger] self.edges@.contains_key(eid) implies self.edge_ok(
                eid,
            ) by {
                assert(g2.edge_ok(eid));
            }
        }
        Ok(())
    }

    /// The vertex with this id, if present.
    pub fn get_vertex(&self, id: &u64) -> (r: Option<&Vertex>)
        ensures
            self.vertices@.contains_key(*id) ==> r == Some(&self.vertices@[*id]),
            !self.vertices@.contains_key(*id) ==> r is None,
    {
        self.vertices.get(id)
    }

    /// The vertices of the listed ids that are present, in list order.
    pub fn get_verticies(&self, ids: &Vec<u64>) -> (r: Vec<&Vertex>)
        ensures
            r@.len() == present_ids(self.vertices@, ids@).len(),
            forall|i: int|
                0 <= i < r@.len() ==> *r@[i] == self.vertices@[#[trigger] present_ids(
                    self.vertices@,
                    ids@,
                )[i]],
    {
        let mut r: Vec<&Vertex> = Vec::new();
        let mut i: usize = 0;
        while i < ids.len()
            invariant
                0 <= i <= ids@.len(),
                r@.len() == present_ids(self.vertices@, ids@.subrange(0, i as int)).len(),
                forall|q: int|
                    0 <= q < r@.len() ==> *r@[q] == self.vertices@[#[trigger] present_ids(
                        self.vertices@,
                        ids@.subrange(0, i as int),
                    )[q]],
            decreases ids@.len() - i,
        {
            proof {
                assert(ids@.subrange(0, i + 1).drop_last() =~= ids@.subrange(0, i as int));
            }
            match self.vertices.get(&ids[i]) {
                Some(v) => {
                    r.push(v);
                },
                None => {},
            }
            i = i + 1;
        }
        proof {
            assert(ids@.subrange(0, i as int) =~= ids@);
        }
        r
    }

    /// Resolves a vertex filter to ids: `Id` and `Ids` as given, with no
    /// check that the vertices exist; the others by a scan of the store.
    pub fn search_verticies(&self, filter: &VertexFilter) -> (r: Vec<u64>)
        requires
            self.wf(),
            filter.callable(),
        ensures
            self.resolves(*filter, r@),
    {
        match filter {
            VertexFilter::Id(x) => {
                let mut r: Vec<u64> = Vec::new();
                r.push(*x);
                proof {
                    assert(r@ =~= seq![*x]);
                }
                return r;
            },
            VertexFilter::Ids(ids) => {
                let mut r: Vec<u64> = Vec::new();
                let mut i: usize = 0;
                while i < ids.len()
                    invariant
                        0 <= i <= ids@.len(),
                        r@ == ids@.subrange(0, i as int),
                    decreases ids@.len() - i,
                {
                    r.push(ids[i]);
                    i = i + 1;
                    proof {
                        assert(r@ =~= ids@.subrange(0, i as int));
                    }
                }
                proof {
                    assert(ids@.subrange(0, i as int) =~= ids@);
                }
                return r;
            },
            _ => {},
        }
        let mut r: Vec<u64> = Vec::new();
        let mut i: u64 = 0;
        while i < self.autoid
            invariant
                i <= self.autoid,
                self.wf(),
                filter.callable(),
                r@.len() <= i,
                !(filter is Id || filter is Ids),
                forall|q: int| 0 <= q < r@.len() ==> 1 <= #[trigger] r@[q] <= i,
                forall|q: int, p: int| 0 <= q < p < r@.len() ==> r@[q] < r@[p],
                forall|q: int| 0 <= q < r@.len() ==> self.vertices@.contains_key(#[trigger] r@[q]),
                filter is All || filter is Props ==> forall|id: u64| #[trigger]
                    r@.contains(id) == (id <= i && self.selects(*filter, id)),
                filter is Fn ==> forall|id: u64|
                    1 <= id <= i && self.vertices@.contains_key(id) ==> vertex_accepts(
                        *filter,
                        self.vertices@[id],
                        #[trigger] r@.contains(id),
                    ),
            decreases self.autoid - i,
        {
            let id = i + 1;
            let ghost r0 = r@;
            match self.vertices.get(&id) {
                Some(v) => {
                    let keep = match filter {
                        VertexFilter::Props(p) => properties_filter(&v.properties, p),
                        VertexFilter::Fn(p) => {
                            proof {
                                assert((filter->Fn_0).accepts(&*v));
                            }
                            p.test(v)
                        },
                        _ => true,
                    };
                    if keep {
                        r.push(id);
                    }
                    proof {
                        if filter is All || filter is Props {
                            assert(keep == self.selects(*filter, id));
                        }
                        assert(vertex_accepts(*filter, self.vertices@[id], keep));
                    }
                },
                None => {},
            }
            i = id;
            proof {
                if filter is Fn {
                    assert forall|x: u64|
                        1 <= x <= i && self.vertices@.contains_key(x) implies vertex_accepts(
                        *filter,
                        self.vertices@[x],
                        #[trigger] r@.contains(x),
                    ) by {
                        if x != id {
                            if r@.contains(x) {
                                let q = choose|q: int| 0 <= q < r@.len() && r@[q] == x;
                                assert(r0[q] == x);
                            }
                            if r0.contains(x) {
                                let q = choose|q: int| 0 <= q < r0.len() && r0[q] == x;
                                assert(r@[q] == x);
                            }
                        } else {
                            assert(!r0.contains(x));
                            if r@.len() > r0.len() {
                                assert(r@[r0.len() as int] == x);
                            }
                        }
                    }
                }
                if filter is All || filter is Props {
                    assert forall|x: u64| #[trigger] r@.contains(x) == (x <= i && self.selects(*filter, x)) by {
                        if x != id {
                            if r@.contains(x) {
                                let q = choose|q: int| 0 <= q < r@.len() && r@[q] == x;
                                assert(r0[q] == x);
                            }
                            if r0.contains(x) {
                                let q = choose|q: int| 0 <= q < r0.len() && r0[q] == x;
                                assert(r@[q] == x);
                            }
                        } else {
                            assert(!r0.contains(x));
                            if r@.len() > r0.len() {
                                assert(r@[r0.len() as int] == x);
                            }
                        }
                    }
                }
            }
        }
        proof {
            assert forall|id: u64| #[trigger] r@.contains(id) implies self.vertices@.contains_key(id) by {
                let q = choose|q: int| 0 <= q < r@.len() && r@[q] == id;
            }
            assert(r@.no_duplicates()) by {
                assert forall|q: int, p: int| 0 <= q < r@.len() && 0 <= p < r@.len() && q != p implies r@[q] != r@[p] by {
                    if q < p {
                        assert(r@[q] < r@[p]);
                    } else {
                        assert(r@[p] < r@[q]);
                    }
                }
            }
            if filter is All || filter is Props {
                assert forall|id: u64| #[trigger] r@.contains(id) == self.selects(*filter, id) by {
                    if self.selects(*filter, id) {
                        assert(self.vertex_ok(id));
                    }
                }
            }
        }
        r
    }

    /// `r` is what a vertex filter resolves to: `Id` and `Ids` as given;
    /// `All` and `Props` every present vertex that passes, once each; a
    /// predicate the present vertices on which it answered `true`, once each.
    pub open spec fn resolves(&self, f: VertexFilter, r: Seq<u64>) -> bool {
        &&& f is Id ==> r == seq![f->Id_0]
        &&& f is Ids ==> r == f->Ids_0@
        &&& !(f is Id || f is Ids) ==> {
            &&& r.no_duplicates()
            &&& r.len() <= self.autoid
            &&& forall|id: u64| #[trigger] r.contains(id) ==> self.vertices@.contains_key(id)
        }
        &&& f is All || f is Props ==> forall|id: u64| #[trigger] r.contains(id) == self.selects(f, id)
        &&& f is Fn ==> forall|id: u64|
            self.vertices@.contains_key(id) ==> vertex_accepts(f, self.vertices@[id], #[trigger] r.contains(id))
    }

    /// A vertex filter selects a present vertex that passes it.
    pub open spec fn selects(&self, f: VertexFilter, id: u64) -> bool {
        self.vertices@.contains_key(id) && vertex_passes(self.vertices@[id], f)
    }

    /// The out-edges of a vertex in list order; none for an absent vertex.
    pub fn get_out_edges(&self, vertex_id: &u64) -> (r: Vec<&Edge>)
        requires
            self.wf(),
        ensures
            !self.vertices@.contains_key(*vertex_id) ==> r@.len() == 0,
            self.vertices@.contains_key(*vertex_id) ==> {
                let l = self.vertices@[*vertex_id].e_out@;
                &&& r@.len() == l.len()
                &&& forall|i: int| 0 <= i < l.len() ==> *r@[i] == self.edges@[#[trigger] l[i]]
            },
    {
        match self.vertices.get(vertex_id) {
            Some(v) => self.edges_of(&v.e_out),
            None => Vec::new(),
        }
    }

    /// The in-edges of a vertex in list order; none for an absent vertex.
    pub fn get_in_edges(&self, vertex_id: &u64) -> (r: Vec<&Edge>)
        requires
            self.wf(),
        ensures
            !self.vertices@.contains_key(*vertex_id) ==> r@.len() == 0,
            self.vertices@.contains_key(*vertex_id) ==> {
                let l = self.vertices@[*vertex_id].e_in@;
                &&& r@.len() == l.len()
                &&& forall|i: int| 0 <= i < l.len() ==> *r@[i] == self.edges@[#[trigger] l[i]]
            },
    {
        match self.vertices.get(vertex_id) {
            Some(v) => {
                proof {
                    assert(self.vertex_ok(*vertex_id));
                }
                self.edges_of(&v.e_in)
            },
            None => Vec::new(),
        }
    }

    fn edges_of(&self, ids: &Vec<u64>) -> (r: Vec<&Edge>)
        requires
            forall|i: int| 0 <= i < ids@.len() ==> self.edges@.contains_key(#[trigger] ids@[i]),
        ensures
            r@.len() == ids@.len(),
            forall|i: int| 0 <= i < ids@.len() ==> *r@[i] == self.edges@[#[trigger] ids@[i]],
    {
        let mut r: Vec<&Edge> = Vec::new();
        let mut i: usize = 0;
        while i < ids.len()
            invariant
                0 <= i <= ids@.len(),
                r@.len() == i,
                forall|i: int| 0 <= i < ids@.len() ==> self.edges@.contains_key(#[trigger] ids@[i]),
                forall|q: int| 0 <= q < i ==> *r@[q] == self.edges@[#[trigger] ids@[q]],
            decreases ids@.len() - i,
        {
            match self.edges.get(&ids[i]) {
                Some(e) => {
                    r.push(e);
                },
                None => {
                    assert(false);
                },
            }
            i = i + 1;
        }
        r
    }

    fn next_id(&mut self) -> (r: u64)
        requires
            old(self).autoid < u64::MAX,
        ensures
            final(self).autoid == old(self).autoid + 1,
            r == final(self).autoid,
            final(self).vertices == old(self).vertices,
            final(self).edges == old(self).edges,
    {
        self.autoid = self.autoid + 1;
        self.autoid
    }
}

} // verus!
